//! The discovery record announced to the hub for a newly created entity:
//! a JSON object naming the entity and its topics, with the optional
//! fields omitted when absent.

use vstd::prelude::*;
use vstd::string::*;

use crate::entity::{EntityModel, HassEntity};
use crate::numtext::digit_char;
use crate::text::{chars_to_string, str_chars};

verus! {

/// The character for a hexadecimal digit value, lower case.
pub open spec fn hex_char(d: int) -> char {
    if d < 10 {
        digit_char(d)
    } else if d == 10 {
        'a'
    } else if d == 11 {
        'b'
    } else if d == 12 {
        'c'
    } else if d == 13 {
        'd'
    } else if d == 14 {
        'e'
    } else {
        'f'
    }
}

/// The JSON escape of one character: quote and backslash get a backslash,
/// a control character becomes a `\u00..` escape, everything else stands
/// for itself.
pub open spec fn escape_char(c: char) -> Seq<char> {
    if c == '"' {
        seq!['\\', '"']
    } else if c == '\\' {
        seq!['\\', '\\']
    } else if (c as u32) < 32 {
        seq!['\\', 'u', '0', '0', hex_char(c as int / 16), hex_char(c as int % 16)]
    } else {
        seq![c]
    }
}

/// The JSON escape of a character sequence.
pub open spec fn json_escape(s: Seq<char>) -> Seq<char>
    decreases s.len(),
{
    if s.len() == 0 {
        Seq::empty()
    } else {
        json_escape(s.drop_last()) + escape_char(s.last())
    }
}

/// A JSON string literal: the escaped characters between double quotes.
pub open spec fn json_string(s: Seq<char>) -> Seq<char> {
    seq!['"'] + json_escape(s) + seq!['"']
}

/// The discovery JSON object for an entity: name, identifier and topics,
/// with the device class and the two templates present exactly when the
/// entity has them.
pub open spec fn discovery_payload_of(m: EntityModel) -> Seq<char> {
    "{\"name\":"@ + json_string(m.name) + ",\"unique_id\":"@ + json_string(m.unique_id) + (match m.device_class {
        Some(dc) => ",\"device_class\":"@ + json_string(dc),
        None => Seq::<char>::empty(),
    }) + ",\"state_topic\":"@ + json_string(m.state_topic) + ",\"command_topic\":"@ + json_string(
        m.command_topic,
    ) + (match m.value_template {
        Some(vt) => ",\"value_template\":"@ + json_string(vt),
        None => Seq::<char>::empty(),
    }) + (match m.command_template {
        Some(ct) => ",\"command_template\":"@ + json_string(ct),
        None => Seq::<char>::empty(),
    }) + "}"@
}

/// The character for a hexadecimal digit value.
fn hex_char_exec(d: u32) -> (c: char)
    requires
        d < 16,
    ensures
        c == hex_char(d as int),
{
    match d {
        0 => '0',
        1 => '1',
        2 => '2',
        3 => '3',
        4 => '4',
        5 => '5',
        6 => '6',
        7 => '7',
        8 => '8',
        9 => '9',
        10 => 'a',
        11 => 'b',
        12 => 'c',
        13 => 'd',
        14 => 'e',
        _ => 'f',
    }
}

/// Appends the JSON escape of one character.
fn push_escaped(out: &mut Vec<char>, c: char)
    ensures
        final(out)@ == old(out)@ + escape_char(c),
{
    if c == '"' {
        out.push('\\');
        out.push('"');
        proof {
            assert(out@ =~= old(out)@ + escape_char(c));
        }
    } else if c == '\\' {
        out.push('\\');
        out.push('\\');
        proof {
            assert(out@ =~= old(out)@ + escape_char(c));
        }
    } else if (c as u32) < 32 {
        let v = c as u32;
        out.push('\\');
        out.push('u');
        out.push('0');
        out.push('0');
        out.push(hex_char_exec(v / 16));
        out.push(hex_char_exec(v % 16));
        proof {
            assert(out@ =~= old(out)@ + escape_char(c));
        }
    } else {
        out.push(c);
        proof {
            assert(out@ =~= old(out)@ + escape_char(c));
        }
    }
}

/// A JSON string literal holding the escaped text.
fn json_quote(s: &String) -> (r: String)
    ensures
        r@ == json_string(s@),
{
    let cs = str_chars(s.as_str());
    let n = cs.len();
    let mut out: Vec<char> = Vec::new();
    out.push('"');
    proof {
        assert(out@ =~= seq!['"'] + json_escape(s@.take(0)));
    }
    let mut i: usize = 0;
    while i < n
        invariant
            i <= n,
            n == cs@.len(),
            cs@ == s@,
            out@ == seq!['"'] + json_escape(s@.take(i as int)),
        decreases n - i,
    {
        push_escaped(&mut out, cs[i]);
        i = i + 1;
        proof {
            assert(s@.take(i as int).drop_last() =~= s@.take(i as int - 1));
            assert(s@.take(i as int).last() == s@[i - 1]);
            assert(json_escape(s@.take(i as int)) == json_escape(s@.take(i as int - 1))
                + escape_char(s@[i - 1]));
            assert(out@ =~= seq!['"'] + json_escape(s@.take(i as int)));
        }
    }
    out.push('"');
    proof {
        assert(s@.take(n as int) =~= s@);
        assert(out@ =~= json_string(s@));
    }
    chars_to_string(&out)
}

/// Builds the discovery JSON record for an entity.
pub fn discovery_payload(e: &HassEntity) -> (p: String)
    ensures
        p@ == discovery_payload_of(e@),
{
    let mut p = String::from_str("{\"name\":");
    p.append(json_quote(&e.hass_name).as_str());
    p.append(",\"unique_id\":");
    p.append(json_quote(&e.unique_id).as_str());
    match &e.hass_device_class {
        Some(dc) => {
            p.append(",\"device_class\":");
            p.append(json_quote(dc).as_str());
        },
        None => {},
    }
    p.append(",\"state_topic\":");
    p.append(json_quote(&e.state_topic).as_str());
    p.append(",\"command_topic\":");
    p.append(json_quote(&e.command_topic).as_str());
    match &e.hass_value_template {
        Some(vt) => {
            p.append(",\"value_template\":");
            p.append(json_quote(vt).as_str());
        },
        None => {},
    }
    match &e.hass_command_template {
        Some(ct) => {
            p.append(",\"command_template\":");
            p.append(json_quote(ct).as_str());
        },
        None => {},
    }
    p.append("}");
    proof {
        assert(p@ =~= discovery_payload_of(e@));
    }
    p
}

} // verus!
