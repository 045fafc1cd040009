//! Derivation of a hub entity from a control-protocol address and the kind
//! of the first value observed on it.
//!
//! Every derived field is a pure function of the address and the kind, so a
//! second derivation for the same inputs yields the same entity.

use vstd::prelude::*;
use vstd::string::*;

use crate::text::chars_to_string;
use crate::text::str_chars;
use crate::value::ValueKind;

verus! {

/// The address with its trailing separator characters removed.
pub open spec fn strip_trailing_slashes(s: Seq<char>) -> Seq<char>
    decreases s.len(),
{
    if s.len() > 0 && s.last() == '/' {
        strip_trailing_slashes(s.drop_last())
    } else {
        s
    }
}

/// The suffix of `s` after its last separator (all of `s` when it holds
/// no separator).
pub open spec fn after_last_slash(s: Seq<char>) -> Seq<char>
    decreases s.len(),
{
    if s.len() == 0 {
        Seq::empty()
    } else if s.last() == '/' {
        Seq::empty()
    } else {
        after_last_slash(s.drop_last()).push(s.last())
    }
}

/// The last non-empty `/`-separated segment of an address.
pub open spec fn last_nonempty_segment(s: Seq<char>) -> Seq<char> {
    after_last_slash(strip_trailing_slashes(s))
}

/// An address yields a display name exactly when it holds a character that
/// is not the separator.
pub open spec fn has_segment_char(s: Seq<char>) -> bool {
    exists|i: int| 0 <= i < s.len() && s[i] != '/'
}

/// The address with every separator replaced by `_`; joining all
/// `/`-separated segments with `_` yields exactly this sequence.
pub open spec fn underscored(s: Seq<char>) -> Seq<char> {
    Seq::new(s.len(), |i: int| if s[i] == '/' {
        '_'
    } else {
        s[i]
    })
}

/// Display name of the entity for an address: a fixed tag in front of the
/// last non-empty address segment.
pub open spec fn name_of(addr: Seq<char>) -> Seq<char> {
    "Osc"@ + last_nonempty_segment(addr)
}

/// Stable identifier of the entity: a fixed namespace in front of all
/// address segments joined by `_`, so addresses with an equal trailing
/// segment do not collide.
pub open spec fn unique_id_of(addr: Seq<char>) -> Seq<char> {
    "osc."@ + underscored(addr)
}

/// The hub-side component class for a value kind.
pub open spec fn sensor_type_of(kind: ValueKind) -> Seq<char> {
    match kind {
        ValueKind::Bool => "switch"@,
        ValueKind::Int => "number"@,
        ValueKind::Float => "number"@,
    }
}

/// The semantic hint sent with the entity: present for boolean entities only.
pub open spec fn device_class_of(kind: ValueKind) -> Option<Seq<char>> {
    match kind {
        ValueKind::Bool => Some("switch"@),
        ValueKind::Int => None,
        ValueKind::Float => None,
    }
}

/// The hub-side display transform for a value kind: floats in `[-1, 1]` are
/// shown on `[0, 100]`, integers in `[0, 255]` likewise; booleans have none.
pub open spec fn value_template_of(kind: ValueKind) -> Option<Seq<char>> {
    match kind {
        ValueKind::Bool => None,
        ValueKind::Int => Some("{{ value_json | float / 2.55 }}"@),
        ValueKind::Float => Some("{{ (value_json | float + 1) * 50 }}"@),
    }
}

/// The inverse transform applied by the hub to a commanded value.
pub open spec fn command_template_of(kind: ValueKind) -> Option<Seq<char>> {
    match kind {
        ValueKind::Bool => None,
        ValueKind::Int => Some("{{ value | float * 2.55 }}"@),
        ValueKind::Float => Some("{{ (value | float / 50) - 1 }}"@),
    }
}

/// Topic on which the entity's current value is reported.
pub open spec fn state_topic_of(addr: Seq<char>, kind: ValueKind) -> Seq<char> {
    "homeassistant/"@ + sensor_type_of(kind) + "/"@ + name_of(addr) + "/state"@
}

/// Topic on which the hub commands a new value for the entity.
pub open spec fn command_topic_of(addr: Seq<char>, kind: ValueKind) -> Seq<char> {
    "homeassistant/"@ + sensor_type_of(kind) + "/"@ + name_of(addr) + "/set"@
}

/// Topic on which the entity's discovery record is announced.
pub open spec fn config_topic_of(addr: Seq<char>, kind: ValueKind) -> Seq<char> {
    "homeassistant/"@ + sensor_type_of(kind) + "/"@ + name_of(addr) + "/config"@
}

/// Mathematical model of a hub entity.
pub struct EntityModel {
    pub name: Seq<char>,
    pub sensor_type: Seq<char>,
    pub unique_id: Seq<char>,
    pub device_class: Option<Seq<char>>,
    pub state_topic: Seq<char>,
    pub command_topic: Seq<char>,
    pub value_template: Option<Seq<char>>,
    pub command_template: Option<Seq<char>>,
}

/// The entity derived from an address and the kind of its first value.
pub open spec fn entity_model_of(addr: Seq<char>, kind: ValueKind) -> EntityModel {
    EntityModel {
        name: name_of(addr),
        sensor_type: sensor_type_of(kind),
        unique_id: unique_id_of(addr),
        device_class: device_class_of(kind),
        state_topic: state_topic_of(addr, kind),
        command_topic: command_topic_of(addr, kind),
        value_template: value_template_of(kind),
        command_template: command_template_of(kind),
    }
}

/// The hub-side definition of one control-protocol parameter. Two entities
/// stand for the same hub object exactly when their names are equal.
pub struct HassEntity {
    pub hass_name: String,
    pub sensor_type: String,
    pub unique_id: String,
    pub hass_device_class: Option<String>,
    pub state_topic: String,
    pub command_topic: String,
    pub hass_value_template: Option<String>,
    pub hass_command_template: Option<String>,
}

impl View for HassEntity {
    type V = EntityModel;

    open spec fn view(&self) -> EntityModel {
        EntityModel {
            name: self.hass_name@,
            sensor_type: self.sensor_type@,
            unique_id: self.unique_id@,
            device_class: match self.hass_device_class {
                Some(s) => Some(s@),
                None => None,
            },
            state_topic: self.state_topic@,
            command_topic: self.command_topic@,
            value_template: match self.hass_value_template {
                Some(s) => Some(s@),
                None => None,
            },
            command_template: match self.hass_command_template {
                Some(s) => Some(s@),
                None => None,
            },
        }
    }
}

impl PartialEq for HassEntity {
    fn eq(&self, other: &Self) -> (r: bool) {
        self.hass_name.eq(&other.hass_name)
    }
}

impl vstd::std_specs::cmp::PartialEqSpecImpl for HassEntity {
    open spec fn obeys_eq_spec() -> bool {
        true
    }

    open spec fn eq_spec(&self, other: &Self) -> bool {
        self.hass_name@ == other.hass_name@
    }
}

impl Eq for HassEntity {}

/// Decides whether an address holds a character besides the separator, so
/// that a display name can be derived from it.
pub fn address_has_segment(address: &str) -> (b: bool)
    ensures
        b == has_segment_char(address@),
{
    let chars = str_chars(address);
    let n = chars.len();
    let mut i: usize = 0;
    while i < n
        invariant
            n == chars@.len(),
            chars@ == address@,
            i <= n,
            forall|j: int| 0 <= j < i ==> address@[j] == '/',
        decreases n - i,
    {
        if chars[i] != '/' {
            return true;
        }
        i = i + 1;
    }
    false
}

/// The last non-empty segment of an address, as characters.
fn last_segment_chars(chars: &Vec<char>) -> (seg: Vec<char>)
    requires
        has_segment_char(chars@),
    ensures
        seg@ == last_nonempty_segment(chars@),
{
    let n = chars.len();
    let mut j: usize = n;
    proof {
        assert(chars@.take(n as int) =~= chars@);
    }
    while j > 0 && chars[j - 1] == '/'
        invariant
            j <= n,
            n == chars@.len(),
            strip_trailing_slashes(chars@) == strip_trailing_slashes(chars@.take(j as int)),
            has_segment_char(chars@.take(j as int)),
        decreases j,
    {
        proof {
            let t = chars@.take(j as int);
            assert(t.last() == chars@[j - 1]);
            assert(t.drop_last() =~= chars@.take(j as int - 1));
            let i = choose|i: int| 0 <= i < t.len() && t[i] != '/';
            assert(chars@.take(j as int - 1)[i] != '/');
        }
        j = j - 1;
    }
    proof {
        if j == 0 {
            assert(chars@.take(0).len() == 0);
            assert(false);
        }
        assert(chars@.take(j as int).last() != '/');
        assert(strip_trailing_slashes(chars@) == chars@.take(j as int));
    }
    let ghost t = chars@.take(j as int);
    let mut k: usize = j;
    proof {
        assert(after_last_slash(t) + chars@.subrange(j as int, j as int) =~= after_last_slash(t));
    }
    while k > 0 && chars[k - 1] != '/'
        invariant
            k <= j <= n,
            n == chars@.len(),
            t == chars@.take(j as int),
            after_last_slash(t) == after_last_slash(chars@.take(k as int)) + chars@.subrange(
                k as int,
                j as int,
            ),
        decreases k,
    {
        proof {
            let u = chars@.take(k as int);
            assert(u.last() == chars@[k - 1]);
            assert(u.drop_last() =~= chars@.take(k as int - 1));
            assert(after_last_slash(u) == after_last_slash(chars@.take(k as int - 1)).push(
                chars@[k - 1],
            ));
            assert(after_last_slash(chars@.take(k as int - 1)) + chars@.subrange(
                k as int - 1,
                j as int,
            ) =~= after_last_slash(u) + chars@.subrange(k as int, j as int));
        }
        k = k - 1;
    }
    proof {
        if k == 0 {
            assert(after_last_slash(chars@.take(0)) + chars@.subrange(0, j as int) =~= chars@.subrange(
                0,
                j as int,
            ));
        } else {
            let u = chars@.take(k as int);
            assert(u.last() == chars@[k - 1]);
            assert(after_last_slash(u) =~= Seq::<char>::empty());
            assert(Seq::<char>::empty() + chars@.subrange(k as int, j as int) =~= chars@.subrange(
                k as int,
                j as int,
            ));
        }
        assert(after_last_slash(t) == chars@.subrange(k as int, j as int));
    }
    let mut seg: Vec<char> = Vec::new();
    let mut i: usize = k;
    while i < j
        invariant
            k <= i <= j <= n,
            n == chars@.len(),
            seg@ == chars@.subrange(k as int, i as int),
        decreases j - i,
    {
        seg.push(chars[i]);
        i = i + 1;
        proof {
            assert(chars@.subrange(k as int, i as int) =~= chars@.subrange(
                k as int,
                i as int - 1,
            ).push(chars@[i - 1]));
        }
    }
    seg
}

/// The address characters with every separator replaced by `_`.
fn underscored_chars(chars: &Vec<char>) -> (out: Vec<char>)
    ensures
        out@ == underscored(chars@),
{
    let n = chars.len();
    let mut out: Vec<char> = Vec::new();
    let mut i: usize = 0;
    while i < n
        invariant
            i <= n,
            n == chars@.len(),
            out@ == underscored(chars@).take(i as int),
        decreases n - i,
    {
        let c = chars[i];
        if c == '/' {
            out.push('_');
        } else {
            out.push(c);
        }
        i = i + 1;
        proof {
            assert(underscored(chars@).take(i as int) =~= underscored(chars@).take(
                i as int - 1,
            ).push(underscored(chars@)[i - 1]));
        }
    }
    proof {
        assert(underscored(chars@).take(n as int) =~= underscored(chars@));
    }
    out
}

impl HassEntity {
    /// Derives the hub entity for an address from the kind of the first
    /// value observed on it. Deterministic: every field is a function of
    /// the two arguments.
    pub fn new(address: &str, kind: ValueKind) -> (e: HassEntity)
        requires
            has_segment_char(address@),
        ensures
            e@ == entity_model_of(address@, kind),
    {
        let chars = str_chars(address);
        let seg = last_segment_chars(&chars);
        let mut hass_name = String::from_str("Osc");
        hass_name.append(chars_to_string(&seg).as_str());

        let under = underscored_chars(&chars);
        let mut unique_id = String::from_str("osc.");
        unique_id.append(chars_to_string(&under).as_str());

        let sensor_type = match kind {
            ValueKind::Bool => String::from_str("switch"),
            ValueKind::Int => String::from_str("number"),
            ValueKind::Float => String::from_str("number"),
        };
        let hass_device_class = match kind {
            ValueKind::Bool => Some(String::from_str("switch")),
            ValueKind::Int => None,
            ValueKind::Float => None,
        };
        let hass_value_template = match kind {
            ValueKind::Bool => None,
            ValueKind::Int => Some(String::from_str("{{ value_json | float / 2.55 }}")),
            ValueKind::Float => Some(String::from_str("{{ (value_json | float + 1) * 50 }}")),
        };
        let hass_command_template = match kind {
            ValueKind::Bool => None,
            ValueKind::Int => Some(String::from_str("{{ value | float * 2.55 }}")),
            ValueKind::Float => Some(String::from_str("{{ (value | float / 50) - 1 }}")),
        };

        let mut state_topic = String::from_str("homeassistant/");
        state_topic.append(sensor_type.as_str());
        state_topic.append("/");
        state_topic.append(hass_name.as_str());
        state_topic.append("/state");

        let mut command_topic = String::from_str("homeassistant/");
        command_topic.append(sensor_type.as_str());
        command_topic.append("/");
        command_topic.append(hass_name.as_str());
        command_topic.append("/set");

        HassEntity {
            hass_name,
            sensor_type,
            unique_id,
            hass_device_class,
            state_topic,
            command_topic,
            hass_value_template,
            hass_command_template,
        }
    }

    /// The topic on which this entity's discovery record is announced.
    pub fn config_topic(&self) -> (t: String)
        ensures
            t@ == "homeassistant/"@ + self@.sensor_type + "/"@ + self@.name + "/config"@,
    {
        let mut t = String::from_str("homeassistant/");
        t.append(self.sensor_type.as_str());
        t.append("/");
        t.append(self.hass_name.as_str());
        t.append("/config");
        t
    }

    /// A field-by-field copy of this entity.
    pub fn duplicate(&self) -> (e: HassEntity)
        ensures
            e@ == self@,
    {
        HassEntity {
            hass_name: self.hass_name.clone(),
            sensor_type: self.sensor_type.clone(),
            unique_id: self.unique_id.clone(),
            hass_device_class: match &self.hass_device_class {
                Some(s) => Some(s.clone()),
                None => None,
            },
            state_topic: self.state_topic.clone(),
            command_topic: self.command_topic.clone(),
            hass_value_template: match &self.hass_value_template {
                Some(s) => Some(s.clone()),
                None => None,
            },
            hass_command_template: match &self.hass_command_template {
                Some(s) => Some(s.clone()),
                None => None,
            },
        }
    }
}

/// Deriving an entity is deterministic: two entities derived from the same
/// address and value kind agree on the name, the identifier, both topics
/// and both templates.
pub proof fn lemma_derive_entity_deterministic(
    e1: HassEntity,
    e2: HassEntity,
    addr: Seq<char>,
    kind: ValueKind,
)
    requires
        e1@ == entity_model_of(addr, kind),
        e2@ == entity_model_of(addr, kind),
    ensures
        e1@.name == e2@.name,
        e1@.unique_id == e2@.unique_id,
        e1@.state_topic == e2@.state_topic,
        e1@.command_topic == e2@.command_topic,
        e1@.value_template == e2@.value_template,
        e1@.command_template == e2@.command_template,
{
}

} // verus!
