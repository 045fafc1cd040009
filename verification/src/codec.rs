//! The value codec: typed protocol values to and from the hub's string
//! wire form.
//!
//! Encoding sends `true`/`false` to `ON`/`OFF` and an integer to its
//! canonical decimal text; a floating-point value travels as the decimal
//! text its owner rendered, and is passed through unchanged. Decoding sends
//! `ON`/`OFF` back to the booleans, an optionally signed digit string in
//! `i32` range to that integer, and any other text of numeric shape to a
//! floating-point value; everything else is a parse error.

use vstd::prelude::*;
use vstd::string::*;

use crate::numtext::{
    all_digits, dec_digits, dec_val, digit_val, fits_i32, int_text_of, int_text_val, is_digit,
    is_int_text, pow10, dec_digits_exec, lemma_dec_digits_shape, lemma_dec_val_drop_zeros,
    lemma_dec_val_lower, lemma_dec_val_of_digits, lemma_dec_val_upper, lemma_pow10_mono,
    lemma_pow10_vals,
};
use crate::text::{chars_to_string, str_chars};
use crate::value::{BridgeError, OscValue, ValueModel};

verus! {

/// First position at or after `i` that does not hold a digit.
pub open spec fn digits_end(s: Seq<char>, i: int) -> int
    decreases s.len() - i,
{
    if 0 <= i < s.len() && is_digit(s[i]) {
        digits_end(s, i + 1)
    } else {
        i
    }
}

/// From position `p` the text is either finished or a well-formed decimal
/// exponent part that finishes it.
pub open spec fn exp_ok(s: Seq<char>, p: int) -> bool {
    if p == s.len() {
        true
    } else if 0 <= p < s.len() && (s[p] == 'e' || s[p] == 'E') {
        let q = if p + 1 < s.len() && (s[p + 1] == '+' || s[p + 1] == '-') {
            p + 2
        } else {
            p + 1
        };
        digits_end(s, q) > q && digits_end(s, q) == s.len()
    } else {
        false
    }
}

/// From position `i0` the text is a decimal significand (digits with an
/// optional point, or a point followed by digits) with an optional
/// exponent part.
pub open spec fn sig_exp_ok(s: Seq<char>, i0: int) -> bool {
    let d1 = digits_end(s, i0);
    if d1 > i0 {
        let p = if d1 < s.len() && s[d1] == '.' {
            digits_end(s, d1 + 1)
        } else {
            d1
        };
        exp_ok(s, p)
    } else if 0 <= i0 < s.len() && s[i0] == '.' {
        let d2 = digits_end(s, i0 + 1);
        d2 > i0 + 1 && exp_ok(s, d2)
    } else {
        false
    }
}

/// Case-insensitive `inf` from position `i0` to the end.
pub open spec fn is_inf_text(s: Seq<char>, i0: int) -> bool {
    &&& s.len() - i0 == 3
    &&& (s[i0] == 'i' || s[i0] == 'I')
    &&& (s[i0 + 1] == 'n' || s[i0 + 1] == 'N')
    &&& (s[i0 + 2] == 'f' || s[i0 + 2] == 'F')
}

/// Case-insensitive `infinity` from position `i0` to the end.
pub open spec fn is_infinity_text(s: Seq<char>, i0: int) -> bool {
    &&& s.len() - i0 == 8
    &&& (s[i0] == 'i' || s[i0] == 'I')
    &&& (s[i0 + 1] == 'n' || s[i0 + 1] == 'N')
    &&& (s[i0 + 2] == 'f' || s[i0 + 2] == 'F')
    &&& (s[i0 + 3] == 'i' || s[i0 + 3] == 'I')
    &&& (s[i0 + 4] == 'n' || s[i0 + 4] == 'N')
    &&& (s[i0 + 5] == 'i' || s[i0 + 5] == 'I')
    &&& (s[i0 + 6] == 't' || s[i0 + 6] == 'T')
    &&& (s[i0 + 7] == 'y' || s[i0 + 7] == 'Y')
}

/// Case-insensitive `nan` from position `i0` to the end.
pub open spec fn is_nan_text(s: Seq<char>, i0: int) -> bool {
    &&& s.len() - i0 == 3
    &&& (s[i0] == 'n' || s[i0] == 'N')
    &&& (s[i0 + 1] == 'a' || s[i0 + 1] == 'A')
    &&& (s[i0 + 2] == 'n' || s[i0 + 2] == 'N')
}

/// `s` is a valid floating-point literal: an optional sign, then a decimal
/// significand with an optional exponent, or one of the keywords `inf`,
/// `infinity`, `nan` in any letter case.
pub open spec fn is_float_text(s: Seq<char>) -> bool {
    let i0: int = if s.len() > 0 && (s[0] == '+' || s[0] == '-') {
        1
    } else {
        0
    };
    ||| is_inf_text(s, i0)
    ||| is_infinity_text(s, i0)
    ||| is_nan_text(s, i0)
    ||| sig_exp_ok(s, i0)
}

/// The hub wire form of a value.
pub open spec fn encode_spec(v: ValueModel) -> Seq<char> {
    match v {
        ValueModel::Bool(b) => if b {
            "ON"@
        } else {
            "OFF"@
        },
        ValueModel::Int(i) => int_text_of(i),
        ValueModel::Float(t) => t,
    }
}

/// The value a hub wire string denotes, when it denotes one: `ON`/`OFF`
/// are the booleans, a signed digit string in `i32` range is that integer,
/// and any other valid floating-point literal is a floating-point value
/// carried as that text.
pub open spec fn spec_decode(s: Seq<char>) -> Option<ValueModel> {
    if s == "ON"@ {
        Some(ValueModel::Bool(true))
    } else if s == "OFF"@ {
        Some(ValueModel::Bool(false))
    } else if is_int_text(s) && fits_i32(int_text_val(s)) {
        Some(ValueModel::Int(int_text_val(s)))
    } else if is_float_text(s) {
        Some(ValueModel::Float(s))
    } else {
        None
    }
}

/// First position at or after `from` that does not hold a digit.
fn digits_end_exec(chars: &Vec<char>, from: usize) -> (e: usize)
    requires
        from <= chars@.len(),
    ensures
        e as int == digits_end(chars@, from as int),
        from <= e <= chars@.len(),
{
    let n = chars.len();
    let mut k = from;
    while k < n && chars[k] >= '0' && chars[k] <= '9'
        invariant
            from <= k <= n,
            n == chars@.len(),
            digits_end(chars@, from as int) == digits_end(chars@, k as int),
        decreases n - k,
    {
        proof {
            assert(digits_end(chars@, k as int) == digits_end(chars@, k as int + 1));
        }
        k = k + 1;
    }
    proof {
        assert(digits_end(chars@, k as int) == k as int);
    }
    k
}

/// Whether the exponent part starting at `p` is valid and final.
fn exp_ok_exec(chars: &Vec<char>, p: usize) -> (b: bool)
    requires
        p <= chars@.len(),
    ensures
        b == exp_ok(chars@, p as int),
{
    let n = chars.len();
    if p == n {
        true
    } else if chars[p] == 'e' || chars[p] == 'E' {
        let q = if p + 1 < n && (chars[p + 1] == '+' || chars[p + 1] == '-') {
            p + 2
        } else {
            p + 1
        };
        let d = digits_end_exec(chars, q);
        d > q && d == n
    } else {
        false
    }
}

/// Whether the characters form a valid floating-point literal.
fn is_float_chars(chars: &Vec<char>) -> (b: bool)
    ensures
        b == is_float_text(chars@),
{
    let n = chars.len();
    let i0: usize = if n > 0 && (chars[0] == '+' || chars[0] == '-') {
        1
    } else {
        0
    };
    if n - i0 == 3 {
        let c0 = chars[i0];
        let c1 = chars[i0 + 1];
        let c2 = chars[i0 + 2];
        if (c0 == 'i' || c0 == 'I') && (c1 == 'n' || c1 == 'N') && (c2 == 'f' || c2 == 'F') {
            return true;
        }
        if (c0 == 'n' || c0 == 'N') && (c1 == 'a' || c1 == 'A') && (c2 == 'n' || c2 == 'N') {
            return true;
        }
    }
    if n - i0 == 8 {
        let c0 = chars[i0];
        let c1 = chars[i0 + 1];
        let c2 = chars[i0 + 2];
        let c3 = chars[i0 + 3];
        let c4 = chars[i0 + 4];
        let c5 = chars[i0 + 5];
        let c6 = chars[i0 + 6];
        let c7 = chars[i0 + 7];
        if (c0 == 'i' || c0 == 'I') && (c1 == 'n' || c1 == 'N') && (c2 == 'f' || c2 == 'F') && (c3
            == 'i' || c3 == 'I') && (c4 == 'n' || c4 == 'N') && (c5 == 'i' || c5 == 'I') && (c6
            == 't' || c6 == 'T') && (c7 == 'y' || c7 == 'Y') {
            return true;
        }
    }
    let d1 = digits_end_exec(chars, i0);
    if d1 > i0 {
        let p = if d1 < n && chars[d1] == '.' {
            digits_end_exec(chars, d1 + 1)
        } else {
            d1
        };
        exp_ok_exec(chars, p)
    } else if i0 < n && chars[i0] == '.' {
        let d2 = digits_end_exec(chars, i0 + 1);
        if d2 > i0 + 1 {
            exp_ok_exec(chars, d2)
        } else {
            false
        }
    } else {
        false
    }
}

/// Reads an optionally signed digit string as an `i32`, when it is one and
/// its value fits.
fn int_scan(chars: &Vec<char>) -> (r: Option<i32>)
    ensures
        match r {
            Some(i) => is_int_text(chars@) && fits_i32(int_text_val(chars@)) && i as int
                == int_text_val(chars@),
            None => !(is_int_text(chars@) && fits_i32(int_text_val(chars@))),
        },
{
    let n = chars.len();
    if n == 0 {
        return None;
    }
    let neg = chars[0] == '-';
    let signed = neg || chars[0] == '+';
    let start: usize = if signed {
        1
    } else {
        0
    };
    if start == n {
        return None;
    }
    let ghost d: Seq<char> = chars@.skip(start as int);
    proof {
        if !signed {
            assert(d =~= chars@);
        }
    }
    let mut i = start;
    while i < n
        invariant
            start <= i <= n,
            n == chars@.len(),
            start == 1 <==> (chars@[0] == '-' || chars@[0] == '+'),
            signed == (start == 1),
            neg == (chars@[0] == '-'),
            start < n,
            d == chars@.skip(start as int),
            forall|j: int| start <= j < i ==> is_digit(#[trigger] chars@[j]),
        decreases n - i,
    {
        let c = chars[i];
        if !(c >= '0' && c <= '9') {
            proof {
                assert(d[i - start] == chars@[i as int]);
                assert(!all_digits(d));
                if !signed {
                    assert(!is_int_text(chars@));
                }
            }
            return None;
        }
        i = i + 1;
    }
    proof {
        assert(all_digits(d)) by {
            assert(forall|j: int| 0 <= j < d.len() ==> d[j] == chars@[j + start]);
        }
        assert(is_int_text(chars@));
        assert(d.len() >= 1);
    }
    let mut z = start;
    while z < n - 1 && chars[z] == '0'
        invariant
            start <= z <= n - 1,
            n == chars@.len(),
            forall|j: int| start <= j < z ==> chars@[j] == '0',
        decreases n - z,
    {
        z = z + 1;
    }
    let ghost e = chars@.skip(z as int);
    proof {
        lemma_dec_val_drop_zeros(d, z - start);
        assert(d.skip(z - start) =~= e);
        assert(dec_val(d) == dec_val(e));
        assert(all_digits(e)) by {
            assert(forall|j: int| 0 <= j < e.len() ==> e[j] == chars@[j + z]);
        }
    }
    let len_digits = n - z;
    if len_digits > 10 {
        proof {
            assert(z < n - 1);
            assert(chars@[z as int] != '0');
            assert(e[0] != '0');
            lemma_dec_val_lower(e);
            lemma_pow10_vals();
            lemma_pow10_mono(10, (e.len() - 1) as nat);
            assert(dec_val(e) >= 10_000_000_000);
            assert(!fits_i32(int_text_val(chars@)));
        }
        return None;
    }
    let mut acc: u64 = 0;
    let mut k = z;
    proof {
        assert(chars@.subrange(z as int, z as int).len() == 0);
    }
    while k < n
        invariant
            z <= k <= n,
            n == chars@.len(),
            n - z <= 10,
            forall|j: int| z <= j < n ==> is_digit(#[trigger] chars@[j]),
            acc as int == dec_val(chars@.subrange(z as int, k as int)),
            acc < pow10((k - z) as nat),
        decreases n - k,
    {
        let c = chars[k];
        proof {
            lemma_pow10_vals();
            lemma_pow10_mono((k - z + 1) as nat, 10);
            assert(is_digit(chars@[k as int]));
            assert(48 <= c as u32 <= 57);
        }
        let dg: u64 = (c as u32 - 48) as u64;
        proof {
            let sub1 = chars@.subrange(z as int, k as int + 1);
            assert(sub1.drop_last() =~= chars@.subrange(z as int, k as int));
            assert(sub1.last() == chars@[k as int]);
            assert(dec_val(sub1) == dec_val(sub1.drop_last()) * 10 + digit_val(sub1.last()));
            assert(dg as int == digit_val(chars@[k as int]));
        }
        acc = acc * 10 + dg;
        k = k + 1;
        proof {
            assert(all_digits(chars@.subrange(z as int, k as int))) by {
                assert(forall|j: int|
                    0 <= j < chars@.subrange(z as int, k as int).len() ==> chars@.subrange(
                        z as int,
                        k as int,
                    )[j] == chars@[j + z]);
            }
            lemma_dec_val_upper(chars@.subrange(z as int, k as int));
        }
    }
    proof {
        assert(chars@.subrange(z as int, n as int) =~= e);
        assert(acc as int == dec_val(e));
        assert(dec_val(d) == dec_val(e));
        if neg {
            assert(int_text_val(chars@) == -dec_val(d));
        } else if signed {
            assert(int_text_val(chars@) == dec_val(d));
        } else {
            assert(int_text_val(chars@) == dec_val(chars@));
        }
    }
    if neg {
        if acc > 2_147_483_648 {
            return None;
        }
        if acc == 2_147_483_648 {
            return Some(i32::MIN);
        }
        Some(-(acc as i32))
    } else {
        if acc > 2_147_483_647 {
            return None;
        }
        Some(acc as i32)
    }
}

/// The canonical decimal string of an integer.
pub fn int_to_dec_string(i: i32) -> (r: String)
    ensures
        r@ == int_text_of(i as int),
{
    if i >= 0 {
        let v = dec_digits_exec(i as u64);
        chars_to_string(&v)
    } else {
        let m: u64 = (-(i as i64)) as u64;
        proof {
            assert(m as int == -(i as int));
        }
        let v = dec_digits_exec(m);
        let mut r = String::from_str("-");
        r.append(chars_to_string(&v).as_str());
        r
    }
}

/// Encodes a protocol value into the hub's string wire form.
pub fn osc_arg_to_hass(osc_arg: &OscValue) -> (r: String)
    ensures
        r@ == encode_spec(osc_arg@),
{
    match osc_arg {
        OscValue::Bool(b) => if *b {
            String::from_str("ON")
        } else {
            String::from_str("OFF")
        },
        OscValue::Int(i) => int_to_dec_string(*i),
        OscValue::Float(s) => s.clone(),
    }
}

/// Decodes a hub command payload into a protocol value, rejecting text
/// that is neither `ON`/`OFF` nor a valid number.
pub fn hass_arg_to_osc(arg: String) -> (r: Result<OscValue, BridgeError>)
    ensures
        match r {
            Ok(v) => spec_decode(arg@) == Some(v@),
            Err(e) => spec_decode(arg@) == None::<ValueModel> && e == BridgeError::ParseError,
        },
{
    if arg.eq(&String::from_str("ON")) {
        return Ok(OscValue::Bool(true));
    }
    if arg.eq(&String::from_str("OFF")) {
        return Ok(OscValue::Bool(false));
    }
    let chars = str_chars(arg.as_str());
    match int_scan(&chars) {
        Some(i) => Ok(OscValue::Int(i)),
        None => {
            if is_float_chars(&chars) {
                Ok(OscValue::Float(arg))
            } else {
                Err(BridgeError::ParseError)
            }
        },
    }
}

/// Decoding inverts encoding on the booleans.
pub proof fn lemma_round_trip_bool(b: bool)
    ensures
        spec_decode(encode_spec(ValueModel::Bool(b))) == Some(ValueModel::Bool(b)),
{
    reveal_strlit("ON");
    reveal_strlit("OFF");
    assert("ON"@.len() == 2);
    assert("OFF"@.len() == 3);
    assert("OFF"@ != "ON"@);
}

/// Decoding inverts encoding on every integer in `i32` range.
pub proof fn lemma_round_trip_int(i: int)
    requires
        fits_i32(i),
    ensures
        spec_decode(encode_spec(ValueModel::Int(i))) == Some(ValueModel::Int(i)),
{
    reveal_strlit("ON");
    reveal_strlit("OFF");
    reveal_strlit("-");
    let s = int_text_of(i);
    if i >= 0 {
        lemma_dec_digits_shape(i as nat);
        lemma_dec_val_of_digits(i as nat);
        assert(is_digit(s[0]));
        assert(s != "ON"@ && s != "OFF"@) by {
            assert(!is_digit('O'));
        }
        assert(is_int_text(s));
        assert(int_text_val(s) == i);
    } else {
        lemma_dec_digits_shape((-i) as nat);
        lemma_dec_val_of_digits((-i) as nat);
        assert(s[0] == '-');
        assert(s.skip(1) =~= dec_digits((-i) as nat));
        assert(s != "ON"@ && s != "OFF"@);
        assert(is_int_text(s));
        assert(int_text_val(s) == -dec_val(dec_digits((-i) as nat)));
        assert(int_text_val(s) == i);
    }
}

/// Decoding inverts encoding on every floating-point text that does not
/// also read as an in-range integer (such a text decodes as that integer
/// instead).
pub proof fn lemma_round_trip_float(t: Seq<char>)
    requires
        is_float_text(t),
        !(is_int_text(t) && fits_i32(int_text_val(t))),
    ensures
        spec_decode(encode_spec(ValueModel::Float(t))) == Some(ValueModel::Float(t)),
{
    reveal_strlit("ON");
    reveal_strlit("OFF");
    assert(!is_float_text("ON"@)) by {
        assert(digits_end("ON"@, 0) == 0);
    }
    assert(!is_float_text("OFF"@)) by {
        assert(digits_end("OFF"@, 0) == 0);
    }
}

} // verus!
