//! Decimal integer text: formatting an integer as its canonical decimal
//! string and reading a decimal string back, with the facts that make the
//! two directions inverse to each other.

use vstd::prelude::*;

verus! {

/// A decimal digit.
pub open spec fn is_digit(c: char) -> bool {
    '0' <= c && c <= '9'
}

/// The numeric value of a digit character.
pub open spec fn digit_val(c: char) -> int {
    c as u32 - 48
}

/// The character for a digit value.
pub open spec fn digit_char(d: int) -> char {
    if d == 0 {
        '0'
    } else if d == 1 {
        '1'
    } else if d == 2 {
        '2'
    } else if d == 3 {
        '3'
    } else if d == 4 {
        '4'
    } else if d == 5 {
        '5'
    } else if d == 6 {
        '6'
    } else if d == 7 {
        '7'
    } else if d == 8 {
        '8'
    } else {
        '9'
    }
}

/// Every character of `s` is a decimal digit.
pub open spec fn all_digits(s: Seq<char>) -> bool {
    forall|i: int| 0 <= i < s.len() ==> is_digit(#[trigger] s[i])
}

/// The canonical digit string of a natural number: no leading zero except
/// for the number zero itself.
pub open spec fn dec_digits(n: nat) -> Seq<char>
    decreases n,
{
    if n < 10 {
        seq![digit_char(n as int)]
    } else {
        dec_digits(n / 10).push(digit_char((n % 10) as int))
    }
}

/// The numeric value of a digit string.
pub open spec fn dec_val(s: Seq<char>) -> int
    decreases s.len(),
{
    if s.len() == 0 {
        0
    } else {
        dec_val(s.drop_last()) * 10 + digit_val(s.last())
    }
}

/// The canonical decimal text of an integer.
pub open spec fn int_text_of(i: int) -> Seq<char> {
    if i < 0 {
        "-"@ + dec_digits((-i) as nat)
    } else {
        dec_digits(i as nat)
    }
}

/// `s` is an optionally signed, non-empty run of decimal digits.
pub open spec fn is_int_text(s: Seq<char>) -> bool {
    if s.len() == 0 {
        false
    } else if s[0] == '-' || s[0] == '+' {
        s.len() > 1 && all_digits(s.skip(1))
    } else {
        all_digits(s)
    }
}

/// The integer denoted by an optionally signed digit string.
pub open spec fn int_text_val(s: Seq<char>) -> int {
    if s.len() > 0 && s[0] == '-' {
        -dec_val(s.skip(1))
    } else if s.len() > 0 && s[0] == '+' {
        dec_val(s.skip(1))
    } else {
        dec_val(s)
    }
}

/// The integer lies in the range of an `i32`.
pub open spec fn fits_i32(i: int) -> bool {
    -0x8000_0000 <= i <= 0x7fff_ffff
}

/// Powers of ten.
pub open spec fn pow10(k: nat) -> int
    decreases k,
{
    if k == 0 {
        1
    } else {
        10 * pow10((k - 1) as nat)
    }
}

pub proof fn lemma_pow10_pos(k: nat)
    ensures
        pow10(k) >= 1,
    decreases k,
{
    if k > 0 {
        lemma_pow10_pos((k - 1) as nat);
    }
}

pub proof fn lemma_pow10_mono(a: nat, b: nat)
    requires
        a <= b,
    ensures
        pow10(a) <= pow10(b),
    decreases b,
{
    lemma_pow10_pos(a);
    if a < b {
        lemma_pow10_mono(a, (b - 1) as nat);
        lemma_pow10_pos((b - 1) as nat);
    }
}

pub proof fn lemma_pow10_vals()
    ensures
        pow10(9) == 1_000_000_000,
        pow10(10) == 10_000_000_000,
{
    assert(pow10(0) == 1);
    assert(pow10(1) == 10);
    assert(pow10(2) == 100);
    assert(pow10(3) == 1000);
    assert(pow10(4) == 10000);
    assert(pow10(5) == 100000);
    assert(pow10(6) == 1000000);
    assert(pow10(7) == 10000000);
    assert(pow10(8) == 100000000);
    assert(pow10(9) == 1000000000);
}

/// The canonical digit string is made of digits, is never empty, and has
/// no leading zero unless it denotes zero.
pub proof fn lemma_dec_digits_shape(n: nat)
    ensures
        all_digits(dec_digits(n)),
        dec_digits(n).len() >= 1,
        n > 0 ==> dec_digits(n)[0] != '0',
    decreases n,
{
    if n < 10 {
    } else {
        lemma_dec_digits_shape(n / 10);
        assert(dec_digits(n)[0] == dec_digits(n / 10)[0]);
        assert forall|i: int| 0 <= i < dec_digits(n).len() implies is_digit(
            #[trigger] dec_digits(n)[i],
        ) by {
            if i < dec_digits(n).len() - 1 {
                assert(dec_digits(n)[i] == dec_digits(n / 10)[i]);
            }
        }
    }
}

/// Reading the canonical digit string of `n` gives back `n`.
pub proof fn lemma_dec_val_of_digits(n: nat)
    ensures
        dec_val(dec_digits(n)) == n,
    decreases n,
{
    if n < 10 {
        let s1 = seq![digit_char(n as int)];
        assert(s1.drop_last() =~= Seq::<char>::empty());
        assert(dec_val(s1.drop_last()) == 0);
        assert(dec_val(s1) == dec_val(s1.drop_last()) * 10 + digit_val(s1.last()));
    } else {
        lemma_dec_val_of_digits(n / 10);
        let s = dec_digits(n / 10);
        let c = digit_char((n % 10) as int);
        assert(s.push(c).drop_last() =~= s);
        assert(dec_val(s.push(c)) == dec_val(s) * 10 + digit_val(c));
    }
}

/// A digit string's value is bounded by the power of ten of its length.
pub proof fn lemma_dec_val_upper(s: Seq<char>)
    requires
        all_digits(s),
    ensures
        0 <= dec_val(s) < pow10(s.len()),
    decreases s.len(),
{
    if s.len() == 0 {
    } else {
        assert(all_digits(s.drop_last())) by {
            assert(forall|i: int|
                0 <= i < s.drop_last().len() ==> #[trigger] s.drop_last()[i] == s[i]);
        }
        lemma_dec_val_upper(s.drop_last());
        assert(is_digit(s.last()));
        assert(0 <= digit_val(s.last()) <= 9);
    }
}

/// A digit string with a non-zero first digit denotes at least the power
/// of ten of its length less one.
pub proof fn lemma_dec_val_lower(s: Seq<char>)
    requires
        all_digits(s),
        s.len() > 0,
        s[0] != '0',
    ensures
        dec_val(s) >= pow10((s.len() - 1) as nat),
    decreases s.len(),
{
    if s.len() == 1 {
        assert(is_digit(s[0]));
        assert(digit_val(s[0]) >= 1);
        assert(dec_val(s) == dec_val(s.drop_last()) * 10 + digit_val(s.last()));
        assert(s.drop_last().len() == 0);
    } else {
        assert(all_digits(s.drop_last())) by {
            assert(forall|i: int|
                0 <= i < s.drop_last().len() ==> #[trigger] s.drop_last()[i] == s[i]);
        }
        assert(s.drop_last()[0] == s[0]);
        lemma_dec_val_lower(s.drop_last());
        assert(is_digit(s.last()));
        assert(digit_val(s.last()) >= 0);
    }
}

/// A leading zero does not change the value of a digit string.
pub proof fn lemma_dec_val_drop_leading_zero(s: Seq<char>)
    requires
        s.len() > 0,
        s[0] == '0',
    ensures
        dec_val(s) == dec_val(s.skip(1)),
    decreases s.len(),
{
    if s.len() == 1 {
        assert(s.skip(1).len() == 0);
        assert(s.drop_last().len() == 0);
        assert(dec_val(s.drop_last()) == 0);
        assert(dec_val(s) == dec_val(s.drop_last()) * 10 + digit_val(s.last()));
        assert(dec_val(s) == digit_val('0'));
    } else {
        assert(s.drop_last()[0] == s[0]);
        lemma_dec_val_drop_leading_zero(s.drop_last());
        assert(s.skip(1).drop_last() =~= s.drop_last().skip(1));
        assert(s.skip(1).last() == s.last());
        assert(dec_val(s.skip(1)) == dec_val(s.skip(1).drop_last()) * 10 + digit_val(s.last()));
        assert(dec_val(s) == dec_val(s.drop_last()) * 10 + digit_val(s.last()));
    }
}

/// Any run of leading zeros may be dropped without changing the value.
pub proof fn lemma_dec_val_drop_zeros(s: Seq<char>, m: int)
    requires
        0 <= m <= s.len(),
        forall|j: int| 0 <= j < m ==> s[j] == '0',
    ensures
        dec_val(s) == dec_val(s.skip(m)),
    decreases m,
{
    if m == 0 {
        assert(s.skip(0) =~= s);
    } else {
        lemma_dec_val_drop_leading_zero(s);
        assert(s.skip(1).skip(m - 1) =~= s.skip(m));
        lemma_dec_val_drop_zeros(s.skip(1), m - 1);
    }
}

/// The character for a digit value.
pub(crate) fn digit_char_exec(d: u64) -> (c: char)
    requires
        d < 10,
    ensures
        c == digit_char(d as int),
{
    match d {
        0 => '0',
        1 => '1',
        2 => '2',
        3 => '3',
        4 => '4',
        5 => '5',
        6 => '6',
        7 => '7',
        8 => '8',
        _ => '9',
    }
}

/// The canonical digit characters of a natural number.
pub(crate) fn dec_digits_exec(m: u64) -> (v: Vec<char>)
    ensures
        v@ == dec_digits(m as nat),
    decreases m,
{
    if m < 10 {
        let mut v: Vec<char> = Vec::new();
        v.push(digit_char_exec(m));
        proof {
            assert(v@ =~= seq![digit_char(m as int)]);
        }
        v
    } else {
        let mut v = dec_digits_exec(m / 10);
        v.push(digit_char_exec(m % 10));
        v
    }
}

} // verus!
