//! Decimal numbers as strings: parsing and rendering, verified against one
//! another. The schema version marker is persisted in exactly this decimal
//! string form, and configuration values arrive in it.

use vstd::prelude::*;

use crate::text::push_char;

verus! {

/// Numeric value of a decimal digit character; 10 marks a non-digit.
pub open spec fn digit_val(c: char) -> nat {
    if c == '0' {
        0
    } else if c == '1' {
        1
    } else if c == '2' {
        2
    } else if c == '3' {
        3
    } else if c == '4' {
        4
    } else if c == '5' {
        5
    } else if c == '6' {
        6
    } else if c == '7' {
        7
    } else if c == '8' {
        8
    } else if c == '9' {
        9
    } else {
        10
    }
}

pub open spec fn is_digit(c: char) -> bool {
    digit_val(c) < 10
}

pub open spec fn all_digits(s: Seq<char>) -> bool {
    forall|i: int| 0 <= i < s.len() ==> is_digit(#[trigger] s[i])
}

/// The number a digit string denotes, most significant digit first.
pub open spec fn digits_val(s: Seq<char>) -> nat
    decreases s.len(),
{
    if s.len() == 0 {
        0
    } else {
        digits_val(s.drop_last()) * 10 + digit_val(s.last())
    }
}

/// The digits of a decimal string, one optional leading `+` sign removed:
/// the format an unsigned integer parse accepts.
pub open spec fn digit_body(s: Seq<char>) -> Seq<char> {
    if s.len() > 0 && s[0] == '+' {
        s.drop_first()
    } else {
        s
    }
}

/// What parsing `s` as an unsigned 64-bit decimal yields: the denoted value
/// if, after one optional leading `+`, the string is one or more decimal
/// digits denoting a value that fits; nothing otherwise.
pub open spec fn spec_parse_u64(s: Seq<char>) -> Option<u64> {
    let body = digit_body(s);
    if body.len() > 0 && all_digits(body) && digits_val(body) <= u64::MAX {
        Some(digits_val(body) as u64)
    } else {
        None
    }
}

/// Appending digits never decreases the denoted value.
proof fn lemma_digits_val_monotone(s: Seq<char>, k: int)
    requires
        0 <= k <= s.len(),
    ensures
        digits_val(s) >= digits_val(s.take(k)),
    decreases s.len() - k,
{
    if k < s.len() {
        lemma_digits_val_monotone(s, k + 1);
        assert(s.take(k + 1).drop_last() =~= s.take(k));
        assert(digits_val(s.take(k + 1)) == digits_val(s.take(k)) * 10 + digit_val(
            s.take(k + 1).last(),
        ));
    } else {
        assert(s.take(k) =~= s);
    }
}

/// Numeric value of one digit character.
fn digit_of(c: char) -> (d: u64)
    ensures
        d == digit_val(c),
{
    if c == '0' {
        0
    } else if c == '1' {
        1
    } else if c == '2' {
        2
    } else if c == '3' {
        3
    } else if c == '4' {
        4
    } else if c == '5' {
        5
    } else if c == '6' {
        6
    } else if c == '7' {
        7
    } else if c == '8' {
        8
    } else if c == '9' {
        9
    } else {
        10
    }
}

/// Parse `s` as an unsigned 64-bit decimal: one optional leading `+`, then
/// one or more digits, rejecting values that do not fit.
pub fn parse_u64(s: &str) -> (r: Option<u64>)
    ensures
        r == spec_parse_u64(s@),
{
    let n = s.unicode_len();
    let ghost body = digit_body(s@);
    let mut i: usize = 0;
    if n > 0 && s.get_char(0) == '+' {
        i = 1;
    }
    proof {
        assert(body =~= s@.subrange(i as int, n as int));
    }
    if i == n {
        return None;
    }
    let ghost start = i as int;
    let mut acc: u64 = 0;
    while i < n
        invariant
            n == s@.len(),
            body == digit_body(s@),
            body == s@.subrange(start, n as int),
            0 <= start <= i <= n,
            all_digits(body.take(i - start)),
            acc == digits_val(body.take(i - start)),
        decreases n - i,
    {
        let c = s.get_char(i);
        let d = digit_of(c);
        proof {
            assert(body[i - start] == s@[i as int]);
            assert(body.take(i + 1 - start).drop_last() =~= body.take(i - start));
            assert(body.take(i + 1 - start).last() == body[i - start]);
        }
        if d >= 10 {
            proof {
                assert(!is_digit(body[i - start]));
                assert(!all_digits(body));
            }
            return None;
        }
        if acc > 1844674407370955161u64 || (acc == 1844674407370955161u64 && d > 5) {
            proof {
                assert(digits_val(body.take(i + 1 - start)) == acc * 10 + d);
                assert(acc * 10 + d > u64::MAX);
                lemma_digits_val_monotone(body, i + 1 - start);
                assert(digits_val(body) > u64::MAX);
            }
            return None;
        }
        acc = acc * 10 + d;
        i = i + 1;
    }
    proof {
        assert(body.take(n as int - start) =~= body);
    }
    Some(acc)
}

/// The character of one decimal digit.
pub open spec fn digit_char(d: nat) -> char {
    if d == 0 {
        '0'
    } else if d == 1 {
        '1'
    } else if d == 2 {
        '2'
    } else if d == 3 {
        '3'
    } else if d == 4 {
        '4'
    } else if d == 5 {
        '5'
    } else if d == 6 {
        '6'
    } else if d == 7 {
        '7'
    } else if d == 8 {
        '8'
    } else {
        '9'
    }
}

/// The decimal digit string of `v`, most significant digit first, no sign,
/// no leading zero except for zero itself.
pub open spec fn dec_digits(v: nat) -> Seq<char>
    decreases v,
{
    if v < 10 {
        seq![digit_char(v)]
    } else {
        dec_digits(v / 10).push(digit_char(v % 10))
    }
}

/// The character of one decimal digit.
fn digit_char_of(d: u64) -> (c: char)
    requires
        d < 10,
    ensures
        c == digit_char(d as nat),
{
    if d == 0 {
        '0'
    } else if d == 1 {
        '1'
    } else if d == 2 {
        '2'
    } else if d == 3 {
        '3'
    } else if d == 4 {
        '4'
    } else if d == 5 {
        '5'
    } else if d == 6 {
        '6'
    } else if d == 7 {
        '7'
    } else if d == 8 {
        '8'
    } else {
        '9'
    }
}

/// Render `v` as its decimal digit string.
#[verifier::rlimit(50)]
pub fn render_u64(v: u64) -> (r: String)
    ensures
        r@ == dec_digits(v as nat),
{
    let mut digits: Vec<char> = Vec::new();
    let mut x = v;
    while x >= 10
        invariant
            dec_digits(v as nat) == dec_digits(x as nat) + digits@.reverse(),
        decreases x,
    {
        let d = digit_char_of(x % 10);
        proof {
            assert(dec_digits(x as nat) == dec_digits((x as nat) / 10).push(
                digit_char((x as nat) % 10),
            ));
            assert((digits@.push(d)).reverse() =~= seq![d] + digits@.reverse());
            assert(dec_digits((x as nat) / 10) + (digits@.push(d)).reverse() =~= dec_digits(
                x as nat,
            ) + digits@.reverse());
            assert(x as nat / 10 == (x / 10) as nat);
        }
        digits.push(d);
        x = x / 10;
    }
    let d = digit_char_of(x);
    proof {
        assert((digits@.push(d)).reverse() =~= seq![d] + digits@.reverse());
        assert(dec_digits(x as nat) == seq![digit_char(x as nat)]);
        assert(dec_digits(v as nat) =~= (digits@.push(d)).reverse());
    }
    digits.push(d);
    let mut out = String::new();
    let mut k = digits.len();
    while k > 0
        invariant
            k <= digits.len(),
            out@ =~= digits@.reverse().take(digits@.len() - k),
        decreases k,
    {
        k = k - 1;
        push_char(&mut out, digits[k]);
        proof {
            assert(out@ =~= digits@.reverse().take(digits@.len() - k));
        }
    }
    proof {
        assert(digits@.reverse().take(digits@.len() as int) =~= digits@.reverse());
    }
    out
}

/// Rendering then parsing restores the value: the version marker written in
/// decimal form always reads back as the version that was written.
pub proof fn lemma_render_parse_round_trip(v: u64)
    ensures
        spec_parse_u64(dec_digits(v as nat)) == Some(v),
{
    lemma_dec_digits_well_formed(v as nat);
    let s = dec_digits(v as nat);
    assert(is_digit(s[0]));
    assert(s[0] != '+');
    assert(digit_body(s) == s);
}

/// The decimal digit string of any value is non-empty, consists of digits,
/// and denotes the value itself.
proof fn lemma_dec_digits_well_formed(v: nat)
    ensures
        dec_digits(v).len() > 0,
        all_digits(dec_digits(v)),
        digits_val(dec_digits(v)) == v,
    decreases v,
{
    if v < 10 {
        assert(dec_digits(v) == seq![digit_char(v)]);
        assert(dec_digits(v).drop_last() =~= Seq::<char>::empty());
        assert(digits_val(Seq::<char>::empty()) == 0);
        assert(dec_digits(v).last() == digit_char(v));
        assert(digit_val(digit_char(v)) == v);
        assert(digits_val(dec_digits(v)) == digits_val(dec_digits(v).drop_last()) * 10 + digit_val(
            dec_digits(v).last(),
        ));
    } else {
        lemma_dec_digits_well_formed(v / 10);
        vstd::arithmetic::div_mod::lemma_fundamental_div_mod(v as int, 10);
        let s = dec_digits(v);
        assert(s.drop_last() =~= dec_digits(v / 10));
        assert(s.last() == digit_char(v % 10));
        assert(v % 10 < 10);
        assert(digit_val(digit_char(v % 10)) == v % 10);
        assert(digits_val(s) == (v / 10) * 10 + v % 10);
        assert(forall|i: int| 0 <= i < s.len() ==> is_digit(#[trigger] s[i])) by {
            assert(forall|i: int|
                0 <= i < s.len() - 1 ==> s[i] == #[trigger] dec_digits(v / 10)[i]);
        }
    }
}

} // verus!
