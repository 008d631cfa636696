//! Numbers as text: reading and writing them.

use vstd::prelude::*;
use vstd::string::*;

use crate::text;

verus! {

/// The value of a digit in bases up to sixteen; `None` for any other character.
pub open spec fn digit_value(c: char) -> Option<nat> {
    if '0' <= c <= '9' {
        Some((c as int - '0' as int) as nat)
    } else if 'a' <= c <= 'f' {
        Some((c as int - 'a' as int + 10) as nat)
    } else if 'A' <= c <= 'F' {
        Some((c as int - 'A' as int + 10) as nat)
    } else {
        None
    }
}

/// `c` is a digit of base `radix`.
pub open spec fn is_digit_of(c: char, radix: nat) -> bool {
    digit_value(c) is Some && digit_value(c)->0 < radix
}

/// Every character is a digit of base `radix`.
pub open spec fn all_digits(s: Seq<char>, radix: nat) -> bool {
    forall|i: int| 0 <= i < s.len() ==> is_digit_of(#[trigger] s[i], radix)
}

/// The number that the digits `s` write in base `radix`.
pub open spec fn value(s: Seq<char>, radix: nat) -> nat
    decreases s.len(),
{
    if s.len() == 0 {
        0
    } else {
        value(s.drop_last(), radix) * radix + digit_value(s.last())->0
    }
}

/// The digit that stands for `d` below sixteen.
pub open spec fn digit(d: int) -> char {
    if d < 10 {
        ('0' as int + d) as char
    } else {
        ('a' as int + d - 10) as char
    }
}

/// `n` written in base `radix`, at most sixteen, without leading zeros.
pub open spec fn digits(n: nat, radix: nat) -> Seq<char>
    decreases n,
{
    if n < radix || radix < 2 {
        seq![digit(n as int)]
    } else {
        proof {
            assert(n / radix < n) by (nonlinear_arith)
                requires
                    radix >= 2,
                    n >= radix,
            ;
        }
        digits(n / radix, radix).push(digit((n % radix) as int))
    }
}

/// `n` in decimal.
pub open spec fn decimal(n: nat) -> Seq<char> {
    digits(n, 10)
}

/// What `str::parse` reads as an unsigned number up to `max`: decimal digits,
/// at least one, with an optional plus sign before them.
pub open spec fn parse_unsigned(s: Seq<char>, max: nat) -> Option<nat> {
    let d = if s.len() > 0 && s[0] == '+' {
        s.drop_first()
    } else {
        s
    };
    if d.len() > 0 && all_digits(d, 10) && value(d, 10) <= max {
        Some(value(d, 10))
    } else {
        None
    }
}

/// Digits read so far never exceed the whole number.
proof fn lemma_value_of_prefix(s: Seq<char>, radix: nat, i: int)
    requires
        all_digits(s, radix),
        0 <= i <= s.len(),
        radix >= 2,
    ensures
        value(s.take(i), radix) <= value(s, radix),
    decreases s.len() - i,
{
    if i == s.len() {
        assert(s.take(i) =~= s);
    } else {
        lemma_value_of_prefix(s, radix, i + 1);
        assert(s.take(i + 1).drop_last() =~= s.take(i));
        assert(s.take(i + 1).last() == s[i]);
        let v = value(s.take(i), radix);
        assert(v <= v * radix) by (nonlinear_arith)
            requires
                radix >= 2,
        ;
    }
}

/// Writing a number and reading it back gives the same number.
pub proof fn lemma_digits_read_back(n: nat, radix: nat)
    requires
        2 <= radix <= 16,
    ensures
        all_digits(digits(n, radix), radix),
        digits(n, radix).len() > 0,
        value(digits(n, radix), radix) == n,
    decreases n,
{
    if n < radix {
        let s = seq![digit(n as int)];
        assert(s.drop_last() =~= Seq::<char>::empty());
        assert(value(s.drop_last(), radix) == 0);
        assert(0 * radix == 0);
        assert(all_digits(s, radix));
    } else {
        assert(n / radix < n) by (nonlinear_arith)
            requires
                radix >= 2,
                n >= radix,
        ;
        lemma_digits_read_back(n / radix, radix);
        let head = digits(n / radix, radix);
        let d = n % radix;
        let s = head.push(digit(d as int));
        assert(s.drop_last() =~= head);
        assert(d < radix) by (nonlinear_arith)
            requires
                radix >= 2,
                d == n % radix,
        ;
        assert((n / radix) * radix + n % radix == n) by (nonlinear_arith)
            requires
                radix >= 2,
        ;
        assert forall|i: int| 0 <= i < s.len() implies is_digit_of(#[trigger] s[i], radix) by {
            if i < head.len() {
                assert(s[i] == head[i]);
            }
        }
    }
}

pub fn digit_of(c: char) -> (d: Option<u32>)
    ensures
        match d {
            Some(v) => digit_value(c) == Some(v as nat),
            None => digit_value(c) is None,
        },
        d matches Some(v) ==> v < 16,
{
    if '0' <= c && c <= '9' {
        Some(c as u32 - '0' as u32)
    } else if 'a' <= c && c <= 'f' {
        Some(c as u32 - 'a' as u32 + 10)
    } else if 'A' <= c && c <= 'F' {
        Some(c as u32 - 'A' as u32 + 10)
    } else {
        None
    }
}

/// Whether every character is a digit of base `radix`.
pub fn are_digits(s: &[char], radix: u32) -> (b: bool)
    ensures
        b == all_digits(s@, radix as nat),
{
    let mut i: usize = 0;
    while i < s.len()
        invariant
            i <= s.len(),
            forall|j: int| 0 <= j < i ==> is_digit_of(#[trigger] s@[j], radix as nat),
        decreases s.len() - i,
    {
        match digit_of(s[i]) {
            Some(d) => {
                if d >= radix {
                    assert(!is_digit_of(s@[i as int], radix as nat));
                    return false;
                }
            },
            None => {
                assert(!is_digit_of(s@[i as int], radix as nat));
                return false;
            },
        }
        i += 1;
    }
    true
}

/// The number the digits `s` write in base `radix`, if it is at most `max`.
pub fn read_digits(s: &[char], radix: u32, max: u64) -> (r: Option<u64>)
    requires
        2 <= radix <= 16,
    ensures
        r is Some <==> s@.len() > 0 && all_digits(s@, radix as nat) && value(s@, radix as nat)
            <= max,
        r matches Some(v) ==> v == value(s@, radix as nat),
{
    if s.len() == 0 || !are_digits(s, radix) {
        return None;
    }
    let mut v: u64 = 0;
    let mut i: usize = 0;
    while i < s.len()
        invariant
            i <= s.len(),
            2 <= radix <= 16,
            all_digits(s@, radix as nat),
            v == value(s@.take(i as int), radix as nat),
            v <= max,
        decreases s.len() - i,
    {
        assert(is_digit_of(s@[i as int], radix as nat));
        let d: u32 = match digit_of(s[i]) {
            Some(d) => d,
            None => 0,
        };
        proof {
            assert(s@.take(i + 1).drop_last() =~= s@.take(i as int));
            assert(s@.take(i + 1).last() == s@[i as int]);
            lemma_value_of_prefix(s@, radix as nat, i + 1);
            assert(v * radix + d <= u64::MAX as int * 16 + 15) by (nonlinear_arith)
                requires
                    v <= u64::MAX,
                    radix <= 16,
                    d < 16,
            ;
        }
        let next: u128 = v as u128 * radix as u128 + d as u128;
        if next > max as u128 {
            return None;
        }
        v = next as u64;
        i += 1;
    }
    assert(s@.take(i as int) =~= s@);
    Some(v)
}

/// `str::parse` of an unsigned number up to `max`.
pub fn parse_unsigned_chars(s: &[char], max: u64) -> (r: Option<u64>)
    ensures
        match r {
            Some(v) => parse_unsigned(s@, max as nat) == Some(v as nat),
            None => parse_unsigned(s@, max as nat) is None,
        },
{
    if s.len() > 0 && s[0] == '+' {
        let rest = vstd::slice::slice_subrange(s, 1, s.len());
        assert(rest@ =~= s@.drop_first());
        read_digits(rest, 10, max)
    } else {
        read_digits(s, 10, max)
    }
}

fn digit_char(d: u8) -> (c: char)
    requires
        d < 16,
    ensures
        c == digit(d as int),
{
    if d < 10 {
        (48u8 + d) as char
    } else {
        (87u8 + d) as char
    }
}

/// `n` written in base `radix`.
pub fn digits_text(n: u64, radix: u64) -> (s: String)
    requires
        2 <= radix <= 16,
    ensures
        s@ == digits(n as nat, radix as nat),
    decreases n,
{
    if n < radix {
        text::string_of_char(digit_char(n as u8))
    } else {
        let q: u64 = n / radix;
        let r: u64 = n % radix;
        proof {
            assert(q < n) by (nonlinear_arith)
                requires
                    q == n / radix,
                    radix >= 2,
                    n >= radix,
            ;
            assert(r < radix) by (nonlinear_arith)
                requires
                    r == n % radix,
                    radix >= 2,
            ;
        }
        let mut s = digits_text(q, radix);
        s.push(digit_char(r as u8));
        s
    }
}

/// `n` in decimal.
pub fn decimal_text(n: u64) -> (s: String)
    ensures
        s@ == decimal(n as nat),
{
    digits_text(n, 10)
}

/// `n` in decimal, with a minus sign where it is below zero.
pub open spec fn signed(n: int) -> Seq<char> {
    if n < 0 {
        seq!['-'] + decimal((-n) as nat)
    } else {
        decimal(n as nat)
    }
}

/// `n` in decimal, with a minus sign where it is below zero.
pub fn signed_text(n: i64) -> (s: String)
    requires
        n > i64::MIN,
    ensures
        s@ == signed(n as int),
{
    if n < 0 {
        let mut s = text::string_of_char('-');
        let d = decimal_text((-n) as u64);
        s.append(d.as_str());
        s
    } else {
        decimal_text(n as u64)
    }
}

/// A number has few digits.
pub proof fn lemma_decimal_short(n: nat)
    ensures
        decimal(n).len() <= 3 + n / 1000,
    decreases n,
{
    reveal_with_fuel(digits, 4);
    if n >= 1000 {
        lemma_decimal_short(n / 10);
    }
}

} // verus!
