//! Writing numbers in decimal and reading them back, as `format!` and `str::parse` do.
use vstd::prelude::*;

use crate::text::{chars_of, push_char};

verus! {

/// The digit character for `d < 10`.
pub open spec fn digit_char(d: nat) -> char {
    if d == 0 { '0' }
    else if d == 1 { '1' }
    else if d == 2 { '2' }
    else if d == 3 { '3' }
    else if d == 4 { '4' }
    else if d == 5 { '5' }
    else if d == 6 { '6' }
    else if d == 7 { '7' }
    else if d == 8 { '8' }
    else { '9' }
}

/// The value of an ASCII digit.
pub open spec fn digit_value(c: char) -> nat {
    if c == '0' { 0 }
    else if c == '1' { 1 }
    else if c == '2' { 2 }
    else if c == '3' { 3 }
    else if c == '4' { 4 }
    else if c == '5' { 5 }
    else if c == '6' { 6 }
    else if c == '7' { 7 }
    else if c == '8' { 8 }
    else { 9 }
}

pub open spec fn is_digit(c: char) -> bool {
    '0' <= c <= '9'
}

/// `n` in decimal, without leading zeros (`"0"` for zero).
pub open spec fn decimal(n: nat) -> Seq<char>
    decreases n,
{
    if n < 10 {
        seq![digit_char(n)]
    } else {
        decimal(n / 10).push(digit_char(n % 10))
    }
}

/// `n` in decimal with at least two digits, as `{:02}` writes it.
pub open spec fn two_digits(n: nat) -> Seq<char> {
    if n < 10 {
        seq!['0', digit_char(n)]
    } else {
        decimal(n)
    }
}

/// The value of a run of digits.
pub open spec fn digits_value(s: Seq<char>) -> nat
    decreases s.len(),
{
    if s.len() == 0 {
        0
    } else {
        digits_value(s.drop_last()) * 10 + digit_value(s.last())
    }
}

/// A non-empty run of ASCII digits.
pub open spec fn all_digits(s: Seq<char>) -> bool {
    s.len() > 0 && forall|i: int| 0 <= i < s.len() ==> is_digit(#[trigger] s[i])
}

/// The integer a text writes in decimal with an optional sign, as `str::parse::<i64>` reads
/// it before its range check.
pub open spec fn signed_value(s: Seq<char>) -> Option<int> {
    if s.len() > 0 && s[0] == '-' && all_digits(s.drop_first()) {
        Some(-digits_value(s.drop_first()))
    } else if s.len() > 0 && s[0] == '+' && all_digits(s.drop_first()) {
        Some(digits_value(s.drop_first()) as int)
    } else if all_digits(s) {
        Some(digits_value(s) as int)
    } else {
        None
    }
}

/// What `str::parse::<i64>` gives: the value, when the text is a signed decimal within range.
pub open spec fn parse_i64_spec(s: Seq<char>) -> Option<i64> {
    match signed_value(s) {
        Some(v) => if i64::MIN <= v <= i64::MAX { Some(v as i64) } else { None },
        None => None,
    }
}

/// What `str::parse::<usize>` gives: the value, when the text is an unsigned decimal (with an
/// optional `+`) within range.
pub open spec fn parse_usize_spec(s: Seq<char>) -> Option<usize> {
    match signed_value(s) {
        Some(v) => if s[0] != '-' && 0 <= v <= usize::MAX { Some(v as usize) } else { None },
        None => None,
    }
}

/// Writing a number in decimal and reading it back gives the number.
pub proof fn law_decimal_round_trip(n: nat)
    ensures
        all_digits(decimal(n)),
        digits_value(decimal(n)) == n,
    decreases n,
{
    if n < 10 {
        assert(decimal(n).drop_last() =~= Seq::<char>::empty());
        assert(digit_value(digit_char(n)) == n);
        assert(decimal(n).len() == 1);
        assert(digits_value(decimal(n)) == digits_value(decimal(n).drop_last()) * 10 + digit_value(decimal(n).last()));
        assert(digits_value(Seq::<char>::empty()) == 0);
    } else {
        law_decimal_round_trip(n / 10);
        let d = decimal(n);
        assert(d.drop_last() =~= decimal(n / 10));
        assert(digit_value(digit_char(n % 10)) == n % 10);
        assert(d.last() == digit_char(n % 10));
        assert(digits_value(d) == digits_value(decimal(n / 10)) * 10 + n % 10);
        assert((n / 10) * 10 + n % 10 == n);
        assert forall|i: int| 0 <= i < d.len() implies is_digit(#[trigger] d[i]) by {
            if i < d.len() - 1 {
                assert(d[i] == decimal(n / 10)[i]);
            }
        }
    }
}

/// Reading back a number written by `decimal` with `parse::<i64>` gives the number.
pub proof fn law_parse_decimal(n: nat)
    requires
        n <= i64::MAX,
    ensures
        parse_i64_spec(decimal(n)) == Some(n as i64),
{
    law_decimal_round_trip(n);
    let d = decimal(n);
    assert(is_digit(d[0]));
}

fn digit_of(d: u64) -> (c: char)
    requires
        d < 10,
    ensures
        c == digit_char(d as nat),
{
    if d == 0 { '0' }
    else if d == 1 { '1' }
    else if d == 2 { '2' }
    else if d == 3 { '3' }
    else if d == 4 { '4' }
    else if d == 5 { '5' }
    else if d == 6 { '6' }
    else if d == 7 { '7' }
    else if d == 8 { '8' }
    else { '9' }
}

/// `n` in decimal: `n.to_string()`.
pub fn format_u64(n: u64) -> (s: String)
    ensures
        s@ == decimal(n as nat),
{
    let mut digits: Vec<char> = Vec::new();
    let mut m: u64 = n;
    // digits@ holds the last digits of n, least significant first
    while m >= 10
        invariant
            decimal(n as nat) == decimal(m as nat) + digits@.reverse(),
        decreases m,
    {
        let d = m % 10;
        let c = digit_of(d);
        proof {
            assert(decimal(m as nat) == decimal((m / 10) as nat).push(digit_char((m % 10) as nat)));
            assert(digits@.push(c).reverse() =~= seq![c] + digits@.reverse());
            assert(decimal(m as nat) + digits@.reverse() =~= decimal((m / 10) as nat) + digits@.push(c).reverse());
        }
        digits.push(c);
        m = m / 10;
    }
    let first = digit_of(m);
    let mut s = String::new();
    push_char(&mut s, first);
    let mut i: usize = digits.len();
    assert(s@ =~= decimal(m as nat));
    assert(digits@.reverse().take(0) =~= Seq::<char>::empty());
    while i > 0
        invariant
            i <= digits@.len(),
            decimal(n as nat) == decimal(m as nat) + digits@.reverse(),
            s@ == decimal(m as nat) + digits@.reverse().take((digits@.len() - i) as int),
        decreases i,
    {
        let c = digits[i - 1];
        push_char(&mut s, c);
        proof {
            let k = (digits@.len() - i) as int;
            assert(digits@.reverse()[k] == digits@[i - 1]);
            assert(digits@.reverse().take(k + 1) =~= digits@.reverse().take(k).push(c));
        }
        i = i - 1;
    }
    assert(digits@.reverse().take(digits@.len() as int) =~= digits@.reverse());
    s
}

/// `n` with at least two digits: `format!("{n:02}")`.
pub fn format_two_digits(n: u64) -> (s: String)
    ensures
        s@ == two_digits(n as nat),
{
    if n < 10 {
        let mut s = String::new();
        push_char(&mut s, '0');
        push_char(&mut s, digit_of(n));
        assert(s@ =~= seq!['0', digit_char(n as nat)]);
        s
    } else {
        format_u64(n)
    }
}

/// `v` in decimal, with a `-` before a negative number.
pub open spec fn signed_decimal(v: int) -> Seq<char> {
    if v < 0 {
        "-"@ + decimal((-v) as nat)
    } else {
        decimal(v as nat)
    }
}

/// `v` in decimal: `v.to_string()`.
pub fn format_i64(v: i64) -> (s: String)
    ensures
        s@ == signed_decimal(v as int),
{
    if v < 0 {
        let m: u64 = if v == i64::MIN { 9223372036854775808u64 } else { (-v) as u64 };
        "-".to_string().concat(format_u64(m).as_str())
    } else {
        format_u64(v as u64)
    }
}

fn char_digit(c: char) -> (d: u64)
    requires
        is_digit(c),
    ensures
        d == digit_value(c),
        d < 10,
{
    if c == '0' { 0 }
    else if c == '1' { 1 }
    else if c == '2' { 2 }
    else if c == '3' { 3 }
    else if c == '4' { 4 }
    else if c == '5' { 5 }
    else if c == '6' { 6 }
    else if c == '7' { 7 }
    else if c == '8' { 8 }
    else { 9 }
}

proof fn lemma_digits_value_mono(s: Seq<char>, k: int)
    requires
        0 <= k <= s.len(),
    ensures
        digits_value(s.take(k)) <= digits_value(s),
    decreases s.len() - k,
{
    if k < s.len() {
        lemma_digits_value_mono(s, k + 1);
        assert(s.take(k + 1).drop_last() =~= s.take(k));
    } else {
        assert(s.take(k) =~= s);
    }
}

/// The value of the digits `c[from..]`, when it is at most `u64::MAX`.
fn digits_u64(c: &Vec<char>, from: usize) -> (r: Option<u64>)
    requires
        from <= c@.len(),
        all_digits(c@.skip(from as int)),
    ensures
        r matches Some(v) ==> v == digits_value(c@.skip(from as int)),
        r is None ==> digits_value(c@.skip(from as int)) > u64::MAX,
{
    let ghost s = c@.skip(from as int);
    let mut v: u64 = 0;
    let mut i: usize = from;
    assert(s.take(0) =~= Seq::<char>::empty());
    while i < c.len()
        invariant
            from <= i <= c@.len(),
            s == c@.skip(from as int),
            all_digits(s),
            v == digits_value(s.take(i - from)),
        decreases c@.len() - i,
    {
        let ghost k = (i - from) as int;
        assert(s[k] == c@[i as int]);
        let d = char_digit(c[i]);
        assert(s.take(k + 1).drop_last() =~= s.take(k));
        if v > (u64::MAX - d) / 10 {
            proof {
                assert(v * 10 + d > u64::MAX) by (nonlinear_arith)
                    requires v > (u64::MAX - d) / 10, d < 10;
                lemma_digits_value_mono(s, k + 1);
            }
            return None;
        }
        assert(v * 10 + d <= u64::MAX) by (nonlinear_arith)
            requires v <= (u64::MAX - d) / 10, d < 10;
        v = v * 10 + d;
        i = i + 1;
    }
    assert(s.take(i - from) =~= s);
    Some(v)
}

fn all_digits_from(c: &Vec<char>, from: usize) -> (b: bool)
    requires
        from <= c@.len(),
    ensures
        b == all_digits(c@.skip(from as int)),
{
    if from == c.len() {
        return false;
    }
    let mut i: usize = from;
    while i < c.len()
        invariant
            from <= i <= c@.len(),
            forall|k: int| from <= k < i ==> is_digit(#[trigger] c@[k]),
        decreases c@.len() - i,
    {
        if !('0' <= c[i] && c[i] <= '9') {
            assert(c@.skip(from as int)[i - from] == c@[i as int]);
            return false;
        }
        i = i + 1;
    }
    assert forall|k: int| 0 <= k < c@.skip(from as int).len() implies is_digit(#[trigger] c@.skip(from as int)[k]) by {
        assert(c@.skip(from as int)[k] == c@[k + from]);
    }
    true
}

/// `s.parse::<i64>().ok()`.
pub fn parse_i64(s: &str) -> (r: Option<i64>)
    ensures
        r == parse_i64_spec(s@),
{
    let c = chars_of(s);
    assert(c@.skip(0) =~= c@);
    if c.len() > 0 && (c[0] == '-' || c[0] == '+') {
        assert(c@.skip(1) =~= c@.drop_first());
        if !all_digits_from(&c, 1) {
            assert(!all_digits(c@)) by {
                assert(!is_digit(c@[0]));
            }
            return None;
        }
        match digits_u64(&c, 1) {
            None => {
                return None;
            },
            Some(v) => {
                if c[0] == '-' {
                    if v <= 9223372036854775808u64 {
                        let r: i64 = if v == 9223372036854775808u64 { i64::MIN } else { -(v as i64) };
                        return Some(r);
                    }
                    return None;
                } else {
                    if v <= 9223372036854775807u64 {
                        return Some(v as i64);
                    }
                    return None;
                }
            },
        }
    }
    if !all_digits_from(&c, 0) {
        return None;
    }
    match digits_u64(&c, 0) {
        None => None,
        Some(v) => {
            if v <= 9223372036854775807u64 {
                Some(v as i64)
            } else {
                None
            }
        },
    }
}

/// What `str::parse::<u64>` gives: the value, when the text is an unsigned decimal (with an
/// optional `+`) within range.
pub open spec fn parse_u64_spec(s: Seq<char>) -> Option<u64> {
    match signed_value(s) {
        Some(v) => if s[0] != '-' && 0 <= v <= u64::MAX { Some(v as u64) } else { None },
        None => None,
    }
}

/// `s.parse::<u64>().ok()`.
pub fn parse_u64(s: &str) -> (r: Option<u64>)
    ensures
        r == parse_u64_spec(s@),
{
    let c = chars_of(s);
    assert(c@.skip(0) =~= c@);
    if c.len() > 0 && c[0] == '-' {
        return None;
    }
    let from: usize = if c.len() > 0 && c[0] == '+' { 1 } else { 0 };
    if from == 1 {
        assert(c@.skip(1) =~= c@.drop_first());
        assert(!all_digits(c@)) by {
            assert(!is_digit(c@[0]));
        }
    }
    if !all_digits_from(&c, from) {
        return None;
    }
    digits_u64(&c, from)
}

/// `s.parse::<usize>().ok()`.
pub fn parse_usize(s: &str) -> (r: Option<usize>)
    ensures
        r == parse_usize_spec(s@),
{
    let c = chars_of(s);
    assert(c@.skip(0) =~= c@);
    if c.len() > 0 && c[0] == '-' {
        return None;
    }
    let from: usize = if c.len() > 0 && c[0] == '+' { 1 } else { 0 };
    if from == 1 {
        assert(c@.skip(1) =~= c@.drop_first());
        assert(!all_digits(c@)) by {
            assert(!is_digit(c@[0]));
        }
    }
    if !all_digits_from(&c, from) {
        return None;
    }
    match digits_u64(&c, from) {
        None => None,
        Some(v) => {
            if v <= usize::MAX as u64 {
                Some(v as usize)
            } else {
                None
            }
        },
    }
}

} // verus!
