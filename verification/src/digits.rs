//! Decimal digits in text: what a run of digits writes, and how a number is
//! written in a fixed count of digits.

use vstd::prelude::*;

verus! {

/// Whether `c` is one of the digits `0` to `9`.
pub open spec fn is_digit(c: char) -> bool {
    '0' <= c && c <= '9'
}

/// The value of the digit `c`.
pub open spec fn digit_of(c: char) -> int {
    c as int - 48
}

/// The digit that writes `d`, for `d` from 0 to 9.
pub open spec fn digit_char(d: int) -> char {
    (d + 48) as char
}

/// 10 to the power `n`.
pub open spec fn pow10(n: nat) -> int
    decreases n,
{
    if n == 0 {
        1
    } else {
        10 * pow10((n - 1) as nat)
    }
}

/// Whether `s` has the character `c` at position `at`.
pub open spec fn has_char(s: Seq<char>, at: int, c: char) -> bool {
    0 <= at < s.len() && s[at] == c
}

/// The number that the `n` characters of `s` from position `at` write in
/// decimal, or `None` where `s` ends before them or one of them is no digit.
pub open spec fn digits_at(s: Seq<char>, at: int, n: nat) -> Option<int>
    decreases n,
{
    if n == 0 {
        Some(0)
    } else if 0 <= at && at + n <= s.len() && is_digit(s[at + n - 1]) {
        match digits_at(s, at, (n - 1) as nat) {
            Some(v) => Some(10 * v + digit_of(s[at + n - 1])),
            None => None,
        }
    } else {
        None
    }
}

/// How many digits follow one another in `s` from position `at` on.
pub open spec fn digit_run(s: Seq<char>, at: int) -> nat
    decreases s.len() - at,
{
    if 0 <= at < s.len() && is_digit(s[at]) {
        1 + digit_run(s, at + 1)
    } else {
        0
    }
}

/// `v` written in exactly `n` digits, with leading zeros; the lowest `n`
/// digits of `v` where it has more.
pub open spec fn decimal(v: int, n: nat) -> Seq<char>
    decreases n,
{
    if n == 0 {
        Seq::empty()
    } else {
        decimal(v / 10, (n - 1) as nat).push(digit_char(v % 10))
    }
}

/// `v` written in `n` digits without its trailing zeros, but in one digit at
/// least: a fraction of `n` places in its shortest form.
pub open spec fn shortest_fraction(v: int, n: nat) -> Seq<char>
    decreases n,
{
    if n > 1 && v % 10 == 0 {
        shortest_fraction(v / 10, (n - 1) as nat)
    } else {
        decimal(v, n)
    }
}

/// How many digits `shortest_fraction(v, n)` has.
pub open spec fn fraction_digits(v: int, n: nat) -> nat
    decreases n,
{
    if n > 1 && v % 10 == 0 {
        fraction_digits(v / 10, (n - 1) as nat)
    } else {
        n
    }
}

/// The number that the digits of `shortest_fraction(v, n)` write.
pub open spec fn fraction_value(v: int, n: nat) -> int
    decreases n,
{
    if n > 1 && v % 10 == 0 {
        fraction_value(v / 10, (n - 1) as nat)
    } else {
        v
    }
}

/// The shortest form of a fraction is its value in its count of digits, and
/// the value with the zeros that were left off is the fraction.
pub proof fn lemma_shortest_fraction(v: int, n: nat)
    requires
        0 <= v < pow10(n),
        n >= 1,
    ensures
        1 <= fraction_digits(v, n) <= n,
        shortest_fraction(v, n) == decimal(fraction_value(v, n), fraction_digits(v, n)),
        0 <= fraction_value(v, n) < pow10(fraction_digits(v, n)),
        fraction_value(v, n) * pow10((n - fraction_digits(v, n)) as nat) == v,
    decreases n,
{
    if n > 1 && v % 10 == 0 {
        let m = (n - 1) as nat;
        lemma_shortest_fraction(v / 10, m);
        let k = fraction_digits(v, n);
        let f = fraction_value(v, n);
        let p = pow10((m - k) as nat);
        assert(pow10((n - k) as nat) == 10 * p);
        assert(f * p == v / 10);
        assert(f * (10 * p) == 10 * (f * p)) by (nonlinear_arith);
    }
}

/// A count of nanoseconds that is a whole number of milliseconds has three
/// digits at most in its shortest form.
pub proof fn lemma_milliseconds_are_short(v: int)
    requires
        0 <= v,
        v % 1_000_000 == 0,
    ensures
        fraction_digits(v, 9) <= 3,
{
    let v1 = v / 10;
    let v2 = v1 / 10;
    let v3 = v2 / 10;
    let v4 = v3 / 10;
    let v5 = v4 / 10;
    let v6 = v5 / 10;
    assert(v % 10 == 0 && v1 % 100_000 == 0);
    assert(v1 % 10 == 0 && v2 % 10_000 == 0);
    assert(v2 % 10 == 0 && v3 % 1_000 == 0);
    assert(v3 % 10 == 0 && v4 % 100 == 0);
    assert(v4 % 10 == 0 && v5 % 10 == 0);
    assert(fraction_digits(v, 9) == fraction_digits(v1, 8));
    assert(fraction_digits(v1, 8) == fraction_digits(v2, 7));
    assert(fraction_digits(v2, 7) == fraction_digits(v3, 6));
    assert(fraction_digits(v3, 6) == fraction_digits(v4, 5));
    assert(fraction_digits(v4, 5) == fraction_digits(v5, 4));
    assert(fraction_digits(v5, 4) == fraction_digits(v6, 3));
    lemma_fraction_digits_bound(v6, 3);
}

/// The shortest form has no more digits than the fraction has places.
pub proof fn lemma_fraction_digits_bound(v: int, n: nat)
    ensures
        fraction_digits(v, n) <= n,
    decreases n,
{
    if n > 1 && v % 10 == 0 {
        lemma_fraction_digits_bound(v / 10, (n - 1) as nat);
    }
}

/// The powers of ten that the digits of a subsecond are scaled by.
pub proof fn lemma_pow10_values()
    ensures
        pow10(0) == 1,
        pow10(1) == 10,
        pow10(2) == 100,
        pow10(3) == 1_000,
        pow10(4) == 10_000,
        pow10(5) == 100_000,
        pow10(6) == 1_000_000,
        pow10(7) == 10_000_000,
        pow10(8) == 100_000_000,
        pow10(9) == 1_000_000_000,
{
    reveal_with_fuel(pow10, 10);
}

/// `decimal` writes as many digits as it is asked for.
pub proof fn lemma_decimal_len(v: int, n: nat)
    ensures
        decimal(v, n).len() == n,
    decreases n,
{
    if n > 0 {
        lemma_decimal_len(v / 10, (n - 1) as nat);
    }
}

/// What `decimal` writes, `digits_at` reads.
pub proof fn lemma_digits_at_decimal(s: Seq<char>, at: int, v: int, n: nat)
    requires
        0 <= v < pow10(n),
        0 <= at,
        at + n <= s.len(),
        s.subrange(at, at + n) == decimal(v, n),
    ensures
        digits_at(s, at, n) == Some(v),
    decreases n,
{
    if n > 0 {
        let m = (n - 1) as nat;
        lemma_decimal_len(v / 10, m);
        assert(v / 10 < pow10(m));
        assert(s.subrange(at, at + m) =~= s.subrange(at, at + n).subrange(0, m as int));
        assert(decimal(v, n).subrange(0, m as int) =~= decimal(v / 10, m));
        lemma_digits_at_decimal(s, at, v / 10, m);
        assert(s[at + m] == s.subrange(at, at + n)[m as int]);
        assert(s[at + m] == digit_char(v % 10));
    }
}

/// What `digits_at` reads is below the `n`-th power of ten, and is written
/// there as `decimal` writes it.
pub proof fn lemma_digits_at_is_decimal(s: Seq<char>, at: int, n: nat)
    requires
        digits_at(s, at, n) is Some,
    ensures
        0 <= digits_at(s, at, n)->0 < pow10(n),
        n > 0 ==> 0 <= at && at + n <= s.len(),
        n > 0 ==> s.subrange(at, at + n) == decimal(digits_at(s, at, n)->0, n),
        forall|j: int| at <= j < at + n ==> is_digit(#[trigger] s[j]),
    decreases n,
{
    if n > 0 {
        let m = (n - 1) as nat;
        lemma_digits_at_is_decimal(s, at, m);
        let v = digits_at(s, at, n)->0;
        let u = digits_at(s, at, m)->0;
        let c = s[at + m];
        assert(v == 10 * u + digit_of(c));
        assert(v / 10 == u && v % 10 == digit_of(c));
        assert(digit_char(digit_of(c)) == c);
        lemma_decimal_len(u, m);
        lemma_decimal_len(v, n);
        assert forall|i: int| 0 <= i < n implies s.subrange(at, at + n)[i] == decimal(v, n)[i] by {
            if i < m {
                assert(s.subrange(at, at + m)[i] == s[at + i]);
            }
        }
        assert(s.subrange(at, at + n) =~= decimal(v, n));
    }
}

/// A run of digits is as long as its first `n` digits and the run after them.
pub proof fn lemma_digit_run_prefix(s: Seq<char>, at: int, n: nat)
    requires
        0 <= at,
        at + n <= s.len(),
        forall|j: int| at <= j < at + n ==> is_digit(#[trigger] s[j]),
    ensures
        digit_run(s, at) == n + digit_run(s, at + n),
    decreases n,
{
    if n > 0 {
        assert(is_digit(s[at]));
        lemma_digit_run_prefix(s, at + 1, (n - 1) as nat);
    }
}

/// The digits of a run are digits, and the run ends within the text.
pub proof fn lemma_digit_run_digits(s: Seq<char>, at: int)
    requires
        0 <= at,
    ensures
        at + digit_run(s, at) <= s.len() || digit_run(s, at) == 0,
        forall|j: int| at <= j < at + digit_run(s, at) ==> is_digit(#[trigger] s[j]),
        digits_at(s, at, digit_run(s, at)) is Some,
    decreases s.len() - at,
{
    if at < s.len() && is_digit(s[at]) {
        lemma_digit_run_digits(s, at + 1);
        lemma_all_digits_read(s, at, digit_run(s, at));
    }
}

/// Where `n` characters are digits, `digits_at` reads a number.
pub proof fn lemma_all_digits_read(s: Seq<char>, at: int, n: nat)
    requires
        0 <= at,
        at + n <= s.len(),
        forall|j: int| at <= j < at + n ==> is_digit(#[trigger] s[j]),
    ensures
        digits_at(s, at, n) is Some,
    decreases n,
{
    if n > 0 {
        lemma_all_digits_read(s, at, (n - 1) as nat);
        assert(is_digit(s[at + n - 1]));
    }
}

/// Powers of ten grow with the exponent.
pub proof fn lemma_pow10_increases(m: nat, n: nat)
    requires
        m <= n,
    ensures
        1 <= pow10(m) <= pow10(n),
    decreases n,
{
    if n > 0 {
        if m < n {
            lemma_pow10_increases(m, (n - 1) as nat);
        } else {
            lemma_pow10_increases((m - 1) as nat, (n - 1) as nat);
        }
    }
}

/// A character outside of the `n` characters from `at` on does not matter
/// to what `digits_at` reads there.
pub proof fn lemma_digits_at_elsewhere(s: Seq<char>, at: int, n: nat, changed: int, c: char)
    requires
        0 <= changed < s.len(),
        changed < at || at + n <= changed,
    ensures
        digits_at(s.update(changed, c), at, n) == digits_at(s, at, n),
    decreases n,
{
    if n > 0 {
        lemma_digits_at_elsewhere(s, at, (n - 1) as nat, changed, c);
    }
}

/// A character before a run of digits does not matter to the run, nor does
/// one that is no digit and is put after the run.
pub proof fn lemma_digit_run_elsewhere(s: Seq<char>, at: int, changed: int, c: char)
    requires
        0 <= at,
        0 <= changed < s.len(),
        changed < at || (at + digit_run(s, at) <= changed && !is_digit(c)),
    ensures
        digit_run(s.update(changed, c), at) == digit_run(s, at),
    decreases s.len() - at,
{
    if at < s.len() && is_digit(s[at]) {
        lemma_digit_run_elsewhere(s, at + 1, changed, c);
    }
}

/// Reads the number that `n` digits from position `at` write.
pub(crate) fn read_digits(s: &[char], at: usize, n: usize) -> (number: Option<u32>)
    requires
        1 <= n <= 9,
        at + n <= usize::MAX,
    ensures
        number is Some <==> digits_at(s@, at as int, n as nat) is Some,
        number is Some ==> number->0 as int == digits_at(s@, at as int, n as nat)->0,
{
    if s.len() < n || at > s.len() - n {
        return None;
    }
    let mut value: u32 = 0;
    let mut i: usize = 0;
    while i < n
        invariant
            1 <= n <= 9,
            at + n <= s@.len(),
            at + n <= usize::MAX,
            i <= n,
            digits_at(s@, at as int, i as nat) == Some(value as int),
        decreases n - i,
    {
        let c: char = s[at + i];
        if !(c >= '0' && c <= '9') {
            proof {
                if digits_at(s@, at as int, n as nat) is Some {
                    lemma_digits_at_is_decimal(s@, at as int, n as nat);
                    assert(is_digit(s@[at + i]));
                }
            }
            return None;
        }
        proof {
            lemma_digits_at_is_decimal(s@, at as int, i as nat);
            lemma_pow10_values();
            lemma_pow10_increases(i as nat, 8);
        }
        let d: u32 = c as u32 - 48;
        value = value * 10 + d;
        i = i + 1;
    }
    Some(value)
}

/// Whether `s` has the character `c` at position `at`.
pub(crate) fn char_at(s: &[char], at: usize, c: char) -> (found: bool)
    ensures
        found == has_char(s@, at as int, c),
{
    at < s.len() && s[at] == c
}

} // verus!
