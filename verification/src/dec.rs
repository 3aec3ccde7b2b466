//! Decimal rendering and parsing of integers, with a proof that parsing
//! inverts rendering.

use vstd::prelude::*;

verus! {

pub open spec fn is_dec_digit(c: char) -> bool {
    48 <= c as u32 <= 57
}

pub open spec fn digit_val(c: char) -> nat {
    (c as u32 - 48) as nat
}

pub open spec fn digit_char(d: nat) -> char {
    if d == 0 {
        '0'
    } else if d == 1 {
        '1'
    } else if d == 2 {
        '2'
    } else if d == 3 {
        '3'
    } else if d == 4 {
        '4'
    } else if d == 5 {
        '5'
    } else if d == 6 {
        '6'
    } else if d == 7 {
        '7'
    } else if d == 8 {
        '8'
    } else {
        '9'
    }
}

/// The decimal digits of `n`, most significant first.
pub open spec fn dec_chars(n: nat) -> Seq<char>
    decreases n,
{
    if n < 10 {
        seq![digit_char(n)]
    } else {
        dec_chars(n / 10) + seq![digit_char(n % 10)]
    }
}

/// The decimal rendering of a signed integer: a minus sign for negatives,
/// then the digits of the magnitude.
pub open spec fn int_chars(i: int) -> Seq<char> {
    if i < 0 {
        seq!['-'] + dec_chars((-i) as nat)
    } else {
        dec_chars(i as nat)
    }
}

pub proof fn lemma_digit_char_val(d: nat)
    requires
        d < 10,
    ensures
        is_dec_digit(digit_char(d)),
        digit_val(digit_char(d)) == d,
{
}

pub proof fn lemma_dec_chars_digits(n: nat)
    ensures
        dec_chars(n).len() >= 1,
        forall|i: int| 0 <= i < dec_chars(n).len() ==> is_dec_digit(#[trigger] dec_chars(n)[i]),
    decreases n,
{
    if n < 10 {
        lemma_digit_char_val(n);
    } else {
        lemma_dec_chars_digits(n / 10);
        lemma_digit_char_val(n % 10);
        assert forall|i: int| 0 <= i < dec_chars(n).len() implies is_dec_digit(
            #[trigger] dec_chars(n)[i],
        ) by {
            if i < dec_chars(n / 10).len() {
                assert(dec_chars(n)[i] == dec_chars(n / 10)[i]);
            } else {
                assert(dec_chars(n)[i] == digit_char(n % 10));
            }
        }
    }
}

/// Greedy parse of decimal digits starting from `s`, folded onto `acc`;
/// returns the value and the unconsumed suffix.
pub open spec fn parse_digits(s: Seq<char>, acc: nat) -> (nat, Seq<char>)
    decreases s.len(),
{
    if s.len() > 0 && is_dec_digit(s[0]) {
        parse_digits(s.skip(1), acc * 10 + digit_val(s[0]))
    } else {
        (acc, s)
    }
}

/// Parse of a nonempty run of decimal digits; `None` when `s` does not
/// start with a digit.
pub open spec fn parse_nat(s: Seq<char>) -> Option<(nat, Seq<char>)> {
    if s.len() > 0 && is_dec_digit(s[0]) {
        Some(parse_digits(s, 0))
    } else {
        None
    }
}

/// Parse of an optionally minus-signed run of digits.
pub open spec fn parse_int(s: Seq<char>) -> Option<(int, Seq<char>)> {
    if s.len() > 0 && s[0] == '-' {
        match parse_nat(s.skip(1)) {
            Some((n, rest)) => Some((-(n as int), rest)),
            None => None,
        }
    } else {
        match parse_nat(s) {
            Some((n, rest)) => Some((n as int, rest)),
            None => None,
        }
    }
}

pub open spec fn pow10(k: nat) -> nat
    decreases k,
{
    if k == 0 {
        1
    } else {
        10 * pow10((k - 1) as nat)
    }
}

proof fn lemma_parse_digits_shift(n: nat, acc: nat, rest: Seq<char>)
    ensures
        parse_digits(dec_chars(n) + rest, acc) == parse_digits(
            rest,
            acc * pow10(dec_chars(n).len()) + n,
        ),
    decreases n,
{
    lemma_dec_chars_digits(n);
    if n < 10 {
        let s = dec_chars(n) + rest;
        lemma_digit_char_val(n);
        assert(s[0] == digit_char(n));
        assert(s.skip(1) =~= rest);
        assert(pow10(0) == 1);
        assert(pow10(1) == 10);
        assert(acc * 10 + n == acc * pow10(1) + n);
    } else {
        let d = digit_char(n % 10);
        let tail = seq![d] + rest;
        assert(dec_chars(n) + rest =~= dec_chars(n / 10) + tail);
        lemma_parse_digits_shift(n / 10, acc, tail);
        let k = dec_chars(n / 10).len();
        let shift = acc * pow10(k) + n / 10;
        assert(parse_digits(dec_chars(n) + rest, acc) == parse_digits(tail, shift));
        lemma_digit_char_val(n % 10);
        assert(tail[0] == d);
        assert(tail.skip(1) =~= rest);
        assert(parse_digits(tail, shift) == parse_digits(rest, shift * 10 + n % 10));
        assert(dec_chars(n).len() == k + 1);
        assert(pow10(k + 1) == 10 * pow10(k));
        assert(shift * 10 + n % 10 == acc * pow10(k + 1) + n) by {
            assert((acc * pow10(k) + n / 10) * 10 == acc * pow10(k) * 10 + (n / 10) * 10)
                by (nonlinear_arith);
            assert(acc * pow10(k) * 10 == acc * (10 * pow10(k))) by (nonlinear_arith);
            assert((n / 10) * 10 + n % 10 == n) by (nonlinear_arith);
        }
    }
}

/// Parsing inverts rendering: the digits of `n` followed by a suffix that
/// does not begin with a digit parse back to exactly `n` and that suffix.
pub proof fn lemma_parse_nat_inverts(n: nat, rest: Seq<char>)
    requires
        rest.len() == 0 || !is_dec_digit(rest[0]),
    ensures
        parse_nat(dec_chars(n) + rest) == Some((n, rest)),
{
    lemma_dec_chars_digits(n);
    let s = dec_chars(n) + rest;
    assert(s[0] == dec_chars(n)[0]);
    lemma_parse_digits_shift(n, 0, rest);
    assert(0 * pow10(dec_chars(n).len()) == 0);
    assert(parse_digits(rest, n) == (n, rest));
}

/// The signed form: a rendered integer followed by a non-digit suffix
/// parses back to the same integer.
pub proof fn lemma_parse_int_inverts(i: int, rest: Seq<char>)
    requires
        rest.len() == 0 || !is_dec_digit(rest[0]),
    ensures
        parse_int(int_chars(i) + rest) == Some((i, rest)),
{
    if i < 0 {
        let n = (-i) as nat;
        let s = int_chars(i) + rest;
        assert(s[0] == '-');
        assert(!is_dec_digit('-'));
        assert(s.skip(1) =~= dec_chars(n) + rest);
        lemma_parse_nat_inverts(n, rest);
    } else {
        lemma_dec_chars_digits(i as nat);
        let s = int_chars(i) + rest;
        assert(s[0] == dec_chars(i as nat)[0]);
        assert(s[0] != '-');
        lemma_parse_nat_inverts(i as nat, rest);
    }
}

fn digit_char_exec(d: u64) -> (r: char)
    requires
        d < 10,
    ensures
        r == digit_char(d as nat),
{
    match d {
        0 => '0',
        1 => '1',
        2 => '2',
        3 => '3',
        4 => '4',
        5 => '5',
        6 => '6',
        7 => '7',
        8 => '8',
        _ => '9',
    }
}

/// Appends the decimal digits of `n` to `out`.
pub fn push_dec_u64(n: u64, out: &mut Vec<char>)
    ensures
        final(out)@ == old(out)@ + dec_chars(n as nat),
    decreases n,
{
    if n >= 10 {
        push_dec_u64(n / 10, out);
        out.push(digit_char_exec(n % 10));
        proof {
            assert(final(out)@ =~= old(out)@ + dec_chars(n as nat));
        }
    } else {
        out.push(digit_char_exec(n));
        proof {
            assert(final(out)@ =~= old(out)@ + dec_chars(n as nat));
        }
    }
}

/// Appends the decimal rendering of a signed integer to `out`.
pub fn push_dec_i64(i: i64, out: &mut Vec<char>)
    ensures
        final(out)@ == old(out)@ + int_chars(i as int),
{
    if i < 0 {
        out.push('-');
        let m: u64 = if i == i64::MIN {
            9223372036854775808u64
        } else {
            (-i) as u64
        };
        assert(m as nat == (-(i as int)) as nat);
        push_dec_u64(m, out);
        proof {
            assert(final(out)@ =~= old(out)@ + int_chars(i as int));
        }
    } else {
        push_dec_u64(i as u64, out);
    }
}

proof fn lemma_parse_digits_bound(s: Seq<char>, acc: nat)
    ensures
        parse_digits(s, acc).0 >= acc,
    decreases s.len(),
{
    if s.len() > 0 && is_dec_digit(s[0]) {
        lemma_parse_digits_bound(s.skip(1), acc * 10 + digit_val(s[0]));
        assert(acc * 10 >= acc) by (nonlinear_arith);
    }
}

/// Reads a run of decimal digits from `s` starting at `i`. Returns the
/// value and the index just past the digits, or `None` when no digit
/// starts there or the value does not fit in `u64`.
pub fn scan_u64(s: &Vec<char>, i: usize) -> (r: Option<(u64, usize)>)
    requires
        i <= s@.len(),
    ensures
        match r {
            Some(p) => i <= p.1 <= s@.len() && parse_nat(s@.skip(i as int)) == Some(
                (p.0 as nat, s@.skip(p.1 as int)),
            ),
            None => parse_nat(s@.skip(i as int)) is None || parse_nat(
                s@.skip(i as int),
            )->Some_0.0 > u64::MAX,
        },
{
    if i == s.len() || !(48 <= s[i] as u32 && s[i] as u32 <= 57) {
        proof {
            if i < s@.len() {
                assert(s@.skip(i as int)[0] == s@[i as int]);
            }
        }
        assert(parse_nat(s@.skip(i as int)) is None);
        return None;
    }
    let ghost orig = s@.skip(i as int);
    let mut acc: u64 = 0;
    let mut j: usize = i;
    loop
        invariant
            i <= j <= s@.len(),
            orig == s@.skip(i as int),
            j < s@.len() ==> s@[j as int] == s@.skip(i as int)[j - i],
            parse_digits(orig, 0) == parse_digits(s@.skip(j as int), acc as nat),
            parse_nat(orig) is Some,
        decreases s@.len() - j,
    {
        if j == s.len() || !(48 <= s[j] as u32 && s[j] as u32 <= 57) {
            proof {
                if j < s@.len() {
                    assert(s@.skip(j as int)[0] == s@[j as int]);
                }
            }
            assert(parse_digits(s@.skip(j as int), acc as nat) == (acc as nat, s@.skip(j as int)));
            return Some((acc, j));
        }
        let c = s[j];
        let d: u64 = (c as u32 as u64) - 48;
        assert(is_dec_digit(c) && d as nat == digit_val(c));
        let acc10 = match acc.checked_mul(10) {
            Some(v) => v,
            None => {
                proof {
                    lemma_parse_digits_bound(s@.skip(j as int + 1), acc as nat * 10 + d as nat);
                    assert(s@.skip(j as int).skip(1) =~= s@.skip(j as int + 1));
                    assert(acc as nat * 10 + d as nat > u64::MAX);
                }
                return None;
            },
        };
        let acc2 = match acc10.checked_add(d) {
            Some(v) => v,
            None => {
                proof {
                    lemma_parse_digits_bound(s@.skip(j as int + 1), acc as nat * 10 + d as nat);
                    assert(s@.skip(j as int).skip(1) =~= s@.skip(j as int + 1));
                }
                return None;
            },
        };
        proof {
            assert(s@.skip(j as int).skip(1) =~= s@.skip(j as int + 1));
        }
        acc = acc2;
        j = j + 1;
    }
}

/// Reads an optionally minus-signed run of digits; the value must fit in
/// `i64`.
pub fn scan_i64(s: &Vec<char>, i: usize) -> (r: Option<(i64, usize)>)
    requires
        i <= s@.len(),
    ensures
        match r {
            Some(p) => i <= p.1 <= s@.len() && parse_int(s@.skip(i as int)) == Some(
                (p.0 as int, s@.skip(p.1 as int)),
            ),
            None => parse_int(s@.skip(i as int)) is None || parse_int(s@.skip(i as int))->Some_0.0
                > i64::MAX || parse_int(s@.skip(i as int))->Some_0.0 < i64::MIN,
        },
{
    if i < s.len() && s[i] == '-' {
        proof {
            assert(s@.skip(i as int).skip(1) =~= s@.skip(i as int + 1));
        }
        match scan_u64(s, i + 1) {
            Some((n, j)) => {
                if n <= 9223372036854775808u64 {
                    let v: i64 = if n == 9223372036854775808u64 {
                        i64::MIN
                    } else {
                        -(n as i64)
                    };
                    Some((v, j))
                } else {
                    None
                }
            },
            None => None,
        }
    } else {
        assert(i < s@.len() ==> s@.skip(i as int)[0] == s@[i as int]);
        match scan_u64(s, i) {
            Some((n, j)) => {
                if n <= i64::MAX as u64 {
                    Some((n as i64, j))
                } else {
                    None
                }
            },
            None => None,
        }
    }
}

} // verus!
