//! JSON string-body escaping and unescaping, with a proof that unescaping
//! inverts escaping.
//!
//! The escaper emits the canonical form: `\"`, `\\`, `\n`, `\r`, `\t`, `\b`,
//! `\f`, and `\u00XX` for the remaining control characters. The parser also
//! accepts `\/` and upper-case hex digits.

use vstd::prelude::*;

use crate::dec::digit_char;

verus! {

pub open spec fn is_hex_digit(c: char) -> bool {
    48 <= c as u32 <= 57 || 97 <= c as u32 <= 102 || 65 <= c as u32 <= 70
}

pub open spec fn hex_val(c: char) -> nat {
    if 48 <= c as u32 <= 57 {
        (c as u32 - 48) as nat
    } else if 97 <= c as u32 <= 102 {
        (c as u32 - 87) as nat
    } else {
        (c as u32 - 55) as nat
    }
}

pub open spec fn hex_char(d: nat) -> char {
    if d < 10 {
        digit_char(d)
    } else if d == 10 {
        'a'
    } else if d == 11 {
        'b'
    } else if d == 12 {
        'c'
    } else if d == 13 {
        'd'
    } else if d == 14 {
        'e'
    } else {
        'f'
    }
}

pub proof fn lemma_hex_char_val(d: nat)
    requires
        d < 16,
    ensures
        is_hex_digit(hex_char(d)),
        hex_val(hex_char(d)) == d,
{
}

/// How one character appears inside a JSON string body.
pub open spec fn esc_char(c: char) -> Seq<char> {
    if c == '"' {
        seq!['\\', '"']
    } else if c == '\\' {
        seq!['\\', '\\']
    } else if c == '\n' {
        seq!['\\', 'n']
    } else if c == '\r' {
        seq!['\\', 'r']
    } else if c == '\t' {
        seq!['\\', 't']
    } else if c == '\u{8}' {
        seq!['\\', 'b']
    } else if c == '\u{c}' {
        seq!['\\', 'f']
    } else if (c as u32) < 32 {
        seq!['\\', 'u', '0', '0', hex_char((c as u32 / 16) as nat), hex_char((c as u32 % 16) as nat)]
    } else {
        seq![c]
    }
}

/// The escaped form of a whole string body.
pub open spec fn esc_seq(s: Seq<char>) -> Seq<char>
    decreases s.len(),
{
    if s.len() == 0 {
        Seq::empty()
    } else {
        esc_char(s[0]) + esc_seq(s.skip(1))
    }
}

pub proof fn lemma_esc_seq_append(a: Seq<char>, b: Seq<char>)
    ensures
        esc_seq(a + b) == esc_seq(a) + esc_seq(b),
    decreases a.len(),
{
    if a.len() == 0 {
        assert(a + b =~= b);
        assert(esc_seq(a) + esc_seq(b) =~= esc_seq(b));
    } else {
        assert((a + b).skip(1) =~= a.skip(1) + b);
        lemma_esc_seq_append(a.skip(1), b);
        assert((a + b)[0] == a[0]);
        assert(esc_char(a[0]) + (esc_seq(a.skip(1)) + esc_seq(b)) =~= (esc_char(a[0]) + esc_seq(
            a.skip(1),
        )) + esc_seq(b));
    }
}

/// The single-character escapes the parser accepts after a backslash.
pub open spec fn unesc_simple(e: char) -> Option<char> {
    if e == '"' {
        Some('"')
    } else if e == '\\' {
        Some('\\')
    } else if e == '/' {
        Some('/')
    } else if e == 'n' {
        Some('\n')
    } else if e == 'r' {
        Some('\r')
    } else if e == 't' {
        Some('\t')
    } else if e == 'b' {
        Some('\u{8}')
    } else if e == 'f' {
        Some('\u{c}')
    } else {
        None
    }
}

/// Parses a JSON string body up to and including its closing quote;
/// returns the unescaped content and the suffix after the quote.
/// Unicode escapes are supported in the `\u00XX` range.
pub open spec fn parse_jstring(s: Seq<char>) -> Option<(Seq<char>, Seq<char>)>
    decreases s.len(),
{
    if s.len() == 0 {
        None
    } else if s[0] == '"' {
        Some((Seq::empty(), s.skip(1)))
    } else if s[0] == '\\' {
        if s.len() >= 2 && unesc_simple(s[1]) is Some {
            match parse_jstring(s.skip(2)) {
                Some((t, r)) => Some((seq![unesc_simple(s[1])->Some_0] + t, r)),
                None => None,
            }
        } else if s.len() >= 6 && s[1] == 'u' && s[2] == '0' && s[3] == '0' && is_hex_digit(s[4])
            && is_hex_digit(s[5]) {
            match parse_jstring(s.skip(6)) {
                Some((t, r)) => Some(
                    (seq![((16 * hex_val(s[4]) + hex_val(s[5])) as u8) as char] + t, r),
                ),
                None => None,
            }
        } else {
            None
        }
    } else if (s[0] as u32) < 32 {
        None
    } else {
        match parse_jstring(s.skip(1)) {
            Some((t, r)) => Some((seq![s[0]] + t, r)),
            None => None,
        }
    }
}

proof fn lemma_control_char_code(c: char, hi: nat, lo: nat)
    requires
        (c as u32) < 32,
        16 * hi + lo == c as u32,
    ensures
        (((16 * hi + lo) as u8) as char) == c,
{
    assert(((16 * hi + lo) as u8) == ((c as u32) as u8));
    assert((((c as u32) as u8) as char) == c);
}

/// Unescaping inverts escaping: an escaped body, a closing quote, and any
/// suffix parse back to exactly that body and suffix.
pub proof fn lemma_parse_jstring_inverts(x: Seq<char>, rest: Seq<char>)
    ensures
        parse_jstring(esc_seq(x) + seq!['"'] + rest) == Some((x, rest)),
    decreases x.len(),
{
    if x.len() == 0 {
        let s = esc_seq(x) + seq!['"'] + rest;
        assert(s =~= seq!['"'] + rest);
        assert(s[0] == '"');
        assert(s.skip(1) =~= rest);
    } else {
        let c = x[0];
        let xt = x.skip(1);
        lemma_parse_jstring_inverts(xt, rest);
        let t = esc_seq(xt) + seq!['"'] + rest;
        let s = esc_seq(x) + seq!['"'] + rest;
        assert(s =~= esc_char(c) + t);
        assert(seq![c] + xt =~= x);
        if c == '"' || c == '\\' || c == '\n' || c == '\r' || c == '\t' || c == '\u{8}' || c
            == '\u{c}' {
            assert(s[0] == '\\');
            assert(s[1] == esc_char(c)[1]);
            assert(unesc_simple(esc_char(c)[1]) == Some(c));
            assert(s.skip(2) =~= t);
        } else if (c as u32) < 32 {
            let hi = (c as u32 / 16) as nat;
            let lo = (c as u32 % 16) as nat;
            lemma_hex_char_val(hi);
            lemma_hex_char_val(lo);
            assert(s[0] == '\\');
            assert(s[1] == 'u');
            assert(unesc_simple('u') is None);
            assert(s[2] == '0');
            assert(s[3] == '0');
            assert(s[4] == hex_char(hi));
            assert(s[5] == hex_char(lo));
            assert(s.skip(6) =~= t);
            assert(16 * hi + lo == c as u32);
            lemma_control_char_code(c, hi, lo);
        } else {
            assert(esc_char(c) =~= seq![c]);
            assert(s[0] == c);
            assert(s.skip(1) =~= t);
        }
    }
}

fn hex_char_exec(d: u32) -> (r: char)
    requires
        d < 16,
    ensures
        r == hex_char(d as nat),
{
    match d {
        0 => '0',
        1 => '1',
        2 => '2',
        3 => '3',
        4 => '4',
        5 => '5',
        6 => '6',
        7 => '7',
        8 => '8',
        9 => '9',
        10 => 'a',
        11 => 'b',
        12 => 'c',
        13 => 'd',
        14 => 'e',
        _ => 'f',
    }
}

/// Appends the escaped form of `s` to `out`.
pub fn push_escaped(s: &Vec<char>, out: &mut Vec<char>)
    ensures
        final(out)@ == old(out)@ + esc_seq(s@),
{
    let mut i: usize = 0;
    proof {
        assert(out@ =~= old(out)@ + esc_seq(s@.subrange(0, 0)));
    }
    while i < s.len()
        invariant
            i <= s@.len(),
            out@ == old(out)@ + esc_seq(s@.subrange(0, i as int)),
        decreases s@.len() - i,
    {
        let c = s[i];
        if c == '"' {
            out.push('\\');
            out.push('"');
        } else if c == '\\' {
            out.push('\\');
            out.push('\\');
        } else if c == '\n' {
            out.push('\\');
            out.push('n');
        } else if c == '\r' {
            out.push('\\');
            out.push('r');
        } else if c == '\t' {
            out.push('\\');
            out.push('t');
        } else if c == '\u{8}' {
            out.push('\\');
            out.push('b');
        } else if c == '\u{c}' {
            out.push('\\');
            out.push('f');
        } else if (c as u32) < 32 {
            out.push('\\');
            out.push('u');
            out.push('0');
            out.push('0');
            out.push(hex_char_exec(c as u32 / 16));
            out.push(hex_char_exec(c as u32 % 16));
        } else {
            out.push(c);
        }
        proof {
            let pre = s@.subrange(0, i as int);
            assert(s@.subrange(0, i + 1) =~= pre + seq![s@[i as int]]);
            lemma_esc_seq_append(pre, seq![s@[i as int]]);
            assert(seq![s@[i as int]].skip(1) =~= Seq::<char>::empty());
            assert(esc_seq(Seq::<char>::empty()) =~= Seq::<char>::empty());
            assert(esc_char(s@[i as int]) + Seq::<char>::empty() =~= esc_char(s@[i as int]));
            assert(esc_seq(seq![s@[i as int]]) =~= esc_char(s@[i as int]));
            assert(out@ =~= old(out)@ + esc_seq(s@.subrange(0, i + 1)));
        }
        i = i + 1;
    }
    proof {
        assert(s@.subrange(0, s@.len() as int) =~= s@);
    }
}

fn unesc_simple_exec(e: char) -> (r: Option<char>)
    ensures
        r == unesc_simple(e),
{
    if e == '"' {
        Some('"')
    } else if e == '\\' {
        Some('\\')
    } else if e == '/' {
        Some('/')
    } else if e == 'n' {
        Some('\n')
    } else if e == 'r' {
        Some('\r')
    } else if e == 't' {
        Some('\t')
    } else if e == 'b' {
        Some('\u{8}')
    } else if e == 'f' {
        Some('\u{c}')
    } else {
        None
    }
}

fn is_hex_digit_exec(c: char) -> (r: bool)
    ensures
        r == is_hex_digit(c),
{
    let u = c as u32;
    (48 <= u && u <= 57) || (97 <= u && u <= 102) || (65 <= u && u <= 70)
}

fn hex_val_exec(c: char) -> (r: u32)
    requires
        is_hex_digit(c),
    ensures
        r as nat == hex_val(c),
        r < 16,
{
    let u = c as u32;
    if 48 <= u && u <= 57 {
        u - 48
    } else if 97 <= u && u <= 102 {
        u - 87
    } else {
        u - 55
    }
}

/// Reads a JSON string body from `s` starting at `i` (just past the opening
/// quote) up to and including its closing quote; returns the unescaped
/// content and the index just past the quote.
pub fn scan_jstring(s: &Vec<char>, i: usize) -> (r: Option<(Vec<char>, usize)>)
    requires
        i <= s@.len(),
    ensures
        match r {
            Some(p) => i <= p.1 <= s@.len() && parse_jstring(s@.skip(i as int)) == Some(
                (p.0@, s@.skip(p.1 as int)),
            ),
            None => parse_jstring(s@.skip(i as int)) is None,
        },
{
    let mut acc: Vec<char> = Vec::new();
    let mut j: usize = i;
    loop
        invariant
            i <= j <= s@.len(),
            parse_jstring(s@.skip(i as int)) is Some <==> parse_jstring(s@.skip(j as int)) is Some,
            parse_jstring(s@.skip(j as int)) matches Some((t, r)) ==> parse_jstring(
                s@.skip(i as int),
            ) == Some((acc@ + t, r)),
        decreases s@.len() - j,
    {
        if j == s.len() {
            assert(s@.skip(j as int).len() == 0);
            return None;
        }
        let c = s[j];
        proof {
            assert(s@.skip(j as int)[0] == s@[j as int]);
        }
        if c == '"' {
            proof {
                assert(s@.skip(j as int).skip(1) =~= s@.skip(j + 1));
                assert(acc@ + Seq::<char>::empty() =~= acc@);
            }
            return Some((acc, j + 1));
        } else if c == '\\' {
            if j + 1 == s.len() {
                assert(parse_jstring(s@.skip(j as int)) is None);
                return None;
            }
            let e = s[j + 1];
            proof {
                assert(s@.skip(j as int)[1] == s@[j + 1]);
                assert(s@.skip(j as int).len() >= 2);
            }
            match unesc_simple_exec(e) {
                Some(u) => {
                    proof {
                        assert(s@.skip(j as int).skip(2) =~= s@.skip(j + 2));
                        let pr = parse_jstring(s@.skip(j + 2));
                        if pr is Some {
                            let t = pr->Some_0.0;
                            assert(acc@ + (seq![u] + t) =~= (acc@ + seq![u]) + t);
                        }
                    }
                    acc.push(u);
                    j = j + 2;
                },
                None => {
                    if e != 'u' {
                        assert(parse_jstring(s@.skip(j as int)) is None);
                        return None;
                    }
                    if s.len() - j < 6 {
                        assert(s@.skip(j as int).len() < 6);
                        assert(parse_jstring(s@.skip(j as int)) is None);
                        return None;
                    }
                    proof {
                        assert(s@.skip(j as int)[2] == s@[j + 2]);
                        assert(s@.skip(j as int)[3] == s@[j + 3]);
                        assert(s@.skip(j as int)[4] == s@[j + 4]);
                        assert(s@.skip(j as int)[5] == s@[j + 5]);
                    }
                    if !(s[j + 2] == '0' && s[j + 3] == '0') {
                        assert(parse_jstring(s@.skip(j as int)) is None);
                        return None;
                    }
                    if !is_hex_digit_exec(s[j + 4]) || !is_hex_digit_exec(s[j + 5]) {
                        assert(parse_jstring(s@.skip(j as int)) is None);
                        return None;
                    }
                    let code: u32 = 16 * hex_val_exec(s[j + 4]) + hex_val_exec(s[j + 5]);
                    let u: char = (code as u8) as char;
                    proof {
                        assert(s@.skip(j as int).skip(6) =~= s@.skip(j + 6));
                        let pr = parse_jstring(s@.skip(j + 6));
                        if pr is Some {
                            let t = pr->Some_0.0;
                            assert(acc@ + (seq![u] + t) =~= (acc@ + seq![u]) + t);
                        }
                    }
                    acc.push(u);
                    j = j + 6;
                },
            }
        } else if (c as u32) < 32 {
            assert(parse_jstring(s@.skip(j as int)) is None);
            return None;
        } else {
            proof {
                assert(s@.skip(j as int).skip(1) =~= s@.skip(j + 1));
                let pr = parse_jstring(s@.skip(j + 1));
                if pr is Some {
                    let t = pr->Some_0.0;
                    assert(acc@ + (seq![c] + t) =~= (acc@ + seq![c]) + t);
                }
            }
            acc.push(c);
            j = j + 1;
        }
    }
}

} // verus!
