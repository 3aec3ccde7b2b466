//! The canonical wire form of every envelope: a specification-level encoder
//! and decoder over character sequences, and the proof that decoding inverts
//! encoding. The concrete field spellings and their mixed casing are part of
//! the protocol and are reproduced exactly.

use vstd::prelude::*;

use crate::dec::{dec_chars, int_chars, is_dec_digit, parse_int, parse_nat};
use crate::jtext::{esc_char, esc_seq, lemma_parse_jstring_inverts, parse_jstring};
use crate::ws::{ActionCommandV, ActionResultV, WsMessageV};

verus! {

// ---------------------------------------------------------------------------
// Encoding
// ---------------------------------------------------------------------------
/// A JSON `null` or an unsigned number.
pub open spec fn enc_opt_nat(o: Option<nat>) -> Seq<char> {
    match o {
        Some(n) => dec_chars(n),
        None => "null"@,
    }
}

/// A JSON `null` or a quoted, escaped string.
pub open spec fn enc_opt_string(o: Option<Seq<char>>) -> Seq<char> {
    match o {
        Some(s) => "\""@ + esc_seq(s) + "\""@,
        None => "null"@,
    }
}

pub open spec fn enc_bool(b: bool) -> Seq<char> {
    if b {
        "true"@
    } else {
        "false"@
    }
}

/// A JSON `null` or a raw, already-encoded JSON value.
pub open spec fn enc_raw(o: Option<Seq<char>>) -> Seq<char> {
    match o {
        Some(d) => d,
        None => "null"@,
    }
}

pub open spec fn spec_encode_cmd(c: ActionCommandV) -> Seq<char> {
    match c {
        ActionCommandV::NavigateTo { url } => "{\"type\":\""@ + "navigate_to\",\"url\":\""@
            + esc_seq(url) + "\"}"@,
        ActionCommandV::ClickElement { ref_id } => "{\"type\":\""@ + "click_element\",\"ref\":"@
            + int_chars(ref_id) + "}"@,
        ActionCommandV::TypeText { ref_id, text } => "{\"type\":\""@ + "type_text\",\"ref\":"@
            + int_chars(ref_id) + ",\"text\":\""@ + esc_seq(text) + "\"}"@,
        ActionCommandV::ScrollTo { x, y } => "{\"type\":\""@ + "scroll_to\",\"x\":"@ + int_chars(x)
            + ",\"y\":"@ + int_chars(y) + "}"@,
        ActionCommandV::GetPageContent { max_length } => "{\"type\":\""@
            + "get_page_content\",\"max_length\":"@ + enc_opt_nat(max_length) + "}"@,
        ActionCommandV::GetInteractiveElements { limit } => "{\"type\":\""@
            + "get_interactive_elements\",\"limit\":"@ + enc_opt_nat(limit) + "}"@,
    }
}

pub open spec fn spec_encode_msg(m: WsMessageV) -> Seq<char> {
    match m {
        WsMessageV::Ping => "{\"type\":\""@ + "Ping\"}"@,
        WsMessageV::Pong => "{\"type\":\""@ + "Pong\"}"@,
        WsMessageV::SessionInit { session_id } => "{\"type\":\""@
            + "session_init\",\"data\":{\"session_id\":\""@ + esc_seq(session_id) + "\"}}"@,
        WsMessageV::SessionUpdate { url, title } => "{\"type\":\""@
            + "SessionUpdate\",\"data\":{\"url\":\""@ + esc_seq(url) + "\",\"title\":"@
            + enc_opt_string(title) + "}}"@,
        WsMessageV::ActionRequest { request_id, command } => "{\"type\":\""@
            + "action_request\",\"data\":{\"request_id\":\""@ + esc_seq(request_id)
            + "\",\"command\":"@ + spec_encode_cmd(command) + "}}"@,
        WsMessageV::ActionResult(r) => "{\"type\":\""@
            + "ActionResult\",\"data\":{\"request_id\":\""@ + esc_seq(r.request_id)
            + "\",\"success\":"@ + enc_bool(r.success) + ",\"error\":"@ + enc_opt_string(r.error)
            + ",\"data\":"@ + enc_raw(r.data) + "}}"@,
        WsMessageV::Unknown => "{\"type\":\""@ + "Unknown\"}"@,
    }
}

// ---------------------------------------------------------------------------
// Decoding
// ---------------------------------------------------------------------------
/// Consumes the literal `l` from the front of `s`.
pub open spec fn parse_lit(s: Seq<char>, l: Seq<char>) -> Option<Seq<char>> {
    if s.len() >= l.len() && s.subrange(0, l.len() as int) == l {
        Some(s.skip(l.len() as int))
    } else {
        None
    }
}

/// Scans one raw JSON value: returns the index of the first `}`, `]` or `,`
/// that closes it (bracket depth zero, outside any string). The value's
/// inner syntax is not checked; the payload is opaque to the backend.
pub open spec fn scan_raw(s: Seq<char>, i: int, depth: nat, in_str: bool, esc: bool) -> Option<int>
    decreases s.len() - i,
{
    if i < 0 || i >= s.len() {
        None
    } else if in_str {
        if esc {
            scan_raw(s, i + 1, depth, true, false)
        } else if s[i] == '\\' {
            scan_raw(s, i + 1, depth, true, true)
        } else if s[i] == '"' {
            scan_raw(s, i + 1, depth, false, false)
        } else {
            scan_raw(s, i + 1, depth, true, false)
        }
    } else {
        if s[i] == '"' {
            scan_raw(s, i + 1, depth, true, false)
        } else if s[i] == '{' || s[i] == '[' {
            scan_raw(s, i + 1, depth + 1, false, false)
        } else if s[i] == '}' || s[i] == ']' {
            if depth == 0 {
                Some(i)
            } else {
                scan_raw(s, i + 1, (depth - 1) as nat, false, false)
            }
        } else if s[i] == ',' && depth == 0 {
            Some(i)
        } else {
            scan_raw(s, i + 1, depth, false, false)
        }
    }
}

/// A raw payload the canonical encoder may splice after `"data":`: one
/// balanced JSON value, closed exactly at its end, and not the spelling
/// `null` (the decoder reads that as an absent payload).
pub open spec fn json_datum(d: Seq<char>) -> bool {
    &&& d.len() > 0
    &&& d != "null"@
    &&& scan_raw(d + seq!['}'], 0, 0, false, false) == Some(d.len() as int)
}


/// Skips JSON whitespace.
pub open spec fn skip_ws(s: Seq<char>) -> Seq<char>
    decreases s.len(),
{
    if s.len() > 0 && (s[0] == ' ' || s[0] == '\n' || s[0] == '\t' || s[0] == '\r') {
        skip_ws(s.skip(1))
    } else {
        s
    }
}

/// Decodes a command object (suffix style: returns the unread suffix).
pub open spec fn spec_decode_cmd(s: Seq<char>) -> Option<(ActionCommandV, Seq<char>)> {
    match parse_lit(s, "{\"type\":\""@) {
        None => None,
        Some(c0) => {
            if parse_lit(c0, "navigate_to\",\"url\":\""@) is Some {
                let c1 = parse_lit(c0, "navigate_to\",\"url\":\""@)->Some_0;
                match parse_jstring(c1) {
                    Some((url, c2)) => match parse_lit(c2, "}"@) {
                        Some(rest) => Some((ActionCommandV::NavigateTo { url }, rest)),
                        None => None,
                    },
                    None => None,
                }
            } else if parse_lit(c0, "click_element\",\"ref\":"@) is Some {
                let c1 = parse_lit(c0, "click_element\",\"ref\":"@)->Some_0;
                match parse_int(c1) {
                    Some((v, c2)) => if i32::MIN <= v <= i32::MAX {
                        match parse_lit(c2, "}"@) {
                            Some(rest) => Some((ActionCommandV::ClickElement { ref_id: v }, rest)),
                            None => None,
                        }
                    } else {
                        None
                    },
                    None => None,
                }
            } else if parse_lit(c0, "type_text\",\"ref\":"@) is Some {
                let c1 = parse_lit(c0, "type_text\",\"ref\":"@)->Some_0;
                match parse_int(c1) {
                    Some((v, c2)) => if i32::MIN <= v <= i32::MAX {
                        match parse_lit(c2, ",\"text\":\""@) {
                            Some(c3) => match parse_jstring(c3) {
                                Some((text, c4)) => match parse_lit(c4, "}"@) {
                                    Some(rest) => Some(
                                        (ActionCommandV::TypeText { ref_id: v, text }, rest),
                                    ),
                                    None => None,
                                },
                                None => None,
                            },
                            None => None,
                        }
                    } else {
                        None
                    },
                    None => None,
                }
            } else if parse_lit(c0, "scroll_to\",\"x\":"@) is Some {
                let c1 = parse_lit(c0, "scroll_to\",\"x\":"@)->Some_0;
                match parse_int(c1) {
                    Some((x, c2)) => if i32::MIN <= x <= i32::MAX {
                        match parse_lit(c2, ",\"y\":"@) {
                            Some(c3) => match parse_int(c3) {
                                Some((y, c4)) => if i32::MIN <= y <= i32::MAX {
                                    match parse_lit(c4, "}"@) {
                                        Some(rest) => Some((ActionCommandV::ScrollTo { x, y }, rest)),
                                        None => None,
                                    }
                                } else {
                                    None
                                },
                                None => None,
                            },
                            None => None,
                        }
                    } else {
                        None
                    },
                    None => None,
                }
            } else if parse_lit(c0, "get_page_content\",\"max_length\":"@) is Some {
                let c1 = parse_lit(c0, "get_page_content\",\"max_length\":"@)->Some_0;
                match spec_decode_opt_nat(c1) {
                    Some((o, c2)) => match parse_lit(c2, "}"@) {
                        Some(rest) => Some((ActionCommandV::GetPageContent { max_length: o }, rest)),
                        None => None,
                    },
                    None => None,
                }
            } else if parse_lit(c0, "get_interactive_elements\",\"limit\":"@) is Some {
                let c1 = parse_lit(c0, "get_interactive_elements\",\"limit\":"@)->Some_0;
                match spec_decode_opt_nat(c1) {
                    Some((o, c2)) => match parse_lit(c2, "}"@) {
                        Some(rest) => Some(
                            (ActionCommandV::GetInteractiveElements { limit: o }, rest),
                        ),
                        None => None,
                    },
                    None => None,
                }
            } else {
                None
            }
        },
    }
}

/// A `null` or a number that fits the platform's `usize`.
pub open spec fn spec_decode_opt_nat(s: Seq<char>) -> Option<(Option<nat>, Seq<char>)> {
    if parse_lit(s, "null"@) is Some {
        Some((None, parse_lit(s, "null"@)->Some_0))
    } else {
        match parse_nat(s) {
            Some((n, rest)) => if n <= usize::MAX as nat {
                Some((Some(n), rest))
            } else {
                None
            },
            None => None,
        }
    }
}

/// A `null` or a quoted string.
pub open spec fn spec_decode_opt_string(s: Seq<char>) -> Option<(Option<Seq<char>>, Seq<char>)> {
    if parse_lit(s, "null"@) is Some {
        Some((None, parse_lit(s, "null"@)->Some_0))
    } else {
        match parse_lit(s, "\""@) {
            Some(r) => match parse_jstring(r) {
                Some((t, rest)) => Some((Some(t), rest)),
                None => None,
            },
            None => None,
        }
    }
}

pub open spec fn spec_decode_bool(s: Seq<char>) -> Option<(bool, Seq<char>)> {
    if parse_lit(s, "true"@) is Some {
        Some((true, parse_lit(s, "true"@)->Some_0))
    } else if parse_lit(s, "false"@) is Some {
        Some((false, parse_lit(s, "false"@)->Some_0))
    } else {
        None
    }
}

/// The body of an `ActionResult` envelope after its `request_id`.
pub open spec fn spec_decode_result_tail(rid: Seq<char>, r3: Seq<char>) -> Option<WsMessageV> {
    match parse_lit(r3, ",\"success\":"@) {
        None => None,
        Some(r4) => match spec_decode_bool(r4) {
            None => None,
            Some((succ, r5)) => match parse_lit(r5, ",\"error\":"@) {
                None => None,
                Some(r6) => match spec_decode_opt_string(r6) {
                    None => None,
                    Some((err, r7)) => match parse_lit(r7, ",\"data\":"@) {
                        None => None,
                        Some(r8) => {
                            if r8 == "null}}"@ {
                                Some(
                                    WsMessageV::ActionResult(
                                        ActionResultV {
                                            request_id: rid,
                                            success: succ,
                                            error: err,
                                            data: None,
                                        },
                                    ),
                                )
                            } else {
                                match scan_raw(r8, 0, 0, false, false) {
                                    Some(n) => if n > 0 && r8.skip(n) == "}}"@ {
                                        Some(
                                            WsMessageV::ActionResult(
                                                ActionResultV {
                                                    request_id: rid,
                                                    success: succ,
                                                    error: err,
                                                    data: Some(r8.subrange(0, n)),
                                                },
                                            ),
                                        )
                                    } else {
                                        None
                                    },
                                    None => None,
                                }
                            }
                        },
                    },
                },
            },
        },
    }
}

/// Decodes a whole envelope. The discriminant is expected first, as the
/// canonical form has it; a well-formed tag that matches no known envelope
/// yields `Unknown`.
pub open spec fn spec_decode_msg(s: Seq<char>) -> Option<WsMessageV> {
    match parse_lit(s, "{\"type\":\""@) {
        None => None,
        Some(r) => {
            if r == "Ping\"}"@ {
                Some(WsMessageV::Ping)
            } else if r == "Pong\"}"@ {
                Some(WsMessageV::Pong)
            } else if parse_lit(r, "session_init\",\"data\":{\"session_id\":\""@) is Some {
                let r2 = parse_lit(r, "session_init\",\"data\":{\"session_id\":\""@)->Some_0;
                match parse_jstring(r2) {
                    Some((sid, r3)) => if r3 == "}}"@ {
                        Some(WsMessageV::SessionInit { session_id: sid })
                    } else {
                        None
                    },
                    None => None,
                }
            } else if parse_lit(r, "SessionUpdate\",\"data\":{\"url\":\""@) is Some {
                let r2 = parse_lit(r, "SessionUpdate\",\"data\":{\"url\":\""@)->Some_0;
                match parse_jstring(r2) {
                    Some((url, r3)) => match parse_lit(r3, ",\"title\":"@) {
                        Some(r4) => match spec_decode_opt_string(r4) {
                            Some((title, r5)) => if r5 == "}}"@ {
                                Some(WsMessageV::SessionUpdate { url, title })
                            } else {
                                None
                            },
                            None => None,
                        },
                        None => None,
                    },
                    None => None,
                }
            } else if parse_lit(r, "action_request\",\"data\":{\"request_id\":\""@) is Some {
                let r2 = parse_lit(r, "action_request\",\"data\":{\"request_id\":\""@)->Some_0;
                match parse_jstring(r2) {
                    Some((rid, r3)) => match parse_lit(r3, ",\"command\":"@) {
                        Some(r4) => match spec_decode_cmd(r4) {
                            Some((command, r5)) => if r5 == "}}"@ {
                                Some(WsMessageV::ActionRequest { request_id: rid, command })
                            } else {
                                None
                            },
                            None => None,
                        },
                        None => None,
                    },
                    None => None,
                }
            } else if parse_lit(r, "ActionResult\",\"data\":{\"request_id\":\""@) is Some {
                let r2 = parse_lit(r, "ActionResult\",\"data\":{\"request_id\":\""@)->Some_0;
                match parse_jstring(r2) {
                    Some((rid, r3)) => spec_decode_result_tail(rid, r3),
                    None => None,
                }
            } else {
                // Forward compatibility: any well-formed tag decodes to Unknown.
                match parse_jstring(r) {
                    Some(_) => Some(WsMessageV::Unknown),
                    None => None,
                }
            }
        },
    }
}

// ---------------------------------------------------------------------------
// Well-formedness for the round trip
// ---------------------------------------------------------------------------
pub open spec fn wf_cmd(c: ActionCommandV) -> bool {
    match c {
        ActionCommandV::NavigateTo { url } => true,
        ActionCommandV::ClickElement { ref_id } => i32::MIN <= ref_id <= i32::MAX,
        ActionCommandV::TypeText { ref_id, text } => i32::MIN <= ref_id <= i32::MAX,
        ActionCommandV::ScrollTo { x, y } => i32::MIN <= x <= i32::MAX && i32::MIN <= y <= i32::MAX,
        ActionCommandV::GetPageContent { max_length } => match max_length {
            Some(n) => n <= usize::MAX as nat,
            None => true,
        },
        ActionCommandV::GetInteractiveElements { limit } => match limit {
            Some(n) => n <= usize::MAX as nat,
            None => true,
        },
    }
}

/// The envelopes the canonical encoder produces: integer fields fit their
/// machine types, and a raw payload is one balanced JSON value other than
/// `null`. `Unknown` carries nothing and is well formed.
pub open spec fn wf_msg(m: WsMessageV) -> bool {
    match m {
        WsMessageV::ActionRequest { request_id, command } => wf_cmd(command),
        WsMessageV::ActionResult(r) => match r.data {
            Some(d) => json_datum(d),
            None => true,
        },
        _ => true,
    }
}

// ---------------------------------------------------------------------------
// The round trip
// ---------------------------------------------------------------------------
pub proof fn lemma_parse_lit_take(l: Seq<char>, rest: Seq<char>)
    ensures
        parse_lit(l + rest, l) == Some(rest),
{
    let s = l + rest;
    assert(s.subrange(0, l.len() as int) =~= l);
    assert(s.skip(l.len() as int) =~= rest);
}

pub proof fn lemma_parse_lit_mismatch(s: Seq<char>, l: Seq<char>, k: int)
    requires
        0 <= k < l.len(),
        k < s.len(),
        s[k] != l[k],
    ensures
        parse_lit(s, l) is None,
{
    if s.len() >= l.len() && s.subrange(0, l.len() as int) == l {
        assert(s.subrange(0, l.len() as int)[k] == s[k]);
    }
}

proof fn refute_eq_at(r: Seq<char>, l: Seq<char>, k: int)
    requires
        0 <= k < l.len(),
        k < r.len(),
        r[k] != l[k],
    ensures
        r != l,
{
}

/// Escaping is the identity on strings with no quote, backslash or control
/// character.
proof fn lemma_esc_seq_plain(s: Seq<char>)
    requires
        forall|i: int|
            0 <= i < s.len() ==> s[i] != '"' && s[i] != '\\' && (#[trigger] s[i] as u32) >= 32,
    ensures
        esc_seq(s) == s,
    decreases s.len(),
{
    if s.len() == 0 {
        assert(esc_seq(s) =~= s);
    } else {
        lemma_esc_seq_plain(s.skip(1));
        assert(esc_char(s[0]) =~= seq![s[0]]);
        assert(seq![s[0]] + s.skip(1) =~= s);
    }
}

proof fn lemma_scan_raw_bounds(s: Seq<char>, i: int, depth: nat, in_str: bool, esc: bool)
    requires
        scan_raw(s, i, depth, in_str, esc) is Some,
    ensures
        i <= scan_raw(s, i, depth, in_str, esc)->Some_0 < s.len(),
    decreases s.len() - i,
{
    if i < 0 || i >= s.len() {
    } else if in_str {
        if esc {
            lemma_scan_raw_bounds(s, i + 1, depth, true, false);
        } else if s[i] == '\\' {
            lemma_scan_raw_bounds(s, i + 1, depth, true, true);
        } else if s[i] == '"' {
            lemma_scan_raw_bounds(s, i + 1, depth, false, false);
        } else {
            lemma_scan_raw_bounds(s, i + 1, depth, true, false);
        }
    } else {
        if s[i] == '"' {
            lemma_scan_raw_bounds(s, i + 1, depth, true, false);
        } else if s[i] == '{' || s[i] == '[' {
            lemma_scan_raw_bounds(s, i + 1, depth + 1, false, false);
        } else if s[i] == '}' || s[i] == ']' {
            if depth == 0 {
            } else {
                lemma_scan_raw_bounds(s, i + 1, (depth - 1) as nat, false, false);
            }
        } else if s[i] == ',' && depth == 0 {
        } else {
            lemma_scan_raw_bounds(s, i + 1, depth, false, false);
        }
    }
}

/// The scanner never looks past the position where it stops, so a scan that
/// stops inside the common prefix of two inputs gives the same answer on
/// both.
proof fn lemma_scan_raw_extend(
    s1: Seq<char>,
    s2: Seq<char>,
    n: int,
    i: int,
    depth: nat,
    in_str: bool,
    esc: bool,
)
    requires
        0 <= i,
        scan_raw(s1, i, depth, in_str, esc) == Some(n),
        n < s2.len(),
        forall|k: int| i <= k <= n ==> s1[k] == s2[k],
    ensures
        scan_raw(s2, i, depth, in_str, esc) == Some(n),
    decreases s1.len() - i,
{
    lemma_scan_raw_bounds(s1, i, depth, in_str, esc);
    assert(s1[i] == s2[i]);
    if in_str {
        if esc {
            lemma_scan_raw_extend(s1, s2, n, i + 1, depth, true, false);
        } else if s1[i] == '\\' {
            lemma_scan_raw_extend(s1, s2, n, i + 1, depth, true, true);
        } else if s1[i] == '"' {
            lemma_scan_raw_extend(s1, s2, n, i + 1, depth, false, false);
        } else {
            lemma_scan_raw_extend(s1, s2, n, i + 1, depth, true, false);
        }
    } else {
        if s1[i] == '"' {
            lemma_scan_raw_extend(s1, s2, n, i + 1, depth, true, false);
        } else if s1[i] == '{' || s1[i] == '[' {
            lemma_scan_raw_extend(s1, s2, n, i + 1, depth + 1, false, false);
        } else if s1[i] == '}' || s1[i] == ']' {
            if depth == 0 {
            } else {
                lemma_scan_raw_extend(s1, s2, n, i + 1, (depth - 1) as nat, false, false);
            }
        } else if s1[i] == ',' && depth == 0 {
        } else {
            lemma_scan_raw_extend(s1, s2, n, i + 1, depth, false, false);
        }
    }
}

proof fn lemma_opt_string_roundtrip(o: Option<Seq<char>>, rest: Seq<char>)
    ensures
        spec_decode_opt_string(enc_opt_string(o) + rest) == Some((o, rest)),
{
    reveal_strlit("null");
    reveal_strlit("\"");
    match o {
        None => {
            assert(enc_opt_string(o) + rest =~= "null"@ + rest);
            lemma_parse_lit_take("null"@, rest);
        },
        Some(t) => {
            let s = enc_opt_string(o) + rest;
            let tail = esc_seq(t) + (seq!['"'] + rest);
            assert(s =~= "\""@ + tail);
            assert(s[0] == '"');
            assert("null"@[0] == 'n');
            lemma_parse_lit_mismatch(s, "null"@, 0);
            lemma_parse_lit_take("\""@, tail);
            lemma_parse_jstring_inverts(t, rest);
            assert(tail =~= esc_seq(t) + seq!['"'] + rest);
        },
    }
}

proof fn lemma_opt_nat_roundtrip(o: Option<nat>, rest: Seq<char>)
    requires
        rest.len() > 0,
        !is_dec_digit(rest[0]),
        o matches Some(n) ==> n <= usize::MAX as nat,
    ensures
        spec_decode_opt_nat(enc_opt_nat(o) + rest) == Some((o, rest)),
{
    reveal_strlit("null");
    match o {
        None => {
            assert(enc_opt_nat(o) + rest =~= "null"@ + rest);
            lemma_parse_lit_take("null"@, rest);
            let s = "null"@ + rest;
            // the digit branch is not reached: the null literal matched
        },
        Some(n) => {
            let s = enc_opt_nat(o) + rest;
            crate::dec::lemma_dec_chars_digits(n);
            assert(s[0] == dec_chars(n)[0]);
            assert(is_dec_digit(s[0]));
            assert("null"@[0] == 'n');
            assert(!is_dec_digit('n'));
            lemma_parse_lit_mismatch(s, "null"@, 0);
            crate::dec::lemma_parse_nat_inverts(n, rest);
        },
    }
}

proof fn lemma_bool_roundtrip(b: bool, rest: Seq<char>)
    ensures
        spec_decode_bool(enc_bool(b) + rest) == Some((b, rest)),
{
    reveal_strlit("true");
    reveal_strlit("false");
    if b {
        lemma_parse_lit_take("true"@, rest);
    } else {
        let s = "false"@ + rest;
        assert(s[0] == 'f');
        assert("true"@[0] == 't');
        lemma_parse_lit_mismatch(s, "true"@, 0);
        lemma_parse_lit_take("false"@, rest);
    }
}

/// Decoding inverts encoding for command objects, with any suffix behind.
#[verifier::rlimit(50)]
pub proof fn lemma_cmd_roundtrip(c: ActionCommandV, rest: Seq<char>)
    requires
        wf_cmd(c),
    ensures
        spec_decode_cmd(spec_encode_cmd(c) + rest) == Some((c, rest)),
{
    let s = spec_encode_cmd(c) + rest;
    let h = "{\"type\":\""@;
    reveal_strlit("{\"type\":\"");
    reveal_strlit("navigate_to\",\"url\":\"");
    reveal_strlit("click_element\",\"ref\":");
    reveal_strlit("type_text\",\"ref\":");
    reveal_strlit("scroll_to\",\"x\":");
    reveal_strlit("get_page_content\",\"max_length\":");
    reveal_strlit("get_interactive_elements\",\"limit\":");
    reveal_strlit("}");
    reveal_strlit("\"}");
    reveal_strlit(",\"text\":\"");
    reveal_strlit(",\"y\":");
    let l_nav = "navigate_to\",\"url\":\""@;
    let l_click = "click_element\",\"ref\":"@;
    let l_type = "type_text\",\"ref\":"@;
    let l_scroll = "scroll_to\",\"x\":"@;
    let l_gpc = "get_page_content\",\"max_length\":"@;
    let l_gie = "get_interactive_elements\",\"limit\":"@;
    match c {
        ActionCommandV::NavigateTo { url } => {
            let tail0 = esc_seq(url) + (seq!['"'] + ("}"@ + rest));
            assert(s =~= h + (l_nav + tail0));
            lemma_parse_lit_take(h, l_nav + tail0);
            lemma_parse_lit_take(l_nav, tail0);
            lemma_parse_jstring_inverts(url, "}"@ + rest);
            assert(tail0 =~= esc_seq(url) + seq!['"'] + ("}"@ + rest));
            lemma_parse_lit_take("}"@, rest);
        },
        ActionCommandV::ClickElement { ref_id } => {
            let tail0 = int_chars(ref_id) + ("}"@ + rest);
            assert(s =~= h + (l_click + tail0));
            lemma_parse_lit_take(h, l_click + tail0);
            let c0 = l_click + tail0;
            assert(c0[0] == 'c');
            assert(l_nav[0] == 'n');
            lemma_parse_lit_mismatch(c0, l_nav, 0);
            lemma_parse_lit_take(l_click, tail0);
            assert(("}"@ + rest)[0] == '}');
            assert(!is_dec_digit('}'));
            crate::dec::lemma_parse_int_inverts(ref_id, "}"@ + rest);
            lemma_parse_lit_take("}"@, rest);
        },
        ActionCommandV::TypeText { ref_id, text } => {
            let tail1 = ",\"text\":\""@ + (esc_seq(text) + (seq!['"'] + ("}"@ + rest)));
            let tail0 = int_chars(ref_id) + tail1;
            assert(s =~= h + (l_type + tail0));
            lemma_parse_lit_take(h, l_type + tail0);
            let c0 = l_type + tail0;
            assert(c0[0] == 't');
            assert(l_nav[0] == 'n');
            assert(l_click[0] == 'c');
            lemma_parse_lit_mismatch(c0, l_nav, 0);
            lemma_parse_lit_mismatch(c0, l_click, 0);
            lemma_parse_lit_take(l_type, tail0);
            assert(tail1[0] == ',');
            assert(!is_dec_digit(','));
            crate::dec::lemma_parse_int_inverts(ref_id, tail1);
            let tail2 = esc_seq(text) + (seq!['"'] + ("}"@ + rest));
            lemma_parse_lit_take(",\"text\":\""@, tail2);
            lemma_parse_jstring_inverts(text, "}"@ + rest);
            assert(tail2 =~= esc_seq(text) + seq!['"'] + ("}"@ + rest));
            lemma_parse_lit_take("}"@, rest);
        },
        ActionCommandV::ScrollTo { x, y } => {
            let tail1 = ",\"y\":"@ + (int_chars(y) + ("}"@ + rest));
            let tail0 = int_chars(x) + tail1;
            assert(s =~= h + (l_scroll + tail0));
            lemma_parse_lit_take(h, l_scroll + tail0);
            let c0 = l_scroll + tail0;
            assert(c0[0] == 's');
            assert(l_nav[0] == 'n');
            assert(l_click[0] == 'c');
            assert(l_type[0] == 't');
            lemma_parse_lit_mismatch(c0, l_nav, 0);
            lemma_parse_lit_mismatch(c0, l_click, 0);
            lemma_parse_lit_mismatch(c0, l_type, 0);
            lemma_parse_lit_take(l_scroll, tail0);
            assert(tail1[0] == ',');
            assert(!is_dec_digit(','));
            crate::dec::lemma_parse_int_inverts(x, tail1);
            lemma_parse_lit_take(",\"y\":"@, int_chars(y) + ("}"@ + rest));
            assert(("}"@ + rest)[0] == '}');
            assert(!is_dec_digit('}'));
            crate::dec::lemma_parse_int_inverts(y, "}"@ + rest);
            lemma_parse_lit_take("}"@, rest);
        },
        ActionCommandV::GetPageContent { max_length } => {
            let tail0 = enc_opt_nat(max_length) + ("}"@ + rest);
            assert(s =~= h + (l_gpc + tail0));
            lemma_parse_lit_take(h, l_gpc + tail0);
            let c0 = l_gpc + tail0;
            assert(c0[0] == 'g');
            assert(l_nav[0] == 'n');
            assert(l_click[0] == 'c');
            assert(l_type[0] == 't');
            assert(l_scroll[0] == 's');
            lemma_parse_lit_mismatch(c0, l_nav, 0);
            lemma_parse_lit_mismatch(c0, l_click, 0);
            lemma_parse_lit_mismatch(c0, l_type, 0);
            lemma_parse_lit_mismatch(c0, l_scroll, 0);
            lemma_parse_lit_take(l_gpc, tail0);
            assert(("}"@ + rest)[0] == '}');
            assert(!is_dec_digit('}'));
            lemma_opt_nat_roundtrip(max_length, "}"@ + rest);
            lemma_parse_lit_take("}"@, rest);
        },
        ActionCommandV::GetInteractiveElements { limit } => {
            let tail0 = enc_opt_nat(limit) + ("}"@ + rest);
            assert(s =~= h + (l_gie + tail0));
            lemma_parse_lit_take(h, l_gie + tail0);
            let c0 = l_gie + tail0;
            assert(c0[0] == 'g');
            assert(c0[4] == 'i');
            assert(l_nav[0] == 'n');
            assert(l_click[0] == 'c');
            assert(l_type[0] == 't');
            assert(l_scroll[0] == 's');
            assert(l_gpc[4] == 'p');
            lemma_parse_lit_mismatch(c0, l_nav, 0);
            lemma_parse_lit_mismatch(c0, l_click, 0);
            lemma_parse_lit_mismatch(c0, l_type, 0);
            lemma_parse_lit_mismatch(c0, l_scroll, 0);
            lemma_parse_lit_mismatch(c0, l_gpc, 4);
            lemma_parse_lit_take(l_gie, tail0);
            assert(("}"@ + rest)[0] == '}');
            assert(!is_dec_digit('}'));
            lemma_opt_nat_roundtrip(limit, "}"@ + rest);
            lemma_parse_lit_take("}"@, rest);
        },
    }
}

#[verifier::rlimit(50)]
proof fn lemma_rt_session_init(session_id: Seq<char>)
    ensures
        spec_decode_msg(spec_encode_msg(WsMessageV::SessionInit { session_id })) == Some(
            WsMessageV::SessionInit { session_id },
        ),
{
    let m = WsMessageV::SessionInit { session_id };
    let s = spec_encode_msg(m);
    let h = "{\"type\":\""@;
    reveal_strlit("{\"type\":\"");
    reveal_strlit("Ping\"}");
    reveal_strlit("Pong\"}");
    reveal_strlit("session_init\",\"data\":{\"session_id\":\"");
    reveal_strlit("SessionUpdate\",\"data\":{\"url\":\"");
    reveal_strlit("action_request\",\"data\":{\"request_id\":\"");
    reveal_strlit("ActionResult\",\"data\":{\"request_id\":\"");
    reveal_strlit("\"}}");
    reveal_strlit("}}");
    let l_ping = "Ping\"}"@;
    let l_pong = "Pong\"}"@;
    let l_si = "session_init\",\"data\":{\"session_id\":\""@;
    let tail0 = esc_seq(session_id) + (seq!['"'] + "}}"@);
    assert(s =~= h + (l_si + tail0));
    lemma_parse_lit_take(h, l_si + tail0);
    let r = l_si + tail0;
    assert(r[0] == 's');
    refute_eq_at(r, l_ping, 0);
    refute_eq_at(r, l_pong, 0);
    lemma_parse_lit_take(l_si, tail0);
    lemma_parse_jstring_inverts(session_id, "}}"@);
    assert(tail0 =~= esc_seq(session_id) + seq!['"'] + "}}"@);
}

#[verifier::rlimit(50)]
proof fn lemma_rt_session_update(url: Seq<char>, title: Option<Seq<char>>)
    ensures
        spec_decode_msg(spec_encode_msg(WsMessageV::SessionUpdate { url, title })) == Some(
            WsMessageV::SessionUpdate { url, title },
        ),
{
    let m = WsMessageV::SessionUpdate { url, title };
    let s = spec_encode_msg(m);
    let h = "{\"type\":\""@;
    reveal_strlit("{\"type\":\"");
    reveal_strlit("Ping\"}");
    reveal_strlit("Pong\"}");
    reveal_strlit("session_init\",\"data\":{\"session_id\":\"");
    reveal_strlit("SessionUpdate\",\"data\":{\"url\":\"");
    reveal_strlit("action_request\",\"data\":{\"request_id\":\"");
    reveal_strlit("ActionResult\",\"data\":{\"request_id\":\"");
    reveal_strlit("}}");
    reveal_strlit(",\"title\":");
    reveal_strlit("\",\"title\":");
    let l_ping = "Ping\"}"@;
    let l_pong = "Pong\"}"@;
    let l_si = "session_init\",\"data\":{\"session_id\":\""@;
    let l_su = "SessionUpdate\",\"data\":{\"url\":\""@;
    let tail1 = ",\"title\":"@ + (enc_opt_string(title) + "}}"@);
    let tail0 = esc_seq(url) + (seq!['"'] + tail1);
    assert(s =~= h + (l_su + tail0));
    lemma_parse_lit_take(h, l_su + tail0);
    let r = l_su + tail0;
    assert(r[0] == 'S');
    refute_eq_at(r, l_ping, 0);
    refute_eq_at(r, l_pong, 0);
    lemma_parse_lit_mismatch(r, l_si, 0);
    lemma_parse_lit_take(l_su, tail0);
    lemma_parse_jstring_inverts(url, tail1);
    assert(tail0 =~= esc_seq(url) + seq!['"'] + tail1);
    lemma_parse_lit_take(",\"title\":"@, enc_opt_string(title) + "}}"@);
    lemma_opt_string_roundtrip(title, "}}"@);
}

#[verifier::rlimit(50)]
proof fn lemma_rt_action_request(request_id: Seq<char>, command: ActionCommandV)
    requires
        wf_cmd(command),
    ensures
        spec_decode_msg(spec_encode_msg(WsMessageV::ActionRequest { request_id, command }))
            == Some(WsMessageV::ActionRequest { request_id, command }),
{
    let m = WsMessageV::ActionRequest { request_id, command };
    let s = spec_encode_msg(m);
    let h = "{\"type\":\""@;
    reveal_strlit("{\"type\":\"");
    reveal_strlit("Ping\"}");
    reveal_strlit("Pong\"}");
    reveal_strlit("session_init\",\"data\":{\"session_id\":\"");
    reveal_strlit("SessionUpdate\",\"data\":{\"url\":\"");
    reveal_strlit("action_request\",\"data\":{\"request_id\":\"");
    reveal_strlit("ActionResult\",\"data\":{\"request_id\":\"");
    reveal_strlit("}}");
    reveal_strlit(",\"command\":");
    reveal_strlit("\",\"command\":");
    let l_ping = "Ping\"}"@;
    let l_pong = "Pong\"}"@;
    let l_si = "session_init\",\"data\":{\"session_id\":\""@;
    let l_su = "SessionUpdate\",\"data\":{\"url\":\""@;
    let l_ar = "action_request\",\"data\":{\"request_id\":\""@;
    let tail1 = ",\"command\":"@ + (spec_encode_cmd(command) + "}}"@);
    let tail0 = esc_seq(request_id) + (seq!['"'] + tail1);
    assert(s =~= h + (l_ar + tail0));
    lemma_parse_lit_take(h, l_ar + tail0);
    let r = l_ar + tail0;
    assert(r[0] == 'a');
    refute_eq_at(r, l_ping, 0);
    refute_eq_at(r, l_pong, 0);
    lemma_parse_lit_mismatch(r, l_si, 0);
    lemma_parse_lit_mismatch(r, l_su, 0);
    lemma_parse_lit_take(l_ar, tail0);
    lemma_parse_jstring_inverts(request_id, tail1);
    assert(tail0 =~= esc_seq(request_id) + seq!['"'] + tail1);
    lemma_parse_lit_take(",\"command\":"@, spec_encode_cmd(command) + "}}"@);
    lemma_cmd_roundtrip(command, "}}"@);
}

#[verifier::rlimit(50)]
proof fn lemma_rt_result_tail(rid: Seq<char>, success: bool, error: Option<Seq<char>>, data: Option<
    Seq<char>,
>)
    requires
        data matches Some(d) ==> json_datum(d),
    ensures
        spec_decode_result_tail(
            rid,
            ",\"success\":"@ + (enc_bool(success) + (",\"error\":"@ + (enc_opt_string(error) + (
            ",\"data\":"@ + (enc_raw(data) + "}}"@))))),
        ) == Some(
            WsMessageV::ActionResult(ActionResultV { request_id: rid, success, error, data }),
        ),
{
    reveal_strlit(",\"success\":");
    reveal_strlit(",\"error\":");
    reveal_strlit(",\"data\":");
    reveal_strlit("null}}");
    reveal_strlit("null");
    reveal_strlit("}}");
    let tail3 = ",\"data\":"@ + (enc_raw(data) + "}}"@);
    let tail2 = ",\"error\":"@ + (enc_opt_string(error) + tail3);
    let tail1 = ",\"success\":"@ + (enc_bool(success) + tail2);
    lemma_parse_lit_take(",\"success\":"@, enc_bool(success) + tail2);
    lemma_bool_roundtrip(success, tail2);
    lemma_parse_lit_take(",\"error\":"@, enc_opt_string(error) + tail3);
    lemma_opt_string_roundtrip(error, tail3);
    lemma_parse_lit_take(",\"data\":"@, enc_raw(data) + "}}"@);
    let r8 = enc_raw(data) + "}}"@;
    match data {
        None => {
            assert(r8 =~= "null}}"@);
        },
        Some(d) => {
            if r8 == "null}}"@ {
                assert(d.len() + 2 == 6);
                assert forall|k: int| 0 <= k < 4 implies d[k] == "null"@[k] by {
                    assert(r8[k] == d[k]);
                    assert("null}}"@[k] == "null"@[k]);
                }
                assert(d =~= "null"@);
                assert(false);
            }
            let s1 = d + seq!['}'];
            assert forall|k: int| 0 <= k <= d.len() implies s1[k] == r8[k] by {
                if k < d.len() {
                    assert(s1[k] == d[k]);
                    assert(r8[k] == d[k]);
                } else {
                    assert(s1[k] == '}');
                    assert(r8[k] == "}}"@[0]);
                }
            }
            lemma_scan_raw_extend(s1, r8, d.len() as int, 0, 0, false, false);
            assert(r8.subrange(0, d.len() as int) =~= d);
            assert(r8.skip(d.len() as int) =~= "}}"@);
        },
    }
}

#[verifier::rlimit(50)]
proof fn lemma_rt_action_result(res: ActionResultV)
    requires
        res.data matches Some(d) ==> json_datum(d),
    ensures
        spec_decode_msg(spec_encode_msg(WsMessageV::ActionResult(res))) == Some(
            WsMessageV::ActionResult(res),
        ),
{
    let m = WsMessageV::ActionResult(res);
    let s = spec_encode_msg(m);
    let h = "{\"type\":\""@;
    reveal_strlit("{\"type\":\"");
    reveal_strlit("Ping\"}");
    reveal_strlit("Pong\"}");
    reveal_strlit("session_init\",\"data\":{\"session_id\":\"");
    reveal_strlit("SessionUpdate\",\"data\":{\"url\":\"");
    reveal_strlit("action_request\",\"data\":{\"request_id\":\"");
    reveal_strlit("ActionResult\",\"data\":{\"request_id\":\"");
    reveal_strlit("}}");
    reveal_strlit(",\"success\":");
    reveal_strlit("\",\"success\":");
    reveal_strlit(",\"error\":");
    reveal_strlit(",\"data\":");
    let l_ping = "Ping\"}"@;
    let l_pong = "Pong\"}"@;
    let l_si = "session_init\",\"data\":{\"session_id\":\""@;
    let l_su = "SessionUpdate\",\"data\":{\"url\":\""@;
    let l_ar = "action_request\",\"data\":{\"request_id\":\""@;
    let l_ares = "ActionResult\",\"data\":{\"request_id\":\""@;
    let tail3 = ",\"data\":"@ + (enc_raw(res.data) + "}}"@);
    let tail2 = ",\"error\":"@ + (enc_opt_string(res.error) + tail3);
    let tail1 = ",\"success\":"@ + (enc_bool(res.success) + tail2);
    let tail0 = esc_seq(res.request_id) + (seq!['"'] + tail1);
    assert(s =~= h + (l_ares + tail0));
    lemma_parse_lit_take(h, l_ares + tail0);
    let r = l_ares + tail0;
    assert(r[0] == 'A');
    refute_eq_at(r, l_ping, 0);
    refute_eq_at(r, l_pong, 0);
    lemma_parse_lit_mismatch(r, l_si, 0);
    lemma_parse_lit_mismatch(r, l_su, 0);
    lemma_parse_lit_mismatch(r, l_ar, 0);
    lemma_parse_lit_take(l_ares, tail0);
    lemma_parse_jstring_inverts(res.request_id, tail1);
    assert(tail0 =~= esc_seq(res.request_id) + seq!['"'] + tail1);
    lemma_rt_result_tail(res.request_id, res.success, res.error, res.data);
    assert(res =~= ActionResultV {
        request_id: res.request_id,
        success: res.success,
        error: res.error,
        data: res.data,
    });
}

#[verifier::rlimit(50)]
proof fn lemma_rt_unknown()
    ensures
        spec_decode_msg(spec_encode_msg(WsMessageV::Unknown)) == Some(WsMessageV::Unknown),
{
    let s = spec_encode_msg(WsMessageV::Unknown);
    let h = "{\"type\":\""@;
    reveal_strlit("{\"type\":\"");
    reveal_strlit("Ping\"}");
    reveal_strlit("Pong\"}");
    reveal_strlit("session_init\",\"data\":{\"session_id\":\"");
    reveal_strlit("SessionUpdate\",\"data\":{\"url\":\"");
    reveal_strlit("action_request\",\"data\":{\"request_id\":\"");
    reveal_strlit("ActionResult\",\"data\":{\"request_id\":\"");
    reveal_strlit("Unknown\"}");
    reveal_strlit("Unknown");
    reveal_strlit("}");
    let l_ping = "Ping\"}"@;
    let l_pong = "Pong\"}"@;
    let l_si = "session_init\",\"data\":{\"session_id\":\""@;
    let l_su = "SessionUpdate\",\"data\":{\"url\":\""@;
    let l_ar = "action_request\",\"data\":{\"request_id\":\""@;
    let l_ares = "ActionResult\",\"data\":{\"request_id\":\""@;
    let l_unk = "Unknown\"}"@;
    lemma_parse_lit_take(h, l_unk);
    let r = l_unk;
    assert(r[0] == 'U');
    refute_eq_at(r, l_ping, 0);
    refute_eq_at(r, l_pong, 0);
    lemma_parse_lit_mismatch(r, l_si, 0);
    lemma_parse_lit_mismatch(r, l_su, 0);
    lemma_parse_lit_mismatch(r, l_ar, 0);
    lemma_parse_lit_mismatch(r, l_ares, 0);
    let tag = "Unknown"@;
    assert forall|i: int|
        0 <= i < tag.len() implies tag[i] != '"' && tag[i] != '\\' && (
    #[trigger] tag[i] as u32) >= 32 by {}
    lemma_esc_seq_plain(tag);
    lemma_parse_jstring_inverts(tag, "}"@);
    assert(r =~= esc_seq(tag) + seq!['"'] + "}"@);
}

/// Decoding inverts encoding for every well-formed envelope; this is the
/// codec's round-trip law.
pub proof fn lemma_codec_roundtrip(m: WsMessageV)
    requires
        wf_msg(m),
    ensures
        spec_decode_msg(spec_encode_msg(m)) == Some(m),
{
    match m {
        WsMessageV::Ping => {
            lemma_parse_lit_take("{\"type\":\""@, "Ping\"}"@);
        },
        WsMessageV::Pong => {
            reveal_strlit("{\"type\":\"");
    reveal_strlit("Ping\"}");
    reveal_strlit("Pong\"}");
    reveal_strlit("session_init\",\"data\":{\"session_id\":\"");
    reveal_strlit("SessionUpdate\",\"data\":{\"url\":\"");
    reveal_strlit("action_request\",\"data\":{\"request_id\":\"");
    reveal_strlit("ActionResult\",\"data\":{\"request_id\":\"");
            lemma_parse_lit_take("{\"type\":\""@, "Pong\"}"@);
            refute_eq_at("Pong\"}"@, "Ping\"}"@, 1);
        },
        WsMessageV::SessionInit { session_id } => {
            lemma_rt_session_init(session_id);
        },
        WsMessageV::SessionUpdate { url, title } => {
            lemma_rt_session_update(url, title);
        },
        WsMessageV::ActionRequest { request_id, command } => {
            lemma_rt_action_request(request_id, command);
        },
        WsMessageV::ActionResult(res) => {
            lemma_rt_action_result(res);
        },
        WsMessageV::Unknown => {
            lemma_rt_unknown();
        },
    }
}

} // verus!
