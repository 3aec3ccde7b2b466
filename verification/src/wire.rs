//! Executable encoding and decoding of wire envelopes, proved against the
//! specification codec.

use vstd::prelude::*;

use crate::codec::{
    enc_opt_nat, enc_opt_string, parse_lit, scan_raw, spec_decode_bool, spec_decode_cmd,
    spec_decode_msg, spec_decode_opt_nat, spec_decode_opt_string, spec_decode_result_tail,
    spec_encode_cmd, spec_encode_msg,
};
use crate::dec::{push_dec_i64, push_dec_u64, scan_i64, scan_u64};
use crate::jtext::{push_escaped, scan_jstring};
use crate::text::{chars_of, string_from_chars};
use crate::ws::{ActionCommand, ActionResult, WsMessage};

verus! {

/// Appends the characters of a string slice to `out`.
pub(crate) fn push_lit(out: &mut Vec<char>, l: &str)
    ensures
        final(out)@ == old(out)@ + l@,
{
    let v = chars_of(l);
    let mut k: usize = 0;
    while k < v.len()
        invariant
            k <= v@.len(),
            v@ == l@,
            out@ == old(out)@ + l@.subrange(0, k as int),
        decreases v@.len() - k,
    {
        out.push(v[k]);
        k = k + 1;
        proof {
            assert(out@ =~= old(out)@ + l@.subrange(0, k as int));
        }
    }
    proof {
        assert(out@ =~= old(out)@ + l@);
    }
}

/// Appends a quoted, escaped string field.
fn push_jstr(out: &mut Vec<char>, field: &str)
    ensures
        final(out)@ == old(out)@ + crate::jtext::esc_seq(field@),
{
    let v = chars_of(field);
    push_escaped(&v, out);
}

fn push_opt_nat(out: &mut Vec<char>, o: &Option<usize>)
    ensures
        final(out)@ == old(out)@ + enc_opt_nat(
            match o {
                Some(n) => Some(*n as nat),
                None => None,
            },
        ),
{
    match o {
        Some(n) => {
            push_dec_u64(*n as u64, out);
        },
        None => {
            push_lit(out, "null");
        },
    }
}

fn push_opt_string(out: &mut Vec<char>, o: &Option<String>)
    ensures
        final(out)@ == old(out)@ + enc_opt_string(
            match o {
                Some(s) => Some(s@),
                None => None,
            },
        ),
{
    match o {
        Some(s) => {
            push_lit(out, "\"");
            push_jstr(out, s.as_str());
            push_lit(out, "\"");
            proof {
                assert(out@ =~= old(out)@ + ("\""@ + crate::jtext::esc_seq(s@) + "\""@));
            }
        },
        None => {
            push_lit(out, "null");
        },
    }
}

fn push_cmd(out: &mut Vec<char>, c: &ActionCommand)
    ensures
        final(out)@ == old(out)@ + spec_encode_cmd(c@),
{
    push_lit(out, "{\"type\":\"");
    match c {
        ActionCommand::NavigateTo { url } => {
            push_lit(out, "navigate_to\",\"url\":\"");
            push_jstr(out, url.as_str());
            push_lit(out, "\"}");
        },
        ActionCommand::ClickElement { ref_id } => {
            push_lit(out, "click_element\",\"ref\":");
            push_dec_i64(*ref_id as i64, out);
            push_lit(out, "}");
        },
        ActionCommand::TypeText { ref_id, text } => {
            push_lit(out, "type_text\",\"ref\":");
            push_dec_i64(*ref_id as i64, out);
            push_lit(out, ",\"text\":\"");
            push_jstr(out, text.as_str());
            push_lit(out, "\"}");
        },
        ActionCommand::ScrollTo { x, y } => {
            push_lit(out, "scroll_to\",\"x\":");
            push_dec_i64(*x as i64, out);
            push_lit(out, ",\"y\":");
            push_dec_i64(*y as i64, out);
            push_lit(out, "}");
        },
        ActionCommand::GetPageContent { max_length } => {
            push_lit(out, "get_page_content\",\"max_length\":");
            push_opt_nat(out, max_length);
            push_lit(out, "}");
        },
        ActionCommand::GetInteractiveElements { limit } => {
            push_lit(out, "get_interactive_elements\",\"limit\":");
            push_opt_nat(out, limit);
            push_lit(out, "}");
        },
    }
    proof {
        assert(out@ =~= old(out)@ + spec_encode_cmd(c@));
    }
}

/// Renders an envelope in its canonical wire form.
pub fn encode_ws_message(m: &WsMessage) -> (r: String)
    ensures
        r@ == spec_encode_msg(m@),
{
    let mut out: Vec<char> = Vec::new();
    push_lit(&mut out, "{\"type\":\"");
    match m {
        WsMessage::Ping => {
            push_lit(&mut out, "Ping\"}");
        },
        WsMessage::Pong => {
            push_lit(&mut out, "Pong\"}");
        },
        WsMessage::SessionInit { session_id } => {
            push_lit(&mut out, "session_init\",\"data\":{\"session_id\":\"");
            push_jstr(&mut out, session_id.as_str());
            push_lit(&mut out, "\"}}");
        },
        WsMessage::SessionUpdate { url, title } => {
            push_lit(&mut out, "SessionUpdate\",\"data\":{\"url\":\"");
            push_jstr(&mut out, url.as_str());
            push_lit(&mut out, "\",\"title\":");
            push_opt_string(&mut out, title);
            push_lit(&mut out, "}}");
        },
        WsMessage::ActionRequest { request_id, command } => {
            push_lit(&mut out, "action_request\",\"data\":{\"request_id\":\"");
            push_jstr(&mut out, request_id.as_str());
            push_lit(&mut out, "\",\"command\":");
            push_cmd(&mut out, command);
            push_lit(&mut out, "}}");
        },
        WsMessage::ActionResult(res) => {
            push_lit(&mut out, "ActionResult\",\"data\":{\"request_id\":\"");
            push_jstr(&mut out, res.request_id.as_str());
            push_lit(&mut out, "\",\"success\":");
            if res.success {
                push_lit(&mut out, "true");
            } else {
                push_lit(&mut out, "false");
            }
            push_lit(&mut out, ",\"error\":");
            push_opt_string(&mut out, &res.error);
            push_lit(&mut out, ",\"data\":");
            match &res.data {
                Some(d) => {
                    push_lit(&mut out, d.as_str());
                },
                None => {
                    push_lit(&mut out, "null");
                },
            }
            push_lit(&mut out, "}}");
        },
        WsMessage::Unknown => {
            push_lit(&mut out, "Unknown\"}");
        },
    }
    proof {
        assert(out@ =~= spec_encode_msg(m@));
    }
    string_from_chars(&out)
}

// ---------------------------------------------------------------------------
// Decoding
// ---------------------------------------------------------------------------
/// Matches the literal `l` at position `i`; returns the position after it.
pub(crate) fn match_lit(s: &Vec<char>, i: usize, l: &str) -> (r: Option<usize>)
    requires
        i <= s@.len(),
    ensures
        match r {
            Some(j) => i <= j <= s@.len() && parse_lit(s@.skip(i as int), l@) == Some(
                s@.skip(j as int),
            ),
            None => parse_lit(s@.skip(i as int), l@) is None,
        },
{
    let lv = chars_of(l);
    let n = lv.len();
    if s.len() - i < n {
        assert(s@.skip(i as int).len() < l@.len());
        return None;
    }
    let mut k: usize = 0;
    while k < n
        invariant
            i + n <= s@.len(),
            i + n <= usize::MAX as int,
            n == l@.len(),
            lv@ == l@,
            k <= n,
            forall|t: int| 0 <= t < k ==> s@[i + t] == l@[t],
        decreases n - k,
    {
        if s[i + k] != lv[k] {
            proof {
                assert(s@.skip(i as int)[k as int] == s@[i + k]);
                crate::codec::lemma_parse_lit_mismatch(s@.skip(i as int), l@, k as int);
            }
            return None;
        }
        k = k + 1;
    }
    proof {
        let suf = s@.skip(i as int);
        assert forall|t: int| 0 <= t < n implies suf.subrange(0, n as int)[t] == l@[t] by {
            assert(suf[t] == s@[i + t]);
        }
        assert(suf.subrange(0, n as int) =~= l@);
        assert(suf.skip(n as int) =~= s@.skip(i + n));
    }
    Some(i + n)
}

/// Whether the whole remainder of `s` from `i` is exactly `l`.
pub(crate) fn eq_rest(s: &Vec<char>, i: usize, l: &str) -> (r: bool)
    requires
        i <= s@.len(),
    ensures
        r == (s@.skip(i as int) == l@),
{
    match match_lit(s, i, l) {
        Some(j) => {
            if j == s.len() {
                proof {
                    assert(s@.skip(j as int).len() == 0);
                    assert(s@.skip(i as int) =~= l@ + s@.skip(j as int));
                    assert(l@ + s@.skip(j as int) =~= l@);
                }
                true
            } else {
                proof {
                    assert(s@.skip(i as int) =~= l@ + s@.skip(j as int));
                    assert(s@.skip(i as int).len() > l@.len());
                }
                false
            }
        },
        None => {
            proof {
                if s@.skip(i as int) == l@ {
                    crate::codec::lemma_parse_lit_take(l@, Seq::<char>::empty());
                    assert(l@ + Seq::<char>::empty() =~= l@);
                }
            }
            false
        },
    }
}

fn copy_range(s: &Vec<char>, i: usize, j: usize) -> (r: Vec<char>)
    requires
        i <= j <= s@.len(),
    ensures
        r@ == s@.subrange(i as int, j as int),
{
    let mut r: Vec<char> = Vec::new();
    let mut k: usize = i;
    while k < j
        invariant
            i <= k <= j <= s@.len(),
            r@ == s@.subrange(i as int, k as int),
        decreases j - k,
    {
        r.push(s[k]);
        k = k + 1;
        proof {
            assert(r@ =~= s@.subrange(i as int, k as int));
        }
    }
    r
}

proof fn lemma_scan_raw_shift(s: Seq<char>, j: int, i: int, depth: nat, in_str: bool, esc: bool)
    requires
        0 <= j <= s.len(),
        0 <= i,
    ensures
        scan_raw(s.skip(j), i, depth, in_str, esc) == match scan_raw(
            s,
            j + i,
            depth,
            in_str,
            esc,
        ) {
            Some(n) => Some(n - j),
            None => None,
        },
    decreases s.len() - j - i,
{
    let t = s.skip(j);
    if i >= t.len() {
    } else {
        assert(t[i] == s[j + i]);
        if in_str {
            if esc {
                lemma_scan_raw_shift(s, j, i + 1, depth, true, false);
            } else if t[i] == '\\' {
                lemma_scan_raw_shift(s, j, i + 1, depth, true, true);
            } else if t[i] == '"' {
                lemma_scan_raw_shift(s, j, i + 1, depth, false, false);
            } else {
                lemma_scan_raw_shift(s, j, i + 1, depth, true, false);
            }
        } else {
            if t[i] == '"' {
                lemma_scan_raw_shift(s, j, i + 1, depth, true, false);
            } else if t[i] == '{' || t[i] == '[' {
                lemma_scan_raw_shift(s, j, i + 1, depth + 1, false, false);
            } else if t[i] == '}' || t[i] == ']' {
                if depth == 0 {
                } else {
                    lemma_scan_raw_shift(s, j, i + 1, (depth - 1) as nat, false, false);
                }
            } else if t[i] == ',' && depth == 0 {
            } else {
                lemma_scan_raw_shift(s, j, i + 1, depth, false, false);
            }
        }
    }
}

/// Scans one raw JSON value starting at `i`; returns the index of its
/// closing delimiter.
fn scan_raw_value(s: &Vec<char>, i: usize) -> (r: Option<usize>)
    requires
        i <= s@.len(),
    ensures
        match r {
            Some(n) => i <= n < s@.len() && scan_raw(s@, i as int, 0, false, false) == Some(
                n as int,
            ),
            None => scan_raw(s@, i as int, 0, false, false) is None,
        },
{
    let mut j: usize = i;
    let mut depth: usize = 0;
    let mut in_str: bool = false;
    let mut esc: bool = false;
    loop
        invariant
            i <= j <= s@.len(),
            depth <= j - i,
            !in_str ==> !esc,
            scan_raw(s@, i as int, 0, false, false) == scan_raw(
                s@,
                j as int,
                depth as nat,
                in_str,
                esc,
            ),
        decreases s@.len() - j,
    {
        if j == s.len() {
            return None;
        }
        let ghost j0 = j as int;
        let ghost d0 = depth as nat;
        let ghost is0 = in_str;
        let ghost e0 = esc;
        let c = s[j];
        if in_str {
            if esc {
                esc = false;
            } else if c == '\\' {
                esc = true;
            } else if c == '"' {
                in_str = false;
            }
            j = j + 1;
        } else {
            if c == '"' {
                in_str = true;
                j = j + 1;
            } else if c == '{' || c == '[' {
                depth = depth + 1;
                j = j + 1;
            } else if c == '}' || c == ']' {
                if depth == 0 {
                    return Some(j);
                }
                depth = depth - 1;
                j = j + 1;
            } else if c == ',' && depth == 0 {
                return Some(j);
            } else {
                j = j + 1;
            }
        }
        proof {
            assert(scan_raw(s@, j0, d0, is0, e0) == scan_raw(
                s@,
                j as int,
                depth as nat,
                in_str,
                esc,
            ));
        }
    }
}

pub(crate) fn decode_opt_nat(s: &Vec<char>, i: usize) -> (r: Option<(Option<usize>, usize)>)
    requires
        i <= s@.len(),
    ensures
        match r {
            Some(p) => i <= p.1 <= s@.len() && spec_decode_opt_nat(s@.skip(i as int)) == Some(
                (
                    match p.0 {
                        Some(n) => Some(n as nat),
                        None => None,
                    },
                    s@.skip(p.1 as int),
                ),
            ),
            None => spec_decode_opt_nat(s@.skip(i as int)) is None,
        },
{
    match match_lit(s, i, "null") {
        Some(j) => Some((None, j)),
        None => {
            match scan_u64(s, i) {
                Some((n, j)) => {
                    if n <= usize::MAX as u64 {
                        Some((Some(n as usize), j))
                    } else {
                        None
                    }
                },
                None => None,
            }
        },
    }
}

fn decode_opt_string(s: &Vec<char>, i: usize) -> (r: Option<(Option<String>, usize)>)
    requires
        i <= s@.len(),
    ensures
        match r {
            Some(p) => i <= p.1 <= s@.len() && spec_decode_opt_string(s@.skip(i as int)) == Some(
                (
                    match &p.0 {
                        Some(t) => Some(t@),
                        None => None,
                    },
                    s@.skip(p.1 as int),
                ),
            ),
            None => spec_decode_opt_string(s@.skip(i as int)) is None,
        },
{
    match match_lit(s, i, "null") {
        Some(j) => Some((None, j)),
        None => {
            match match_lit(s, i, "\"") {
                Some(j) => {
                    proof {
                        assert(s@.skip(i as int).skip("\""@.len() as int) =~= s@.skip(j as int));
                    }
                    match scan_jstring(s, j) {
                        Some((content, j2)) => {
                            let t = string_from_chars(&content);
                            Some((Some(t), j2))
                        },
                        None => None,
                    }
                },
                None => None,
            }
        },
    }
}

fn decode_bool(s: &Vec<char>, i: usize) -> (r: Option<(bool, usize)>)
    requires
        i <= s@.len(),
    ensures
        match r {
            Some(p) => i <= p.1 <= s@.len() && spec_decode_bool(s@.skip(i as int)) == Some(
                (p.0, s@.skip(p.1 as int)),
            ),
            None => spec_decode_bool(s@.skip(i as int)) is None,
        },
{
    match match_lit(s, i, "true") {
        Some(j) => Some((true, j)),
        None => {
            match match_lit(s, i, "false") {
                Some(j) => Some((false, j)),
                None => None,
            }
        },
    }
}

fn decode_cmd(s: &Vec<char>, i: usize) -> (r: Option<(ActionCommand, usize)>)
    requires
        i <= s@.len(),
    ensures
        match &r {
            Some(p) => i <= p.1 <= s@.len() && spec_decode_cmd(s@.skip(i as int)) == Some(
                (p.0@, s@.skip(p.1 as int)),
            ),
            None => spec_decode_cmd(s@.skip(i as int)) is None,
        },
{
    let c0 = match match_lit(s, i, "{\"type\":\"") {
        Some(j) => j,
        None => {
            return None;
        },
    };
    if let Some(j1) = match_lit(s, c0, "navigate_to\",\"url\":\"") {
        match scan_jstring(s, j1) {
            Some((url, j2)) => {
                match match_lit(s, j2, "}") {
                    Some(j3) => {
                        let cmd = ActionCommand::NavigateTo { url: string_from_chars(&url) };
                        Some((cmd, j3))
                    },
                    None => None,
                }
            },
            None => None,
        }
    } else if let Some(j1) = match_lit(s, c0, "click_element\",\"ref\":") {
        match scan_i64(s, j1) {
            Some((v, j2)) => {
                if i32::MIN as i64 <= v && v <= i32::MAX as i64 {
                    match match_lit(s, j2, "}") {
                        Some(j3) => Some((ActionCommand::ClickElement { ref_id: v as i32 }, j3)),
                        None => None,
                    }
                } else {
                    None
                }
            },
            None => None,
        }
    } else if let Some(j1) = match_lit(s, c0, "type_text\",\"ref\":") {
        match scan_i64(s, j1) {
            Some((v, j2)) => {
                if i32::MIN as i64 <= v && v <= i32::MAX as i64 {
                    match match_lit(s, j2, ",\"text\":\"") {
                        Some(j3) => {
                            match scan_jstring(s, j3) {
                                Some((text, j4)) => {
                                    match match_lit(s, j4, "}") {
                                        Some(j5) => {
                                            let cmd = ActionCommand::TypeText {
                                                ref_id: v as i32,
                                                text: string_from_chars(&text),
                                            };
                                            Some((cmd, j5))
                                        },
                                        None => None,
                                    }
                                },
                                None => None,
                            }
                        },
                        None => None,
                    }
                } else {
                    None
                }
            },
            None => None,
        }
    } else if let Some(j1) = match_lit(s, c0, "scroll_to\",\"x\":") {
        match scan_i64(s, j1) {
            Some((x, j2)) => {
                if i32::MIN as i64 <= x && x <= i32::MAX as i64 {
                    match match_lit(s, j2, ",\"y\":") {
                        Some(j3) => {
                            match scan_i64(s, j3) {
                                Some((y, j4)) => {
                                    if i32::MIN as i64 <= y && y <= i32::MAX as i64 {
                                        match match_lit(s, j4, "}") {
                                            Some(j5) => Some(
                                                (
                                                    ActionCommand::ScrollTo {
                                                        x: x as i32,
                                                        y: y as i32,
                                                    },
                                                    j5,
                                                ),
                                            ),
                                            None => None,
                                        }
                                    } else {
                                        None
                                    }
                                },
                                None => None,
                            }
                        },
                        None => None,
                    }
                } else {
                    None
                }
            },
            None => None,
        }
    } else if let Some(j1) = match_lit(s, c0, "get_page_content\",\"max_length\":") {
        match decode_opt_nat(s, j1) {
            Some((o, j2)) => {
                match match_lit(s, j2, "}") {
                    Some(j3) => Some((ActionCommand::GetPageContent { max_length: o }, j3)),
                    None => None,
                }
            },
            None => None,
        }
    } else if let Some(j1) = match_lit(s, c0, "get_interactive_elements\",\"limit\":") {
        match decode_opt_nat(s, j1) {
            Some((o, j2)) => {
                match match_lit(s, j2, "}") {
                    Some(j3) => Some((ActionCommand::GetInteractiveElements { limit: o }, j3)),
                    None => None,
                }
            },
            None => None,
        }
    } else {
        None
    }
}

/// Decodes one canonical text frame; `None` is a malformed frame, while a
/// well-formed frame with an unrecognized tag yields `Unknown`.
pub fn decode_ws_message(text: &str) -> (r: Option<WsMessage>)
    ensures
        match &r {
            Some(m) => spec_decode_msg(text@) == Some(m@),
            None => spec_decode_msg(text@) is None,
        },
{
    let s = chars_of(text);
    proof {
        assert(s@.skip(0) =~= s@);
    }
    let r0 = match match_lit(&s, 0, "{\"type\":\"") {
        Some(j) => j,
        None => {
            return None;
        },
    };
    if eq_rest(&s, r0, "Ping\"}") {
        return Some(WsMessage::Ping);
    }
    if eq_rest(&s, r0, "Pong\"}") {
        return Some(WsMessage::Pong);
    }
    if let Some(j1) = match_lit(&s, r0, "session_init\",\"data\":{\"session_id\":\"") {
        return match scan_jstring(&s, j1) {
            Some((sid, j2)) => {
                if eq_rest(&s, j2, "}}") {
                    Some(WsMessage::SessionInit { session_id: string_from_chars(&sid) })
                } else {
                    None
                }
            },
            None => None,
        };
    }
    if let Some(j1) = match_lit(&s, r0, "SessionUpdate\",\"data\":{\"url\":\"") {
        return match scan_jstring(&s, j1) {
            Some((url, j2)) => {
                match match_lit(&s, j2, ",\"title\":") {
                    Some(j3) => {
                        match decode_opt_string(&s, j3) {
                            Some((title, j4)) => {
                                if eq_rest(&s, j4, "}}") {
                                    Some(
                                        WsMessage::SessionUpdate {
                                            url: string_from_chars(&url),
                                            title,
                                        },
                                    )
                                } else {
                                    None
                                }
                            },
                            None => None,
                        }
                    },
                    None => None,
                }
            },
            None => None,
        };
    }
    if let Some(j1) = match_lit(&s, r0, "action_request\",\"data\":{\"request_id\":\"") {
        return match scan_jstring(&s, j1) {
            Some((rid, j2)) => {
                match match_lit(&s, j2, ",\"command\":") {
                    Some(j3) => {
                        match decode_cmd(&s, j3) {
                            Some((command, j4)) => {
                                if eq_rest(&s, j4, "}}") {
                                    Some(
                                        WsMessage::ActionRequest {
                                            request_id: string_from_chars(&rid),
                                            command,
                                        },
                                    )
                                } else {
                                    None
                                }
                            },
                            None => None,
                        }
                    },
                    None => None,
                }
            },
            None => None,
        };
    }
    if let Some(j1) = match_lit(&s, r0, "ActionResult\",\"data\":{\"request_id\":\"") {
        return match scan_jstring(&s, j1) {
            Some((rid, j2)) => decode_result_tail(&s, j2, string_from_chars(&rid)),
            None => None,
        };
    }
    match scan_jstring(&s, r0) {
        Some(_) => Some(WsMessage::Unknown),
        None => None,
    }
}

fn decode_result_tail(s: &Vec<char>, i: usize, rid: String) -> (r: Option<WsMessage>)
    requires
        i <= s@.len(),
    ensures
        match &r {
            Some(m) => spec_decode_result_tail(rid@, s@.skip(i as int)) == Some(m@),
            None => spec_decode_result_tail(rid@, s@.skip(i as int)) is None,
        },
{
    let j4 = match match_lit(s, i, ",\"success\":") {
        Some(j) => j,
        None => {
            return None;
        },
    };
    let (succ, j5) = match decode_bool(s, j4) {
        Some(p) => p,
        None => {
            return None;
        },
    };
    let j6 = match match_lit(s, j5, ",\"error\":") {
        Some(j) => j,
        None => {
            return None;
        },
    };
    let (err, j7) = match decode_opt_string(s, j6) {
        Some(p) => p,
        None => {
            return None;
        },
    };
    let j8 = match match_lit(s, j7, ",\"data\":") {
        Some(j) => j,
        None => {
            return None;
        },
    };
    if eq_rest(s, j8, "null}}") {
        return Some(
            WsMessage::ActionResult(
                ActionResult { request_id: rid, success: succ, error: err, data: None },
            ),
        );
    }
    proof {
        lemma_scan_raw_shift(s@, j8 as int, 0, 0, false, false);
    }
    match scan_raw_value(s, j8) {
        Some(n) => {
            proof {
                let r8 = s@.skip(j8 as int);
                assert(r8.subrange(0, n - j8) =~= s@.subrange(j8 as int, n as int));
                assert(r8.skip(n - j8) =~= s@.skip(n as int));
            }
            if n > j8 && eq_rest(s, n, "}}") {
                let raw = copy_range(s, j8, n);
                Some(
                    WsMessage::ActionResult(
                        ActionResult {
                            request_id: rid,
                            success: succ,
                            error: err,
                            data: Some(string_from_chars(&raw)),
                        },
                    ),
                )
            } else {
                None
            }
        },
        None => None,
    }
}

/// Advances past JSON whitespace.
pub(crate) fn ws_to(s: &Vec<char>, i: usize) -> (r: usize)
    requires
        i <= s@.len(),
    ensures
        i <= r <= s@.len(),
        s@.skip(r as int) == crate::codec::skip_ws(s@.skip(i as int)),
{
    let mut j: usize = i;
    while j < s.len() && (s[j] == ' ' || s[j] == '\n' || s[j] == '\t' || s[j] == '\r')
        invariant
            i <= j <= s@.len(),
            crate::codec::skip_ws(s@.skip(i as int)) == crate::codec::skip_ws(s@.skip(j as int)),
        decreases s@.len() - j,
    {
        proof {
            assert(s@.skip(j as int)[0] == s@[j as int]);
            assert(s@.skip(j as int).skip(1) =~= s@.skip(j + 1));
        }
        j = j + 1;
    }
    proof {
        if j < s@.len() {
            assert(s@.skip(j as int)[0] == s@[j as int]);
        }
        assert(crate::codec::skip_ws(s@.skip(j as int)) == s@.skip(j as int));
    }
    j
}

} // verus!
