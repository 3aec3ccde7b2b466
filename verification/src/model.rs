//! The HTTP-facing data model: request and response bodies, their canonical
//! JSON forms, the token-usage record, and the service configuration.

use vstd::prelude::*;

use crate::codec::{parse_lit, skip_ws};
use crate::dec::{int_chars, parse_nat};
use crate::jtext::{esc_seq, parse_jstring};
use crate::text::{chars_of, string_from_chars};
use crate::wire::{match_lit, push_lit, ws_to};

verus! {

/// The `GET /health` body.
#[derive(Debug, Clone, PartialEq)]
pub struct HealthResponse {
    pub status: String,
}

/// The plain chat request body.
#[derive(Debug, Clone, PartialEq)]
pub struct ChatRequest {
    pub message: String,
    pub custom_instruction: Option<String>,
    pub image: Option<String>,
}

/// The chat response body; token counts are omitted when unknown.
#[derive(Debug, Clone, PartialEq)]
pub struct ChatResponse {
    pub response: String,
    pub prompt_tokens: Option<i32>,
    pub response_tokens: Option<i32>,
    pub total_tokens: Option<i32>,
}

/// Token accounting as the LLM reports it.
#[derive(Debug, Clone, PartialEq)]
pub struct UsageMetadata {
    pub prompt_token_count: i32,
    pub candidates_token_count: Option<i32>,
    pub total_token_count: i32,
}

/// One remembered note about the user.
#[derive(Debug, Clone, PartialEq)]
pub struct Memory {
    pub id: i64,
    pub content: String,
    pub created_at: String,
}

/// Service configuration; the listener's port.
#[derive(Debug, Clone, PartialEq)]
pub struct AppConfig {
    pub port: u16,
}

/// The port the service binds: absent means the default, anything that is
/// not a decimal number fitting a port is rejected.
pub open spec fn spec_config_port(s: Option<Seq<char>>) -> Option<u16> {
    match s {
        None => Some(3000u16),
        Some(t) => match parse_nat(t) {
            Some((n, rest)) => if rest.len() == 0 && n <= u16::MAX as nat {
                Some(n as u16)
            } else {
                None
            },
            None => None,
        },
    }
}

impl AppConfig {
    /// Builds the configuration from the raw `PORT` value, when it parses.
    pub fn from_port_value(s: Option<&str>) -> (r: Option<AppConfig>)
        ensures
            match r {
                Some(c) => spec_config_port(
                    match s {
                        Some(t) => Some(t@),
                        None => None,
                    },
                ) == Some(c.port),
                None => spec_config_port(
                    match s {
                        Some(t) => Some(t@),
                        None => None,
                    },
                ) is None,
            },
    {
        match s {
            None => Some(AppConfig { port: 3000 }),
            Some(t) => {
                let v = chars_of(t);
                proof {
                    assert(v@.skip(0) =~= v@);
                }
                match crate::dec::scan_u64(&v, 0) {
                    Some((n, j)) => {
                        if j == v.len() && n <= u16::MAX as u64 {
                            proof {
                                assert(v@.skip(j as int).len() == 0);
                            }
                            Some(AppConfig { port: n as u16 })
                        } else {
                            None
                        }
                    },
                    None => None,
                }
            },
        }
    }
}

// ---------------------------------------------------------------------------
// Canonical JSON forms
// ---------------------------------------------------------------------------
pub open spec fn spec_encode_health(h: HealthResponse) -> Seq<char> {
    "{\"status\":\""@ + esc_seq(h.status@) + "\"}"@
}

pub fn encode_health_response(h: &HealthResponse) -> (r: String)
    ensures
        r@ == spec_encode_health(*h),
{
    let mut out: Vec<char> = Vec::new();
    push_lit(&mut out, "{\"status\":\"");
    let v = chars_of(h.status.as_str());
    crate::jtext::push_escaped(&v, &mut out);
    push_lit(&mut out, "\"}");
    proof {
        assert(out@ =~= spec_encode_health(*h));
    }
    string_from_chars(&out)
}

/// An optional numbered field rendered only when present.
pub open spec fn enc_opt_i32_field(name: Seq<char>, v: Option<i32>) -> Seq<char> {
    match v {
        Some(n) => ",\""@ + name + "\":"@ + int_chars(n as int),
        None => Seq::empty(),
    }
}

pub open spec fn spec_encode_chat_response(c: ChatResponse) -> Seq<char> {
    "{\"response\":\""@ + esc_seq(c.response@) + "\""@ + enc_opt_i32_field(
        "prompt_tokens"@,
        c.prompt_tokens,
    ) + enc_opt_i32_field("response_tokens"@, c.response_tokens) + enc_opt_i32_field(
        "total_tokens"@,
        c.total_tokens,
    ) + "}"@
}

fn push_opt_i32_field(out: &mut Vec<char>, name: &str, v: &Option<i32>)
    ensures
        final(out)@ == old(out)@ + enc_opt_i32_field(name@, *v),
{
    match v {
        Some(n) => {
            push_lit(out, ",\"");
            push_lit(out, name);
            push_lit(out, "\":");
            crate::dec::push_dec_i64(*n as i64, out);
            proof {
                assert(out@ =~= old(out)@ + enc_opt_i32_field(name@, *v));
            }
        },
        None => {
            proof {
                assert(out@ =~= old(out)@ + enc_opt_i32_field(name@, *v));
            }
        },
    }
}

pub fn encode_chat_response(c: &ChatResponse) -> (r: String)
    ensures
        r@ == spec_encode_chat_response(*c),
{
    let mut out: Vec<char> = Vec::new();
    push_lit(&mut out, "{\"response\":\"");
    let v = chars_of(c.response.as_str());
    crate::jtext::push_escaped(&v, &mut out);
    push_lit(&mut out, "\"");
    push_opt_i32_field(&mut out, "prompt_tokens", &c.prompt_tokens);
    push_opt_i32_field(&mut out, "response_tokens", &c.response_tokens);
    push_opt_i32_field(&mut out, "total_tokens", &c.total_tokens);
    push_lit(&mut out, "}");
    proof {
        assert(out@ =~= spec_encode_chat_response(*c));
    }
    string_from_chars(&out)
}

/// The token triple of a response, from the usage record when one came.
pub fn usage_tokens(usage: &Option<UsageMetadata>) -> (r: (Option<i32>, Option<i32>, Option<i32>))
    ensures
        match usage {
            Some(u) => r == (Some(u.prompt_token_count), u.candidates_token_count, Some(
                u.total_token_count,
            )),
            None => r == (None::<i32>, None::<i32>, None::<i32>),
        },
{
    match usage {
        Some(u) => (Some(u.prompt_token_count), u.candidates_token_count, Some(
            u.total_token_count,
        )),
        None => (None, None, None),
    }
}

// ---------------------------------------------------------------------------
// Chat request parsing
// ---------------------------------------------------------------------------
/// One optional `,"key":"value"` member, with any whitespace around its
/// tokens; an absent member leaves the suffix untouched.
pub open spec fn spec_opt_member(s: Seq<char>, key: Seq<char>) -> Option<
    (Option<Seq<char>>, Seq<char>),
> {
    let s0 = skip_ws(s);
    match parse_lit(s0, ","@) {
        None => Some((None, s)),
        Some(s1) => {
            let s2 = skip_ws(s1);
            match parse_lit(s2, key) {
                None => Some((None, s)),
                Some(s3) => {
                    let s4 = skip_ws(s3);
                    match parse_lit(s4, ":"@) {
                        None => None,
                        Some(s5) => {
                            let s6 = skip_ws(s5);
                            match parse_lit(s6, "\""@) {
                                None => None,
                                Some(s7) => match parse_jstring(s7) {
                                    Some((t, rest)) => Some((Some(t), rest)),
                                    None => None,
                                },
                            }
                        },
                    }
                },
            }
        },
    }
}

/// The body of `POST /api/chat`: a `message`, then optionally a
/// `custom_instruction` and an `image`, in that order.
pub open spec fn spec_parse_chat_request(s: Seq<char>) -> Option<
    (Seq<char>, Option<Seq<char>>, Option<Seq<char>>),
> {
    let s0 = skip_ws(s);
    match parse_lit(s0, "{"@) {
        None => None,
        Some(s1) => {
            let s2 = skip_ws(s1);
            match parse_lit(s2, "\"message\""@) {
                None => None,
                Some(s3) => {
                    let s4 = skip_ws(s3);
                    match parse_lit(s4, ":"@) {
                        None => None,
                        Some(s5) => {
                            let s6 = skip_ws(s5);
                            match parse_lit(s6, "\""@) {
                                None => None,
                                Some(s7) => match parse_jstring(s7) {
                                    None => None,
                                    Some((msg, s8)) => match spec_opt_member(
                                        s8,
                                        "\"custom_instruction\""@,
                                    ) {
                                        None => None,
                                        Some((ci, s9)) => match spec_opt_member(s9, "\"image\""@) {
                                            None => None,
                                            Some((img, s10)) => {
                                                let s11 = skip_ws(s10);
                                                match parse_lit(s11, "}"@) {
                                                    None => None,
                                                    Some(s12) => if skip_ws(s12).len() == 0 {
                                                        Some((msg, ci, img))
                                                    } else {
                                                        None
                                                    },
                                                }
                                            },
                                        },
                                    },
                                },
                            }
                        },
                    }
                },
            }
        },
    }
}

fn opt_member(s: &Vec<char>, i: usize, key: &str) -> (r: Option<(Option<String>, usize)>)
    requires
        i <= s@.len(),
    ensures
        match &r {
            Some(p) => p.1 <= s@.len() && spec_opt_member(s@.skip(i as int), key@) == Some(
                (
                    match &p.0 {
                        Some(t) => Some(t@),
                        None => None,
                    },
                    s@.skip(p.1 as int),
                ),
            ),
            None => spec_opt_member(s@.skip(i as int), key@) is None,
        },
{
    let j0 = ws_to(s, i);
    let j1 = match match_lit(s, j0, ",") {
        Some(j) => j,
        None => {
            return Some((None, i));
        },
    };
    let j2 = ws_to(s, j1);
    let j3 = match match_lit(s, j2, key) {
        Some(j) => j,
        None => {
            return Some((None, i));
        },
    };
    let j4 = ws_to(s, j3);
    let j5 = match match_lit(s, j4, ":") {
        Some(j) => j,
        None => {
            return None;
        },
    };
    let j6 = ws_to(s, j5);
    let j7 = match match_lit(s, j6, "\"") {
        Some(j) => j,
        None => {
            return None;
        },
    };
    match crate::jtext::scan_jstring(s, j7) {
        Some((t, j8)) => Some((Some(string_from_chars(&t)), j8)),
        None => None,
    }
}

pub fn parse_chat_request(text: &str) -> (r: Option<ChatRequest>)
    ensures
        match &r {
            Some(c) => spec_parse_chat_request(text@) == Some(
                (
                    c.message@,
                    match &c.custom_instruction {
                        Some(t) => Some(t@),
                        None => None,
                    },
                    match &c.image {
                        Some(t) => Some(t@),
                        None => None,
                    },
                ),
            ),
            None => spec_parse_chat_request(text@) is None,
        },
{
    let s = chars_of(text);
    proof {
        assert(s@.skip(0) =~= s@);
    }
    let j0 = ws_to(&s, 0);
    let j1 = match match_lit(&s, j0, "{") {
        Some(j) => j,
        None => {
            return None;
        },
    };
    let j2 = ws_to(&s, j1);
    let j3 = match match_lit(&s, j2, "\"message\"") {
        Some(j) => j,
        None => {
            return None;
        },
    };
    let j4 = ws_to(&s, j3);
    let j5 = match match_lit(&s, j4, ":") {
        Some(j) => j,
        None => {
            return None;
        },
    };
    let j6 = ws_to(&s, j5);
    let j7 = match match_lit(&s, j6, "\"") {
        Some(j) => j,
        None => {
            return None;
        },
    };
    let (msg, j8) = match crate::jtext::scan_jstring(&s, j7) {
        Some(p) => p,
        None => {
            return None;
        },
    };
    let (ci, j9) = match opt_member(&s, j8, "\"custom_instruction\"") {
        Some(p) => p,
        None => {
            return None;
        },
    };
    let (img, j10) = match opt_member(&s, j9, "\"image\"") {
        Some(p) => p,
        None => {
            return None;
        },
    };
    let j11 = ws_to(&s, j10);
    let j12 = match match_lit(&s, j11, "}") {
        Some(j) => j,
        None => {
            return None;
        },
    };
    let j13 = ws_to(&s, j12);
    if j13 == s.len() {
        Some(ChatRequest { message: string_from_chars(&msg), custom_instruction: ci, image: img })
    } else {
        proof {
            assert(skip_ws(s@.skip(j12 as int)).len() > 0);
        }
        None
    }
}

} // verus!
