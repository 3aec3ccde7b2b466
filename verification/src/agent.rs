//! The agent orchestrator's decisions: routing a request, building the
//! preamble and system prompt deterministically from the browser context,
//! decoding inline images, stepping the tool loop, and recovering the
//! known benign LLM failures.

use vstd::prelude::*;

use crate::codec::parse_lit;
use crate::dec::int_chars;
use crate::jtext::parse_jstring;
use crate::model::Memory;
use crate::text::{chars_of, contains_sub, contains_str, string_from_chars};
use crate::wire::push_lit;

verus! {

/// One interactive element as the extension reports it; `id` is the opaque
/// ref the extension assigned, forwarded but never interpreted.
#[derive(Debug, Clone, PartialEq)]
pub struct InteractiveElement {
    pub id: i64,
    pub name: String,
    pub role: String,
}

/// The body of `POST /agent/run` and `POST /api/chat`.
#[derive(Debug, Clone, PartialEq)]
pub struct AgentRequest {
    pub query: String,
    pub session_id: Option<String>,
    pub image: Option<String>,
    pub page_content: Option<String>,
    pub interactive_elements: Option<Vec<InteractiveElement>>,
    pub custom_instruction: Option<String>,
    pub stream: bool,
}

/// Which path serves a request: the tool-enabled agent when a session id is
/// named, else a streamed or plain completion.
#[derive(Debug, Clone, Copy, PartialEq, Eq)]
pub enum AgentRoute {
    Tools,
    Stream,
    Plain,
}

pub fn route_request(req: &AgentRequest) -> (r: AgentRoute)
    ensures
        req.session_id is Some ==> r == AgentRoute::Tools,
        req.session_id is None && req.stream ==> r == AgentRoute::Stream,
        req.session_id is None && !req.stream ==> r == AgentRoute::Plain,
{
    match &req.session_id {
        Some(_) => AgentRoute::Tools,
        None => {
            if req.stream {
                AgentRoute::Stream
            } else {
                AgentRoute::Plain
            }
        },
    }
}

// ---------------------------------------------------------------------------
// Element listing and preamble
// ---------------------------------------------------------------------------
/// One element's line in the preamble listing.
pub open spec fn spec_format_element(e: InteractiveElement) -> Seq<char> {
    "- Ref "@ + int_chars(e.id as int) + ": "@ + e.name@ + " ("@ + e.role@ + ")"@
}

/// The whole listing, one line per element.
pub open spec fn spec_format_elements(es: Seq<InteractiveElement>) -> Seq<char>
    decreases es.len(),
{
    if es.len() == 0 {
        Seq::empty()
    } else if es.len() == 1 {
        spec_format_element(es[0])
    } else {
        spec_format_element(es[0]) + "\n"@ + spec_format_elements(es.skip(1))
    }
}

proof fn lemma_format_elements_snoc(a: Seq<InteractiveElement>, x: InteractiveElement)
    ensures
        spec_format_elements(a.push(x)) == if a.len() == 0 {
            spec_format_element(x)
        } else {
            spec_format_elements(a) + "\n"@ + spec_format_element(x)
        },
    decreases a.len(),
{
    let s = a.push(x);
    if a.len() == 0 {
        assert(s.len() == 1);
        assert(s[0] == x);
    } else {
        assert(s[0] == a[0]);
        assert(s.skip(1) =~= a.skip(1).push(x));
        lemma_format_elements_snoc(a.skip(1), x);
        if a.len() == 1 {
            assert(a.skip(1).len() == 0);
            assert(spec_format_elements(s) == spec_format_element(a[0]) + "\n"@
                + spec_format_element(x));
        } else {
            assert(spec_format_element(a[0]) + "\n"@ + (spec_format_elements(a.skip(1)) + "\n"@
                + spec_format_element(x)) =~= (spec_format_element(a[0]) + "\n"@
                + spec_format_elements(a.skip(1))) + "\n"@ + spec_format_element(x));
        }
    }
}

fn push_element(out: &mut Vec<char>, e: &InteractiveElement)
    ensures
        final(out)@ == old(out)@ + spec_format_element(*e),
{
    push_lit(out, "- Ref ");
    crate::dec::push_dec_i64(e.id, out);
    push_lit(out, ": ");
    push_lit(out, e.name.as_str());
    push_lit(out, " (");
    push_lit(out, e.role.as_str());
    push_lit(out, ")");
    proof {
        assert(out@ =~= old(out)@ + spec_format_element(*e));
    }
}

/// Renders the interactive-element listing shown to the agent, one
/// `- Ref id: name (role)` line per element.
pub fn format_interactive_elements(elements: &[InteractiveElement]) -> (r: String)
    ensures
        r@ == spec_format_elements(elements@),
{
    let mut out: Vec<char> = Vec::new();
    let mut i: usize = 0;
    while i < elements.len()
        invariant
            i <= elements@.len(),
            out@ == spec_format_elements(elements@.subrange(0, i as int)),
        decreases elements@.len() - i,
    {
        if i > 0 {
            push_lit(&mut out, "\n");
        }
        push_element(&mut out, &elements[i]);
        proof {
            let pre = elements@.subrange(0, i as int);
            assert(elements@.subrange(0, i + 1) =~= pre.push(elements@[i as int]));
            lemma_format_elements_snoc(pre, elements@[i as int]);
            assert(out@ =~= spec_format_elements(elements@.subrange(0, i + 1)));
        }
        i = i + 1;
    }
    proof {
        assert(elements@.subrange(0, elements@.len() as int) =~= elements@);
    }
    string_from_chars(&out)
}

/// The fixed instructional prelude of the tool-enabled agent.
pub open spec fn spec_prelude() -> Seq<char> {
    "You are a browser automation assistant. You can control the browser using tools and see and analyze screenshots.\n"@
        + "\n## Available Tools\n"@
        + "- navigate_to(url): Navigate to a URL (e.g., \"https://google.com\")\n"@
        + "- click_element(ref): Click an element using its Ref ID number\n"@
        + "- type_text(ref, text): Type text into an input field using its Ref ID\n"@
        + "- scroll_to(x, y): Scroll the page to coordinates\n"@
        + "\n## Your Capabilities\n"@
        + "1. Browser Automation: Control the browser using the tools above\n"@
        + "2. Visual Analysis: When a screenshot is provided, you can read everything visible on screen\n"@
        + "\n## Instructions\n"@
        + "1. Use type_text to fill fields, click_element to click, navigate_to to open pages\n"@
        + "2. When asked about the page content, read and describe what you see\n"@
        + "3. Always respond with a brief confirmation of what you did\n"@
        + "4. If no elements are available or none matches, explain what you need\n"@
}

/// Page content as it is quoted in the preamble: at most 8,000 characters,
/// with a truncation marker when cut.
pub open spec fn spec_truncated_content(c: Seq<char>) -> Seq<char> {
    if c.len() > 8000 {
        c.subrange(0, 8000) + "...\n[Content truncated]"@
    } else {
        c
    }
}

/// What the preamble appends for the element listing.
pub open spec fn spec_elements_section(elements: Option<Seq<InteractiveElement>>) -> Seq<char> {
    match elements {
        Some(es) => if es.len() > 0 {
            "\n## Available Interactive Elements on Current Page\n"@ + spec_format_elements(es)
                + "\n\nMatch user requests to elements above by name/role and use their Ref ID."@
        } else {
            "\n## Note\nNo interactive elements detected on the current page. You may need to navigate to a page first or ask the user for more context."@
        },
        None => "\n## Note\nNo page context provided. Ask the user to refresh the page or provide more details."@,
    }
}

/// What the preamble appends for quoted page text.
pub open spec fn spec_content_section(content: Option<Seq<char>>) -> Seq<char> {
    match content {
        Some(c) => if c.len() > 0 {
            "\n## Current Page Text Content\nBelow is the text content of the page. Use this to answer questions about the page:\n\n"@
                + spec_truncated_content(c)
        } else {
            Seq::empty()
        },
        None => Seq::empty(),
    }
}

/// The preamble handed to the tool-enabled agent, deterministic in the
/// request's context.
pub open spec fn spec_preamble(
    elements: Option<Seq<InteractiveElement>>,
    content: Option<Seq<char>>,
) -> Seq<char> {
    spec_prelude() + spec_elements_section(elements) + spec_content_section(content)
}

fn push_prelude(out: &mut Vec<char>)
    ensures
        final(out)@ == old(out)@ + spec_prelude(),
{
    push_lit(out, "You are a browser automation assistant. You can control the browser using tools and see and analyze screenshots.\n");
    push_lit(out, "\n## Available Tools\n");
    push_lit(out, "- navigate_to(url): Navigate to a URL (e.g., \"https://google.com\")\n");
    push_lit(out, "- click_element(ref): Click an element using its Ref ID number\n");
    push_lit(out, "- type_text(ref, text): Type text into an input field using its Ref ID\n");
    push_lit(out, "- scroll_to(x, y): Scroll the page to coordinates\n");
    push_lit(out, "\n## Your Capabilities\n");
    push_lit(out, "1. Browser Automation: Control the browser using the tools above\n");
    push_lit(out, "2. Visual Analysis: When a screenshot is provided, you can read everything visible on screen\n");
    push_lit(out, "\n## Instructions\n");
    push_lit(out, "1. Use type_text to fill fields, click_element to click, navigate_to to open pages\n");
    push_lit(out, "2. When asked about the page content, read and describe what you see\n");
    push_lit(out, "3. Always respond with a brief confirmation of what you did\n");
    push_lit(out, "4. If no elements are available or none matches, explain what you need\n");
    proof {
        assert(out@ =~= old(out)@ + spec_prelude());
    }
}

/// Builds the agent's preamble from the request's element listing and page
/// content.
pub fn build_preamble(
    elements: Option<&Vec<InteractiveElement>>,
    page_content: Option<&String>,
) -> (r: String)
    ensures
        r@ == spec_preamble(
            match elements {
                Some(es) => Some(es@),
                None => None,
            },
            match page_content {
                Some(c) => Some(c@),
                None => None,
            },
        ),
{
    let mut out: Vec<char> = Vec::new();
    push_prelude(&mut out);
    match elements {
        Some(es) => {
            if es.len() > 0 {
                push_lit(&mut out, "\n## Available Interactive Elements on Current Page\n");
                let listing = format_interactive_elements(es.as_slice());
                push_lit(&mut out, listing.as_str());
                push_lit(&mut out, "\n\nMatch user requests to elements above by name/role and use their Ref ID.");
            } else {
                push_lit(&mut out, "\n## Note\nNo interactive elements detected on the current page. You may need to navigate to a page first or ask the user for more context.");
            }
        },
        None => {
            push_lit(&mut out, "\n## Note\nNo page context provided. Ask the user to refresh the page or provide more details.");
        },
    }
    match page_content {
        Some(c) => {
            if c.as_str().unicode_len() > 0 {
                push_lit(&mut out, "\n## Current Page Text Content\nBelow is the text content of the page. Use this to answer questions about the page:\n\n");
                push_truncated(&mut out, c.as_str(), 8000, "...\n[Content truncated]");
                proof {
                    assert(spec_truncated_content(c@) == if c@.len() > 8000 {
                        c@.subrange(0, 8000) + "...\n[Content truncated]"@
                    } else {
                        c@
                    });
                }
            }
        },
        None => {},
    }
    proof {
        assert(out@ =~= spec_preamble(
            match elements {
                Some(es) => Some(es@),
                None => None,
            },
            match page_content {
                Some(c) => Some(c@),
                None => None,
            },
        ));
    }
    string_from_chars(&out)
}

/// Appends `s`, cut to `limit` characters with `marker` appended when it
/// was longer.
fn push_truncated(out: &mut Vec<char>, s: &str, limit: usize, marker: &str)
    ensures
        final(out)@ == old(out)@ + if s@.len() > limit {
            s@.subrange(0, limit as int) + marker@
        } else {
            s@
        },
{
    let n = s.unicode_len();
    if n > limit {
        let head = s.substring_char(0, limit);
        push_lit(out, head);
        push_lit(out, marker);
        proof {
            assert(out@ =~= old(out)@ + (s@.subrange(0, limit as int) + marker@));
        }
    } else {
        push_lit(out, s);
    }
}

// ---------------------------------------------------------------------------
// Image data URLs
// ---------------------------------------------------------------------------
/// The media types the inline-image decoder recognizes.
#[derive(Debug, Clone, Copy, PartialEq, Eq)]
pub enum ImageMediaType {
    PNG,
    JPEG,
    WEBP,
}

/// The position of the first comma, if any.
pub open spec fn comma_pos(s: Seq<char>) -> Option<int>
    decreases s.len(),
{
    if s.len() == 0 {
        None
    } else if s[0] == ',' {
        Some(0)
    } else {
        match comma_pos(s.skip(1)) {
            Some(i) => Some(i + 1),
            None => None,
        }
    }
}

/// How an inline image string is read: a recognized data-URL prefix names
/// the media type and strips itself; otherwise anything after a first comma
/// is the payload, defaulting to JPEG; with no comma the whole string is
/// the payload.
pub open spec fn spec_parse_image(s: Seq<char>) -> (ImageMediaType, Seq<char>) {
    if parse_lit(s, "data:image/png;base64,"@) is Some {
        (ImageMediaType::PNG, parse_lit(s, "data:image/png;base64,"@)->Some_0)
    } else if parse_lit(s, "data:image/jpeg;base64,"@) is Some {
        (ImageMediaType::JPEG, parse_lit(s, "data:image/jpeg;base64,"@)->Some_0)
    } else if parse_lit(s, "data:image/webp;base64,"@) is Some {
        (ImageMediaType::WEBP, parse_lit(s, "data:image/webp;base64,"@)->Some_0)
    } else {
        match comma_pos(s) {
            Some(i) => (ImageMediaType::JPEG, s.skip(i + 1)),
            None => (ImageMediaType::JPEG, s),
        }
    }
}

proof fn lemma_comma_pos_at(s: Seq<char>, i: int)
    requires
        0 <= i < s.len(),
        s[i] == ',',
        forall|t: int| 0 <= t < i ==> s[t] != ',',
    ensures
        comma_pos(s) == Some(i),
    decreases i,
{
    if i == 0 {
    } else {
        assert(s[0] != ',');
        assert forall|t: int| 0 <= t < i - 1 implies s.skip(1)[t] != ',' by {
            assert(s.skip(1)[t] == s[t + 1]);
        }
        assert(s.skip(1)[i - 1] == s[i]);
        lemma_comma_pos_at(s.skip(1), i - 1);
    }
}

proof fn lemma_comma_pos_none(s: Seq<char>)
    requires
        forall|t: int| 0 <= t < s.len() ==> s[t] != ',',
    ensures
        comma_pos(s) is None,
    decreases s.len(),
{
    if s.len() > 0 {
        assert forall|t: int| 0 <= t < s.skip(1).len() implies s.skip(1)[t] != ',' by {
            assert(s.skip(1)[t] == s[t + 1]);
        }
        lemma_comma_pos_none(s.skip(1));
    }
}

/// Splits an inline image into its media type and base64 payload.
pub fn parse_image_data(img_data: &str) -> (r: (ImageMediaType, &str))
    ensures
        r.0 == spec_parse_image(img_data@).0,
        r.1@ == spec_parse_image(img_data@).1,
{
    let v = chars_of(img_data);
    let n = img_data.unicode_len();
    proof {
        assert(v@.skip(0) =~= v@);
    }
    if let Some(j) = crate::wire::match_lit(&v, 0, "data:image/png;base64,") {
        let rest = img_data.substring_char(j, n);
        proof {
            assert(rest@ =~= v@.skip(j as int));
        }
        return (ImageMediaType::PNG, rest);
    }
    if let Some(j) = crate::wire::match_lit(&v, 0, "data:image/jpeg;base64,") {
        let rest = img_data.substring_char(j, n);
        proof {
            assert(rest@ =~= v@.skip(j as int));
        }
        return (ImageMediaType::JPEG, rest);
    }
    if let Some(j) = crate::wire::match_lit(&v, 0, "data:image/webp;base64,") {
        let rest = img_data.substring_char(j, n);
        proof {
            assert(rest@ =~= v@.skip(j as int));
        }
        return (ImageMediaType::WEBP, rest);
    }
    let mut i: usize = 0;
    while i < n
        invariant
            v@ == img_data@,
            n == img_data@.len(),
            i <= n,
            forall|t: int| 0 <= t < i ==> img_data@[t] != ',',
            parse_lit(img_data@, "data:image/png;base64,"@) is None,
            parse_lit(img_data@, "data:image/jpeg;base64,"@) is None,
            parse_lit(img_data@, "data:image/webp;base64,"@) is None,
        decreases n - i,
    {
        if v[i] == ',' {
            proof {
                lemma_comma_pos_at(img_data@, i as int);
            }
            let rest = img_data.substring_char(i + 1, n);
            proof {
                assert(rest@ =~= img_data@.skip(i + 1));
            }
            return (ImageMediaType::JPEG, rest);
        }
        i = i + 1;
    }
    proof {
        lemma_comma_pos_none(img_data@);
    }
    let whole = img_data.substring_char(0, n);
    proof {
        assert(whole@ =~= img_data@);
    }
    (ImageMediaType::JPEG, whole)
}

// ---------------------------------------------------------------------------
// Benign LLM failures
// ---------------------------------------------------------------------------
/// The failures the orchestrator smooths over instead of surfacing: the
/// model returned an empty turn.
pub open spec fn recoverable_llm_error(s: Seq<char>) -> bool {
    contains_sub(s, "empty"@) || contains_sub(s, "no message"@)
}

/// The friendly text shown for a recoverable failure; other failures
/// surface to the caller as server errors.
pub open spec fn spec_fallback_text(multimodal: bool) -> Seq<char> {
    if multimodal {
        "Sorry, I could not analyze this image in browser automation mode. Try turning off the browser agent for image analysis."@
    } else {
        "Sorry, I am not sure what action to take. Could you be more specific? For example:\n- \"fill the email field with test@example.com\"\n- \"click the Submit button\"\n- \"open google.com\""@
    }
}

/// Recovers the known benign LLM failures as a fallback message; any other
/// error is not recovered.
pub fn recover_llm_error(error_text: &str, multimodal: bool) -> (r: Option<String>)
    ensures
        recoverable_llm_error(error_text@) ==> (r matches Some(t) && t@ == spec_fallback_text(
            multimodal,
        )),
        !recoverable_llm_error(error_text@) ==> r is None,
{
    if contains_str(error_text, "empty") || contains_str(error_text, "no message") {
        let mut out: Vec<char> = Vec::new();
        if multimodal {
            push_lit(&mut out, "Sorry, I could not analyze this image in browser automation mode. Try turning off the browser agent for image analysis.");
        } else {
            push_lit(&mut out, "Sorry, I am not sure what action to take. Could you be more specific? For example:\n- \"fill the email field with test@example.com\"\n- \"click the Submit button\"\n- \"open google.com\"");
        }
        Some(string_from_chars(&out))
    } else {
        None
    }
}

/// The plain-chat preamble, plus any extra instruction from the request.
pub open spec fn spec_chat_preamble(custom_instruction: Option<Seq<char>>) -> Seq<char> {
    "REQUIRED: Always reply in Indonesian unless asked otherwise."@ + match custom_instruction {
        Some(c) => "\n\nADDITIONAL INSTRUCTIONS: "@ + c,
        None => Seq::empty(),
    }
}

pub fn build_chat_preamble(custom_instruction: Option<&str>) -> (r: String)
    ensures
        r@ == spec_chat_preamble(
            match custom_instruction {
                Some(c) => Some(c@),
                None => None,
            },
        ),
{
    let mut out: Vec<char> = Vec::new();
    push_lit(&mut out, "REQUIRED: Always reply in Indonesian unless asked otherwise.");
    match custom_instruction {
        Some(c) => {
            push_lit(&mut out, "\n\nADDITIONAL INSTRUCTIONS: ");
            push_lit(&mut out, c);
        },
        None => {},
    }
    proof {
        assert(out@ =~= spec_chat_preamble(
            match custom_instruction {
                Some(c) => Some(c@),
                None => None,
            },
        ));
    }
    string_from_chars(&out)
}

// ---------------------------------------------------------------------------
// The tool loop's step
// ---------------------------------------------------------------------------
/// One part of a model turn: prose, or a request to call a named function.
#[derive(Debug, Clone, PartialEq)]
pub enum ResponsePart {
    Text(String),
    FunctionCall { name: String, args: String },
}

/// A function call the model asked for, with its raw JSON arguments.
#[derive(Debug, Clone, PartialEq)]
pub struct FunctionCallData {
    pub name: String,
    pub args: String,
}

/// What the loop does after one model turn: return the accumulated text, or
/// execute the turn's calls (the text rides along as the model's
/// commentary).
#[derive(Debug, Clone, PartialEq)]
pub enum AgentStep {
    Finish(String),
    Execute(String, Vec<FunctionCallData>),
}

/// The turn's prose, concatenated.
pub open spec fn texts_of(parts: Seq<ResponsePart>) -> Seq<char>
    decreases parts.len(),
{
    if parts.len() == 0 {
        Seq::empty()
    } else {
        (match parts[0] {
            ResponsePart::Text(t) => t@,
            ResponsePart::FunctionCall { .. } => Seq::empty(),
        }) + texts_of(parts.skip(1))
    }
}

/// The turn's function calls, in order.
pub open spec fn calls_of(parts: Seq<ResponsePart>) -> Seq<(Seq<char>, Seq<char>)>
    decreases parts.len(),
{
    if parts.len() == 0 {
        Seq::empty()
    } else {
        (match parts[0] {
            ResponsePart::Text(_) => Seq::empty(),
            ResponsePart::FunctionCall { name, args } => seq![(name@, args@)],
        }) + calls_of(parts.skip(1))
    }
}

proof fn lemma_parts_snoc(a: Seq<ResponsePart>, x: ResponsePart)
    ensures
        texts_of(a.push(x)) == texts_of(a) + (match x {
            ResponsePart::Text(t) => t@,
            ResponsePart::FunctionCall { .. } => Seq::empty(),
        }),
        calls_of(a.push(x)) == calls_of(a) + (match x {
            ResponsePart::Text(_) => Seq::empty(),
            ResponsePart::FunctionCall { name, args } => seq![(name@, args@)],
        }),
    decreases a.len(),
{
    let s = a.push(x);
    let xt = match x {
        ResponsePart::Text(t) => t@,
        ResponsePart::FunctionCall { .. } => Seq::<char>::empty(),
    };
    let xc = match x {
        ResponsePart::Text(_) => Seq::<(Seq<char>, Seq<char>)>::empty(),
        ResponsePart::FunctionCall { name, args } => seq![(name@, args@)],
    };
    if a.len() == 0 {
        assert(s.len() == 1);
        assert(s[0] == x);
        assert(s.skip(1) =~= Seq::<ResponsePart>::empty());
        assert(texts_of(Seq::<ResponsePart>::empty()) =~= Seq::<char>::empty());
        assert(calls_of(Seq::<ResponsePart>::empty()) =~= Seq::<(Seq<char>, Seq<char>)>::empty());
        assert(texts_of(a) =~= Seq::<char>::empty());
        assert(calls_of(a) =~= Seq::<(Seq<char>, Seq<char>)>::empty());
        assert(texts_of(s) =~= texts_of(a) + xt);
        assert(calls_of(s) =~= calls_of(a) + xc);
    } else {
        assert(s[0] == a[0]);
        assert(s.skip(1) =~= a.skip(1).push(x));
        lemma_parts_snoc(a.skip(1), x);
        let h = match a[0] {
            ResponsePart::Text(t) => t@,
            ResponsePart::FunctionCall { .. } => Seq::<char>::empty(),
        };
        let hc = match a[0] {
            ResponsePart::Text(_) => Seq::<(Seq<char>, Seq<char>)>::empty(),
            ResponsePart::FunctionCall { name, args } => seq![(name@, args@)],
        };
        assert(h + (texts_of(a.skip(1)) + xt) =~= (h + texts_of(a.skip(1))) + xt);
        assert(hc + (calls_of(a.skip(1)) + xc) =~= (hc + calls_of(a.skip(1))) + xc);
    }
}

/// Decides one turn of the tool loop: with no calls the turn's text is the
/// final answer; otherwise the calls are to be executed in order.
pub fn agent_step(parts: Vec<ResponsePart>) -> (r: AgentStep)
    ensures
        calls_of(parts@).len() == 0 ==> (r matches AgentStep::Finish(t) && t@ == texts_of(parts@)),
        calls_of(parts@).len() > 0 ==> (r matches AgentStep::Execute(t, cs) && t@ == texts_of(
            parts@,
        ) && cs@.len() == calls_of(parts@).len() && forall|i: int|
            0 <= i < cs@.len() ==> (#[trigger] cs@[i].name@, cs@[i].args@) == calls_of(parts@)[i]),
{
    let mut text: Vec<char> = Vec::new();
    let mut calls: Vec<FunctionCallData> = Vec::new();
    let n = parts.len();
    let mut i: usize = 0;
    while i < n
        invariant
            n == parts@.len(),
            i <= n,
            text@ == texts_of(parts@.subrange(0, i as int)),
            calls@.len() == calls_of(parts@.subrange(0, i as int)).len(),
            forall|j: int|
                0 <= j < calls@.len() ==> (#[trigger] calls@[j].name@, calls@[j].args@) == calls_of(
                    parts@.subrange(0, i as int),
                )[j],
        decreases n - i,
    {
        proof {
            let pre = parts@.subrange(0, i as int);
            assert(parts@.subrange(0, i + 1) =~= pre.push(parts@[i as int]));
            lemma_parts_snoc(pre, parts@[i as int]);
        }
        match &parts[i] {
            ResponsePart::Text(t) => {
                push_lit(&mut text, t.as_str());
                proof {
                    assert(text@ =~= texts_of(parts@.subrange(0, i + 1)));
                    assert(calls_of(parts@.subrange(0, i + 1)) =~= calls_of(
                        parts@.subrange(0, i as int),
                    ));
                }
            },
            ResponsePart::FunctionCall { name, args } => {
                let call = FunctionCallData { name: name.clone(), args: args.clone() };
                calls.push(call);
                proof {
                    assert(texts_of(parts@.subrange(0, i + 1)) =~= texts_of(
                        parts@.subrange(0, i as int),
                    ));
                    assert(calls_of(parts@.subrange(0, i + 1)) =~= calls_of(
                        parts@.subrange(0, i as int),
                    ).push((name@, args@)));
                }
            },
        }
        i = i + 1;
    }
    proof {
        assert(parts@.subrange(0, n as int) =~= parts@);
    }
    let text_s = string_from_chars(&text);
    if calls.len() == 0 {
        AgentStep::Finish(text_s)
    } else {
        AgentStep::Execute(text_s, calls)
    }
}

/// The `content` of a `save_memory` call's `{"content":"..."}` arguments;
/// anything else reads as empty.
pub open spec fn spec_memory_content(s: Seq<char>) -> Seq<char> {
    match parse_lit(s, "{\"content\":\""@) {
        None => Seq::empty(),
        Some(r) => match parse_jstring(r) {
            Some((t, rest)) => if rest == "}"@ {
                t
            } else {
                Seq::empty()
            },
            None => Seq::empty(),
        },
    }
}

pub fn memory_content_of_args(s: &str) -> (r: String)
    ensures
        r@ == spec_memory_content(s@),
{
    let v = chars_of(s);
    proof {
        assert(v@.skip(0) =~= v@);
    }
    match crate::wire::match_lit(&v, 0, "{\"content\":\"") {
        Some(j) => {
            match crate::jtext::scan_jstring(&v, j) {
                Some((t, j2)) => {
                    if crate::wire::eq_rest(&v, j2, "}") {
                        string_from_chars(&t)
                    } else {
                        String::new()
                    }
                },
                None => String::new(),
            }
        },
        None => String::new(),
    }
}

// ---------------------------------------------------------------------------
// The plain-chat system prompt
// ---------------------------------------------------------------------------
/// Captured browser context after sanitization.
#[derive(Debug, Clone, PartialEq)]
pub struct SanitizedContext {
    pub url: Option<String>,
    pub title: Option<String>,
    pub content: Option<String>,
    pub screenshot: Option<String>,
}

/// One remembered note's line in the prompt.
pub open spec fn spec_memory_line(m: Memory) -> Seq<char> {
    "- ["@ + m.created_at@ + "] "@ + m.content@ + "\n"@
}

pub open spec fn spec_memory_lines(ms: Seq<Memory>) -> Seq<char>
    decreases ms.len(),
{
    if ms.len() == 0 {
        Seq::empty()
    } else {
        spec_memory_line(ms[0]) + spec_memory_lines(ms.skip(1))
    }
}

proof fn lemma_memory_lines_snoc(a: Seq<Memory>, x: Memory)
    ensures
        spec_memory_lines(a.push(x)) == spec_memory_lines(a) + spec_memory_line(x),
    decreases a.len(),
{
    let s = a.push(x);
    if a.len() == 0 {
        assert(s.skip(1) =~= Seq::<Memory>::empty());
        assert(s[0] == x);
        assert(spec_memory_lines(Seq::<Memory>::empty()) =~= Seq::<char>::empty());
        assert(spec_memory_lines(a) =~= Seq::<char>::empty());
        assert(spec_memory_line(x) + Seq::<char>::empty() =~= spec_memory_line(x));
        assert(spec_memory_lines(s) =~= spec_memory_lines(a) + spec_memory_line(x));
    } else {
        assert(s[0] == a[0]);
        assert(s.skip(1) =~= a.skip(1).push(x));
        lemma_memory_lines_snoc(a.skip(1), x);
        assert(spec_memory_line(a[0]) + (spec_memory_lines(a.skip(1)) + spec_memory_line(x)) =~= (
        spec_memory_line(a[0]) + spec_memory_lines(a.skip(1))) + spec_memory_line(x));
    }
}

/// Page content as quoted in the system prompt: at most 12,000 characters.
pub open spec fn spec_truncated_context(c: Seq<char>) -> Seq<char> {
    if c.len() > 12000 {
        c.subrange(0, 12000) + "... [truncated]"@
    } else {
        c
    }
}

pub open spec fn spec_url_line(u: Option<String>) -> Seq<char> {
    match u {
        Some(u) => "URL: "@ + u@ + "\n"@,
        None => Seq::empty(),
    }
}

pub open spec fn spec_title_line(t: Option<String>) -> Seq<char> {
    match t {
        Some(t) => "Page Title: "@ + t@ + "\n"@,
        None => Seq::empty(),
    }
}

pub open spec fn spec_content_block(t: Option<String>) -> Seq<char> {
    match t {
        Some(t) => "\nPage Content:\n"@ + spec_truncated_context(t@) + "\n"@,
        None => Seq::empty(),
    }
}

pub open spec fn spec_shot_line(t: Option<String>) -> Seq<char> {
    match t {
        Some(_) => "\n[Screenshot of the current page attached below]\n"@,
        None => Seq::empty(),
    }
}

pub open spec fn spec_context_section(ctx: Option<SanitizedContext>) -> Seq<char> {
    match ctx {
        Some(c) => "Current browser context:\n"@ + spec_url_line(c.url) + spec_title_line(c.title)
            + spec_content_block(c.content) + spec_shot_line(c.screenshot) + "\n"@,
        None => "No browser context. The user has not opened any page yet.\n\n"@,
    }
}

/// The extra-instruction section of the system prompt.
pub open spec fn spec_instruction_section(custom_instruction: Option<Seq<char>>) -> Seq<char> {
    match custom_instruction {
        Some(c) => "ADDITIONAL INSTRUCTIONS: "@ + c + "\n\n"@,
        None => Seq::empty(),
    }
}

/// The remembered-notes section of the system prompt.
pub open spec fn spec_memories_section(memories: Seq<Memory>) -> Seq<char> {
    if memories.len() > 0 {
        "USER MEMORIES (things you remember):\n"@ + spec_memory_lines(memories) + "\n"@
    } else {
        Seq::empty()
    }
}

/// The plain-chat system prompt, deterministic in its inputs.
pub open spec fn spec_system_prompt(
    ctx: Option<SanitizedContext>,
    custom_instruction: Option<Seq<char>>,
    memories: Seq<Memory>,
) -> Seq<char> {
    "You are a helpful browser assistant. You can see what the user is browsing and help them understand the content.\n\n"@
        + spec_instruction_section(custom_instruction) + spec_memories_section(memories)
        + "IMPORTANT: You have access to:\n1. The page's text content\n2. A screenshot of the current browser view\n3. Web search, for current information\n4. save_memory, to keep important facts about the user when asked\n\n"@
        + spec_context_section(ctx)
        + "Answer the user's question from the page content, the screenshot, and search results when relevant. Answer concisely and helpfully."@
}

fn push_memories_section(out: &mut Vec<char>, memories: &[Memory])
    ensures
        final(out)@ == old(out)@ + spec_memories_section(memories@),
{
    if memories.len() > 0 {
        push_lit(out, "USER MEMORIES (things you remember):\n");
        let mut i: usize = 0;
        let ghost base = out@;
        while i < memories.len()
            invariant
                i <= memories@.len(),
                out@ == base + spec_memory_lines(memories@.subrange(0, i as int)),
            decreases memories@.len() - i,
        {
            proof {
                let pre = memories@.subrange(0, i as int);
                assert(memories@.subrange(0, i + 1) =~= pre.push(memories@[i as int]));
                lemma_memory_lines_snoc(pre, memories@[i as int]);
            }
            let m = &memories[i];
            push_lit(out, "- [");
            push_lit(out, m.created_at.as_str());
            push_lit(out, "] ");
            push_lit(out, m.content.as_str());
            push_lit(out, "\n");
            proof {
                assert(out@ =~= base + spec_memory_lines(memories@.subrange(0, i + 1)));
            }
            i = i + 1;
        }
        push_lit(out, "\n");
        proof {
            assert(memories@.subrange(0, memories@.len() as int) =~= memories@);
            assert(out@ =~= old(out)@ + spec_memories_section(memories@));
        }
    } else {
        proof {
            assert(out@ =~= old(out)@ + spec_memories_section(memories@));
        }
    }
}

#[verifier::rlimit(60)]
#[verifier::spinoff_prover]
fn push_context_section(out: &mut Vec<char>, context: Option<&SanitizedContext>)
    ensures
        final(out)@ == old(out)@ + spec_context_section(
            match context {
                Some(c) => Some(*c),
                None => None,
            },
        ),
{
    match context {
        Some(c) => {
            push_lit(out, "Current browser context:\n");
            let ghost g0 = out@;
            match &c.url {
                Some(u) => {
                    push_lit(out, "URL: ");
                    push_lit(out, u.as_str());
                    push_lit(out, "\n");
                },
                None => {},
            }
            proof {
                assert(out@ =~= g0 + spec_url_line(c.url));
            }
            let ghost g1 = out@;
            match &c.title {
                Some(t) => {
                    push_lit(out, "Page Title: ");
                    push_lit(out, t.as_str());
                    push_lit(out, "\n");
                },
                None => {},
            }
            proof {
                assert(out@ =~= g1 + spec_title_line(c.title));
            }
            let ghost g2 = out@;
            match &c.content {
                Some(t) => {
                    push_lit(out, "\nPage Content:\n");
                    push_truncated(out, t.as_str(), 12000, "... [truncated]");
                    push_lit(out, "\n");
                },
                None => {},
            }
            proof {
                assert(out@ =~= g2 + spec_content_block(c.content));
            }
            let ghost g3 = out@;
            match &c.screenshot {
                Some(_) => {
                    push_lit(out, "\n[Screenshot of the current page attached below]\n");
                },
                None => {},
            }
            proof {
                assert(out@ =~= g3 + spec_shot_line(c.screenshot));
            }
            push_lit(out, "\n");
            proof {
                assert(out@ =~= old(out)@ + spec_context_section(Some(*c)));
            }
        },
        None => {
            push_lit(out, "No browser context. The user has not opened any page yet.\n\n");
        },
    }
}

/// Builds the plain-chat system prompt from context, extra instructions and
/// remembered notes.
pub fn build_system_prompt(
    context: Option<&SanitizedContext>,
    custom_instruction: Option<&str>,
    memories: &[Memory],
) -> (r: String)
    ensures
        r@ == spec_system_prompt(
            match context {
                Some(c) => Some(*c),
                None => None,
            },
            match custom_instruction {
                Some(c) => Some(c@),
                None => None,
            },
            memories@,
        ),
{
    let mut out: Vec<char> = Vec::new();
    push_lit(&mut out, "You are a helpful browser assistant. You can see what the user is browsing and help them understand the content.\n\n");
    match custom_instruction {
        Some(c) => {
            push_lit(&mut out, "ADDITIONAL INSTRUCTIONS: ");
            push_lit(&mut out, c);
            push_lit(&mut out, "\n\n");
        },
        None => {},
    }
    push_memories_section(&mut out, memories);
    push_lit(&mut out, "IMPORTANT: You have access to:\n1. The page's text content\n2. A screenshot of the current browser view\n3. Web search, for current information\n4. save_memory, to keep important facts about the user when asked\n\n");
    push_context_section(&mut out, context);
    push_lit(&mut out, "Answer the user's question from the page content, the screenshot, and search results when relevant. Answer concisely and helpfully.");
    proof {
        assert(out@ =~= spec_system_prompt(
            match context {
                Some(c) => Some(*c),
                None => None,
            },
            match custom_instruction {
                Some(c) => Some(c@),
                None => None,
            },
            memories@,
        ));
    }
    string_from_chars(&out)
}

/// The preview of captured content shown by the debug endpoint: at most 500
/// characters.
pub open spec fn spec_content_preview(c: Seq<char>) -> Seq<char> {
    if c.len() > 500 {
        c.subrange(0, 500) + "..."@
    } else {
        c
    }
}

pub fn content_preview(c: &str) -> (r: String)
    ensures
        r@ == spec_content_preview(c@),
{
    let mut out: Vec<char> = Vec::new();
    push_truncated(&mut out, c, 500, "...");
    string_from_chars(&out)
}

} // verus!
