//! The browser tools the agent may invoke: each has a name, a JSON-schema
//! argument spec, a verified parser for its arguments, and a `call` that
//! reports the action in words. The socket round-trip versions of these
//! tools are built by the bridge; these are their schemas and argument
//! grammars.

use vstd::prelude::*;

use crate::codec::{parse_lit, spec_decode_opt_nat};
use crate::dec::{int_chars, parse_int};
use crate::jtext::parse_jstring;
use crate::text::string_from_chars;
use crate::wire::push_lit;

verus! {

/// A failure inside a browser tool, carried as its message.
#[derive(Debug, Clone, PartialEq)]
pub struct BrowserToolError(pub String);

impl BrowserToolError {
    /// The text a caller shows for this failure.
    pub fn message(&self) -> (r: String)
        ensures
            r@ == "Browser tool error: "@ + self.0@,
    {
        let mut out: Vec<char> = Vec::new();
        push_lit(&mut out, "Browser tool error: ");
        push_lit(&mut out, self.0.as_str());
        string_from_chars(&out)
    }
}

/// What the agent is told about one tool: its name, what it does, and the
/// JSON schema of its arguments.
#[derive(Debug, Clone, PartialEq)]
pub struct ToolDefinition {
    pub name: String,
    pub description: String,
    pub parameters: String,
}

fn mk_string(s: &str) -> (r: String)
    ensures
        r@ == s@,
{
    let mut out: Vec<char> = Vec::new();
    push_lit(&mut out, s);
    string_from_chars(&out)
}

// ---------------------------------------------------------------------------
// navigate_to
// ---------------------------------------------------------------------------
#[derive(Debug, Clone, PartialEq)]
pub struct NavigateTool;

#[derive(Debug, Clone, PartialEq)]
pub struct NavigateArgs {
    pub url: String,
}

/// The `url` of a `{"url":"..."}` argument object.
pub open spec fn spec_parse_navigate_args(s: Seq<char>) -> Option<Seq<char>> {
    match parse_lit(s, "{\"url\":\""@) {
        None => None,
        Some(r) => match parse_jstring(r) {
            Some((url, rest)) => if rest == "}"@ {
                Some(url)
            } else {
                None
            },
            None => None,
        },
    }
}

pub fn parse_navigate_args(s: &str) -> (r: Option<NavigateArgs>)
    ensures
        match &r {
            Some(a) => spec_parse_navigate_args(s@) == Some(a.url@),
            None => spec_parse_navigate_args(s@) is None,
        },
{
    let v = crate::text::chars_of(s);
    proof {
        assert(v@.skip(0) =~= v@);
    }
    match crate::wire::match_lit(&v, 0, "{\"url\":\"") {
        Some(j) => {
            match crate::jtext::scan_jstring(&v, j) {
                Some((url, j2)) => {
                    if crate::wire::eq_rest(&v, j2, "}") {
                        Some(NavigateArgs { url: string_from_chars(&url) })
                    } else {
                        None
                    }
                },
                None => None,
            }
        },
        None => None,
    }
}

impl NavigateTool {
    pub fn name(&self) -> (r: String)
        ensures
            r@ == "navigate_to"@,
    {
        mk_string("navigate_to")
    }

    pub fn definition(&self) -> (r: ToolDefinition)
        ensures
            r.name@ == "navigate_to"@,
            r.description@ == "Navigate to a specific URL in the browser"@,
            r.parameters@
                == "{\"type\":\"object\",\"properties\":{\"url\":{\"type\":\"string\",\"description\":\"The URL to navigate to (e.g., https://google.com)\"}},\"required\":[\"url\"]}"@,
    {
        ToolDefinition {
            name: mk_string("navigate_to"),
            description: mk_string("Navigate to a specific URL in the browser"),
            parameters: mk_string(
                "{\"type\":\"object\",\"properties\":{\"url\":{\"type\":\"string\",\"description\":\"The URL to navigate to (e.g., https://google.com)\"}},\"required\":[\"url\"]}",
            ),
        }
    }

    /// The local echo of the action, used where no browser is attached.
    pub fn call(&self, args: NavigateArgs) -> (r: Result<String, BrowserToolError>)
        ensures
            r matches Ok(t) && t@ == "Navigating to "@ + args.url@,
    {
        let mut out: Vec<char> = Vec::new();
        push_lit(&mut out, "Navigating to ");
        push_lit(&mut out, args.url.as_str());
        Ok(string_from_chars(&out))
    }
}

// ---------------------------------------------------------------------------
// click_element
// ---------------------------------------------------------------------------
#[derive(Debug, Clone, PartialEq)]
pub struct ClickTool;

#[derive(Debug, Clone, PartialEq)]
pub struct ClickArgs {
    pub ref_id: i32,
}

/// The `ref` of a `{"ref":N}` argument object, when it fits an `i32`.
pub open spec fn spec_parse_click_args(s: Seq<char>) -> Option<int> {
    match parse_lit(s, "{\"ref\":"@) {
        None => None,
        Some(r) => match parse_int(r) {
            Some((v, rest)) => if rest == "}"@ && i32::MIN <= v <= i32::MAX {
                Some(v)
            } else {
                None
            },
            None => None,
        },
    }
}

pub fn parse_click_args(s: &str) -> (r: Option<ClickArgs>)
    ensures
        match &r {
            Some(a) => spec_parse_click_args(s@) == Some(a.ref_id as int),
            None => spec_parse_click_args(s@) is None,
        },
{
    let v = crate::text::chars_of(s);
    proof {
        assert(v@.skip(0) =~= v@);
    }
    match crate::wire::match_lit(&v, 0, "{\"ref\":") {
        Some(j) => {
            match crate::dec::scan_i64(&v, j) {
                Some((n, j2)) => {
                    if i32::MIN as i64 <= n && n <= i32::MAX as i64 && crate::wire::eq_rest(
                        &v,
                        j2,
                        "}",
                    ) {
                        Some(ClickArgs { ref_id: n as i32 })
                    } else {
                        None
                    }
                },
                None => None,
            }
        },
        None => None,
    }
}

impl ClickTool {
    pub fn name(&self) -> (r: String)
        ensures
            r@ == "click_element"@,
    {
        mk_string("click_element")
    }

    pub fn definition(&self) -> (r: ToolDefinition)
        ensures
            r.name@ == "click_element"@,
            r.description@ == "Click an element on the page using its reference ID"@,
            r.parameters@
                == "{\"type\":\"object\",\"properties\":{\"ref\":{\"type\":\"integer\",\"description\":\"The reference ID of the element to click\"}},\"required\":[\"ref\"]}"@,
    {
        ToolDefinition {
            name: mk_string("click_element"),
            description: mk_string("Click an element on the page using its reference ID"),
            parameters: mk_string(
                "{\"type\":\"object\",\"properties\":{\"ref\":{\"type\":\"integer\",\"description\":\"The reference ID of the element to click\"}},\"required\":[\"ref\"]}",
            ),
        }
    }

    pub fn call(&self, args: ClickArgs) -> (r: Result<String, BrowserToolError>)
        ensures
            r matches Ok(t) && t@ == "Clicking element with ref ID: "@ + int_chars(
                args.ref_id as int,
            ),
    {
        let mut out: Vec<char> = Vec::new();
        push_lit(&mut out, "Clicking element with ref ID: ");
        crate::dec::push_dec_i64(args.ref_id as i64, &mut out);
        Ok(string_from_chars(&out))
    }
}

// ---------------------------------------------------------------------------
// type_text
// ---------------------------------------------------------------------------
#[derive(Debug, Clone, PartialEq)]
pub struct TypeTool;

#[derive(Debug, Clone, PartialEq)]
pub struct TypeArgs {
    pub ref_id: i32,
    pub text: String,
}

/// The `ref` and `text` of a `{"ref":N,"text":"..."}` argument object.
pub open spec fn spec_parse_type_args(s: Seq<char>) -> Option<(int, Seq<char>)> {
    match parse_lit(s, "{\"ref\":"@) {
        None => None,
        Some(r) => match parse_int(r) {
            Some((v, r2)) => if i32::MIN <= v <= i32::MAX {
                match parse_lit(r2, ",\"text\":\""@) {
                    None => None,
                    Some(r3) => match parse_jstring(r3) {
                        Some((text, rest)) => if rest == "}"@ {
                            Some((v, text))
                        } else {
                            None
                        },
                        None => None,
                    },
                }
            } else {
                None
            },
            None => None,
        },
    }
}

pub fn parse_type_args(s: &str) -> (r: Option<TypeArgs>)
    ensures
        match &r {
            Some(a) => spec_parse_type_args(s@) == Some((a.ref_id as int, a.text@)),
            None => spec_parse_type_args(s@) is None,
        },
{
    let v = crate::text::chars_of(s);
    proof {
        assert(v@.skip(0) =~= v@);
    }
    match crate::wire::match_lit(&v, 0, "{\"ref\":") {
        Some(j) => {
            match crate::dec::scan_i64(&v, j) {
                Some((n, j2)) => {
                    if i32::MIN as i64 <= n && n <= i32::MAX as i64 {
                        match crate::wire::match_lit(&v, j2, ",\"text\":\"") {
                            Some(j3) => {
                                match crate::jtext::scan_jstring(&v, j3) {
                                    Some((text, j4)) => {
                                        if crate::wire::eq_rest(&v, j4, "}") {
                                            Some(
                                                TypeArgs {
                                                    ref_id: n as i32,
                                                    text: string_from_chars(&text),
                                                },
                                            )
                                        } else {
                                            None
                                        }
                                    },
                                    None => None,
                                }
                            },
                            None => None,
                        }
                    } else {
                        None
                    }
                },
                None => None,
            }
        },
        None => None,
    }
}

impl TypeTool {
    pub fn name(&self) -> (r: String)
        ensures
            r@ == "type_text"@,
    {
        mk_string("type_text")
    }

    pub fn definition(&self) -> (r: ToolDefinition)
        ensures
            r.name@ == "type_text"@,
            r.description@ == "Type text into an input field using its reference ID"@,
            r.parameters@
                == "{\"type\":\"object\",\"properties\":{\"ref\":{\"type\":\"integer\",\"description\":\"The reference ID of the element to type into\"},\"text\":{\"type\":\"string\",\"description\":\"The text to type\"}},\"required\":[\"ref\",\"text\"]}"@,
    {
        ToolDefinition {
            name: mk_string("type_text"),
            description: mk_string("Type text into an input field using its reference ID"),
            parameters: mk_string(
                "{\"type\":\"object\",\"properties\":{\"ref\":{\"type\":\"integer\",\"description\":\"The reference ID of the element to type into\"},\"text\":{\"type\":\"string\",\"description\":\"The text to type\"}},\"required\":[\"ref\",\"text\"]}",
            ),
        }
    }

    pub fn call(&self, args: TypeArgs) -> (r: Result<String, BrowserToolError>)
        ensures
            r matches Ok(t) && t@ == "Typing '"@ + args.text@ + "' into element with ref ID: "@
                + int_chars(args.ref_id as int),
    {
        let mut out: Vec<char> = Vec::new();
        push_lit(&mut out, "Typing '");
        push_lit(&mut out, args.text.as_str());
        push_lit(&mut out, "' into element with ref ID: ");
        crate::dec::push_dec_i64(args.ref_id as i64, &mut out);
        proof {
            assert(out@ =~= "Typing '"@ + args.text@ + "' into element with ref ID: "@ + int_chars(
                args.ref_id as int,
            ));
        }
        Ok(string_from_chars(&out))
    }
}

// ---------------------------------------------------------------------------
// scroll_to
// ---------------------------------------------------------------------------
#[derive(Debug, Clone, PartialEq)]
pub struct ScrollTool;

#[derive(Debug, Clone, PartialEq)]
pub struct ScrollArgs {
    pub x: i32,
    pub y: i32,
}

/// The coordinates of a `{"x":N,"y":M}` argument object.
pub open spec fn spec_parse_scroll_args(s: Seq<char>) -> Option<(int, int)> {
    match parse_lit(s, "{\"x\":"@) {
        None => None,
        Some(r) => match parse_int(r) {
            Some((x, r2)) => if i32::MIN <= x <= i32::MAX {
                match parse_lit(r2, ",\"y\":"@) {
                    None => None,
                    Some(r3) => match parse_int(r3) {
                        Some((y, rest)) => if rest == "}"@ && i32::MIN <= y <= i32::MAX {
                            Some((x, y))
                        } else {
                            None
                        },
                        None => None,
                    },
                }
            } else {
                None
            },
            None => None,
        },
    }
}

pub fn parse_scroll_args(s: &str) -> (r: Option<ScrollArgs>)
    ensures
        match &r {
            Some(a) => spec_parse_scroll_args(s@) == Some((a.x as int, a.y as int)),
            None => spec_parse_scroll_args(s@) is None,
        },
{
    let v = crate::text::chars_of(s);
    proof {
        assert(v@.skip(0) =~= v@);
    }
    match crate::wire::match_lit(&v, 0, "{\"x\":") {
        Some(j) => {
            match crate::dec::scan_i64(&v, j) {
                Some((x, j2)) => {
                    if i32::MIN as i64 <= x && x <= i32::MAX as i64 {
                        match crate::wire::match_lit(&v, j2, ",\"y\":") {
                            Some(j3) => {
                                match crate::dec::scan_i64(&v, j3) {
                                    Some((y, j4)) => {
                                        if i32::MIN as i64 <= y && y <= i32::MAX as i64
                                            && crate::wire::eq_rest(&v, j4, "}") {
                                            Some(ScrollArgs { x: x as i32, y: y as i32 })
                                        } else {
                                            None
                                        }
                                    },
                                    None => None,
                                }
                            },
                            None => None,
                        }
                    } else {
                        None
                    }
                },
                None => None,
            }
        },
        None => None,
    }
}

impl ScrollTool {
    pub fn name(&self) -> (r: String)
        ensures
            r@ == "scroll_to"@,
    {
        mk_string("scroll_to")
    }

    pub fn definition(&self) -> (r: ToolDefinition)
        ensures
            r.name@ == "scroll_to"@,
            r.description@ == "Scroll the page to specific coordinates (x, y)"@,
            r.parameters@
                == "{\"type\":\"object\",\"properties\":{\"x\":{\"type\":\"integer\",\"description\":\"The x-coordinate to scroll to\"},\"y\":{\"type\":\"integer\",\"description\":\"The y-coordinate to scroll to\"}},\"required\":[\"x\",\"y\"]}"@,
    {
        ToolDefinition {
            name: mk_string("scroll_to"),
            description: mk_string("Scroll the page to specific coordinates (x, y)"),
            parameters: mk_string(
                "{\"type\":\"object\",\"properties\":{\"x\":{\"type\":\"integer\",\"description\":\"The x-coordinate to scroll to\"},\"y\":{\"type\":\"integer\",\"description\":\"The y-coordinate to scroll to\"}},\"required\":[\"x\",\"y\"]}",
            ),
        }
    }

    pub fn call(&self, args: ScrollArgs) -> (r: Result<String, BrowserToolError>)
        ensures
            r matches Ok(t) && t@ == "Scrolling to x: "@ + int_chars(args.x as int) + ", y: "@
                + int_chars(args.y as int),
    {
        let mut out: Vec<char> = Vec::new();
        push_lit(&mut out, "Scrolling to x: ");
        crate::dec::push_dec_i64(args.x as i64, &mut out);
        push_lit(&mut out, ", y: ");
        crate::dec::push_dec_i64(args.y as i64, &mut out);
        proof {
            assert(out@ =~= "Scrolling to x: "@ + int_chars(args.x as int) + ", y: "@ + int_chars(
                args.y as int,
            ));
        }
        Ok(string_from_chars(&out))
    }
}

// ---------------------------------------------------------------------------
// get_page_content
// ---------------------------------------------------------------------------
#[derive(Debug, Clone, PartialEq)]
pub struct GetPageContentTool;

#[derive(Debug, Clone, PartialEq)]
pub struct GetPageContentArgs {
    pub max_length: Option<usize>,
}

/// The optional bound of a `{"max_length":N}` (or `{}`, or `null`-valued)
/// argument object.
pub open spec fn spec_parse_page_content_args(s: Seq<char>) -> Option<Option<nat>> {
    if s == "{}"@ {
        Some(None)
    } else {
        match parse_lit(s, "{\"max_length\":"@) {
            None => None,
            Some(r) => match spec_decode_opt_nat(r) {
                Some((o, rest)) => if rest == "}"@ {
                    Some(o)
                } else {
                    None
                },
                None => None,
            },
        }
    }
}

pub fn parse_page_content_args(s: &str) -> (r: Option<GetPageContentArgs>)
    ensures
        match &r {
            Some(a) => spec_parse_page_content_args(s@) == Some(
                match a.max_length {
                    Some(n) => Some(n as nat),
                    None => None,
                },
            ),
            None => spec_parse_page_content_args(s@) is None,
        },
{
    let v = crate::text::chars_of(s);
    proof {
        assert(v@.skip(0) =~= v@);
    }
    if crate::wire::eq_rest(&v, 0, "{}") {
        return Some(GetPageContentArgs { max_length: None });
    }
    match crate::wire::match_lit(&v, 0, "{\"max_length\":") {
        Some(j) => {
            match crate::wire::decode_opt_nat(&v, j) {
                Some((o, j2)) => {
                    if crate::wire::eq_rest(&v, j2, "}") {
                        Some(GetPageContentArgs { max_length: o })
                    } else {
                        None
                    }
                },
                None => None,
            }
        },
        None => None,
    }
}

impl GetPageContentTool {
    pub fn name(&self) -> (r: String)
        ensures
            r@ == "get_page_content"@,
    {
        mk_string("get_page_content")
    }

    pub fn definition(&self) -> (r: ToolDefinition)
        ensures
            r.name@ == "get_page_content"@,
            r.description@
                == "Get the text content of the current page. Use this when you need to read, summarize, or analyze the page content."@,
            r.parameters@
                == "{\"type\":\"object\",\"properties\":{\"max_length\":{\"type\":\"integer\",\"description\":\"Maximum number of characters to return\"}},\"required\":[]}"@,
    {
        ToolDefinition {
            name: mk_string("get_page_content"),
            description: mk_string(
                "Get the text content of the current page. Use this when you need to read, summarize, or analyze the page content.",
            ),
            parameters: mk_string(
                "{\"type\":\"object\",\"properties\":{\"max_length\":{\"type\":\"integer\",\"description\":\"Maximum number of characters to return\"}},\"required\":[]}",
            ),
        }
    }

    pub fn call(&self, args: GetPageContentArgs) -> (r: Result<String, BrowserToolError>)
        ensures
            r matches Ok(t) && t@ == "Getting page content..."@,
    {
        Ok(mk_string("Getting page content..."))
    }
}

// ---------------------------------------------------------------------------
// get_interactive_elements
// ---------------------------------------------------------------------------
#[derive(Debug, Clone, PartialEq)]
pub struct GetInteractiveElementsTool;

#[derive(Debug, Clone, PartialEq)]
pub struct GetInteractiveElementsArgs {
    pub limit: Option<usize>,
}

/// The optional bound of a `{"limit":N}` (or `{}`, or `null`-valued)
/// argument object.
pub open spec fn spec_parse_elements_args(s: Seq<char>) -> Option<Option<nat>> {
    if s == "{}"@ {
        Some(None)
    } else {
        match parse_lit(s, "{\"limit\":"@) {
            None => None,
            Some(r) => match spec_decode_opt_nat(r) {
                Some((o, rest)) => if rest == "}"@ {
                    Some(o)
                } else {
                    None
                },
                None => None,
            },
        }
    }
}

pub fn parse_elements_args(s: &str) -> (r: Option<GetInteractiveElementsArgs>)
    ensures
        match &r {
            Some(a) => spec_parse_elements_args(s@) == Some(
                match a.limit {
                    Some(n) => Some(n as nat),
                    None => None,
                },
            ),
            None => spec_parse_elements_args(s@) is None,
        },
{
    let v = crate::text::chars_of(s);
    proof {
        assert(v@.skip(0) =~= v@);
    }
    if crate::wire::eq_rest(&v, 0, "{}") {
        return Some(GetInteractiveElementsArgs { limit: None });
    }
    match crate::wire::match_lit(&v, 0, "{\"limit\":") {
        Some(j) => {
            match crate::wire::decode_opt_nat(&v, j) {
                Some((o, j2)) => {
                    if crate::wire::eq_rest(&v, j2, "}") {
                        Some(GetInteractiveElementsArgs { limit: o })
                    } else {
                        None
                    }
                },
                None => None,
            }
        },
        None => None,
    }
}

impl GetInteractiveElementsTool {
    pub fn name(&self) -> (r: String)
        ensures
            r@ == "get_interactive_elements"@,
    {
        mk_string("get_interactive_elements")
    }

    pub fn definition(&self) -> (r: ToolDefinition)
        ensures
            r.name@ == "get_interactive_elements"@,
            r.description@
                == "Scan the page for interactive elements (buttons, inputs, links). Use this when you need to click, type, or interact with page elements. Returns a list of elements with their Ref IDs."@,
            r.parameters@
                == "{\"type\":\"object\",\"properties\":{\"limit\":{\"type\":\"integer\",\"description\":\"Maximum number of elements to return\"}},\"required\":[]}"@,
    {
        ToolDefinition {
            name: mk_string("get_interactive_elements"),
            description: mk_string(
                "Scan the page for interactive elements (buttons, inputs, links). Use this when you need to click, type, or interact with page elements. Returns a list of elements with their Ref IDs.",
            ),
            parameters: mk_string(
                "{\"type\":\"object\",\"properties\":{\"limit\":{\"type\":\"integer\",\"description\":\"Maximum number of elements to return\"}},\"required\":[]}",
            ),
        }
    }

    pub fn call(&self, args: GetInteractiveElementsArgs) -> (r: Result<String, BrowserToolError>)
        ensures
            r matches Ok(t) && t@ == "Scanning for interactive elements..."@,
    {
        Ok(mk_string("Scanning for interactive elements..."))
    }
}

} // verus!
