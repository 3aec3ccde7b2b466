//! The wire-protocol model: the tagged envelopes exchanged over the
//! browser socket, the commands they carry, and their mathematical views.
//!
//! The `data` payload of an `ActionResult` is opaque to the backend; it is
//! held verbatim as the raw text of one JSON value.

use vstd::prelude::*;

verus! {

/// A browser action the backend asks the extension to perform.
#[derive(Debug, Clone, PartialEq)]
pub enum ActionCommand {
    NavigateTo { url: String },
    ClickElement { ref_id: i32 },
    TypeText { ref_id: i32, text: String },
    ScrollTo { x: i32, y: i32 },
    GetPageContent { max_length: Option<usize> },
    GetInteractiveElements { limit: Option<usize> },
}

/// The extension's reply to one `ActionRequest`, correlated by
/// `request_id`. `data` holds the raw text of the reply's JSON payload.
#[derive(Debug, Clone, PartialEq)]
pub struct ActionResult {
    pub request_id: String,
    pub success: bool,
    pub error: Option<String>,
    pub data: Option<String>,
}

/// A tagged envelope on the socket. Unknown tags decode to `Unknown` so
/// that newer peers stay compatible.
#[derive(Debug, Clone, PartialEq)]
pub enum WsMessage {
    Ping,
    Pong,
    SessionInit { session_id: String },
    SessionUpdate { url: String, title: Option<String> },
    ActionRequest { request_id: String, command: ActionCommand },
    ActionResult(ActionResult),
    Unknown,
}

#[verifier::ext_equal]
pub enum ActionCommandV {
    NavigateTo { url: Seq<char> },
    ClickElement { ref_id: int },
    TypeText { ref_id: int, text: Seq<char> },
    ScrollTo { x: int, y: int },
    GetPageContent { max_length: Option<nat> },
    GetInteractiveElements { limit: Option<nat> },
}

#[verifier::ext_equal]
pub struct ActionResultV {
    pub request_id: Seq<char>,
    pub success: bool,
    pub error: Option<Seq<char>>,
    pub data: Option<Seq<char>>,
}

#[verifier::ext_equal]
pub enum WsMessageV {
    Ping,
    Pong,
    SessionInit { session_id: Seq<char> },
    SessionUpdate { url: Seq<char>, title: Option<Seq<char>> },
    ActionRequest { request_id: Seq<char>, command: ActionCommandV },
    ActionResult(ActionResultV),
    Unknown,
}

impl View for ActionCommand {
    type V = ActionCommandV;

    open spec fn view(&self) -> ActionCommandV {
        match self {
            ActionCommand::NavigateTo { url } => ActionCommandV::NavigateTo { url: url@ },
            ActionCommand::ClickElement { ref_id } => ActionCommandV::ClickElement {
                ref_id: *ref_id as int,
            },
            ActionCommand::TypeText { ref_id, text } => ActionCommandV::TypeText {
                ref_id: *ref_id as int,
                text: text@,
            },
            ActionCommand::ScrollTo { x, y } => ActionCommandV::ScrollTo {
                x: *x as int,
                y: *y as int,
            },
            ActionCommand::GetPageContent { max_length } => ActionCommandV::GetPageContent {
                max_length: match max_length {
                    Some(n) => Some(*n as nat),
                    None => None,
                },
            },
            ActionCommand::GetInteractiveElements { limit } => {
                ActionCommandV::GetInteractiveElements {
                    limit: match limit {
                        Some(n) => Some(*n as nat),
                        None => None,
                    },
                }
            },
        }
    }
}

impl View for ActionResult {
    type V = ActionResultV;

    open spec fn view(&self) -> ActionResultV {
        ActionResultV {
            request_id: self.request_id@,
            success: self.success,
            error: match &self.error {
                Some(e) => Some(e@),
                None => None,
            },
            data: match &self.data {
                Some(d) => Some(d@),
                None => None,
            },
        }
    }
}

impl View for WsMessage {
    type V = WsMessageV;

    open spec fn view(&self) -> WsMessageV {
        match self {
            WsMessage::Ping => WsMessageV::Ping,
            WsMessage::Pong => WsMessageV::Pong,
            WsMessage::SessionInit { session_id } => WsMessageV::SessionInit {
                session_id: session_id@,
            },
            WsMessage::SessionUpdate { url, title } => WsMessageV::SessionUpdate {
                url: url@,
                title: match title {
                    Some(t) => Some(t@),
                    None => None,
                },
            },
            WsMessage::ActionRequest { request_id, command } => WsMessageV::ActionRequest {
                request_id: request_id@,
                command: command@,
            },
            WsMessage::ActionResult(r) => WsMessageV::ActionResult(r@),
            WsMessage::Unknown => WsMessageV::Unknown,
        }
    }
}

} // verus!
