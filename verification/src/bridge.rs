//! The tool bridge: the shared application state (session registry plus
//! pending-action registry), the steps of one tool round-trip, the URL
//! policy for navigation, and the laws the bridge obeys.
//!
//! A round-trip is: validate the arguments, look up the session's sink,
//! register the reply slot under a fresh request id, send the
//! `action_request`, await the reply under the timeout, and resolve. The
//! asynchronous waiting lives outside the library; every decision here is
//! verified.

use vstd::prelude::*;

use crate::codec::parse_lit;
use crate::registry::Registry;
use crate::text::{chars_of, string_from_chars};
use crate::wire::push_lit;
use crate::ws::{ActionCommand, ActionResult, WsMessage};

verus! {

/// Why a tool call failed, after the taxonomy the callers surface to the
/// agent: bad input, no live session, a reply that never came, a reply that
/// reported failure, or a transport fault.
#[derive(Debug, Clone, PartialEq)]
pub enum ToolError {
    InputRejected(String),
    NoSession,
    Timeout,
    RemoteFailure(String),
    InfraFailure(String),
}

impl ToolError {
    /// The text a caller shows for this failure.
    pub open spec fn spec_message(&self) -> Seq<char> {
        match self {
            ToolError::InputRejected(m) => m@,
            ToolError::NoSession => "No active WebSocket connection for this session"@,
            ToolError::Timeout => "Tool execution timed out after 30 seconds"@,
            ToolError::RemoteFailure(m) => "Error: "@ + m@,
            ToolError::InfraFailure(m) => "Failed to send WebSocket message: "@ + m@,
        }
    }

    pub fn message(&self) -> (r: String)
        ensures
            r@ == self.spec_message(),
    {
        let mut out: Vec<char> = Vec::new();
        match self {
            ToolError::InputRejected(m) => {
                push_lit(&mut out, m.as_str());
            },
            ToolError::NoSession => {
                push_lit(&mut out, "No active WebSocket connection for this session");
            },
            ToolError::Timeout => {
                push_lit(&mut out, "Tool execution timed out after 30 seconds");
            },
            ToolError::RemoteFailure(m) => {
                push_lit(&mut out, "Error: ");
                push_lit(&mut out, m.as_str());
            },
            ToolError::InfraFailure(m) => {
                push_lit(&mut out, "Failed to send WebSocket message: ");
                push_lit(&mut out, m.as_str());
            },
        }
        proof {
            assert(out@ =~= self.spec_message());
        }
        string_from_chars(&out)
    }
}

// ---------------------------------------------------------------------------
// URL policy
// ---------------------------------------------------------------------------
/// ASCII lower-casing of one character; other characters are untouched.
pub open spec fn lower_char(c: char) -> char {
    if 65 <= c as u32 <= 90 {
        ((c as u32 + 32) as u8) as char
    } else {
        c
    }
}

pub open spec fn lower_seq(s: Seq<char>) -> Seq<char> {
    s.map_values(|c: char| lower_char(c))
}

/// The navigation policy: system pages are out of bounds, in any case
/// mixture.
pub open spec fn forbidden_url(s: Seq<char>) -> bool {
    ||| parse_lit(lower_seq(s), "chrome://"@) is Some
    ||| parse_lit(lower_seq(s), "about:"@) is Some
    ||| parse_lit(lower_seq(s), "file://"@) is Some
}

fn lower_chars(s: &str) -> (r: Vec<char>)
    ensures
        r@ == lower_seq(s@),
{
    let v = chars_of(s);
    let mut r: Vec<char> = Vec::new();
    let mut i: usize = 0;
    while i < v.len()
        invariant
            v@ == s@,
            i <= v@.len(),
            r@ == lower_seq(s@.subrange(0, i as int)),
        decreases v@.len() - i,
    {
        let c = v[i];
        let u = c as u32;
        let lc: char = if 65 <= u && u <= 90 {
            ((u + 32) as u8) as char
        } else {
            c
        };
        r.push(lc);
        i = i + 1;
        proof {
            assert(r@ =~= lower_seq(s@.subrange(0, i as int)));
        }
    }
    proof {
        assert(s@.subrange(0, s@.len() as int) =~= s@);
    }
    r
}

fn starts_with_lit(v: &Vec<char>, l: &str) -> (r: bool)
    ensures
        r == (parse_lit(v@, l@) is Some),
{
    let lv = chars_of(l);
    if v.len() < lv.len() {
        return false;
    }
    let mut k: usize = 0;
    while k < lv.len()
        invariant
            lv@ == l@,
            l@.len() <= v@.len(),
            k <= l@.len(),
            forall|t: int| 0 <= t < k ==> v@[t] == l@[t],
        decreases lv@.len() - k,
    {
        if v[k] != lv[k] {
            proof {
                crate::codec::lemma_parse_lit_mismatch(v@, l@, k as int);
            }
            return false;
        }
        k = k + 1;
    }
    proof {
        assert(v@.subrange(0, l@.len() as int) =~= l@);
    }
    true
}

/// Whether `url` names a system page that navigation must refuse.
pub fn url_is_forbidden(url: &str) -> (r: bool)
    ensures
        r == forbidden_url(url@),
{
    let low = lower_chars(url);
    starts_with_lit(&low, "chrome://") || starts_with_lit(&low, "about:") || starts_with_lit(
        &low,
        "file://",
    )
}

/// Validates the argument of `navigate_to` and builds its command; a
/// forbidden URL is rejected before anything touches the socket.
pub fn navigate_command(url: String) -> (r: Result<ActionCommand, ToolError>)
    ensures
        !forbidden_url(url@) ==> r == Ok::<ActionCommand, ToolError>(
            ActionCommand::NavigateTo { url },
        ),
        forbidden_url(url@) ==> (r matches Err(e) && e matches ToolError::InputRejected(m) && m@
            == "Navigation to system pages (chrome://, about://, file://) is not allowed"@),
{
    if url_is_forbidden(url.as_str()) {
        let mut out: Vec<char> = Vec::new();
        push_lit(&mut out, "Navigation to system pages (chrome://, about://, file://) is not allowed");
        Err(ToolError::InputRejected(string_from_chars(&out)))
    } else {
        Ok(ActionCommand::NavigateTo { url })
    }
}

// ---------------------------------------------------------------------------
// Shared state and the round-trip steps
// ---------------------------------------------------------------------------
/// The state both HTTP handlers and socket loops share: the live sessions'
/// outbound sinks and the in-flight actions' reply slots. The two are
/// independent; replies are correlated only by request id. `C` is the
/// outbound sink, `P` the one-shot reply slot; both are owned by the caller.
pub struct AppState<C, P> {
    pub active_connections: Registry<C>,
    pub pending_actions: Registry<P>,
}

impl<C, P> AppState<C, P> {
    pub open spec fn well_formed(&self) -> bool {
        self.active_connections.well_formed() && self.pending_actions.well_formed()
    }

    /// The session registry's view.
    pub open spec fn sessions(&self) -> Map<Seq<char>, C> {
        self.active_connections@
    }

    /// The pending-action registry's view.
    pub open spec fn pending(&self) -> Map<Seq<char>, P> {
        self.pending_actions@
    }

    pub fn new() -> (r: Self)
        ensures
            r.well_formed(),
            r.sessions() == Map::<Seq<char>, C>::empty(),
            r.pending() == Map::<Seq<char>, P>::empty(),
    {
        AppState { active_connections: Registry::new(), pending_actions: Registry::new() }
    }

    /// Adds a session's outbound sink on connect.
    pub fn register_connection(&mut self, session_id: String, sender: C)
        requires
            old(self).well_formed(),
        ensures
            final(self).well_formed(),
            final(self).sessions() == old(self).sessions().insert(session_id@, sender),
            final(self).pending() == old(self).pending(),
    {
        self.active_connections.insert(session_id, sender);
    }

    /// Drops a session on disconnect; idempotent.
    pub fn unregister_connection(&mut self, session_id: &str)
        requires
            old(self).well_formed(),
        ensures
            final(self).well_formed(),
            final(self).sessions() == old(self).sessions().remove(session_id@),
            final(self).pending() == old(self).pending(),
    {
        self.active_connections.remove(session_id);
    }

    /// A borrow of the session's sink, for an independent sender to clone.
    pub fn get_connection(&self, session_id: &str) -> (r: Option<&C>)
        requires
            self.well_formed(),
        ensures
            match r {
                Some(c) => self.sessions().contains_key(session_id@) && *c == self.sessions().index(
                    session_id@,
                ),
                None => !self.sessions().contains_key(session_id@),
            },
    {
        self.active_connections.get(session_id)
    }

    /// Parks a reply slot under its request id. This must happen before the
    /// `action_request` is sent, else the reply could race registration.
    pub fn register_pending_action(&mut self, request_id: String, sender: P)
        requires
            old(self).well_formed(),
        ensures
            final(self).well_formed(),
            final(self).pending() == old(self).pending().insert(request_id@, sender),
            final(self).sessions() == old(self).sessions(),
    {
        self.pending_actions.insert(request_id, sender);
    }

    /// Resolves a request id at most once: the slot is removed as it is
    /// handed out, so a duplicate or late reply finds nothing.
    pub fn complete_pending_action(&mut self, request_id: &str) -> (r: Option<P>)
        requires
            old(self).well_formed(),
        ensures
            final(self).well_formed(),
            final(self).sessions() == old(self).sessions(),
            match r {
                Some(slot) => old(self).pending().contains_key(request_id@) && slot == old(
                    self,
                ).pending()[request_id@] && final(self).pending() == old(self).pending().remove(
                    request_id@,
                ),
                None => !old(self).pending().contains_key(request_id@) && final(self).pending()
                    == old(self).pending(),
            },
    {
        self.pending_actions.take(request_id)
    }

    /// The bridge's opening move: if the session is live, parks the reply
    /// slot and builds the `action_request` to enqueue; if not, fails with
    /// `NoSession` and changes nothing.
    pub fn begin_tool_call(
        &mut self,
        session_id: &str,
        request_id: String,
        reply_slot: P,
        command: ActionCommand,
    ) -> (r: Result<WsMessage, ToolError>)
        requires
            old(self).well_formed(),
        ensures
            final(self).well_formed(),
            final(self).sessions() == old(self).sessions(),
            old(self).sessions().contains_key(session_id@) ==> r == Ok::<WsMessage, ToolError>(
                WsMessage::ActionRequest { request_id, command },
            ) && final(self).pending() == old(self).pending().insert(request_id@, reply_slot),
            !old(self).sessions().contains_key(session_id@) ==> r == Err::<WsMessage, ToolError>(
                ToolError::NoSession,
            ) && final(self).pending() == old(self).pending(),
    {
        if !self.active_connections.contains(session_id) {
            return Err(ToolError::NoSession);
        }
        let rid_copy = request_id.clone();
        proof {
            assert(rid_copy@ == request_id@);
        }
        self.pending_actions.insert(rid_copy, reply_slot);
        Ok(WsMessage::ActionRequest { request_id, command })
    }

    /// The timeout path: the stale entry is dropped so a late reply is
    /// ignored, and the pending registry returns to its pre-call state.
    pub fn timeout_tool_call(&mut self, request_id: &str) -> (r: ToolError)
        requires
            old(self).well_formed(),
        ensures
            final(self).well_formed(),
            final(self).sessions() == old(self).sessions(),
            final(self).pending() == old(self).pending().remove(request_id@),
            r == ToolError::Timeout,
    {
        self.pending_actions.remove(request_id);
        ToolError::Timeout
    }

    /// The send-failure path: the writer is gone, so the entry is resolved
    /// synthetically and the call fails as a transport fault.
    pub fn fail_send(&mut self, request_id: &str, reason: String) -> (r: ToolError)
        requires
            old(self).well_formed(),
        ensures
            final(self).well_formed(),
            final(self).sessions() == old(self).sessions(),
            final(self).pending() == old(self).pending().remove(request_id@),
            r == ToolError::InfraFailure(reason),
    {
        self.pending_actions.remove(request_id);
        ToolError::InfraFailure(reason)
    }
}

/// The text a successful round-trip reports: it includes the reply's raw
/// payload, or `null` when the reply carried none.
pub open spec fn success_text(data: Option<Seq<char>>) -> Seq<char> {
    "Success. Data: "@ + match data {
        Some(d) => d,
        None => "null"@,
    }
}

/// The bridge's closing move: a successful reply becomes the tool's
/// human-readable result; a failed one surfaces the extension's error.
pub fn finish_tool_call(result: ActionResult) -> (r: Result<String, ToolError>)
    ensures
        result.success ==> (r matches Ok(t) && t@ == success_text(
            match result.data {
                Some(d) => Some(d@),
                None => None,
            },
        )),
        !result.success ==> (r matches Err(e) && e matches ToolError::RemoteFailure(m) && m@ == (
        match result.error {
            Some(e) => e@,
            None => "unknown error"@,
        })),
{
    if result.success {
        let mut out: Vec<char> = Vec::new();
        push_lit(&mut out, "Success. Data: ");
        match &result.data {
            Some(d) => {
                push_lit(&mut out, d.as_str());
            },
            None => {
                push_lit(&mut out, "null");
            },
        }
        proof {
            assert(out@ =~= success_text(
                match result.data {
                    Some(d) => Some(d@),
                    None => None,
                },
            ));
        }
        Ok(string_from_chars(&out))
    } else {
        match result.error {
            Some(e) => Err(ToolError::RemoteFailure(e)),
            None => {
                let mut out: Vec<char> = Vec::new();
                push_lit(&mut out, "unknown error");
                Err(ToolError::RemoteFailure(string_from_chars(&out)))
            },
        }
    }
}

// ---------------------------------------------------------------------------
// The outbound queue
// ---------------------------------------------------------------------------
/// The model of a session's outbound channel: a FIFO the writer task
/// drains. Messages leave in the order they were enqueued.
pub struct OutboundQueue {
    items: Vec<WsMessage>,
}

impl View for OutboundQueue {
    type V = Seq<WsMessage>;

    closed spec fn view(&self) -> Seq<WsMessage> {
        self.items@
    }
}

impl OutboundQueue {
    pub fn new() -> (r: Self)
        ensures
            r@ == Seq::<WsMessage>::empty(),
    {
        OutboundQueue { items: Vec::new() }
    }

    pub fn enqueue(&mut self, m: WsMessage)
        ensures
            final(self)@ == old(self)@.push(m),
    {
        self.items.push(m);
    }

    /// The writer task's read: the oldest message leaves first.
    pub fn dequeue(&mut self) -> (r: Option<WsMessage>)
        ensures
            old(self)@.len() == 0 ==> r is None && final(self)@ == old(self)@,
            old(self)@.len() > 0 ==> r == Some(old(self)@[0]) && final(self)@ == old(self)@.skip(1),
    {
        if self.items.len() == 0 {
            return None;
        }
        let m = self.items.remove(0);
        proof {
            assert(self.items@ =~= old(self)@.skip(1));
        }
        Some(m)
    }

    pub fn len(&self) -> (r: usize)
        ensures
            r == self@.len(),
    {
        self.items.len()
    }
}

// ---------------------------------------------------------------------------
// Laws of the bridge
// ---------------------------------------------------------------------------
/// Uniqueness while pending: registering a fresh request id leaves every
/// other pending action untouched, holds exactly that id once, and grows
/// the registry by exactly one.
pub proof fn lemma_fresh_registration<P>(
    pending: Map<Seq<char>, P>,
    id: Seq<char>,
    slot: P,
    other: Seq<char>,
)
    requires
        pending.dom().finite(),
        !pending.contains_key(id),
    ensures
        pending.insert(id, slot).contains_key(id),
        pending.insert(id, slot)[id] == slot,
        other != id ==> (pending.insert(id, slot).contains_key(other) <==> pending.contains_key(
            other,
        )),
        other != id && pending.contains_key(other) ==> pending.insert(id, slot)[other]
            == pending[other],
        pending.insert(id, slot).dom().len() == pending.dom().len() + 1,
{
    assert(pending.insert(id, slot).dom() =~= pending.dom().insert(id));
    broadcast use vstd::set::axiom_set_insert_len;
    assert(pending.dom().insert(id).len() == pending.dom().len() + 1);
}

/// Correlation: with two distinct pending ids, resolving one hands out
/// exactly its own slot and leaves the other pending with its slot intact.
/// No interleaving of replies can cross the two.
pub proof fn lemma_correlation<P>(pending: Map<Seq<char>, P>, a: Seq<char>, b: Seq<char>)
    requires
        pending.contains_key(a),
        pending.contains_key(b),
        a != b,
    ensures
        pending.remove(b).contains_key(a),
        pending.remove(b)[a] == pending[a],
        !pending.remove(b).contains_key(b),
{
}

/// One-shot resolution: once a request id has been completed, a second
/// reply with the same id finds no slot; nothing is resolved twice.
pub proof fn lemma_one_shot<P>(pending: Map<Seq<char>, P>, id: Seq<char>)
    ensures
        !pending.remove(id).contains_key(id),
        pending.remove(id).remove(id) == pending.remove(id),
{
    assert(pending.remove(id).remove(id) =~= pending.remove(id));
}

/// Timeout cleanup: a call whose reply never arrives removes its own
/// entry, so the pending registry returns exactly to its pre-call state —
/// size included. `begin_tool_call` does the insert and `timeout_tool_call`
/// the remove; the id's freshness is the premise, since a random generator
/// cannot promise it.
pub proof fn lemma_timeout_restores<P>(pending: Map<Seq<char>, P>, id: Seq<char>, slot: P)
    requires
        !pending.contains_key(id),
    ensures
        pending.insert(id, slot).remove(id) == pending,
        pending.dom().finite() ==> pending.insert(id, slot).remove(id).dom().len()
            == pending.dom().len(),
{
    assert(pending.insert(id, slot).remove(id) =~= pending);
}

/// Disconnect: removing a session makes its lookup fail, while every other
/// session and every pending action is untouched; pending calls for the
/// dropped session are left to expire by timeout.
pub proof fn lemma_disconnect<C>(sessions: Map<Seq<char>, C>, sid: Seq<char>, other: Seq<char>)
    ensures
        !sessions.remove(sid).contains_key(sid),
        other != sid ==> (sessions.remove(sid).contains_key(other) <==> sessions.contains_key(
            other,
        )),
        other != sid && sessions.contains_key(other) ==> sessions.remove(sid)[other]
            == sessions[other],
{
}

/// Ordering: enqueuing `a` and then `b` on a session's outbound queue
/// places `a` strictly before `b`; the writer drains from the front, so the
/// socket sees requests in initiation order.
pub proof fn lemma_outbound_order(q: Seq<WsMessage>, a: WsMessage, b: WsMessage)
    ensures
        q.push(a).push(b)[q.len() as int] == a,
        q.push(a).push(b)[(q.len() + 1) as int] == b,
{
}

// ---------------------------------------------------------------------------
// Inbound dispatch
// ---------------------------------------------------------------------------
/// What the socket loop does with one decoded inbound envelope.
#[derive(Debug, Clone, PartialEq)]
pub enum InboundAction {
    /// A keepalive: enqueue a `Pong` on the session's sink.
    ReplyPong,
    /// A reply: resolve the matching pending action, if it is still there.
    Complete(ActionResult),
    /// Informational context update: log it.
    Note(String, Option<String>),
    /// A request arriving from the client; requests originate here, so it
    /// is dropped.
    DropClientRequest,
    /// Anything else: ignored for forward compatibility.
    Ignore,
}

/// The socket loop's dispatch, one decoded envelope to one action.
pub fn dispatch_inbound(m: WsMessage) -> (r: InboundAction)
    ensures
        m is Ping ==> r == InboundAction::ReplyPong,
        m matches WsMessage::ActionResult(res) ==> r == InboundAction::Complete(res),
        m matches WsMessage::SessionUpdate { url, title } ==> r == InboundAction::Note(url, title),
        m matches WsMessage::ActionRequest { .. } ==> r == InboundAction::DropClientRequest,
        (m is Pong || m is SessionInit || m is Unknown) ==> r == InboundAction::Ignore,
{
    match m {
        WsMessage::Ping => InboundAction::ReplyPong,
        WsMessage::ActionResult(res) => InboundAction::Complete(res),
        WsMessage::SessionUpdate { url, title } => InboundAction::Note(url, title),
        WsMessage::ActionRequest { .. } => InboundAction::DropClientRequest,
        _ => InboundAction::Ignore,
    }
}

} // verus!
