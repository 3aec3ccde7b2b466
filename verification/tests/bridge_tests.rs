use browser_bridge::bridge::{
    dispatch_inbound, finish_tool_call, navigate_command, url_is_forbidden, AppState,
    InboundAction, OutboundQueue, ToolError,
};
use browser_bridge::wire::{decode_ws_message, encode_ws_message};
use browser_bridge::ids::fresh_uuid;
use browser_bridge::registry::Registry;
use browser_bridge::ws::{ActionCommand, ActionResult, WsMessage};
use browser_bridge::TOOL_TIMEOUT_SECS;

#[test]
fn request_ids_are_distinct() {
    let mut seen: Vec<String> = Vec::new();
    for _ in 0..64 {
        let id = fresh_uuid();
        assert_eq!(id.len(), 36);
        assert!(!seen.contains(&id));
        seen.push(id);
    }
}

#[test]
fn correlation_resolves_only_the_matching_slot() {
    // Two pending actions; the reply for B arrives first, then A's.
    let mut state: AppState<u32, &'static str> = AppState::new();
    state.register_connection("S".to_string(), 1);
    state.register_pending_action("A".to_string(), "slot-a");
    state.register_pending_action("B".to_string(), "slot-b");
    assert_eq!(state.complete_pending_action("B"), Some("slot-b"));
    assert_eq!(state.complete_pending_action("A"), Some("slot-a"));
}

#[test]
fn a_second_reply_with_the_same_id_is_ignored() {
    let mut state: AppState<u32, u64> = AppState::new();
    state.register_pending_action("R".to_string(), 7);
    assert_eq!(state.complete_pending_action("R"), Some(7));
    assert_eq!(state.complete_pending_action("R"), None);
    assert_eq!(state.complete_pending_action("R"), None);
}

#[test]
fn outbound_requests_keep_initiation_order() {
    let mut q = OutboundQueue::new();
    let a = WsMessage::ActionRequest {
        request_id: "A".to_string(),
        command: ActionCommand::ClickElement { ref_id: 1 },
    };
    let b = WsMessage::ActionRequest {
        request_id: "B".to_string(),
        command: ActionCommand::ClickElement { ref_id: 2 },
    };
    q.enqueue(a.clone());
    q.enqueue(b.clone());
    assert_eq!(q.len(), 2);
    assert_eq!(q.dequeue(), Some(a));
    assert_eq!(q.dequeue(), Some(b));
    assert_eq!(q.dequeue(), None);
}

#[test]
fn timeout_restores_the_pending_registry() {
    let mut pending: Registry<u64> = Registry::new();
    pending.insert("old".to_string(), 1);
    let before = pending.len();
    pending.insert("fresh".to_string(), 2);
    assert_eq!(pending.len(), before + 1);
    // The reply never arrives: the bridge drops its own entry.
    assert_eq!(pending.take("fresh"), Some(2));
    assert_eq!(pending.len(), before);
    assert!(pending.contains("old"));
    assert_eq!(TOOL_TIMEOUT_SECS, 30);
}

#[test]
fn disconnect_removes_the_session() {
    let mut state: AppState<u32, u64> = AppState::new();
    state.register_connection("S".to_string(), 9);
    assert_eq!(state.get_connection("S"), Some(&9));
    state.unregister_connection("S");
    assert_eq!(state.get_connection("S"), None);
    // Idempotent.
    state.unregister_connection("S");
    assert_eq!(state.get_connection("S"), None);
}

#[test]
fn forbidden_urls_fail_before_the_socket() {
    assert!(url_is_forbidden("chrome://settings"));
    assert!(url_is_forbidden("CHROME://settings"));
    assert!(url_is_forbidden("About:blank"));
    assert!(url_is_forbidden("FILE:///etc/passwd"));
    assert!(!url_is_forbidden("https://example.com"));
    assert!(!url_is_forbidden("http://about.example.com"));

    match navigate_command("CHROME://settings".to_string()) {
        Err(ToolError::InputRejected(m)) => {
            assert_eq!(
                m,
                "Navigation to system pages (chrome://, about://, file://) is not allowed"
            );
        }
        _ => panic!("expected rejection"),
    }
    match navigate_command("https://example.com".to_string()) {
        Ok(ActionCommand::NavigateTo { url }) => assert_eq!(url, "https://example.com"),
        _ => panic!("expected navigation"),
    }
}

#[test]
fn begin_tool_call_requires_a_live_session() {
    let mut state: AppState<u32, u64> = AppState::new();
    // Never-connected session id: the call fails with no pending entry.
    let r = state.begin_tool_call("ghost", "R1".to_string(), 5, ActionCommand::ClickElement {
        ref_id: 7,
    });
    assert_eq!(r, Err(ToolError::NoSession));
    assert_eq!(state.complete_pending_action("R1"), None);
    assert_eq!(
        ToolError::NoSession.message(),
        "No active WebSocket connection for this session"
    );
}

#[test]
fn begin_tool_call_parks_the_reply_slot_and_builds_the_request() {
    let mut state: AppState<u32, u64> = AppState::new();
    state.register_connection("S".to_string(), 1);
    let r = state.begin_tool_call("S", "R1".to_string(), 5, ActionCommand::ClickElement {
        ref_id: 7,
    });
    assert_eq!(
        r,
        Ok(WsMessage::ActionRequest {
            request_id: "R1".to_string(),
            command: ActionCommand::ClickElement { ref_id: 7 },
        })
    );
    assert_eq!(state.complete_pending_action("R1"), Some(5));
}

#[test]
fn finish_tool_call_reports_the_reply() {
    let ok = finish_tool_call(ActionResult {
        request_id: "R".to_string(),
        success: true,
        error: None,
        data: None,
    });
    assert_eq!(ok, Ok("Success. Data: null".to_string()));

    let ok2 = finish_tool_call(ActionResult {
        request_id: "R".to_string(),
        success: true,
        error: None,
        data: Some(r#"{"clicked":true}"#.to_string()),
    });
    assert_eq!(ok2, Ok(r#"Success. Data: {"clicked":true}"#.to_string()));

    let err = finish_tool_call(ActionResult {
        request_id: "R".to_string(),
        success: false,
        error: Some("element not found".to_string()),
        data: None,
    });
    match err {
        Err(ToolError::RemoteFailure(m)) => {
            assert_eq!(m, "element not found");
            assert_eq!(ToolError::RemoteFailure(m).message(), "Error: element not found");
        }
        _ => panic!("expected remote failure"),
    }
}

#[test]
fn send_failure_resolves_the_entry_synthetically() {
    let mut state: AppState<u32, u64> = AppState::new();
    state.register_connection("S".to_string(), 1);
    let _ = state.begin_tool_call("S", "R1".to_string(), 5, ActionCommand::ScrollTo {
        x: 0,
        y: 500,
    });
    let e = state.fail_send("R1", "writer gone".to_string());
    assert_eq!(e, ToolError::InfraFailure("writer gone".to_string()));
    assert_eq!(state.complete_pending_action("R1"), None);
}

#[test]
fn timeout_error_has_the_contractual_text() {
    let mut state: AppState<u32, u64> = AppState::new();
    state.register_connection("S".to_string(), 1);
    let _ = state.begin_tool_call("S", "R9".to_string(), 5, ActionCommand::GetPageContent {
        max_length: None,
    });
    let e = state.timeout_tool_call("R9");
    assert_eq!(e.message(), "Tool execution timed out after 30 seconds");
    assert_eq!(state.complete_pending_action("R9"), None);
}

#[test]
fn registry_insert_overwrites_in_place() {
    let mut reg: Registry<u64> = Registry::new();
    reg.insert("k".to_string(), 1);
    reg.insert("k".to_string(), 2);
    assert_eq!(reg.len(), 1);
    assert_eq!(reg.get("k"), Some(&2));
    reg.remove("k");
    assert_eq!(reg.len(), 0);
    assert_eq!(reg.get("k"), None);
}

#[test]
fn happy_click_round_trip_through_the_wire() {
    // Session S is connected; the agent asks to click ref 7.
    let mut state: AppState<u32, &'static str> = AppState::new();
    state.register_connection("S".to_string(), 1);
    let request_id = fresh_uuid();
    let msg = state
        .begin_tool_call("S", request_id.clone(), "slot", ActionCommand::ClickElement { ref_id: 7 })
        .unwrap();

    // The frame goes over the socket and comes back as the extension's reply.
    let frame = encode_ws_message(&msg);
    assert!(frame.contains(r#""type":"click_element","ref":7"#));
    let reply_frame = format!(
        r#"{{"type":"ActionResult","data":{{"request_id":"{}","success":true,"error":null,"data":null}}}}"#,
        request_id
    );
    let reply = decode_ws_message(&reply_frame).unwrap();
    match dispatch_inbound(reply) {
        InboundAction::Complete(res) => {
            assert_eq!(state.complete_pending_action(&res.request_id), Some("slot"));
            let text = finish_tool_call(res).unwrap();
            assert_eq!(text, "Success. Data: null");
        }
        _ => panic!("expected completion"),
    }
}

#[test]
fn keepalives_and_client_requests_dispatch_correctly() {
    assert_eq!(dispatch_inbound(WsMessage::Ping), InboundAction::ReplyPong);
    assert_eq!(dispatch_inbound(WsMessage::Unknown), InboundAction::Ignore);
    assert_eq!(
        dispatch_inbound(WsMessage::ActionRequest {
            request_id: "x".to_string(),
            command: ActionCommand::ClickElement { ref_id: 1 },
        }),
        InboundAction::DropClientRequest
    );
}
