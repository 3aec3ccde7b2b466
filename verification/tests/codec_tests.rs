use browser_bridge::model::{ChatResponse, HealthResponse};
use browser_bridge::model::{encode_chat_response, encode_health_response, parse_chat_request};
use browser_bridge::wire::{decode_ws_message, encode_ws_message};
use browser_bridge::ws::{ActionCommand, ActionResult, WsMessage};

#[test]
fn test_health_response_serialize() {
    let resp = HealthResponse { status: "ok".to_string() };
    let json = encode_health_response(&resp);
    assert_eq!(json, r#"{"status":"ok"}"#);
}

#[test]
fn test_chat_request_deserialize() {
    let json = r#"{
            "message": "Hello",
            "custom_instruction": "Be concise",
            "image": "base64data"
        }"#;
    let req = parse_chat_request(json).unwrap();
    assert_eq!(req.message, "Hello");
    assert_eq!(req.custom_instruction, Some("Be concise".to_string()));
    assert_eq!(req.image, Some("base64data".to_string()));
}

#[test]
fn test_chat_response_serialize() {
    let resp = ChatResponse {
        response: "Hi".to_string(),
        prompt_tokens: None,
        response_tokens: None,
        total_tokens: None,
    };
    let json = encode_chat_response(&resp);
    // Token fields are omitted while unknown.
    assert_eq!(json, r#"{"response":"Hi"}"#);

    let resp_with_tokens = ChatResponse {
        response: "Hi".to_string(),
        prompt_tokens: Some(10),
        response_tokens: Some(20),
        total_tokens: Some(30),
    };
    let json_with_tokens = encode_chat_response(&resp_with_tokens);
    assert!(json_with_tokens.contains(r#""prompt_tokens":10"#));
    assert!(json_with_tokens.contains(r#""response_tokens":20"#));
    assert!(json_with_tokens.contains(r#""total_tokens":30"#));
}

#[test]
fn test_ws_message_serialization() {
    let msg = WsMessage::Ping;
    let serialized = encode_ws_message(&msg);
    assert_eq!(serialized, r#"{"type":"Ping"}"#);
}

#[test]
fn test_action_command_serialization() {
    let cmd = WsMessage::ActionRequest {
        request_id: "123".to_string(),
        command: ActionCommand::ClickElement { ref_id: 1 },
    };
    let serialized = encode_ws_message(&cmd);
    assert_eq!(
        serialized,
        r#"{"type":"action_request","data":{"request_id":"123","command":{"type":"click_element","ref":1}}}"#
    );

    let cmd = WsMessage::ActionRequest {
        request_id: "123".to_string(),
        command: ActionCommand::NavigateTo { url: "https://example.com".to_string() },
    };
    let serialized = encode_ws_message(&cmd);
    assert_eq!(
        serialized,
        r#"{"type":"action_request","data":{"request_id":"123","command":{"type":"navigate_to","url":"https://example.com"}}}"#
    );
}

#[test]
fn test_action_result_serialization() {
    let res = WsMessage::ActionResult(ActionResult {
        request_id: "123".to_string(),
        success: true,
        error: None,
        data: None,
    });
    let serialized = encode_ws_message(&res);
    assert_eq!(
        serialized,
        r#"{"type":"ActionResult","data":{"request_id":"123","success":true,"error":null,"data":null}}"#
    );
}

#[test]
fn round_trip_every_envelope() {
    let msgs = vec![
        WsMessage::Ping,
        WsMessage::Pong,
        WsMessage::SessionInit { session_id: "abc-123".to_string() },
        WsMessage::SessionUpdate { url: "https://x".to_string(), title: None },
        WsMessage::SessionUpdate {
            url: "https://x".to_string(),
            title: Some("A \"quoted\" title".to_string()),
        },
        WsMessage::ActionRequest {
            request_id: "r1".to_string(),
            command: ActionCommand::NavigateTo { url: "https://x".to_string() },
        },
        WsMessage::ActionRequest {
            request_id: "r2".to_string(),
            command: ActionCommand::ClickElement { ref_id: 42 },
        },
        WsMessage::ActionRequest {
            request_id: "r3".to_string(),
            command: ActionCommand::TypeText { ref_id: 42, text: "hi\nthere\t\"x\"\\".to_string() },
        },
        WsMessage::ActionRequest {
            request_id: "r4".to_string(),
            command: ActionCommand::ScrollTo { x: 0, y: 500 },
        },
        WsMessage::ActionRequest {
            request_id: "r5".to_string(),
            command: ActionCommand::ScrollTo { x: -7, y: -2147483648 },
        },
        WsMessage::ActionRequest {
            request_id: "r6".to_string(),
            command: ActionCommand::GetPageContent { max_length: Some(1000) },
        },
        WsMessage::ActionRequest {
            request_id: "r7".to_string(),
            command: ActionCommand::GetPageContent { max_length: None },
        },
        WsMessage::ActionRequest {
            request_id: "r8".to_string(),
            command: ActionCommand::GetInteractiveElements { limit: Some(50) },
        },
        WsMessage::ActionResult(ActionResult {
            request_id: "q".to_string(),
            success: false,
            error: Some("boom".to_string()),
            data: None,
        }),
        WsMessage::ActionResult(ActionResult {
            request_id: "q2".to_string(),
            success: true,
            error: None,
            data: Some(r#"{"text":"page, with [brackets] and \"quotes\""}"#.to_string()),
        }),
        WsMessage::ActionResult(ActionResult {
            request_id: "q3".to_string(),
            success: true,
            error: None,
            data: Some("[1,2,3]".to_string()),
        }),
        WsMessage::Unknown,
    ];
    for m in msgs {
        let text = encode_ws_message(&m);
        let back = decode_ws_message(&text);
        assert_eq!(back, Some(m.clone()), "failed on {}", text);
    }
}

#[test]
fn unknown_tags_decode_to_unknown() {
    let r = decode_ws_message(r#"{"type":"SomethingNew","data":{"x":1}}"#);
    assert_eq!(r, Some(WsMessage::Unknown));
}

#[test]
fn malformed_frames_are_rejected() {
    assert_eq!(decode_ws_message(""), None);
    assert_eq!(decode_ws_message("not json"), None);
    assert_eq!(decode_ws_message(r#"{"type":"Pi"#), None);
    // A frame whose tag matches a known envelope but whose body is cut off.
    assert_eq!(decode_ws_message(r#"{"type":"session_init","data":{"session_id":"abc"}"#), None);
    assert_eq!(decode_ws_message(r#"{"type":"session_init","data":{"session_id":"abc"#), None);
}

#[test]
fn control_characters_survive_the_round_trip() {
    let m = WsMessage::SessionInit { session_id: "a\u{1}b\u{8}c\u{c}d\r".to_string() };
    let text = encode_ws_message(&m);
    assert_eq!(decode_ws_message(&text), Some(m));
}

#[test]
fn inbound_action_result_with_payload_decodes() {
    let text = r#"{"type":"ActionResult","data":{"request_id":"abc","success":true,"error":null,"data":{"elements":[{"id":7,"name":"Submit"}]}}}"#;
    let m = decode_ws_message(text).unwrap();
    match m {
        WsMessage::ActionResult(r) => {
            assert_eq!(r.request_id, "abc");
            assert!(r.success);
            assert_eq!(r.error, None);
            assert_eq!(r.data, Some(r#"{"elements":[{"id":7,"name":"Submit"}]}"#.to_string()));
        }
        _ => panic!("wrong variant"),
    }
}

#[test]
fn chat_request_without_optional_fields() {
    let req = parse_chat_request(r#"{"message":"hey"}"#).unwrap();
    assert_eq!(req.message, "hey");
    assert_eq!(req.custom_instruction, None);
    assert_eq!(req.image, None);
    assert_eq!(parse_chat_request(r#"{"query":"hey"}"#), None);
}
