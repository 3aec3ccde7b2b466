use browser_bridge::agent::{
    agent_step, build_chat_preamble, build_preamble, build_system_prompt, content_preview,
    format_interactive_elements, memory_content_of_args, parse_image_data, recover_llm_error,
    route_request, AgentRequest, AgentRoute, AgentStep, ImageMediaType, InteractiveElement,
    ResponsePart, SanitizedContext,
};
use browser_bridge::model::{AppConfig, Memory};
use browser_bridge::streaming::{sse_done, sse_error_event, sse_event};
use browser_bridge::tools::{
    parse_click_args, parse_elements_args, parse_navigate_args, parse_page_content_args,
    parse_scroll_args, parse_type_args, ClickTool, GetInteractiveElementsTool, GetPageContentTool,
    NavigateTool, ScrollArgs, ScrollTool, TypeTool,
};

#[test]
fn test_navigate_tool_serialization() {
    let args_json = r#"{"url":"https://example.com"}"#;
    let args = parse_navigate_args(args_json).unwrap();
    assert_eq!(args.url, "https://example.com");
}

#[test]
fn test_click_tool_serialization() {
    let args_json = r#"{"ref":42}"#;
    let args = parse_click_args(args_json).unwrap();
    assert_eq!(args.ref_id, 42);
}

#[test]
fn test_type_tool_serialization() {
    let args_json = r#"{"ref":42,"text":"hello"}"#;
    let args = parse_type_args(args_json).unwrap();
    assert_eq!(args.ref_id, 42);
    assert_eq!(args.text, "hello");
}

#[test]
fn test_scroll_tool_serialization() {
    let args_json = r#"{"x":100,"y":200}"#;
    let args = parse_scroll_args(args_json).unwrap();
    assert_eq!(args.x, 100);
    assert_eq!(args.y, 200);
}

#[test]
fn test_get_page_content_serialization() {
    let args_json = r#"{"max_length":1000}"#;
    let args = parse_page_content_args(args_json).unwrap();
    assert_eq!(args.max_length, Some(1000));
}

#[test]
fn test_get_interactive_elements_serialization() {
    let args_json = r#"{"limit":50}"#;
    let args = parse_elements_args(args_json).unwrap();
    assert_eq!(args.limit, Some(50));
}

#[test]
fn test_base64_prefix_stripping() {
    let png = "data:image/png;base64,iVBORw0KGgoAAAANSUhEUgAA...";
    let (media_type, data) = parse_image_data(png);
    assert!(matches!(media_type, ImageMediaType::PNG));
    assert_eq!(data, "iVBORw0KGgoAAAANSUhEUgAA...");

    let jpeg = "data:image/jpeg;base64,/9j/4AAQSkZJRgABAQAAAQABAAD...";
    let (media_type, data) = parse_image_data(jpeg);
    assert!(matches!(media_type, ImageMediaType::JPEG));
    assert_eq!(data, "/9j/4AAQSkZJRgABAQAAAQABAAD...");

    let webp = "data:image/webp;base64,UklGRtAAAABXRUJQVlA4...";
    let (media_type, data) = parse_image_data(webp);
    assert!(matches!(media_type, ImageMediaType::WEBP));
    assert_eq!(data, "UklGRtAAAABXRUJQVlA4...");

    let unknown_with_comma = "image/tiff,somebase64data";
    let (media_type, data) = parse_image_data(unknown_with_comma);
    assert!(matches!(media_type, ImageMediaType::JPEG));
    assert_eq!(data, "somebase64data");

    let raw_data = "somebase64datawithoutcomma";
    let (media_type, data) = parse_image_data(raw_data);
    assert!(matches!(media_type, ImageMediaType::JPEG));
    assert_eq!(data, "somebase64datawithoutcomma");
}

#[test]
fn element_listing_is_one_line_per_element() {
    let elements = vec![
        InteractiveElement { id: 7, name: "Submit".to_string(), role: "button".to_string() },
        InteractiveElement { id: -3, name: "Email".to_string(), role: "textbox".to_string() },
    ];
    let listing = format_interactive_elements(&elements);
    assert_eq!(listing, "- Ref 7: Submit (button)\n- Ref -3: Email (textbox)");
    assert_eq!(format_interactive_elements(&[]), "");
}

#[test]
fn preamble_reflects_the_context() {
    let elements = vec![InteractiveElement {
        id: 7,
        name: "Submit".to_string(),
        role: "button".to_string(),
    }];
    let p = build_preamble(Some(&elements), None);
    assert!(p.contains("- Ref 7: Submit (button)"));
    assert!(p.contains("## Available Interactive Elements on Current Page"));

    let empty: Vec<InteractiveElement> = Vec::new();
    let p2 = build_preamble(Some(&empty), None);
    assert!(p2.contains("No interactive elements detected"));

    let p3 = build_preamble(None, None);
    assert!(p3.contains("No page context provided"));
}

#[test]
fn long_page_content_is_truncated_in_the_preamble() {
    let content: String = "x".repeat(9000);
    let p = build_preamble(None, Some(&content));
    assert!(p.contains("...\n[Content truncated]"));
    let short = "short content".to_string();
    let p2 = build_preamble(None, Some(&short));
    assert!(p2.contains("short content"));
    assert!(!p2.contains("[Content truncated]"));
}

#[test]
fn empty_response_errors_are_recovered() {
    assert!(recover_llm_error("the response was empty", false).is_some());
    assert!(recover_llm_error("error: no message in candidate", true).is_some());
    assert_eq!(recover_llm_error("HTTP 500 from upstream", false), None);
    let text = recover_llm_error("empty", true).unwrap();
    let other = recover_llm_error("empty", false).unwrap();
    assert_ne!(text, other);
}

#[test]
fn agent_step_finishes_without_calls_and_executes_with_them() {
    let parts = vec![
        ResponsePart::Text("Hello ".to_string()),
        ResponsePart::Text("world".to_string()),
    ];
    match agent_step(parts) {
        AgentStep::Finish(t) => assert_eq!(t, "Hello world"),
        _ => panic!("expected finish"),
    }

    let parts = vec![
        ResponsePart::Text("Working".to_string()),
        ResponsePart::FunctionCall {
            name: "save_memory".to_string(),
            args: r#"{"content":"likes tea"}"#.to_string(),
        },
        ResponsePart::FunctionCall { name: "other".to_string(), args: "{}".to_string() },
    ];
    match agent_step(parts) {
        AgentStep::Execute(t, calls) => {
            assert_eq!(t, "Working");
            assert_eq!(calls.len(), 2);
            assert_eq!(calls[0].name, "save_memory");
            assert_eq!(memory_content_of_args(&calls[0].args), "likes tea");
            assert_eq!(calls[1].name, "other");
        }
        _ => panic!("expected execute"),
    }
}

#[test]
fn routing_follows_session_and_stream_flags() {
    let mut req = AgentRequest {
        query: "click submit".to_string(),
        session_id: Some("S".to_string()),
        image: None,
        page_content: None,
        interactive_elements: None,
        custom_instruction: None,
        stream: false,
    };
    assert_eq!(route_request(&req), AgentRoute::Tools);
    req.session_id = None;
    req.stream = true;
    assert_eq!(route_request(&req), AgentRoute::Stream);
    req.stream = false;
    assert_eq!(route_request(&req), AgentRoute::Plain);
}

#[test]
fn sse_frames_are_terminated_and_end_with_done() {
    assert_eq!(sse_event("hello"), "data: hello\n\n");
    assert_eq!(sse_event("two\nlines"), "data: two\ndata: lines\n\n");
    assert_eq!(sse_done(), "data: [DONE]\n\n");
    assert_eq!(sse_done(), sse_event("[DONE]"));
}

#[test]
fn sse_errors_are_error_events() {
    assert_eq!(sse_error_event("upstream failed"), "event: error\ndata: upstream failed\n\n");
    assert_eq!(
        sse_error_event("two\nlines"),
        "event: error\ndata: two\ndata: lines\n\n"
    );
}

#[test]
fn chat_preamble_appends_instructions() {
    let p = build_chat_preamble(None);
    assert_eq!(p, "REQUIRED: Always reply in Indonesian unless asked otherwise.");
    let p2 = build_chat_preamble(Some("Be brief"));
    assert!(p2.ends_with("\n\nADDITIONAL INSTRUCTIONS: Be brief"));
}

#[test]
fn system_prompt_lists_memories_and_context() {
    let memories = vec![Memory {
        id: 1,
        content: "prefers dark mode".to_string(),
        created_at: "2024-01-01 10:00:00".to_string(),
    }];
    let ctx = SanitizedContext {
        url: Some("https://example.com".to_string()),
        title: Some("Example".to_string()),
        content: Some("Lorem ipsum".to_string()),
        screenshot: None,
    };
    let p = build_system_prompt(Some(&ctx), Some("Be brief"), &memories);
    assert!(p.contains("- [2024-01-01 10:00:00] prefers dark mode"));
    assert!(p.contains("URL: https://example.com"));
    assert!(p.contains("Page Title: Example"));
    assert!(p.contains("Lorem ipsum"));
    assert!(p.contains("ADDITIONAL INSTRUCTIONS: Be brief"));

    let p2 = build_system_prompt(None, None, &[]);
    assert!(p2.contains("No browser context."));
}

#[test]
fn content_preview_cuts_at_five_hundred() {
    let long: String = "y".repeat(600);
    let p = content_preview(&long);
    assert_eq!(p.len(), 503);
    assert!(p.ends_with("..."));
    assert_eq!(content_preview("tiny"), "tiny");
}

#[test]
fn config_port_defaults_and_validates() {
    assert_eq!(AppConfig::from_port_value(None), Some(AppConfig { port: 3000 }));
    assert_eq!(AppConfig::from_port_value(Some("8080")), Some(AppConfig { port: 8080 }));
    assert_eq!(AppConfig::from_port_value(Some("notaport")), None);
    assert_eq!(AppConfig::from_port_value(Some("99999")), None);
}

#[test]
fn tool_definitions_name_their_tools() {
    assert_eq!(NavigateTool.definition().name, "navigate_to");
    assert_eq!(ClickTool.definition().name, "click_element");
    assert_eq!(TypeTool.definition().name, "type_text");
    assert_eq!(ScrollTool.definition().name, "scroll_to");
    assert_eq!(GetPageContentTool.definition().name, "get_page_content");
    assert_eq!(GetInteractiveElementsTool.definition().name, "get_interactive_elements");
    let echo = ScrollTool.call(ScrollArgs { x: 3, y: -4 }).unwrap();
    assert_eq!(echo, "Scrolling to x: 3, y: -4");
}

#[test]
fn tool_definitions_carry_their_argument_schemas() {
    assert_eq!(
        NavigateTool.definition().parameters,
        r#"{"type":"object","properties":{"url":{"type":"string","description":"The URL to navigate to (e.g., https://google.com)"}},"required":["url"]}"#
    );
    assert_eq!(
        ClickTool.definition().parameters,
        r#"{"type":"object","properties":{"ref":{"type":"integer","description":"The reference ID of the element to click"}},"required":["ref"]}"#
    );
    assert_eq!(
        TypeTool.definition().parameters,
        r#"{"type":"object","properties":{"ref":{"type":"integer","description":"The reference ID of the element to type into"},"text":{"type":"string","description":"The text to type"}},"required":["ref","text"]}"#
    );
    assert_eq!(
        ScrollTool.definition().parameters,
        r#"{"type":"object","properties":{"x":{"type":"integer","description":"The x-coordinate to scroll to"},"y":{"type":"integer","description":"The y-coordinate to scroll to"}},"required":["x","y"]}"#
    );
    assert_eq!(
        GetPageContentTool.definition().parameters,
        r#"{"type":"object","properties":{"max_length":{"type":"integer","description":"Maximum number of characters to return"}},"required":[]}"#
    );
    assert_eq!(
        GetInteractiveElementsTool.definition().parameters,
        r#"{"type":"object","properties":{"limit":{"type":"integer","description":"Maximum number of elements to return"}},"required":[]}"#
    );
}

#[test]
fn malformed_tool_args_are_rejected() {
    assert!(parse_navigate_args(r#"{"url":42}"#).is_none());
    assert!(parse_click_args(r#"{"ref":"x"}"#).is_none());
    assert!(parse_click_args(r#"{"ref":99999999999}"#).is_none());
    assert!(parse_scroll_args(r#"{"x":1}"#).is_none());
    assert_eq!(parse_page_content_args(r#"{"max_length":null}"#).unwrap().max_length, None);
    assert_eq!(parse_elements_args("{}").unwrap().limit, None);
}
