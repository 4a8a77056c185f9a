use responses_proxy::models::{
    ReasoningConfig, ResponseContent, ResponseInput, ResponseInputItem, ResponsePrompt,
    ResponseRequest, StreamOptions,
};
use responses_proxy::shim::{
    estimate_input_size, validate_request, volume_flag_enabled, warn_unsupported_features,
    ValidationError,
};

fn base_request() -> ResponseRequest {
    ResponseRequest {
        model: Some("m".to_string()),
        input: None,
        instructions: None,
        max_output_tokens: None,
        temperature: None,
        top_p: None,
        tools: None,
        tool_choice: None,
        parallel_tool_calls: None,
        stream: None,
        metadata: None,
        store: None,
        include_fields: None,
        background: None,
        conversation: None,
        previous_response_id: None,
        reasoning: None,
        stream_options: None,
        max_tool_calls: None,
        text: None,
        prompt: None,
        truncation: None,
        top_logprobs: None,
        user: None,
        safety_identifier: None,
        prompt_cache_key: None,
        service_tier: None,
    }
}

#[test]
fn valid_request_passes() {
    let req = base_request();
    assert!(validate_request(&req, false, true).is_ok());
}

#[test]
fn circuit_open_rejects_with_503() {
    let req = base_request();
    let e = validate_request(&req, true, true).unwrap_err();
    assert_eq!(e, ValidationError::CircuitOpen);
    assert_eq!(e.status(), 503);
    assert_eq!(e.code(), "backend_unavailable_circuit_open");
}

#[test]
fn background_rejected_before_breaker() {
    let mut req = base_request();
    req.background = Some(true);
    let e = validate_request(&req, true, true).unwrap_err();
    assert_eq!(e, ValidationError::BackgroundNotSupported);
    assert_eq!(e.status(), 400);
    assert_eq!(e.code(), "background_not_supported");
}

#[test]
fn prompt_reference_rejected() {
    let mut req = base_request();
    req.prompt = Some(ResponsePrompt { id: "p".to_string(), version: None, variables: None });
    let e = validate_request(&req, false, true).unwrap_err();
    assert_eq!(e.status(), 400);
    assert_eq!(e.code(), "prompt_reference_not_supported");
}

#[test]
fn too_many_items_rejected() {
    let mut req = base_request();
    let mut items = Vec::new();
    for _ in 0..1001 {
        items.push(ResponseInputItem::Reasoning { text: None, encrypted_content: None });
    }
    req.input = Some(ResponseInput::Items(items));
    let e = validate_request(&req, false, true).unwrap_err();
    assert_eq!(e.code(), "too_many_messages");
}

#[test]
fn max_tokens_range_enforced() {
    let mut req = base_request();
    req.max_output_tokens = Some(0);
    assert_eq!(validate_request(&req, false, true).unwrap_err().code(), "invalid_max_tokens");
    req.max_output_tokens = Some(100_001);
    assert_eq!(validate_request(&req, false, true).unwrap_err().code(), "invalid_max_tokens");
    req.max_output_tokens = Some(100_000);
    assert!(validate_request(&req, false, true).is_ok());
}

#[test]
fn oversized_instructions_rejected() {
    let mut req = base_request();
    req.instructions = Some("x".repeat(102_401));
    let e = validate_request(&req, false, true).unwrap_err();
    assert_eq!(e.code(), "instructions_too_large");
}

#[test]
fn oversized_input_rejected_with_413() {
    let mut req = base_request();
    req.input = Some(ResponseInput::Text("y".repeat(5 * 1024 * 1024 + 1)));
    let e = validate_request(&req, false, true).unwrap_err();
    assert_eq!(e.status(), 413);
    assert_eq!(e.code(), "input_content_too_large");
}

#[test]
fn top_logprobs_bounded() {
    let mut req = base_request();
    req.top_logprobs = Some(21);
    assert_eq!(validate_request(&req, false, true).unwrap_err().code(), "invalid_top_logprobs");
    req.top_logprobs = Some(20);
    assert!(validate_request(&req, false, true).is_ok());
}

#[test]
fn missing_key_rejected_with_401() {
    let req = base_request();
    let e = validate_request(&req, false, false).unwrap_err();
    assert_eq!(e.status(), 401);
    assert_eq!(e.code(), "missing_api_key");
}

#[test]
fn input_size_sums_all_fields() {
    let input = ResponseInput::Text("hello".to_string());
    assert_eq!(estimate_input_size(&input), 5);

    let items = ResponseInput::Items(vec![
        ResponseInputItem::Message {
            role: "user".to_string(),
            content: ResponseContent::Text("abc".to_string()),
        },
        ResponseInputItem::FunctionCall {
            call_id: "id".to_string(),
            name: "nm".to_string(),
            arguments: "{}".to_string(),
        },
    ]);
    // "user" + "abc" = 7; "id" + "nm" + "{}" = 6
    assert_eq!(estimate_input_size(&items), 13);
}

#[test]
fn unsupported_fields_are_warned_in_order() {
    let req = base_request();
    assert!(warn_unsupported_features(&req).is_empty());

    let mut req = base_request();
    req.previous_response_id = Some("r0".to_string());
    req.service_tier = Some("gold".to_string());
    req.stream_options = Some(StreamOptions { include_obfuscation: Some(true) });
    let warnings = warn_unsupported_features(&req);
    assert_eq!(
        warnings,
        vec![
            "stream_options.include_obfuscation is not supported".to_string(),
            "previous_response_id is ignored (proxy is stateless)".to_string(),
            "service_tier overrides are not supported".to_string(),
        ]
    );

    let mut req = base_request();
    req.reasoning = Some(ReasoningConfig {
        effort: Some("high".to_string()),
        summary: None,
        generate_summary: None,
    });
    // effort alone is supported; only summary preferences warn
    assert!(warn_unsupported_features(&req).is_empty());
}

#[test]
fn volume_flag_values() {
    assert!(volume_flag_enabled("1"));
    assert!(volume_flag_enabled(" TRUE \n"));
    assert!(volume_flag_enabled("yes"));
    assert!(volume_flag_enabled("On"));
    assert!(!volume_flag_enabled("0"));
    assert!(!volume_flag_enabled("off"));
    assert!(!volume_flag_enabled(""));
}
