use responses_proxy::models::{
    ChatContent, ContentPart, ImageUrl, ResponseContent, ResponseInput, ResponseInputItem,
    ResponseRequest, Tool, FunctionDef,
};
use responses_proxy::translate::{convert_to_chat_completions, translate_finish_reason};

fn base_request() -> ResponseRequest {
    ResponseRequest {
        model: Some("m".to_string()),
        input: None,
        instructions: None,
        max_output_tokens: None,
        temperature: None,
        top_p: None,
        tools: None,
        tool_choice: None,
        parallel_tool_calls: None,
        stream: None,
        metadata: None,
        store: None,
        include_fields: None,
        background: None,
        conversation: None,
        previous_response_id: None,
        reasoning: None,
        stream_options: None,
        max_tool_calls: None,
        text: None,
        prompt: None,
        truncation: None,
        top_logprobs: None,
        user: None,
        safety_identifier: None,
        prompt_cache_key: None,
        service_tier: None,
    }
}

fn content_text(c: &Option<ChatContent>) -> String {
    match c {
        Some(ChatContent::Text(t)) => t.clone(),
        _ => panic!("expected plain text content"),
    }
}

#[test]
fn missing_model_is_rejected() {
    let mut req = base_request();
    req.model = None;
    let r = convert_to_chat_completions(&req);
    match r {
        Err(e) => assert_eq!(e, "Model is required"),
        Ok(_) => panic!("expected an error"),
    }
}

#[test]
fn string_input_becomes_user_message() {
    let mut req = base_request();
    req.input = Some(ResponseInput::Text("hi".to_string()));
    let out = convert_to_chat_completions(&req).unwrap();
    assert_eq!(out.model, "m");
    assert_eq!(out.messages.len(), 1);
    assert_eq!(out.messages[0].role, "user");
    assert_eq!(content_text(&out.messages[0].content), "hi");
    assert!(!out.stream);
}

#[test]
fn instructions_prepend_system_message_with_disclaimer() {
    let mut req = base_request();
    req.instructions = Some("Be brief.".to_string());
    req.input = Some(ResponseInput::Text("hi".to_string()));
    let out = convert_to_chat_completions(&req).unwrap();
    assert_eq!(out.messages.len(), 2);
    assert_eq!(out.messages[0].role, "system");
    let body = content_text(&out.messages[0].content);
    assert!(body.starts_with("Be brief."));
    assert!(body.contains("IMPORTANT: Tool Calling Format Override"));
}

#[test]
fn empty_instructions_add_no_system_message() {
    let mut req = base_request();
    req.instructions = Some(String::new());
    req.input = Some(ResponseInput::Text("hi".to_string()));
    let out = convert_to_chat_completions(&req).unwrap();
    assert_eq!(out.messages.len(), 1);
}

#[test]
fn reasoning_wraps_into_think_tags_before_assistant() {
    let mut req = base_request();
    req.input = Some(ResponseInput::Items(vec![
        ResponseInputItem::Reasoning {
            text: Some("step one".to_string()),
            encrypted_content: None,
        },
        ResponseInputItem::Message {
            role: "assistant".to_string(),
            content: ResponseContent::Text("answer".to_string()),
        },
    ]));
    let out = convert_to_chat_completions(&req).unwrap();
    assert_eq!(out.messages.len(), 1);
    assert_eq!(out.messages[0].role, "assistant");
    assert_eq!(
        content_text(&out.messages[0].content),
        "<think>step one</think>\nanswer"
    );
}

#[test]
fn pending_tool_calls_attach_to_assistant() {
    let mut req = base_request();
    req.input = Some(ResponseInput::Items(vec![
        ResponseInputItem::FunctionCall {
            call_id: "c1".to_string(),
            name: "read_file".to_string(),
            arguments: "{}".to_string(),
        },
        ResponseInputItem::Message {
            role: "assistant".to_string(),
            content: ResponseContent::Text("on it".to_string()),
        },
    ]));
    let out = convert_to_chat_completions(&req).unwrap();
    assert_eq!(out.messages.len(), 1);
    let calls = out.messages[0].tool_calls.as_ref().unwrap();
    assert_eq!(calls.len(), 1);
    assert_eq!(calls[0].id, "c1");
    assert_eq!(calls[0].name, "read_file");
    assert_eq!(calls[0].arguments, "{}");
}

#[test]
fn function_call_output_becomes_tool_message() {
    let mut req = base_request();
    req.input = Some(ResponseInput::Items(vec![ResponseInputItem::FunctionCallOutput {
        call_id: "c9".to_string(),
        output: "{\"output\":\"inner text\",\"metadata\":{}}".to_string(),
    }]));
    let out = convert_to_chat_completions(&req).unwrap();
    assert_eq!(out.messages.len(), 1);
    assert_eq!(out.messages[0].role, "tool");
    assert_eq!(out.messages[0].tool_call_id.as_deref(), Some("c9"));
    assert_eq!(content_text(&out.messages[0].content), "inner text");
}

#[test]
fn plain_tool_output_is_kept_verbatim() {
    let mut req = base_request();
    req.input = Some(ResponseInput::Items(vec![ResponseInputItem::FunctionCallOutput {
        call_id: "c2".to_string(),
        output: "just text".to_string(),
    }]));
    let out = convert_to_chat_completions(&req).unwrap();
    assert_eq!(content_text(&out.messages[0].content), "just text");
}

#[test]
fn text_parts_collapse_without_images() {
    let mut req = base_request();
    req.input = Some(ResponseInput::Items(vec![ResponseInputItem::Message {
        role: "user".to_string(),
        content: ResponseContent::Parts(vec![
            ContentPart::InputText { text: "a".to_string() },
            ContentPart::OutputText { text: "b".to_string() },
        ]),
    }]));
    let out = convert_to_chat_completions(&req).unwrap();
    assert_eq!(content_text(&out.messages[0].content), "a\nb");
}

#[test]
fn image_parts_keep_array_form() {
    let mut req = base_request();
    req.input = Some(ResponseInput::Items(vec![ResponseInputItem::Message {
        role: "user".to_string(),
        content: ResponseContent::Parts(vec![
            ContentPart::InputText { text: "see".to_string() },
            ContentPart::InputImage {
                image_url: ImageUrl { url: "http://img".to_string() },
            },
        ]),
    }]));
    let out = convert_to_chat_completions(&req).unwrap();
    match out.messages[0].content.as_ref().unwrap() {
        ChatContent::Parts(parts) => assert_eq!(parts.len(), 2),
        _ => panic!("expected part array"),
    }
}

#[test]
fn only_function_tools_survive() {
    let mut req = base_request();
    req.tools = Some(vec![
        Tool::Flat {
            type_: "web_search".to_string(),
            name: None,
            description: None,
            parameters: None,
            strict: false,
        },
        Tool::Nested {
            type_: "function".to_string(),
            function: FunctionDef {
                name: "lookup".to_string(),
                description: Some("d".to_string()),
                parameters: None,
            },
        },
    ]);
    let out = convert_to_chat_completions(&req).unwrap();
    let tools = out.tools.unwrap();
    assert_eq!(tools.len(), 1);
    let responses_proxy::models::ChatTool::Function { type_, function } = &tools[0];
    assert_eq!(type_, "function");
    assert_eq!(function.name, "lookup");
}

#[test]
fn empty_tool_list_is_omitted() {
    let mut req = base_request();
    req.tools = Some(vec![Tool::Flat {
        type_: "web_search".to_string(),
        name: None,
        description: None,
        parameters: None,
        strict: false,
    }]);
    let out = convert_to_chat_completions(&req).unwrap();
    assert!(out.tools.is_none());
}

#[test]
fn copy_through_fields() {
    let mut req = base_request();
    req.max_output_tokens = Some(42);
    req.parallel_tool_calls = Some(true);
    req.stream = Some(true);
    let out = convert_to_chat_completions(&req).unwrap();
    assert_eq!(out.max_tokens, Some(42));
    assert_eq!(out.parallel_tool_calls, Some(true));
    assert!(out.stream);
}

#[test]
fn finish_reason_translation() {
    assert_eq!(translate_finish_reason(Some("stop")), "completed");
    assert_eq!(translate_finish_reason(Some("tool_calls")), "completed");
    assert_eq!(translate_finish_reason(Some("length")), "incomplete");
    assert_eq!(translate_finish_reason(Some("content_filter")), "failed");
    assert_eq!(translate_finish_reason(Some("anything_else")), "completed");
    assert_eq!(translate_finish_reason(None), "in_progress");
}
