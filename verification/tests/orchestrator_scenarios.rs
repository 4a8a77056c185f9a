use responses_proxy::models::{
    ChatCompletionChunk, ChatUsage, Choice, ChunkMessage, ContentValue, Delta, EchoFields,
    FunctionCallDelta, OutputContent, StreamEvent, ToolCallDelta,
};
use responses_proxy::orchestrator::Orchestrator;

fn echo_fields() -> EchoFields {
    EchoFields {
        model: "m".to_string(),
        metadata: None,
        instructions: None,
        tools: None,
        tool_choice: None,
        parallel_tool_calls: None,
        temperature: None,
        top_p: None,
        max_output_tokens: None,
        store: Some(false),
        previous_response_id: None,
        reasoning: None,
        background: None,
        max_tool_calls: None,
        text: None,
        prompt: None,
        truncation: None,
        conversation: None,
        top_logprobs: None,
        user: None,
        safety_identifier: None,
        prompt_cache_key: None,
        service_tier: None,
    }
}

fn orchestrator() -> Orchestrator {
    Orchestrator::new(
        "resp_1".to_string(),
        "req1".to_string(),
        "msg_1".to_string(),
        "reasoning_1".to_string(),
        11,
        echo_fields(),
    )
}

fn empty_chunk() -> ChatCompletionChunk {
    ChatCompletionChunk { choices: Vec::new(), error: None, usage: None }
}

fn empty_choice() -> Choice {
    Choice { delta: None, message: None, finish_reason: None }
}

fn empty_delta() -> Delta {
    Delta { content: None, tool_calls: None, reasoning_content: None }
}

fn content_chunk(text: &str) -> ChatCompletionChunk {
    let mut c = empty_chunk();
    let mut ch = empty_choice();
    let mut d = empty_delta();
    d.content = Some(ContentValue::Text(text.to_string()));
    ch.delta = Some(d);
    c.choices.push(ch);
    c
}

fn finish_chunk(reason: &str) -> ChatCompletionChunk {
    let mut c = empty_chunk();
    let mut ch = empty_choice();
    ch.finish_reason = Some(reason.to_string());
    c.choices.push(ch);
    c
}

fn types_of(events: &[StreamEvent]) -> Vec<String> {
    events.iter().map(|e| e.type_.clone()).collect()
}

#[test]
fn plain_text_stream() {
    let mut o = orchestrator();
    let chunks = vec![content_chunk("hel"), content_chunk("lo"), finish_chunk("stop")];
    let events = o.process_response(&chunks);
    assert_eq!(
        types_of(&events),
        vec![
            "response.created",
            "response.output_item.added",
            "response.content_part.added",
            "response.output_text.delta",
            "response.output_text.delta",
            "response.output_text.done",
            "response.content_part.done",
            "response.output_item.done",
            "response.completed",
        ]
    );
    assert_eq!(events[3].delta.as_deref(), Some("hel"));
    assert_eq!(events[4].delta.as_deref(), Some("lo"));
    assert_eq!(events[5].text.as_deref(), Some("hello"));
    let completed = events.last().unwrap().response.as_ref().unwrap();
    assert_eq!(completed.status, "completed");
    match &completed.output[0].content.as_ref().unwrap()[0] {
        OutputContent::OutputText { text, .. } => assert_eq!(text, "hello"),
        _ => panic!("expected output text"),
    }
}

#[test]
fn sequence_numbers_rise_from_one_and_ids_are_unique() {
    let mut o = orchestrator();
    let chunks = vec![content_chunk("a"), finish_chunk("stop")];
    let events = o.process_response(&chunks);
    for (i, e) in events.iter().enumerate() {
        assert_eq!(e.sequence_number, Some(i as u32 + 1));
        assert_eq!(e.response_id.as_deref(), Some("resp_1"));
        let id = e.event_id.as_ref().unwrap();
        assert!(id.starts_with("evt_resp_1_"));
        assert_eq!(id.len(), "evt_resp_1_".len() + 16);
    }
    for i in 0..events.len() {
        for j in (i + 1)..events.len() {
            assert_ne!(events[i].event_id, events[j].event_id);
        }
    }
}

#[test]
fn native_tool_call() {
    let mut o = orchestrator();
    let mut c1 = empty_chunk();
    let mut ch = empty_choice();
    let mut d = empty_delta();
    d.tool_calls = Some(vec![ToolCallDelta {
        index: 0,
        id: Some("c1".to_string()),
        type_: None,
        function: Some(FunctionCallDelta { name: Some("read_file".to_string()), arguments: None }),
    }]);
    ch.delta = Some(d);
    c1.choices.push(ch);

    let args_chunk = |frag: &str| {
        let mut c = empty_chunk();
        let mut ch = empty_choice();
        let mut d = empty_delta();
        d.tool_calls = Some(vec![ToolCallDelta {
            index: 0,
            id: None,
            type_: None,
            function: Some(FunctionCallDelta { name: None, arguments: Some(frag.to_string()) }),
        }]);
        ch.delta = Some(d);
        c.choices.push(ch);
        c
    };

    let chunks = vec![c1, args_chunk("{\"p\":"), args_chunk("1}"), finish_chunk("tool_calls")];
    let events = o.process_response(&chunks);
    assert_eq!(
        types_of(&events),
        vec![
            "response.created",
            "response.output_item.added",
            "response.content_part.added",
            "response.output_item.added",
            "response.function_call_arguments.delta",
            "response.function_call_arguments.delta",
            "response.function_call_arguments.done",
            "response.output_item.done",
            "response.completed",
        ]
    );
    let added = &events[3];
    assert_eq!(added.output_index, Some(1));
    let item = added.item.as_ref().unwrap();
    assert_eq!(item.type_, "function_call");
    assert_eq!(item.call_id.as_deref(), Some("c1"));
    assert_eq!(item.name.as_deref(), Some("read_file"));
    assert_eq!(events[4].delta.as_deref(), Some("{\"p\":"));
    assert_eq!(events[5].delta.as_deref(), Some("1}"));
    assert_eq!(events[6].arguments.as_deref(), Some("{\"p\":1}"));
    let done_item = events[7].item.as_ref().unwrap();
    assert_eq!(done_item.status, "completed");
    assert_eq!(done_item.arguments.as_deref(), Some("{\"p\":1}"));
    let completed = events.last().unwrap().response.as_ref().unwrap();
    assert_eq!(completed.status, "completed");
}

#[test]
fn xml_tool_call_in_text() {
    let mut o = orchestrator();
    let chunks = vec![
        content_chunk("<function=read_file><parameter=path>/etc/hosts</parameter></function>"),
        finish_chunk("stop"),
    ];
    let events = o.process_response(&chunks);
    assert_eq!(
        types_of(&events),
        vec![
            "response.created",
            "response.output_item.added",
            "response.content_part.added",
            "response.output_item.added",
            "response.function_call_arguments.done",
            // the finish phase closes every tracked call again
            "response.function_call_arguments.done",
            "response.output_item.done",
            "response.completed",
        ]
    );
    let added = &events[3];
    assert_eq!(added.name.as_deref(), Some("read_file"));
    assert_eq!(added.output_index, Some(1));
    assert_eq!(
        events[4].arguments.as_deref(),
        Some("{\"path\":\"/etc/hosts\"}")
    );
    assert_eq!(
        events[5].arguments.as_deref(),
        Some("{\"path\":\"/etc/hosts\"}")
    );
    // no text was produced, so the message item done pair is suppressed
    assert!(!events.iter().any(|e| e.type_ == "response.output_text.delta"));
    assert!(!events.iter().any(|e| e.type_ == "response.content_part.done"));
}

#[test]
fn finish_length_marks_incomplete() {
    let mut o = orchestrator();
    let chunks = vec![content_chunk("hel"), content_chunk("lo"), finish_chunk("length")];
    let events = o.process_response(&chunks);
    let completed = events.last().unwrap().response.as_ref().unwrap();
    assert_eq!(completed.status, "incomplete");
    assert_eq!(
        completed.incomplete_details.as_ref().unwrap().reason,
        "max_output_tokens"
    );
}

#[test]
fn duplicate_deltas_are_suppressed() {
    let mut o = orchestrator();
    let chunks = vec![
        content_chunk("same"),
        content_chunk("same"),
        content_chunk("other"),
        finish_chunk("stop"),
    ];
    let events = o.process_response(&chunks);
    let deltas: Vec<&StreamEvent> =
        events.iter().filter(|e| e.type_ == "response.output_text.delta").collect();
    assert_eq!(deltas.len(), 2);
    let completed = events.last().unwrap().response.as_ref().unwrap();
    match &completed.output[0].content.as_ref().unwrap()[0] {
        OutputContent::OutputText { text, .. } => assert_eq!(text, "samesameother"),
        _ => panic!("expected output text"),
    }
}

#[test]
fn reasoning_stream_gets_its_own_item() {
    let mut o = orchestrator();
    let mut c = empty_chunk();
    let mut ch = empty_choice();
    let mut d = empty_delta();
    d.reasoning_content = Some("thinking...".to_string());
    ch.delta = Some(d);
    c.choices.push(ch);
    let chunks = vec![c, content_chunk("answer"), finish_chunk("stop")];
    let events = o.process_response(&chunks);
    assert_eq!(events[3].type_, "response.reasoning_text.delta");
    assert_eq!(events[3].delta.as_deref(), Some("thinking..."));
    let done = events.iter().find(|e| e.type_ == "response.reasoning_text.done").unwrap();
    assert_eq!(done.text.as_deref(), Some("thinking..."));
    let completed = events.last().unwrap().response.as_ref().unwrap();
    assert_eq!(completed.output.len(), 2);
    assert_eq!(completed.output[0].type_, "reasoning");
    assert_eq!(completed.output[1].type_, "message");
}

#[test]
fn in_chunk_error_fails_the_response() {
    let mut o = orchestrator();
    let mut bad = empty_chunk();
    bad.error = Some(serde_json::Value::Null);
    let chunks = vec![content_chunk("partial"), bad, content_chunk("never")];
    let events = o.process_response(&chunks);
    let completed = events.last().unwrap().response.as_ref().unwrap();
    assert_eq!(completed.status, "failed");
    assert_eq!(events.last().unwrap().type_, "response.completed");
    // the chunk after the error is never processed
    assert!(!events.iter().any(|e| e.delta.as_deref() == Some("never")));
}

#[test]
fn usage_is_last_write_wins() {
    let mut o = orchestrator();
    let mut u1 = empty_chunk();
    u1.usage = Some(ChatUsage { prompt_tokens: Some(3), completion_tokens: Some(1) });
    let mut u2 = empty_chunk();
    u2.usage = Some(ChatUsage { prompt_tokens: Some(5), completion_tokens: Some(7) });
    let chunks = vec![u1, u2, finish_chunk("stop")];
    let events = o.process_response(&chunks);
    let usage = events.last().unwrap().response.as_ref().unwrap().usage.as_ref().unwrap();
    assert_eq!(usage.input_tokens, 5);
    assert_eq!(usage.output_tokens, 7);
    assert_eq!(usage.total_tokens, 12);
}

#[test]
fn non_streaming_message_content_is_one_delta() {
    let mut o = orchestrator();
    let mut c = empty_chunk();
    let mut ch = empty_choice();
    ch.message = Some(ChunkMessage { content: Some("whole".to_string()) });
    c.choices.push(ch);
    let chunks = vec![c, finish_chunk("stop")];
    let events = o.process_response(&chunks);
    assert_eq!(events[3].type_, "response.output_text.delta");
    assert_eq!(events[3].delta.as_deref(), Some("whole"));
}

#[test]
fn xml_salvage_with_native_calls_picks_free_index() {
    let mut o = orchestrator();
    // a native call at backend index 0
    let mut c1 = empty_chunk();
    let mut ch = empty_choice();
    let mut d = empty_delta();
    d.tool_calls = Some(vec![ToolCallDelta {
        index: 0,
        id: Some("n0".to_string()),
        type_: None,
        function: Some(FunctionCallDelta { name: Some("native".to_string()), arguments: None }),
    }]);
    ch.delta = Some(d);
    c1.choices.push(ch);
    let chunks = vec![
        c1,
        content_chunk("<function=extra><parameter=a>1</parameter></function>"),
        finish_chunk("tool_calls"),
    ];
    let events = o.process_response(&chunks);
    let added: Vec<&StreamEvent> = events
        .iter()
        .filter(|e| e.type_ == "response.output_item.added" && e.output_index != Some(0))
        .collect();
    assert_eq!(added.len(), 2);
    assert_eq!(added[0].output_index, Some(1));
    // the salvaged call takes the next index not claimed by the native call
    assert_eq!(added[1].output_index, Some(2));
    assert!(added[1].call_id.as_ref().unwrap().starts_with("call_xml_req1_"));
}

#[test]
fn split_marker_across_deltas_is_still_buffered() {
    let mut o = orchestrator();
    let chunks = vec![
        content_chunk("<func"),
        content_chunk("tion=f><parameter=k>v</parameter></function>"),
        finish_chunk("stop"),
    ];
    let events = o.process_response(&chunks);
    let done = events
        .iter()
        .find(|e| e.type_ == "response.function_call_arguments.done")
        .unwrap();
    assert_eq!(done.arguments.as_deref(), Some("{\"k\":\"v\"}"));
}
