use responses_proxy::errors::{
    backend_failure_message, bound_error_body, build_error_event, build_model_list_content,
    format_backend_error, ModelInfo,
};

#[test]
fn backend_error_formatting() {
    let msg = format_backend_error("boom", "boom");
    assert_eq!(
        msg,
        "\u{26a0}\u{fe0f} Backend Error:\n\nboom\n\nPlease check your request parameters and try again."
    );
}

#[test]
fn model_list_with_prices() {
    let models = vec![
        ModelInfo {
            id: "alpha".to_string(),
            input_price_text: Some("0.0004".to_string()),
            output_price_text: Some("0.0008".to_string()),
        },
        ModelInfo {
            id: "beta".to_string(),
            input_price_text: Some("0.0100".to_string()),
            output_price_text: None,
        },
        ModelInfo { id: "gamma".to_string(), input_price_text: None, output_price_text: None },
    ];
    let text = build_model_list_content("bad", &models);
    assert_eq!(
        text,
        "\u{274c} Model 'bad' not found.\n\nAvailable models:\n\n  \u{2022} alpha (input $0.0004/1K, output $0.0008/1K)\n  \u{2022} beta (input $0.0100/1K)\n  \u{2022} gamma\n"
    );
}

#[test]
fn model_list_caps_at_twenty() {
    let mut models = Vec::new();
    for i in 0..23 {
        models.push(ModelInfo {
            id: format!("m{}", i),
            input_price_text: None,
            output_price_text: None,
        });
    }
    let text = build_model_list_content("bad", &models);
    assert!(text.contains("m19"));
    assert!(!text.contains("\u{2022} m20"));
    assert!(text.ends_with("\n...and 3 more models.\n"));
}

#[test]
fn empty_model_list() {
    let text = build_model_list_content("bad", &Vec::new());
    assert_eq!(text, "\u{274c} Model 'bad' not found.\n\nNo models available from backend.\n");
}

#[test]
fn short_error_body_kept_verbatim() {
    let body = b"short error".to_vec();
    assert_eq!(bound_error_body(&body), body);
}

#[test]
fn long_error_body_truncated_and_marked() {
    let body = vec![b'a'; 10_241];
    let out = bound_error_body(&body);
    assert_eq!(out.len(), 10_240 + "... (truncated)".len());
    assert!(out.starts_with(&vec![b'a'; 10_240]));
    assert!(out.ends_with(b"... (truncated)"));
}

#[test]
fn not_found_with_cached_models_lists_them() {
    let models = vec![ModelInfo {
        id: "known-model".to_string(),
        input_price_text: None,
        output_price_text: None,
    }];
    let (code, message) = backend_failure_message(404, "ignored", "bad", &models);
    assert_eq!(code, "model_not_found");
    assert!(message.contains("Model 'bad' not found"));
    assert!(message.contains("known-model"));
}

#[test]
fn not_found_without_cache_is_backend_error() {
    let (code, message) = backend_failure_message(404, "no route", "bad", &Vec::new());
    assert_eq!(code, "backend_error");
    assert!(message.contains("no route"));
}

#[test]
fn other_statuses_are_backend_errors() {
    let models = vec![ModelInfo {
        id: "known".to_string(),
        input_price_text: None,
        output_price_text: None,
    }];
    let (code, _) = backend_failure_message(500, "oops", "m", &models);
    assert_eq!(code, "backend_error");
}

#[test]
fn failure_event_shape() {
    let ev = build_error_event("m", "message text".to_string(), "model_not_found".to_string(), "resp_1", 7);
    assert_eq!(ev.type_, "response.failed");
    assert_eq!(ev.event_id.as_deref(), Some("evt_resp_1_0000000000000001"));
    assert_eq!(ev.response_id.as_deref(), Some("resp_1"));
    assert_eq!(ev.sequence_number, Some(1));
    let resp = ev.response.unwrap();
    assert_eq!(resp.id, "resp_1");
    assert_eq!(resp.object, "response");
    assert_eq!(resp.created_at, 7);
    assert_eq!(resp.status, "failed");
    assert_eq!(resp.store, Some(false));
    assert!(resp.output.is_empty());
    let err = resp.error.unwrap();
    assert_eq!(err.code, "model_not_found");
    assert_eq!(err.message, "message text");
}
