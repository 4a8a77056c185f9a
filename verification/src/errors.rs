//! Error-stream adapter: turns a failed upstream exchange into a single
//! well-formed `response.failed` event, with a bounded error body, a
//! human-readable message, and — for an unknown model with a populated
//! model cache — a list of available models.

use vstd::prelude::*;

use crate::models::{Response, ResponseError, StreamEvent};
use crate::sequencer::event_id_of;
use crate::text::{chars_of, dec_of, push_all, string_from_chars, u64_to_dec, vec_sub};

verus! {

/// One model of the backend's catalogue, with its prices already
/// rendered (four decimals) where the catalogue gives them.
#[derive(Debug)]
pub struct ModelInfo {
    /// The model identifier.
    pub id: String,
    /// The input price per 1K tokens, rendered, if known.
    pub input_price_text: Option<String>,
    /// The output price per 1K tokens, rendered, if known.
    pub output_price_text: Option<String>,
}

/// The message shown for a backend error body.
pub open spec fn backend_error_text(msg: Seq<char>) -> Seq<char> {
    "\u{26a0}\u{fe0f} Backend Error:\n\n"@ + msg
        + "\n\nPlease check your request parameters and try again."@
}

/// Format a backend error into a user-facing message.
pub fn format_backend_error(error_msg: &str, _raw_body: &str) -> (r: String)
    ensures
        r@ == backend_error_text(error_msg@),
{
    let mut out = chars_of("\u{26a0}\u{fe0f} Backend Error:\n\n");
    push_all(&mut out, &chars_of(error_msg));
    push_all(&mut out, &chars_of("\n\nPlease check your request parameters and try again."));
    string_from_chars(&out)
}

/// The pricing annotation of one model.
pub open spec fn price_suffix(m: ModelInfo) -> Seq<char> {
    match (m.input_price_text, m.output_price_text) {
        (Some(a), Some(b)) => " (input $"@ + a@ + "/1K, output $"@ + b@ + "/1K)"@,
        (Some(a), None) => " (input $"@ + a@ + "/1K)"@,
        (None, Some(b)) => " (output $"@ + b@ + "/1K)"@,
        (None, None) => Seq::empty(),
    }
}

/// The bulleted lines of the first `k` models.
pub open spec fn model_lines(models: Seq<ModelInfo>, k: int) -> Seq<char>
    decreases k,
{
    if k <= 0 || k > models.len() {
        Seq::empty()
    } else {
        model_lines(models, k - 1) + "  \u{2022} "@ + models[k - 1].id@ + price_suffix(
            models[k - 1],
        ) + "\n"@
    }
}

/// The full model-list message shown when a requested model is unknown:
/// at most twenty models are listed, a remainder is counted.
pub open spec fn model_list_text(requested: Seq<char>, models: Seq<ModelInfo>) -> Seq<char> {
    let head = "\u{274c} Model '"@ + requested + "' not found.\n\n"@;
    if models.len() > 0 {
        let shown = if models.len() > 20 {
            20int
        } else {
            models.len() as int
        };
        let tail = if models.len() > 20 {
            "\n...and "@ + dec_of((models.len() - 20) as nat) + " more models.\n"@
        } else {
            Seq::empty()
        };
        head + "Available models:\n\n"@ + model_lines(models, shown) + tail
    } else {
        head + "No models available from backend.\n"@
    }
}

/// Build the model-list message for an unknown model.
pub fn build_model_list_content(requested_model: &str, models: &Vec<ModelInfo>) -> (r: String)
    ensures
        r@ == model_list_text(requested_model@, models@),
{
    let mut out = chars_of("\u{274c} Model '");
    push_all(&mut out, &chars_of(requested_model));
    push_all(&mut out, &chars_of("' not found.\n\n"));
    if models.len() > 0 {
        push_all(&mut out, &chars_of("Available models:\n\n"));
        let shown: usize = if models.len() > 20 {
            20
        } else {
            models.len()
        };
        let mut i: usize = 0;
        let ghost head = out@;
        while i < shown
            invariant
                i <= shown,
                shown <= models@.len(),
                out@ =~= head + model_lines(models@, i as int),
            decreases shown - i,
        {
            push_all(&mut out, &chars_of("  \u{2022} "));
            push_all(&mut out, &chars_of(models[i].id.as_str()));
            match (&models[i].input_price_text, &models[i].output_price_text) {
                (Some(a), Some(b)) => {
                    push_all(&mut out, &chars_of(" (input $"));
                    push_all(&mut out, &chars_of(a.as_str()));
                    push_all(&mut out, &chars_of("/1K, output $"));
                    push_all(&mut out, &chars_of(b.as_str()));
                    push_all(&mut out, &chars_of("/1K)"));
                },
                (Some(a), None) => {
                    push_all(&mut out, &chars_of(" (input $"));
                    push_all(&mut out, &chars_of(a.as_str()));
                    push_all(&mut out, &chars_of("/1K)"));
                },
                (None, Some(b)) => {
                    push_all(&mut out, &chars_of(" (output $"));
                    push_all(&mut out, &chars_of(b.as_str()));
                    push_all(&mut out, &chars_of("/1K)"));
                },
                (None, None) => {},
            }
            push_all(&mut out, &chars_of("\n"));
            i = i + 1;
        }
        if models.len() > 20 {
            push_all(&mut out, &chars_of("\n...and "));
            push_all(&mut out, &u64_to_dec((models.len() - 20) as u64));
            push_all(&mut out, &chars_of(" more models.\n"));
        }
    } else {
        push_all(&mut out, &chars_of("No models available from backend.\n"));
    }
    string_from_chars(&out)
}

/// The largest error body kept, in bytes.
pub const MAX_ERROR_BODY_SIZE: usize = 10240;

/// The marker appended to a truncated error body.
pub open spec fn truncation_marker() -> Seq<u8> {
    "... (truncated)"@.map_values(|c: char| c as u8)
}

/// Bound an error body: longer bodies are cut at the limit and marked as
/// truncated.
pub fn bound_error_body(body: &Vec<u8>) -> (r: Vec<u8>)
    ensures
        body@.len() <= MAX_ERROR_BODY_SIZE ==> r@ =~= body@,
        body@.len() > MAX_ERROR_BODY_SIZE ==> r@ =~= body@.subrange(0, MAX_ERROR_BODY_SIZE as int)
            + truncation_marker(),
{
    proof {
        reveal_strlit("... (truncated)");
    }
    if body.len() <= MAX_ERROR_BODY_SIZE {
        vec_sub(body, 0, body.len())
    } else {
        let mut out = vec_sub(body, 0, MAX_ERROR_BODY_SIZE);
        let marker = chars_of("... (truncated)");
        let mut i: usize = 0;
        while i < marker.len()
            invariant
                i <= marker@.len(),
                marker@ =~= "... (truncated)"@,
                out@ =~= body@.subrange(0, MAX_ERROR_BODY_SIZE as int) + marker@.subrange(
                    0,
                    i as int,
                ).map_values(|c: char| c as u8),
            decreases marker.len() - i,
        {
            proof {
                reveal_strlit("... (truncated)");
            }
            let c = marker[i];
            if (c as u32) < 256 {
                out.push((c as u32) as u8);
            } else {
                out.push(63);
            }
            proof {
                assert(marker@.subrange(0, i + 1 as int) =~= marker@.subrange(0, i as int).push(
                    marker@[i as int],
                ));
                assert(marker@.subrange(0, i + 1 as int).map_values(|c: char| c as u8)
                    =~= marker@.subrange(0, i as int).map_values(|c: char| c as u8).push(
                    marker@[i as int] as u8,
                ));
            }
            i = i + 1;
        }
        proof {
            assert(marker@.subrange(0, marker@.len() as int) =~= marker@);
            assert(marker@.map_values(|c: char| c as u8) =~= truncation_marker());
        }
        out
    }
}

/// Pick the error code and message for a failed backend exchange: an
/// HTTP 404 with a populated model cache yields `model_not_found` with
/// the model list; everything else yields `backend_error` with the
/// formatted body.
pub fn backend_failure_message(
    status: u16,
    error_body: &str,
    model: &str,
    models: &Vec<ModelInfo>,
) -> (r: (String, String))
    ensures
        status == 404 && models@.len() > 0 ==> r.0@ == "model_not_found"@ && r.1@
            == model_list_text(model@, models@),
        !(status == 404 && models@.len() > 0) ==> r.0@ == "backend_error"@ && r.1@
            == backend_error_text(error_body@),
{
    if status == 404 && models.len() > 0 {
        ("model_not_found".to_owned(), build_model_list_content(model, models))
    } else {
        ("backend_error".to_owned(), format_backend_error(error_body, error_body))
    }
}

/// Build the single `response.failed` event of a failed exchange: the
/// event carries sequence number 1, the event id for counter 1, and a
/// failed response holding the error.
pub fn build_error_event(
    model: &str,
    error_message: String,
    error_code: String,
    response_id: &str,
    created_at: u64,
) -> (r: StreamEvent)
    ensures
        r.type_@ == "response.failed"@,
        r.event_id matches Some(id) && id@ == event_id_of(response_id@, 1),
        r.response_id matches Some(rid) && rid@ == response_id@,
        r.sequence_number == Some(1u32),
        r.response matches Some(resp) && {
            &&& resp.id@ == response_id@
            &&& resp.object@ == "response"@
            &&& resp.created_at == created_at
            &&& resp.status@ == "failed"@
            &&& resp.error matches Some(e) && e.code == error_code && e.message == error_message
            &&& resp.incomplete_details is None
            &&& resp.model matches Some(m) && m@ == model@
            &&& resp.output@.len() == 0
            &&& resp.usage is None
            &&& resp.store == Some(false)
        },
        r.item_id is None,
        r.output_index is None,
        r.content_index is None,
        r.delta is None,
        r.text is None,
        r.item is None,
        r.call_id is None,
        r.name is None,
        r.arguments is None,
        r.error is None,
{
    let mut event = StreamEvent::bare("response.failed".to_owned());
    let mut id_chars = chars_of("evt_");
    push_all(&mut id_chars, &chars_of(response_id));
    push_all(&mut id_chars, &chars_of("_"));
    push_all(&mut id_chars, &crate::text::u64_to_hex16(1));
    proof {
        assert(id_chars@ =~= event_id_of(response_id@, 1));
    }
    event.event_id = Some(string_from_chars(&id_chars));
    event.response_id = Some(response_id.to_owned());
    event.sequence_number = Some(1);
    event.response = Some(
        Response {
            id: response_id.to_owned(),
            object: "response".to_owned(),
            created_at,
            status: "failed".to_owned(),
            error: Some(ResponseError { code: error_code, message: error_message }),
            incomplete_details: None,
            model: Some(model.to_owned()),
            output: Vec::new(),
            usage: None,
            metadata: None,
            instructions: None,
            tools: None,
            tool_choice: None,
            parallel_tool_calls: None,
            temperature: None,
            top_p: None,
            max_output_tokens: None,
            store: Some(false),
            previous_response_id: None,
            reasoning: None,
            background: None,
            max_tool_calls: None,
            text: None,
            prompt: None,
            truncation: None,
            conversation: None,
            top_logprobs: None,
            user: None,
            safety_identifier: None,
            prompt_cache_key: None,
            service_tier: None,
        },
    );
    event
}

} // verus!
