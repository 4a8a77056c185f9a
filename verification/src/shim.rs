//! Request validation: the size and range checks a request must pass
//! before anything is sent upstream, each with the HTTP status and the
//! short machine-readable code it is rejected with.

use vstd::prelude::*;

use crate::models::{ContentPart, ResponseContent, ResponseInput, ResponseInputItem, ResponseRequest};

verus! {

/// The byte length of a text, as `str::len` reports it.
pub open spec fn blen(s: Seq<char>) -> nat {
    (vstd::utf8::encode_utf8(s).len() as usize) as nat
}

/// The byte length of an optional text.
pub open spec fn opt_blen(s: Option<String>) -> nat {
    match s {
        Some(t) => blen(t@),
        None => 0,
    }
}

/// The estimated size of one content part.
pub open spec fn part_size(p: ContentPart) -> nat {
    match p {
        ContentPart::InputText { text } => blen(text@),
        ContentPart::OutputText { text } => blen(text@),
        ContentPart::InputImage { image_url } => blen(image_url.url@),
        ContentPart::InputFile { file_id, filename, file_url, file_data } => opt_blen(file_id)
            + opt_blen(filename) + opt_blen(file_url) + opt_blen(file_data),
        ContentPart::Reasoning { text, encrypted_content } => blen(text@) + opt_blen(
            encrypted_content,
        ),
    }
}

/// The estimated size of a part list.
pub open spec fn parts_size(parts: Seq<ContentPart>) -> nat
    decreases parts.len(),
{
    if parts.len() == 0 {
        0
    } else {
        parts_size(parts.drop_last()) + part_size(parts.last())
    }
}

/// The estimated size of a message content.
pub open spec fn content_size(c: ResponseContent) -> nat {
    match c {
        ResponseContent::Text(t) => blen(t@),
        ResponseContent::Parts(parts) => parts_size(parts@),
    }
}

/// The estimated size of one input item.
pub open spec fn item_size(item: ResponseInputItem) -> nat {
    match item {
        ResponseInputItem::Message { role, content } => blen(role@) + content_size(content),
        ResponseInputItem::Reasoning { text, encrypted_content } => opt_blen(text) + opt_blen(
            encrypted_content,
        ),
        ResponseInputItem::ItemReference { id } => blen(id@),
        ResponseInputItem::FunctionCall { call_id, name, arguments } => blen(call_id@) + blen(
            name@,
        ) + blen(arguments@),
        ResponseInputItem::FunctionCallOutput { call_id, output } => blen(call_id@) + blen(output@),
    }
}

/// The estimated size of an item list.
pub open spec fn items_size(items: Seq<ResponseInputItem>) -> nat
    decreases items.len(),
{
    if items.len() == 0 {
        0
    } else {
        items_size(items.drop_last()) + item_size(items.last())
    }
}

/// The estimated size of the whole request input.
pub open spec fn input_size(input: ResponseInput) -> nat {
    match input {
        ResponseInput::Text(t) => blen(t@),
        ResponseInput::Items(items) => items_size(items@),
    }
}

/// `n`, stopping at the largest `usize`.
pub open spec fn sat(n: nat) -> usize {
    if n > usize::MAX {
        usize::MAX
    } else {
        n as usize
    }
}

fn opt_len(o: &Option<String>) -> (r: usize)
    ensures
        r == opt_blen(*o),
{
    match o {
        Some(s) => s.as_str().len(),
        None => 0,
    }
}

fn part_size_exec(p: &ContentPart) -> (r: usize)
    ensures
        r == sat(part_size(*p)),
{
    match p {
        ContentPart::InputText { text } => text.as_str().len(),
        ContentPart::OutputText { text } => text.as_str().len(),
        ContentPart::InputImage { image_url } => image_url.url.as_str().len(),
        ContentPart::InputFile { file_id, filename, file_url, file_data } => opt_len(
            file_id,
        ).saturating_add(opt_len(filename)).saturating_add(opt_len(file_url)).saturating_add(
            opt_len(file_data),
        ),
        ContentPart::Reasoning { text, encrypted_content } => text.as_str().len().saturating_add(
            opt_len(encrypted_content),
        ),
    }
}

fn content_size_exec(c: &ResponseContent) -> (r: usize)
    ensures
        r == sat(content_size(*c)),
{
    match c {
        ResponseContent::Text(t) => t.as_str().len(),
        ResponseContent::Parts(parts) => {
            let mut total: usize = 0;
            let mut i: usize = 0;
            while i < parts.len()
                invariant
                    i <= parts@.len(),
                    total == sat(parts_size(parts@.subrange(0, i as int))),
                decreases parts.len() - i,
            {
                proof {
                    assert(parts@.subrange(0, i + 1 as int).drop_last() =~= parts@.subrange(
                        0,
                        i as int,
                    ));
                }
                total = total.saturating_add(part_size_exec(&parts[i]));
                i = i + 1;
            }
            proof {
                assert(parts@.subrange(0, parts@.len() as int) =~= parts@);
            }
            total
        },
    }
}

fn item_size_exec(item: &ResponseInputItem) -> (r: usize)
    ensures
        r == sat(item_size(*item)),
{
    match item {
        ResponseInputItem::Message { role, content } => role.as_str().len().saturating_add(
            content_size_exec(content),
        ),
        ResponseInputItem::Reasoning { text, encrypted_content } => opt_len(text).saturating_add(
            opt_len(encrypted_content),
        ),
        ResponseInputItem::ItemReference { id } => id.as_str().len(),
        ResponseInputItem::FunctionCall { call_id, name, arguments } => call_id.as_str()
            .len()
            .saturating_add(name.as_str().len())
            .saturating_add(arguments.as_str().len()),
        ResponseInputItem::FunctionCallOutput { call_id, output } => call_id.as_str()
            .len()
            .saturating_add(output.as_str().len()),
    }
}

/// Estimate the byte size of the request input, stopping at the largest
/// `usize`.
pub fn estimate_input_size(input: &ResponseInput) -> (r: usize)
    ensures
        r == sat(input_size(*input)),
{
    match input {
        ResponseInput::Text(t) => t.as_str().len(),
        ResponseInput::Items(items) => {
            let mut total: usize = 0;
            let mut i: usize = 0;
            while i < items.len()
                invariant
                    i <= items@.len(),
                    total == sat(items_size(items@.subrange(0, i as int))),
                decreases items.len() - i,
            {
                proof {
                    assert(items@.subrange(0, i + 1 as int).drop_last() =~= items@.subrange(
                        0,
                        i as int,
                    ));
                }
                total = total.saturating_add(item_size_exec(&items[i]));
                i = i + 1;
            }
            proof {
                assert(items@.subrange(0, items@.len() as int) =~= items@);
            }
            total
        },
    }
}

// ---------- validation ----------

/// The maximum number of input items.
pub const MAX_INPUT_ITEMS: usize = 1000;

/// The maximum instructions size, in bytes.
pub const MAX_INSTRUCTIONS_SIZE: usize = 102400;

/// The maximum estimated input size, in bytes.
pub const MAX_INPUT_CONTENT_SIZE: usize = 5242880;

/// The maximum `max_output_tokens`.
pub const MAX_OUTPUT_TOKENS_LIMIT: u32 = 100000;

/// The maximum `top_logprobs`.
pub const MAX_TOP_LOGPROBS: u8 = 20;

/// Why a request is rejected before anything goes upstream.
#[derive(Debug, PartialEq, Eq, Structural)]
pub enum ValidationError {
    /// `background: true` is not supported.
    BackgroundNotSupported,
    /// Stored prompt references are not supported.
    PromptReferenceNotSupported,
    /// The circuit breaker is open.
    CircuitOpen,
    /// More than the allowed number of input items.
    TooManyMessages,
    /// `max_output_tokens` out of range.
    InvalidMaxTokens,
    /// Instructions larger than allowed.
    InstructionsTooLarge,
    /// Estimated input size larger than allowed.
    InputTooLarge,
    /// `top_logprobs` out of range.
    InvalidTopLogprobs,
    /// No bearer token was sent.
    MissingApiKey,
}

impl ValidationError {
    /// The HTTP status the rejection is surfaced with.
    pub fn status(&self) -> (r: u16)
        ensures
            r == spec_status(*self),
    {
        match self {
            ValidationError::CircuitOpen => 503,
            ValidationError::InputTooLarge => 413,
            ValidationError::MissingApiKey => 401,
            _ => 400,
        }
    }

    /// The short machine-readable code of the rejection.
    pub fn code(&self) -> (r: &'static str)
        ensures
            r@ == spec_code(*self),
    {
        match self {
            ValidationError::BackgroundNotSupported => "background_not_supported",
            ValidationError::PromptReferenceNotSupported => "prompt_reference_not_supported",
            ValidationError::CircuitOpen => "backend_unavailable_circuit_open",
            ValidationError::TooManyMessages => "too_many_messages",
            ValidationError::InvalidMaxTokens => "invalid_max_tokens",
            ValidationError::InstructionsTooLarge => "instructions_too_large",
            ValidationError::InputTooLarge => "input_content_too_large",
            ValidationError::InvalidTopLogprobs => "invalid_top_logprobs",
            ValidationError::MissingApiKey => "missing_api_key",
        }
    }
}

/// The HTTP status of each rejection.
pub open spec fn spec_status(e: ValidationError) -> u16 {
    match e {
        ValidationError::CircuitOpen => 503,
        ValidationError::InputTooLarge => 413,
        ValidationError::MissingApiKey => 401,
        _ => 400,
    }
}

/// The code of each rejection.
pub open spec fn spec_code(e: ValidationError) -> Seq<char> {
    match e {
        ValidationError::BackgroundNotSupported => "background_not_supported"@,
        ValidationError::PromptReferenceNotSupported => "prompt_reference_not_supported"@,
        ValidationError::CircuitOpen => "backend_unavailable_circuit_open"@,
        ValidationError::TooManyMessages => "too_many_messages"@,
        ValidationError::InvalidMaxTokens => "invalid_max_tokens"@,
        ValidationError::InstructionsTooLarge => "instructions_too_large"@,
        ValidationError::InputTooLarge => "input_content_too_large"@,
        ValidationError::InvalidTopLogprobs => "invalid_top_logprobs"@,
        ValidationError::MissingApiKey => "missing_api_key"@,
    }
}

/// The first reason the request is rejected for, checked in order:
/// background, prompt reference, open breaker, item count, token range,
/// instructions size, input size, logprobs range, missing key.
pub open spec fn spec_validate(
    req: ResponseRequest,
    breaker_open: bool,
    has_api_key: bool,
) -> Option<ValidationError> {
    if req.background == Some(true) {
        Some(ValidationError::BackgroundNotSupported)
    } else if req.prompt is Some {
        Some(ValidationError::PromptReferenceNotSupported)
    } else if breaker_open {
        Some(ValidationError::CircuitOpen)
    } else if (match req.input {
        Some(ResponseInput::Items(items)) => items@.len() > MAX_INPUT_ITEMS,
        _ => false,
    }) {
        Some(ValidationError::TooManyMessages)
    } else if (match req.max_output_tokens {
        Some(t) => t < 1 || t > MAX_OUTPUT_TOKENS_LIMIT,
        None => false,
    }) {
        Some(ValidationError::InvalidMaxTokens)
    } else if (match req.instructions {
        Some(ins) => blen(ins@) > MAX_INSTRUCTIONS_SIZE,
        None => false,
    }) {
        Some(ValidationError::InstructionsTooLarge)
    } else if (match req.input {
        Some(input) => input_size(input) > MAX_INPUT_CONTENT_SIZE,
        None => false,
    }) {
        Some(ValidationError::InputTooLarge)
    } else if (match req.top_logprobs {
        Some(t) => t > MAX_TOP_LOGPROBS,
        None => false,
    }) {
        Some(ValidationError::InvalidTopLogprobs)
    } else if !has_api_key {
        Some(ValidationError::MissingApiKey)
    } else {
        None
    }
}

/// A warning segment: the message when the condition holds, nothing
/// otherwise.
pub open spec fn warn_seg(cond: bool, msg: Seq<char>) -> Seq<Seq<char>> {
    if cond {
        seq![msg]
    } else {
        Seq::empty()
    }
}

/// The advisory warnings a request deserves, in the order the fields
/// are checked: each unsupported field that is set contributes its
/// message.
pub open spec fn spec_unsupported_warnings(req: ResponseRequest) -> Seq<Seq<char>> {
    warn_seg(
        match req.include_fields {
            Some(fs) => fs@.len() > 0,
            None => false,
        },
        "'include' values are not supported by this proxy and will be ignored"@,
    ) + warn_seg(
        match req.stream_options {
            Some(so) => so.include_obfuscation is Some,
            None => false,
        },
        "stream_options.include_obfuscation is not supported"@,
    ) + warn_seg(
        req.conversation is Some,
        "conversation references are ignored (proxy is stateless)"@,
    ) + warn_seg(
        req.previous_response_id is Some,
        "previous_response_id is ignored (proxy is stateless)"@,
    ) + warn_seg(
        match req.reasoning {
            Some(r) => r.summary is Some || r.generate_summary is Some,
            None => false,
        },
        "reasoning summary preferences are not supported and will be ignored"@,
    ) + warn_seg(req.max_tool_calls is Some, "max_tool_calls is not enforced"@) + warn_seg(
        match req.text {
            Some(t) => t.verbosity is Some,
            None => false,
        },
        "text.verbosity is not supported"@,
    ) + warn_seg(
        req.safety_identifier is Some,
        "safety_identifier is not forwarded to the backend"@,
    ) + warn_seg(
        req.prompt_cache_key is Some,
        "prompt_cache_key is not forwarded to the backend"@,
    ) + warn_seg(req.service_tier is Some, "service_tier overrides are not supported"@)
}

fn push_warning(out: &mut Vec<String>, cond: bool, text: &str)
    ensures
        final(out).deep_view() =~= old(out).deep_view() + warn_seg(cond, text@),
{
    if cond {
        let ghost pre = out.deep_view();
        out.push(text.to_owned());
        proof {
            let dv = out.deep_view();
            assert(dv.len() == pre.len() + 1);
            assert forall|j: int| 0 <= j < dv.len() implies dv[j] == pre.push(text@)[j] by {
                if j < pre.len() {
                    assert(dv[j] == out@[j]@);
                    assert(pre[j] == out@[j]@);
                }
            }
            assert(dv =~= pre.push(text@));
        }
    } else {
        proof {
            assert(out.deep_view() =~= out.deep_view() + warn_seg(cond, text@));
        }
    }
}

/// Collect the advisory warnings for every unsupported field the
/// request sets; callers log them and go on.
#[verifier::rlimit(100)]
pub fn warn_unsupported_features(req: &ResponseRequest) -> (r: Vec<String>)
    ensures
        r.deep_view() =~= spec_unsupported_warnings(*req),
{
    let mut out: Vec<String> = Vec::new();
    push_warning(
        &mut out,
        match &req.include_fields {
            Some(fs) => fs.len() > 0,
            None => false,
        },
        "'include' values are not supported by this proxy and will be ignored",
    );
    push_warning(
        &mut out,
        match &req.stream_options {
            Some(so) => so.include_obfuscation.is_some(),
            None => false,
        },
        "stream_options.include_obfuscation is not supported",
    );
    push_warning(
        &mut out,
        req.conversation.is_some(),
        "conversation references are ignored (proxy is stateless)",
    );
    push_warning(
        &mut out,
        req.previous_response_id.is_some(),
        "previous_response_id is ignored (proxy is stateless)",
    );
    push_warning(
        &mut out,
        match &req.reasoning {
            Some(r) => r.summary.is_some() || r.generate_summary.is_some(),
            None => false,
        },
        "reasoning summary preferences are not supported and will be ignored",
    );
    push_warning(&mut out, req.max_tool_calls.is_some(), "max_tool_calls is not enforced");
    push_warning(
        &mut out,
        match &req.text {
            Some(t) => t.verbosity.is_some(),
            None => false,
        },
        "text.verbosity is not supported",
    );
    push_warning(
        &mut out,
        req.safety_identifier.is_some(),
        "safety_identifier is not forwarded to the backend",
    );
    push_warning(
        &mut out,
        req.prompt_cache_key.is_some(),
        "prompt_cache_key is not forwarded to the backend",
    );
    push_warning(
        &mut out,
        req.service_tier.is_some(),
        "service_tier overrides are not supported",
    );
    out
}

/// Whether a configuration value switches the dump volume on: `1`,
/// `true`, `yes` or `on`, after trimming and ASCII lower-casing.
pub open spec fn spec_volume_enabled(value: Seq<char>) -> bool {
    let v = crate::text::lower_seq(crate::text::trim_seq(value));
    v == "1"@ || v == "true"@ || v == "yes"@ || v == "on"@
}

/// Decide whether a volume switch value enables dumping.
pub fn volume_flag_enabled(value: &str) -> (r: bool)
    ensures
        r == spec_volume_enabled(value@),
{
    let normalized = crate::text::to_ascii_lower(&crate::text::trim(&crate::text::chars_of(value)));
    proof {
        assert(crate::text::lower_seq(crate::text::trim_seq(value@)) == normalized@);
    }
    crate::text::chars_eq(&normalized, &crate::text::chars_of("1")) || crate::text::chars_eq(
        &normalized,
        &crate::text::chars_of("true"),
    ) || crate::text::chars_eq(&normalized, &crate::text::chars_of("yes"))
        || crate::text::chars_eq(&normalized, &crate::text::chars_of("on"))
}

/// Check the request against every pre-upstream rule; `breaker_open` is
/// whether the circuit breaker rejected this request, `has_api_key`
/// whether a bearer token was sent.
pub fn validate_request(req: &ResponseRequest, breaker_open: bool, has_api_key: bool) -> (r:
    Result<(), ValidationError>)
    ensures
        match r {
            Ok(()) => spec_validate(*req, breaker_open, has_api_key) is None,
            Err(e) => spec_validate(*req, breaker_open, has_api_key) == Some(e),
        },
{
    if req.background == Some(true) {
        return Err(ValidationError::BackgroundNotSupported);
    }
    if req.prompt.is_some() {
        return Err(ValidationError::PromptReferenceNotSupported);
    }
    if breaker_open {
        return Err(ValidationError::CircuitOpen);
    }
    if let Some(ResponseInput::Items(items)) = &req.input {
        if items.len() > MAX_INPUT_ITEMS {
            return Err(ValidationError::TooManyMessages);
        }
    }
    if let Some(t) = req.max_output_tokens {
        if t < 1 || t > MAX_OUTPUT_TOKENS_LIMIT {
            return Err(ValidationError::InvalidMaxTokens);
        }
    }
    if let Some(ins) = &req.instructions {
        if ins.as_str().len() > MAX_INSTRUCTIONS_SIZE {
            return Err(ValidationError::InstructionsTooLarge);
        }
    }
    if let Some(input) = &req.input {
        if estimate_input_size(input) > MAX_INPUT_CONTENT_SIZE {
            return Err(ValidationError::InputTooLarge);
        }
    }
    if let Some(t) = req.top_logprobs {
        if t > MAX_TOP_LOGPROBS {
            return Err(ValidationError::InvalidTopLogprobs);
        }
    }
    if !has_api_key {
        return Err(ValidationError::MissingApiKey);
    }
    Ok(())
}

} // verus!
