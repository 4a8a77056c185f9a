//! The data model on both sides of the proxy: the rich client-facing
//! request with its nested input items, the flat chat-completion request
//! sent upstream, the backend's streamed chunk shape, and the output
//! items and stream events handed back to the client.
//!
//! Pass-through fields whose content the proxy never inspects (metadata,
//! tool parameter schemas, sampling knobs that may be fractional) are
//! carried as opaque `serde_json::Value`s.

use vstd::prelude::*;

verus! {

// ---------- client-facing request ----------

/// The request `input`: either one user text or a sequence of items.
#[derive(Debug)]
pub enum ResponseInput {
    /// A bare string: one user message.
    Text(String),
    /// An ordered sequence of input items.
    Items(Vec<ResponseInputItem>),
}

/// One item of a structured request input.
#[derive(Debug)]
pub enum ResponseInputItem {
    /// A chat message with a role and content.
    Message { role: String, content: ResponseContent },
    /// A reasoning item; without plain text it is dropped.
    Reasoning { text: Option<String>, encrypted_content: Option<String> },
    /// A reference to a stored item; unsupported and dropped.
    ItemReference { id: String },
    /// A tool call the assistant made earlier.
    FunctionCall { call_id: String, name: String, arguments: String },
    /// The result of an earlier tool call.
    FunctionCallOutput { call_id: String, output: String },
}

/// Message content: one text or a sequence of parts.
#[derive(Debug)]
pub enum ResponseContent {
    /// A bare string.
    Text(String),
    /// An ordered sequence of content parts.
    Parts(Vec<ContentPart>),
}

/// One part of a structured message content.
#[derive(Debug)]
pub enum ContentPart {
    /// Input text.
    InputText { text: String },
    /// Output text, accepted in input for multi-turn histories.
    OutputText { text: String },
    /// An image reference.
    InputImage { image_url: ImageUrl },
    /// A file reference; dropped by this proxy.
    InputFile {
        file_id: Option<String>,
        filename: Option<String>,
        file_url: Option<String>,
        file_data: Option<String>,
    },
    /// Reasoning text inside a message.
    Reasoning { text: String, encrypted_content: Option<String> },
}

/// An image URL.
#[derive(Debug)]
pub struct ImageUrl {
    pub url: String,
}

/// A tool in either accepted shape; both surface a `FunctionDef`.
#[derive(Debug)]
pub enum Tool {
    /// `{type, function: {name, description, parameters}}`.
    Nested { type_: String, function: FunctionDef },
    /// `{type, name?, description?, parameters?, strict?}`.
    Flat {
        type_: String,
        name: Option<String>,
        description: Option<String>,
        parameters: Option<serde_json::Value>,
        strict: bool,
    },
}

/// The canonical function description of a tool.
#[derive(Debug)]
pub struct FunctionDef {
    pub name: String,
    pub description: Option<String>,
    /// The JSON schema of the parameters, carried through opaquely.
    pub parameters: Option<serde_json::Value>,
}

/// The requested tool choice.
#[derive(Debug)]
pub enum ToolChoice {
    /// `"auto"`, `"none"` or `"required"`.
    Mode(String),
    /// A specific function.
    Specific(ToolChoiceSpecific),
}

/// A specific tool choice.
#[derive(Debug)]
pub struct ToolChoiceSpecific {
    pub type_: String,
    pub function: FunctionChoice,
}

/// The function a specific tool choice names.
#[derive(Debug)]
pub struct FunctionChoice {
    pub name: String,
}

/// Stream options of the request; none are supported.
#[derive(Debug)]
pub struct StreamOptions {
    pub include_obfuscation: Option<bool>,
}

/// A conversation reference; ignored by this stateless proxy.
#[derive(Debug)]
pub enum ConversationReference {
    Id(String),
    Object { id: String },
}

/// Reasoning preferences of the request.
#[derive(Debug)]
pub struct ReasoningConfig {
    pub effort: Option<String>,
    pub summary: Option<String>,
    pub generate_summary: Option<String>,
}

/// Text output configuration, passed through.
#[derive(Debug)]
pub struct ResponseTextConfig {
    pub format: Option<serde_json::Value>,
    pub verbosity: Option<String>,
}

/// A stored prompt reference; rejected by this proxy.
#[derive(Debug)]
pub struct ResponsePrompt {
    pub id: String,
    pub version: Option<String>,
    pub variables: Option<serde_json::Value>,
}

/// The reasoning state echoed in responses.
#[derive(Debug)]
pub struct ResponseReasoningState {
    pub effort: Option<String>,
    pub summary: Option<String>,
}

/// The client-facing request.
#[derive(Debug)]
pub struct ResponseRequest {
    pub model: Option<String>,
    pub input: Option<ResponseInput>,
    pub instructions: Option<String>,
    pub max_output_tokens: Option<u32>,
    pub temperature: Option<serde_json::Value>,
    pub top_p: Option<serde_json::Value>,
    pub tools: Option<Vec<Tool>>,
    pub tool_choice: Option<ToolChoice>,
    pub parallel_tool_calls: Option<bool>,
    pub stream: Option<bool>,
    pub metadata: Option<serde_json::Value>,
    pub store: Option<bool>,
    pub include_fields: Option<Vec<String>>,
    pub background: Option<bool>,
    pub conversation: Option<ConversationReference>,
    pub previous_response_id: Option<String>,
    pub reasoning: Option<ReasoningConfig>,
    pub stream_options: Option<StreamOptions>,
    pub max_tool_calls: Option<u32>,
    pub text: Option<ResponseTextConfig>,
    pub prompt: Option<ResponsePrompt>,
    pub truncation: Option<String>,
    pub top_logprobs: Option<u8>,
    pub user: Option<String>,
    pub safety_identifier: Option<String>,
    pub prompt_cache_key: Option<String>,
    pub service_tier: Option<String>,
}

// ---------- upstream chat-completion request ----------

/// One tool call attached to an assistant message of the flat history.
#[derive(Debug)]
pub struct ChatToolCall {
    pub id: String,
    pub name: String,
    pub arguments: String,
}

/// One part of multimodal chat content.
#[derive(Debug)]
pub enum ChatContentPart {
    /// `{type: "text", text}`.
    Text(String),
    /// `{type: "image_url", image_url: {url}}`.
    ImageUrl(String),
}

/// Chat message content: a plain text or an array of parts.
#[derive(Debug)]
pub enum ChatContent {
    Text(String),
    Parts(Vec<ChatContentPart>),
}

/// One message of the flat chat history.
#[derive(Debug)]
pub struct ChatMessage {
    pub role: String,
    pub content: Option<ChatContent>,
    pub tool_calls: Option<Vec<ChatToolCall>>,
    pub tool_call_id: Option<String>,
}

/// A function tool as sent upstream.
#[derive(Debug)]
pub struct ChatFunction {
    pub name: String,
    pub description: Option<String>,
    pub parameters: Option<serde_json::Value>,
}

/// A tool as sent upstream.
#[derive(Debug)]
pub enum ChatTool {
    Function { type_: String, function: ChatFunction },
}

/// The flat request sent to the backend.
#[derive(Debug)]
pub struct ChatCompletionRequest {
    pub model: String,
    pub messages: Vec<ChatMessage>,
    pub max_tokens: Option<u32>,
    pub temperature: Option<serde_json::Value>,
    pub top_p: Option<serde_json::Value>,
    pub tools: Option<Vec<ChatTool>>,
    pub tool_choice: Option<ToolChoice>,
    pub parallel_tool_calls: Option<bool>,
    pub stream: bool,
}

// ---------- backend chunk stream ----------

/// A JSON value carrying streamed text, in any of the shapes backends
/// use: a string, a typed object, a nested list, or something else.
#[derive(Debug)]
pub enum ContentValue {
    /// A JSON string.
    Text(String),
    /// A JSON object with a `type` tag and possibly a `text` field.
    Typed { type_: String, text: Option<String> },
    /// A JSON array of further values.
    List(Vec<ContentValue>),
    /// Any other JSON shape; carries no text.
    Other,
}

/// A fragment of one streamed tool call's function fields.
#[derive(Debug)]
pub struct FunctionCallDelta {
    pub name: Option<String>,
    pub arguments: Option<String>,
}

/// A fragment of one streamed tool call, keyed by its backend index.
#[derive(Debug)]
pub struct ToolCallDelta {
    pub index: usize,
    pub id: Option<String>,
    pub type_: Option<String>,
    pub function: Option<FunctionCallDelta>,
}

/// The delta of one streamed choice.
#[derive(Debug)]
pub struct Delta {
    pub content: Option<ContentValue>,
    pub tool_calls: Option<Vec<ToolCallDelta>>,
    pub reasoning_content: Option<String>,
}

/// A complete (non-streamed) message inside a choice.
#[derive(Debug)]
pub struct ChunkMessage {
    pub content: Option<String>,
}

/// One choice of a backend chunk.
#[derive(Debug)]
pub struct Choice {
    pub delta: Option<Delta>,
    pub message: Option<ChunkMessage>,
    pub finish_reason: Option<String>,
}

/// Token usage as the backend reports it.
#[derive(Debug)]
pub struct ChatUsage {
    pub prompt_tokens: Option<u32>,
    pub completion_tokens: Option<u32>,
}

/// One parsed chunk of the backend stream.
#[derive(Debug)]
pub struct ChatCompletionChunk {
    pub choices: Vec<Choice>,
    pub error: Option<serde_json::Value>,
    pub usage: Option<ChatUsage>,
}

// ---------- client-facing response and events ----------

/// The error carried by a failed response.
#[derive(Debug)]
pub struct ResponseError {
    pub code: String,
    pub message: String,
}

/// Why a response is incomplete.
#[derive(Debug)]
pub struct IncompleteDetails {
    pub reason: String,
}

/// One output item of a response.
#[derive(Debug)]
pub struct OutputItem {
    pub id: String,
    pub object: String,
    pub type_: String,
    pub status: String,
    pub role: Option<String>,
    pub content: Option<Vec<OutputContent>>,
    pub call_id: Option<String>,
    pub name: Option<String>,
    pub arguments: Option<String>,
    pub output: Option<String>,
}

/// One content element of an output item.
#[derive(Debug)]
pub enum OutputContent {
    /// Final output text.
    OutputText { text: String, annotations: Vec<serde_json::Value> },
    /// Reasoning text.
    Reasoning { text: String },
}

/// Token usage echoed to the client.
#[derive(Debug)]
pub struct Usage {
    pub input_tokens: u32,
    pub output_tokens: u32,
    pub total_tokens: u32,
    pub input_tokens_details: Option<TokenDetails>,
    pub output_tokens_details: Option<TokenDetails>,
}

/// Zero-filled token details.
#[derive(Debug)]
pub struct TokenDetails {
    pub cached_tokens: u32,
    pub reasoning_tokens: u32,
}

/// A full response object as carried by `response.created`,
/// `response.completed` and `response.failed` events.
#[derive(Debug)]
pub struct Response {
    pub id: String,
    pub object: String,
    pub created_at: u64,
    pub status: String,
    pub error: Option<ResponseError>,
    pub incomplete_details: Option<IncompleteDetails>,
    pub model: Option<String>,
    pub output: Vec<OutputItem>,
    pub usage: Option<Usage>,
    pub metadata: Option<serde_json::Value>,
    pub instructions: Option<String>,
    pub tools: Option<Vec<Tool>>,
    pub tool_choice: Option<ToolChoice>,
    pub parallel_tool_calls: Option<bool>,
    pub temperature: Option<serde_json::Value>,
    pub top_p: Option<serde_json::Value>,
    pub max_output_tokens: Option<u32>,
    pub store: Option<bool>,
    pub previous_response_id: Option<String>,
    pub reasoning: Option<ResponseReasoningState>,
    pub background: Option<bool>,
    pub max_tool_calls: Option<u32>,
    pub text: Option<ResponseTextConfig>,
    pub prompt: Option<ResponsePrompt>,
    pub truncation: Option<String>,
    pub conversation: Option<ConversationReference>,
    pub top_logprobs: Option<u8>,
    pub user: Option<String>,
    pub safety_identifier: Option<String>,
    pub prompt_cache_key: Option<String>,
    pub service_tier: Option<String>,
}

/// One event of the outgoing stream.
#[derive(Debug)]
pub struct StreamEvent {
    pub type_: String,
    pub event_id: Option<String>,
    pub response_id: Option<String>,
    pub response: Option<Response>,
    pub item_id: Option<String>,
    pub output_index: Option<u32>,
    pub content_index: Option<u32>,
    pub delta: Option<String>,
    pub text: Option<String>,
    pub item: Option<OutputItem>,
    pub sequence_number: Option<u32>,
    pub call_id: Option<String>,
    pub name: Option<String>,
    pub arguments: Option<String>,
    pub error: Option<ResponseError>,
}

// ---------- deep copies with known contracts ----------

/// Copy an optional string.
pub fn copy_opt_string(o: &Option<String>) -> (r: Option<String>)
    ensures
        r == *o,
{
    match o {
        Some(s) => Some(s.clone()),
        None => None,
    }
}

/// Copy an optional opaque JSON value.
pub fn copy_opt_value(o: &Option<serde_json::Value>) -> (r: Option<serde_json::Value>)
    ensures
        r == *o,
{
    match o {
        Some(v) => Some(v.clone()),
        None => None,
    }
}

impl FunctionDef {
    /// An equal copy.
    pub fn duplicate(&self) -> (r: Self)
        ensures
            r == *self,
    {
        FunctionDef {
            name: self.name.clone(),
            description: copy_opt_string(&self.description),
            parameters: copy_opt_value(&self.parameters),
        }
    }
}

impl Tool {
    /// An equal copy.
    pub fn duplicate(&self) -> (r: Self)
        ensures
            r == *self,
    {
        match self {
            Tool::Nested { type_, function } => Tool::Nested {
                type_: type_.clone(),
                function: function.duplicate(),
            },
            Tool::Flat { type_, name, description, parameters, strict } => Tool::Flat {
                type_: type_.clone(),
                name: copy_opt_string(name),
                description: copy_opt_string(description),
                parameters: copy_opt_value(parameters),
                strict: *strict,
            },
        }
    }
}

/// Optional tool lists with the same tools in the same order.
pub open spec fn opt_tools_eq(a: Option<Vec<Tool>>, b: Option<Vec<Tool>>) -> bool {
    match (a, b) {
        (Option::None, Option::None) => true,
        (Option::Some(x), Option::Some(y)) => x@ =~= y@,
        _ => false,
    }
}

/// Copy an optional tool list.
pub fn copy_opt_tools(o: &Option<Vec<Tool>>) -> (r: Option<Vec<Tool>>)
    ensures
        opt_tools_eq(r, *o),
{
    match o {
        None => None,
        Some(tools) => {
            let mut out: Vec<Tool> = Vec::new();
            let mut i: usize = 0;
            while i < tools.len()
                invariant
                    i <= tools@.len(),
                    out@.len() == i,
                    forall|j: int| 0 <= j < i ==> out@[j] == tools@[j],
                decreases tools.len() - i,
            {
                out.push(tools[i].duplicate());
                i = i + 1;
            }
            proof {
                assert(out@ =~= tools@);
            }
            Some(out)
        },
    }
}

impl ToolChoice {
    /// An equal copy.
    pub fn duplicate(&self) -> (r: Self)
        ensures
            r == *self,
    {
        match self {
            ToolChoice::Mode(s) => ToolChoice::Mode(s.clone()),
            ToolChoice::Specific(sp) => ToolChoice::Specific(
                ToolChoiceSpecific {
                    type_: sp.type_.clone(),
                    function: FunctionChoice { name: sp.function.name.clone() },
                },
            ),
        }
    }
}

/// Copy an optional tool choice.
pub fn copy_opt_tool_choice(o: &Option<ToolChoice>) -> (r: Option<ToolChoice>)
    ensures
        r == *o,
{
    match o {
        Some(tc) => Some(tc.duplicate()),
        None => None,
    }
}

impl ResponseReasoningState {
    /// The reasoning state echoed for a request's reasoning preferences.
    pub fn from_config(config: &ReasoningConfig) -> (r: Self)
        ensures
            r.effort == config.effort,
            r.summary == config.summary,
    {
        ResponseReasoningState {
            effort: copy_opt_string(&config.effort),
            summary: copy_opt_string(&config.summary),
        }
    }

    /// An equal copy.
    pub fn duplicate(&self) -> (r: Self)
        ensures
            r == *self,
    {
        ResponseReasoningState {
            effort: copy_opt_string(&self.effort),
            summary: copy_opt_string(&self.summary),
        }
    }
}

impl ResponseTextConfig {
    /// An equal copy.
    pub fn duplicate(&self) -> (r: Self)
        ensures
            r == *self,
    {
        ResponseTextConfig {
            format: copy_opt_value(&self.format),
            verbosity: copy_opt_string(&self.verbosity),
        }
    }
}

impl ResponsePrompt {
    /// An equal copy.
    pub fn duplicate(&self) -> (r: Self)
        ensures
            r == *self,
    {
        ResponsePrompt {
            id: self.id.clone(),
            version: copy_opt_string(&self.version),
            variables: copy_opt_value(&self.variables),
        }
    }
}

impl ConversationReference {
    /// An equal copy.
    pub fn duplicate(&self) -> (r: Self)
        ensures
            r == *self,
    {
        match self {
            ConversationReference::Id(s) => ConversationReference::Id(s.clone()),
            ConversationReference::Object { id } => ConversationReference::Object {
                id: id.clone(),
            },
        }
    }
}

/// The pass-through request fields that every `response.created` and
/// `response.completed` event echoes back.
#[derive(Debug)]
pub struct EchoFields {
    pub model: String,
    pub metadata: Option<serde_json::Value>,
    pub instructions: Option<String>,
    pub tools: Option<Vec<Tool>>,
    pub tool_choice: Option<ToolChoice>,
    pub parallel_tool_calls: Option<bool>,
    pub temperature: Option<serde_json::Value>,
    pub top_p: Option<serde_json::Value>,
    pub max_output_tokens: Option<u32>,
    pub store: Option<bool>,
    pub previous_response_id: Option<String>,
    pub reasoning: Option<ResponseReasoningState>,
    pub background: Option<bool>,
    pub max_tool_calls: Option<u32>,
    pub text: Option<ResponseTextConfig>,
    pub prompt: Option<ResponsePrompt>,
    pub truncation: Option<String>,
    pub conversation: Option<ConversationReference>,
    pub top_logprobs: Option<u8>,
    pub user: Option<String>,
    pub safety_identifier: Option<String>,
    pub prompt_cache_key: Option<String>,
    pub service_tier: Option<String>,
}

/// Echo field sets that agree: every field equal, the tool lists as
/// sequences.
pub open spec fn echo_eq(a: EchoFields, b: EchoFields) -> bool {
    &&& a.model == b.model
    &&& a.metadata == b.metadata
    &&& a.instructions == b.instructions
    &&& opt_tools_eq(a.tools, b.tools)
    &&& a.tool_choice == b.tool_choice
    &&& a.parallel_tool_calls == b.parallel_tool_calls
    &&& a.temperature == b.temperature
    &&& a.top_p == b.top_p
    &&& a.max_output_tokens == b.max_output_tokens
    &&& a.store == b.store
    &&& a.previous_response_id == b.previous_response_id
    &&& a.reasoning == b.reasoning
    &&& a.background == b.background
    &&& a.max_tool_calls == b.max_tool_calls
    &&& a.text == b.text
    &&& a.prompt == b.prompt
    &&& a.truncation == b.truncation
    &&& a.conversation == b.conversation
    &&& a.top_logprobs == b.top_logprobs
    &&& a.user == b.user
    &&& a.safety_identifier == b.safety_identifier
    &&& a.prompt_cache_key == b.prompt_cache_key
    &&& a.service_tier == b.service_tier
}

impl EchoFields {
    /// An equal copy, with the tool list equal as a sequence.
    pub fn duplicate(&self) -> (r: Self)
        ensures
            echo_eq(r, *self),
    {
        EchoFields {
            model: self.model.clone(),
            metadata: copy_opt_value(&self.metadata),
            instructions: copy_opt_string(&self.instructions),
            tools: copy_opt_tools(&self.tools),
            tool_choice: copy_opt_tool_choice(&self.tool_choice),
            parallel_tool_calls: self.parallel_tool_calls,
            temperature: copy_opt_value(&self.temperature),
            top_p: copy_opt_value(&self.top_p),
            max_output_tokens: self.max_output_tokens,
            store: self.store,
            previous_response_id: copy_opt_string(&self.previous_response_id),
            reasoning: match &self.reasoning {
                Some(r) => Some(r.duplicate()),
                None => None,
            },
            background: self.background,
            max_tool_calls: self.max_tool_calls,
            text: match &self.text {
                Some(t) => Some(t.duplicate()),
                None => None,
            },
            prompt: match &self.prompt {
                Some(p) => Some(p.duplicate()),
                None => None,
            },
            truncation: copy_opt_string(&self.truncation),
            conversation: match &self.conversation {
                Some(c) => Some(c.duplicate()),
                None => None,
            },
            top_logprobs: self.top_logprobs,
            user: copy_opt_string(&self.user),
            safety_identifier: copy_opt_string(&self.safety_identifier),
            prompt_cache_key: copy_opt_string(&self.prompt_cache_key),
            service_tier: copy_opt_string(&self.service_tier),
        }
    }
}

impl StreamEvent {
    /// An event of the given type with every other field unset.
    pub fn bare(type_: String) -> (r: Self)
        ensures
            r.type_ == type_,
            r.event_id is None,
            r.response_id is None,
            r.response is None,
            r.item_id is None,
            r.output_index is None,
            r.content_index is None,
            r.delta is None,
            r.text is None,
            r.item is None,
            r.sequence_number is None,
            r.call_id is None,
            r.name is None,
            r.arguments is None,
            r.error is None,
    {
        StreamEvent {
            type_,
            event_id: None,
            response_id: None,
            response: None,
            item_id: None,
            output_index: None,
            content_index: None,
            delta: None,
            text: None,
            item: None,
            sequence_number: None,
            call_id: None,
            name: None,
            arguments: None,
            error: None,
        }
    }
}

} // verus!
