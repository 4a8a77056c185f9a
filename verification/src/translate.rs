//! Request translator: lowers a rich client request into the flat
//! chat-completion shape the backend understands.  Messages are walked in
//! order; reasoning items are folded into the next assistant message as
//! `<think>` text, earlier tool calls are attached to it, tool outputs
//! become `tool` messages, and only function tools survive.

use vstd::prelude::*;

use crate::jsonval::{extract_inner_output, inner_output_of};
use crate::models::{
    ChatCompletionRequest, ChatContent, ChatContentPart, ChatFunction, ChatMessage, ChatTool,
    ChatToolCall, ContentPart, FunctionDef, ResponseContent, ResponseInput, ResponseInputItem,
    ResponseRequest, Tool, copy_opt_string, copy_opt_value, copy_opt_tool_choice,
};
use crate::text::{chars_of, push_all, string_from_chars, str_eq};

verus! {

// ---------- view types for the produced chat request ----------

/// The view of one chat content part.
pub enum PartView {
    /// A `{type: "text"}` part.
    Text(Seq<char>),
    /// A `{type: "image_url"}` part.
    Image(Seq<char>),
}

/// The view of a chat message's content.
pub enum ContentView {
    /// A plain JSON string.
    Text(Seq<char>),
    /// An array of parts.
    Parts(Seq<PartView>),
}

/// The view of one tool call attached to an assistant message.
pub struct CallView {
    pub id: Seq<char>,
    pub name: Seq<char>,
    pub arguments: Seq<char>,
}

/// The view of one chat message.
pub struct MsgView {
    pub role: Seq<char>,
    pub content: Option<ContentView>,
    pub tool_calls: Option<Seq<CallView>>,
    pub tool_call_id: Option<Seq<char>>,
}

/// The view of a chat content part.
pub open spec fn part_view(p: ChatContentPart) -> PartView {
    match p {
        ChatContentPart::Text(t) => PartView::Text(t@),
        ChatContentPart::ImageUrl(u) => PartView::Image(u@),
    }
}

/// The view of chat message content.
pub open spec fn content_view(c: ChatContent) -> ContentView {
    match c {
        ChatContent::Text(t) => ContentView::Text(t@),
        ChatContent::Parts(ps) => ContentView::Parts(ps@.map_values(|p: ChatContentPart| part_view(p))),
    }
}

/// The view of an attached tool call.
pub open spec fn call_view(c: ChatToolCall) -> CallView {
    CallView { id: c.id@, name: c.name@, arguments: c.arguments@ }
}

/// The view of one chat message.
pub open spec fn msg_view(m: ChatMessage) -> MsgView {
    MsgView {
        role: m.role@,
        content: match m.content {
            Some(c) => Some(content_view(c)),
            None => None,
        },
        tool_calls: match m.tool_calls {
            Some(tcs) => Some(tcs@.map_values(|c: ChatToolCall| call_view(c))),
            None => None,
        },
        tool_call_id: match m.tool_call_id {
            Some(id) => Some(id@),
            None => None,
        },
    }
}

/// The views of a chat message list.
pub open spec fn msgs_view(ms: Seq<ChatMessage>) -> Seq<MsgView> {
    ms.map_values(|m: ChatMessage| msg_view(m))
}

// ---------- content conversion ----------

/// Join a sequence of texts with a newline between them.
pub open spec fn join_nl(parts: Seq<Seq<char>>) -> Seq<char>
    decreases parts.len(),
{
    if parts.len() == 0 {
        Seq::empty()
    } else if parts.len() == 1 {
        parts[0]
    } else {
        join_nl(parts.drop_last()) + "\n"@ + parts.last()
    }
}

/// The text parts of a content part list, in order.
pub open spec fn text_parts_of(parts: Seq<ContentPart>) -> Seq<Seq<char>>
    decreases parts.len(),
{
    if parts.len() == 0 {
        Seq::empty()
    } else {
        let rest = text_parts_of(parts.drop_last());
        match parts.last() {
            ContentPart::InputText { text } => rest.push(text@),
            ContentPart::OutputText { text } => rest.push(text@),
            _ => rest,
        }
    }
}

/// The reasoning texts of a content part list, in order.
pub open spec fn reasoning_parts_of(parts: Seq<ContentPart>) -> Seq<Seq<char>>
    decreases parts.len(),
{
    if parts.len() == 0 {
        Seq::empty()
    } else {
        let rest = reasoning_parts_of(parts.drop_last());
        match parts.last() {
            ContentPart::Reasoning { text, .. } => rest.push(text@),
            _ => rest,
        }
    }
}

/// The converted (non-reasoning) parts of a content part list: text and
/// image parts survive, files and reasoning are dropped.
pub open spec fn converted_parts_of(parts: Seq<ContentPart>) -> Seq<PartView>
    decreases parts.len(),
{
    if parts.len() == 0 {
        Seq::empty()
    } else {
        let rest = converted_parts_of(parts.drop_last());
        match parts.last() {
            ContentPart::InputText { text } => rest.push(PartView::Text(text@)),
            ContentPart::OutputText { text } => rest.push(PartView::Text(text@)),
            ContentPart::InputImage { image_url } => rest.push(PartView::Image(image_url.url@)),
            _ => rest,
        }
    }
}

/// Whether any part is an image.
pub open spec fn has_image(parts: Seq<ContentPart>) -> bool {
    exists|i: int| 0 <= i < parts.len() && parts[i] is InputImage
}

/// What a message content converts to: the chat content and the
/// reasoning text the message contributes (if any).  All-text part lists
/// collapse into one newline-joined string.
pub open spec fn spec_convert_content(content: ResponseContent) -> (ContentView, Option<Seq<char>>) {
    match content {
        ResponseContent::Text(t) => (ContentView::Text(t@), None),
        ResponseContent::Parts(parts) => {
            let converted = converted_parts_of(parts@);
            let reasoning = reasoning_parts_of(parts@);
            let r = if reasoning.len() > 0 {
                Some(join_nl(reasoning))
            } else {
                None
            };
            if !has_image(parts@) && converted.len() > 0 {
                (ContentView::Text(join_nl(text_parts_of(parts@))), r)
            } else {
                (ContentView::Parts(converted), r)
            }
        },
    }
}

/// Append `text` to `acc`, preceded by a newline when `acc` is not empty.
fn push_joined(acc: &mut Vec<char>, text: &str, first: bool)
    ensures
        first ==> final(acc)@ =~= old(acc)@ + text@,
        !first ==> final(acc)@ =~= old(acc)@ + "\n"@ + text@,
{
    if !first {
        push_all(acc, &chars_of("\n"));
    }
    push_all(acc, &chars_of(text));
}

proof fn lemma_join_nl_push(parts: Seq<Seq<char>>, t: Seq<char>)
    ensures
        parts.len() == 0 ==> join_nl(parts.push(t)) =~= t,
        parts.len() > 0 ==> join_nl(parts.push(t)) =~= join_nl(parts) + "\n"@ + t,
{
    let p = parts.push(t);
    assert(p.drop_last() =~= parts);
    assert(p.last() == t);
    if parts.len() == 0 {
        assert(p.len() == 1);
    }
}

/// Convert message content to its chat form, collecting any inline
/// reasoning text.
pub fn convert_response_content(content: &ResponseContent) -> (r: (ChatContent, Option<String>))
    ensures
        content_view(r.0) == spec_convert_content(*content).0,
        match r.1 {
            Some(s) => spec_convert_content(*content).1 == Some(s@),
            None => spec_convert_content(*content).1 is None,
        },
{
    match content {
        ResponseContent::Text(t) => (ChatContent::Text(t.clone()), None),
        ResponseContent::Parts(parts) => {
            let mut converted: Vec<ChatContentPart> = Vec::new();
            let mut texts: Vec<char> = Vec::new();
            let mut text_count: usize = 0;
            let mut reasoning: Vec<char> = Vec::new();
            let mut reasoning_count: usize = 0;
            let mut image_seen: bool = false;
            let mut i: usize = 0;
            while i < parts.len()
                invariant
                    i <= parts@.len(),
                    converted@.map_values(|p: ChatContentPart| part_view(p)) =~= converted_parts_of(
                        parts@.subrange(0, i as int),
                    ),
                    text_count == text_parts_of(parts@.subrange(0, i as int)).len(),
                    texts@ =~= join_nl(text_parts_of(parts@.subrange(0, i as int))),
                    reasoning_count == reasoning_parts_of(parts@.subrange(0, i as int)).len(),
                    reasoning@ =~= join_nl(reasoning_parts_of(parts@.subrange(0, i as int))),
                    image_seen == has_image(parts@.subrange(0, i as int)),
                    text_count <= i,
                    reasoning_count <= i,
                decreases parts.len() - i,
            {
                let ghost pre = parts@.subrange(0, i as int);
                let ghost cur = parts@.subrange(0, i + 1 as int);
                proof {
                    assert(cur.drop_last() =~= pre);
                    assert(cur.last() == parts@[i as int]);
                }
                match &parts[i] {
                    ContentPart::InputText { text } => {
                        converted.push(ChatContentPart::Text(text.clone()));
                        proof {
                            assert(converted@.map_values(|p: ChatContentPart| part_view(p))
                                =~= converted_parts_of(pre).push(PartView::Text(text@)));
                            lemma_join_nl_push(text_parts_of(pre), text@);
                        }
                        push_joined(&mut texts, text.as_str(), text_count == 0);
                        text_count = text_count + 1;
                    },
                    ContentPart::OutputText { text } => {
                        converted.push(ChatContentPart::Text(text.clone()));
                        proof {
                            assert(converted@.map_values(|p: ChatContentPart| part_view(p))
                                =~= converted_parts_of(pre).push(PartView::Text(text@)));
                            lemma_join_nl_push(text_parts_of(pre), text@);
                        }
                        push_joined(&mut texts, text.as_str(), text_count == 0);
                        text_count = text_count + 1;
                    },
                    ContentPart::InputImage { image_url } => {
                        converted.push(ChatContentPart::ImageUrl(image_url.url.clone()));
                        proof {
                            assert(converted@.map_values(|p: ChatContentPart| part_view(p))
                                =~= converted_parts_of(pre).push(PartView::Image(image_url.url@)));
                            assert(cur[i as int] is InputImage);
                        }
                        image_seen = true;
                    },
                    ContentPart::Reasoning { text, .. } => {
                        proof {
                            lemma_join_nl_push(reasoning_parts_of(pre), text@);
                        }
                        push_joined(&mut reasoning, text.as_str(), reasoning_count == 0);
                        reasoning_count = reasoning_count + 1;
                    },
                    ContentPart::InputFile { .. } => {},
                }
                proof {
                    if image_seen && !has_image(cur) {
                        assert(has_image(pre) ==> has_image(cur)) by {
                            if has_image(pre) {
                                let k = choose|k: int| 0 <= k < pre.len() && pre[k] is InputImage;
                                assert(cur[k] is InputImage);
                            }
                        }
                    }
                    if has_image(cur) && !image_seen {
                        let k = choose|k: int| 0 <= k < cur.len() && cur[k] is InputImage;
                        if k < pre.len() {
                            assert(pre[k] is InputImage);
                        }
                    }
                }
                i = i + 1;
            }
            proof {
                assert(parts@.subrange(0, parts@.len() as int) =~= parts@);
            }
            let reasoning_out = if reasoning_count > 0 {
                Some(string_from_chars(&reasoning))
            } else {
                None
            };
            proof {
                if reasoning_count == 0 {
                    assert(reasoning_parts_of(parts@).len() == 0);
                }
            }
            if !image_seen && converted.len() > 0 {
                (ChatContent::Text(string_from_chars(&texts)), reasoning_out)
            } else {
                (ChatContent::Parts(converted), reasoning_out)
            }
        },
    }
}

// ---------- the item walk ----------

/// The walk's accumulators: messages produced so far, reasoning texts
/// awaiting an assistant message, and tool calls awaiting one.
pub struct WalkAcc {
    pub msgs: Seq<MsgView>,
    pub pending_reasoning: Seq<Seq<char>>,
    pub pending_calls: Seq<CallView>,
}

/// The plain text of a converted content, as the assistant `<think>`
/// prefix sees it: a collapsed text keeps its characters, an array
/// contributes nothing.
pub open spec fn content_text_of(cv: ContentView) -> Seq<char> {
    match cv {
        ContentView::Text(t) => t,
        ContentView::Parts(_) => Seq::empty(),
    }
}

/// Walk the input items from position `i`: every message and tool output
/// appends a chat message; reasoning items accumulate and are wrapped in
/// `<think>` tags before the next assistant message; earlier tool calls
/// attach to it; item references are dropped, and so are accumulators
/// left over at the end.
pub open spec fn walk_items(items: Seq<ResponseInputItem>, i: int, acc: WalkAcc) -> Seq<MsgView>
    decreases items.len() - i,
{
    if i < 0 || i >= items.len() {
        acc.msgs
    } else {
        let next = match items[i] {
            ResponseInputItem::Message { role, content } => {
                let (cv, cr) = spec_convert_content(content);
                let pr = match cr {
                    Some(t) => acc.pending_reasoning.push(t),
                    None => acc.pending_reasoning,
                };
                let is_assistant = role@ =~= "assistant"@;
                let wrap = is_assistant && pr.len() > 0;
                let content2 = if wrap {
                    ContentView::Text(
                        "<think>"@ + join_nl(pr) + "</think>\n"@ + content_text_of(cv),
                    )
                } else {
                    cv
                };
                let attach = is_assistant && acc.pending_calls.len() > 0;
                WalkAcc {
                    msgs: acc.msgs.push(
                        MsgView {
                            role: role@,
                            content: Some(content2),
                            tool_calls: if attach {
                                Some(acc.pending_calls)
                            } else {
                                None
                            },
                            tool_call_id: None,
                        },
                    ),
                    pending_reasoning: if wrap {
                        Seq::empty()
                    } else {
                        pr
                    },
                    pending_calls: if attach {
                        Seq::empty()
                    } else {
                        acc.pending_calls
                    },
                }
            },
            ResponseInputItem::FunctionCall { call_id, name, arguments } => WalkAcc {
                pending_calls: acc.pending_calls.push(
                    CallView { id: call_id@, name: name@, arguments: arguments@ },
                ),
                ..acc
            },
            ResponseInputItem::FunctionCallOutput { call_id, output } => {
                let text = match inner_output_of(output@) {
                    Some(s) => s,
                    None => output@,
                };
                WalkAcc {
                    msgs: acc.msgs.push(
                        MsgView {
                            role: "tool"@,
                            content: Some(ContentView::Text(text)),
                            tool_calls: None,
                            tool_call_id: Some(call_id@),
                        },
                    ),
                    ..acc
                }
            },
            ResponseInputItem::Reasoning { text, .. } => {
                match text {
                    Some(t) => WalkAcc {
                        pending_reasoning: acc.pending_reasoning.push(t@),
                        ..acc
                    },
                    None => acc,
                }
            },
            ResponseInputItem::ItemReference { .. } => acc,
        };
        walk_items(items, i + 1, next)
    }
}

/// The paragraph appended to the instructions, mandating native
/// tool-call JSON.
pub open spec fn disclaimer() -> Seq<char> {
    "\n\n---\n\nIMPORTANT: Tool Calling Format Override\nWhen calling functions/tools, you MUST use the standard OpenAI Chat Completions JSON format, NOT any XML or custom syntax. The system will automatically handle tool execution. Never output tool calls as text - use the native function calling mechanism."@
}

/// The chat messages a request translates to.
pub open spec fn spec_expected_messages(req: ResponseRequest) -> Seq<MsgView> {
    let base = match req.instructions {
        Some(ins) => if ins@.len() > 0 {
            seq![
                MsgView {
                    role: "system"@,
                    content: Some(ContentView::Text(ins@ + disclaimer())),
                    tool_calls: None,
                    tool_call_id: None,
                },
            ]
        } else {
            Seq::empty()
        },
        None => Seq::empty(),
    };
    match req.input {
        None => base,
        Some(ResponseInput::Text(t)) => base.push(
            MsgView {
                role: "user"@,
                content: Some(ContentView::Text(t@)),
                tool_calls: None,
                tool_call_id: None,
            },
        ),
        Some(ResponseInput::Items(items)) => walk_items(
            items@,
            0,
            WalkAcc { msgs: base, pending_reasoning: Seq::empty(), pending_calls: Seq::empty() },
        ),
    }
}

// ---------- tools ----------

/// The view of a canonical function description.
pub struct FnDefView {
    pub name: Seq<char>,
    pub description: Option<Seq<char>>,
    pub parameters: Option<serde_json::Value>,
}

/// The view of a `FunctionDef`.
pub open spec fn fd_view(f: FunctionDef) -> FnDefView {
    FnDefView {
        name: f.name@,
        description: match f.description {
            Some(d) => Some(d@),
            None => None,
        },
        parameters: f.parameters,
    }
}

/// The `type` of a tool in either shape.
pub open spec fn tool_type_of(t: Tool) -> Seq<char> {
    match t {
        Tool::Nested { type_, .. } => type_@,
        Tool::Flat { type_, .. } => type_@,
    }
}

/// The canonical function description a tool surfaces: a flat tool
/// without a name falls back to its type.
pub open spec fn spec_function_def(t: Tool) -> FnDefView {
    match t {
        Tool::Nested { function, .. } => fd_view(function),
        Tool::Flat { type_, name, description, parameters, .. } => FnDefView {
            name: match name {
                Some(n) => n@,
                None => type_@,
            },
            description: match description {
                Some(d) => Some(d@),
                None => None,
            },
            parameters,
        },
    }
}

/// The function descriptions of the function-typed tools, in order;
/// tools of any other type are dropped.
pub open spec fn chat_tools_of(tools: Seq<Tool>) -> Seq<FnDefView>
    decreases tools.len(),
{
    if tools.len() == 0 {
        Seq::empty()
    } else {
        let rest = chat_tools_of(tools.drop_last());
        if tool_type_of(tools.last()) =~= "function"@ {
            rest.push(spec_function_def(tools.last()))
        } else {
            rest
        }
    }
}

/// The view of a tool sent upstream.
pub open spec fn chat_tool_view(t: ChatTool) -> (Seq<char>, FnDefView) {
    match t {
        ChatTool::Function { type_, function } => (
            type_@,
            FnDefView {
                name: function.name@,
                description: match function.description {
                    Some(d) => Some(d@),
                    None => None,
                },
                parameters: function.parameters,
            },
        ),
    }
}

impl Tool {
    /// The tool's `type` string.
    pub fn type_(&self) -> (r: &str)
        ensures
            r@ == tool_type_of(*self),
    {
        match self {
            Tool::Nested { type_, .. } => type_.as_str(),
            Tool::Flat { type_, .. } => type_.as_str(),
        }
    }

    /// The canonical function description of the tool.
    pub fn function_def(&self) -> (r: FunctionDef)
        ensures
            fd_view(r) == spec_function_def(*self),
    {
        match self {
            Tool::Nested { function, .. } => function.duplicate(),
            Tool::Flat { type_, name, description, parameters, .. } => FunctionDef {
                name: match name {
                    Some(n) => n.clone(),
                    None => type_.clone(),
                },
                description: copy_opt_string(description),
                parameters: copy_opt_value(parameters),
            },
        }
    }
}

// ---------- the translator ----------

/// Join a list of strings with newlines.
fn join_strings_nl(v: &Vec<String>) -> (r: Vec<char>)
    ensures
        r@ =~= join_nl(v.deep_view()),
{
    let mut acc: Vec<char> = Vec::new();
    let mut i: usize = 0;
    while i < v.len()
        invariant
            i <= v@.len(),
            acc@ =~= join_nl(v.deep_view().subrange(0, i as int)),
        decreases v.len() - i,
    {
        proof {
            assert(v.deep_view().subrange(0, i + 1 as int).drop_last() =~= v.deep_view().subrange(
                0,
                i as int,
            ));
            assert(v.deep_view().subrange(0, i + 1 as int).last() == v@[i as int]@);
            lemma_join_nl_push(v.deep_view().subrange(0, i as int), v@[i as int]@);
        }
        push_joined(&mut acc, v[i].as_str(), i == 0);
        proof {
            if i == 0 {
                assert(join_nl(v.deep_view().subrange(0, 0)).len() == 0);
            }
            assert(v.deep_view().subrange(0, i + 1 as int) =~= v.deep_view().subrange(
                0,
                i as int,
            ).push(v@[i as int]@));
        }
        i = i + 1;
    }
    proof {
        assert(v.deep_view().subrange(0, v@.len() as int) =~= v.deep_view());
    }
    acc
}

proof fn lemma_msgs_view_push(ms: Seq<ChatMessage>, m: ChatMessage)
    ensures
        msgs_view(ms.push(m)) =~= msgs_view(ms).push(msg_view(m)),
{
}

/// Convert a client request into the flat chat-completion request: the
/// translated message history, the surviving function tools, and the
/// copied-through sampling fields.  A request without a model is
/// rejected.
pub fn convert_to_chat_completions(req: &ResponseRequest) -> (r: Result<
    ChatCompletionRequest,
    String,
>)
    ensures
        req.model is None <==> r is Err,
        r matches Err(e) ==> e@ == "Model is required"@,
        r matches Ok(out) ==> {
            &&& out.model@ == req.model->Some_0@
            &&& msgs_view(out.messages@) =~= spec_expected_messages(*req)
            &&& match (out.tools, req.tools) {
                (None, None) => true,
                (None, Some(ts)) => chat_tools_of(ts@).len() == 0,
                (Some(cts), Some(ts)) => cts@.map_values(|c: ChatTool| chat_tool_view(c))
                    =~= chat_tools_of(ts@).map_values(|f: FnDefView| ("function"@, f)),
                (Some(_), None) => false,
            }
            &&& out.tool_choice == req.tool_choice
            &&& out.max_tokens == req.max_output_tokens
            &&& out.temperature == req.temperature
            &&& out.top_p == req.top_p
            &&& out.parallel_tool_calls == req.parallel_tool_calls
            &&& out.stream == (req.stream matches Some(true))
        },
{
    let model = match &req.model {
        Some(m) => m.clone(),
        None => {
            return Err("Model is required".to_owned());
        },
    };

    let mut messages: Vec<ChatMessage> = Vec::new();

    if let Some(instructions) = &req.instructions {
        if !instructions.as_str().is_empty() {
            let mut body = chars_of(instructions.as_str());
            push_all(
                &mut body,
                &chars_of(
                    "\n\n---\n\nIMPORTANT: Tool Calling Format Override\nWhen calling functions/tools, you MUST use the standard OpenAI Chat Completions JSON format, NOT any XML or custom syntax. The system will automatically handle tool execution. Never output tool calls as text - use the native function calling mechanism.",
                ),
            );
            messages.push(
                ChatMessage {
                    role: "system".to_owned(),
                    content: Some(ChatContent::Text(string_from_chars(&body))),
                    tool_calls: None,
                    tool_call_id: None,
                },
            );
        }
    }
    let ghost base = msgs_view(messages@);
    proof {
        assert(base =~= match req.instructions {
            Some(ins) => if ins@.len() > 0 {
                seq![
                    MsgView {
                        role: "system"@,
                        content: Some(ContentView::Text(ins@ + disclaimer())),
                        tool_calls: None,
                        tool_call_id: None,
                    },
                ]
            } else {
                Seq::<MsgView>::empty()
            },
            None => Seq::<MsgView>::empty(),
        });
    }

    match &req.input {
        None => {},
        Some(ResponseInput::Text(t)) => {
            let ghost pre = messages@;
            messages.push(
                ChatMessage {
                    role: "user".to_owned(),
                    content: Some(ChatContent::Text(t.clone())),
                    tool_calls: None,
                    tool_call_id: None,
                },
            );
            proof {
                lemma_msgs_view_push(pre, messages@.last());
            }
        },
        Some(ResponseInput::Items(items)) => {
            let mut pending_reasoning: Vec<String> = Vec::new();
            let mut pending_tool_calls: Vec<ChatToolCall> = Vec::new();
            let ghost init = WalkAcc {
                msgs: base,
                pending_reasoning: Seq::empty(),
                pending_calls: Seq::empty(),
            };
            proof {
                assert(pending_reasoning.deep_view() =~= Seq::<Seq<char>>::empty());
                assert(pending_tool_calls@.map_values(|c: ChatToolCall| call_view(c))
                    =~= Seq::<CallView>::empty());
            }
            let mut i: usize = 0;
            while i < items.len()
                invariant
                    i <= items@.len(),
                    walk_items(items@, 0, init) == walk_items(
                        items@,
                        i as int,
                        WalkAcc {
                            msgs: msgs_view(messages@),
                            pending_reasoning: pending_reasoning.deep_view(),
                            pending_calls: pending_tool_calls@.map_values(
                                |c: ChatToolCall| call_view(c),
                            ),
                        },
                    ),
                decreases items.len() - i,
            {
                let ghost acc = WalkAcc {
                    msgs: msgs_view(messages@),
                    pending_reasoning: pending_reasoning.deep_view(),
                    pending_calls: pending_tool_calls@.map_values(|c: ChatToolCall| call_view(c)),
                };
                match &items[i] {
                    ResponseInputItem::Message { role, content } => {
                        let (converted, content_reasoning) = convert_response_content(content);
                        let ghost conv_view = content_view(converted);
                        if let Some(think) = content_reasoning {
                            let ghost pre_pr = pending_reasoning.deep_view();
                            let ghost tv = think@;
                            pending_reasoning.push(think);
                            proof {
                                let dv = pending_reasoning.deep_view();
                                assert(dv.len() == pre_pr.len() + 1);
                                assert forall|j: int| 0 <= j < dv.len() implies dv[j] == pre_pr.push(
                                    tv,
                                )[j] by {
                                    if j < pre_pr.len() {
                                        assert(dv[j] == pending_reasoning@[j]@);
                                        assert(pre_pr[j] == pending_reasoning@[j]@);
                                    }
                                }
                                assert(dv =~= pre_pr.push(tv));
                            }
                        }
                        let ghost pr = pending_reasoning.deep_view();
                        let is_assistant = str_eq(role.as_str(), "assistant");
                        let wrap = is_assistant && pending_reasoning.len() > 0;
                        let final_content: ChatContent = if wrap {
                            let mut combined = chars_of("<think>");
                            push_all(&mut combined, &join_strings_nl(&pending_reasoning));
                            push_all(&mut combined, &chars_of("</think>\n"));
                            match &converted {
                                ChatContent::Text(t) => push_all(&mut combined, &chars_of(t.as_str())),
                                ChatContent::Parts(_) => {
                                    proof {
                                        assert(combined@ + content_text_of(conv_view) =~= combined@);
                                    }
                                },
                            }
                            pending_reasoning = Vec::new();
                            proof {
                                assert(combined@ =~= "<think>"@ + join_nl(pr) + "</think>\n"@
                                    + content_text_of(conv_view));
                                assert(pending_reasoning.deep_view() =~= Seq::<Seq<char>>::empty());
                            }
                            ChatContent::Text(string_from_chars(&combined))
                        } else {
                            converted
                        };
                        let ghost content2 = content_view(final_content);
                        let attach = is_assistant && pending_tool_calls.len() > 0;
                        let ghost pre_msgs = messages@;
                        if attach {
                            let mut calls: Vec<ChatToolCall> = Vec::new();
                            core::mem::swap(&mut calls, &mut pending_tool_calls);
                            messages.push(
                                ChatMessage {
                                    role: role.clone(),
                                    content: Some(final_content),
                                    tool_calls: Some(calls),
                                    tool_call_id: None,
                                },
                            );
                            proof {
                                assert(pending_tool_calls@.map_values(|c: ChatToolCall| call_view(c))
                                    =~= Seq::<CallView>::empty());
                            }
                        } else {
                            messages.push(
                                ChatMessage {
                                    role: role.clone(),
                                    content: Some(final_content),
                                    tool_calls: None,
                                    tool_call_id: None,
                                },
                            );
                        }
                        proof {
                            lemma_msgs_view_push(pre_msgs, messages@.last());
                            assert(msgs_view(messages@) =~= acc.msgs.push(
                                MsgView {
                                    role: items@[i as int]->Message_role@,
                                    content: Some(content2),
                                    tool_calls: if attach {
                                        Some(acc.pending_calls)
                                    } else {
                                        None
                                    },
                                    tool_call_id: None,
                                },
                            ));
                        }
                    },
                    ResponseInputItem::FunctionCall { call_id, name, arguments } => {
                        let ghost pre_pc = pending_tool_calls@.map_values(
                            |c: ChatToolCall| call_view(c),
                        );
                        pending_tool_calls.push(
                            ChatToolCall {
                                id: call_id.clone(),
                                name: name.clone(),
                                arguments: arguments.clone(),
                            },
                        );
                        proof {
                            assert(pending_tool_calls@.map_values(|c: ChatToolCall| call_view(c))
                                =~= pre_pc.push(call_view(pending_tool_calls@.last())));
                        }
                    },
                    ResponseInputItem::FunctionCallOutput { call_id, output } => {
                        let content_str = match extract_inner_output(output.as_str()) {
                            Some(inner) => inner,
                            None => output.clone(),
                        };
                        let ghost pre_msgs = messages@;
                        messages.push(
                            ChatMessage {
                                role: "tool".to_owned(),
                                content: Some(ChatContent::Text(content_str)),
                                tool_calls: None,
                                tool_call_id: Some(call_id.clone()),
                            },
                        );
                        proof {
                            lemma_msgs_view_push(pre_msgs, messages@.last());
                        }
                    },
                    ResponseInputItem::Reasoning { text, .. } => {
                        if let Some(t) = text {
                            let ghost pre_pr = pending_reasoning.deep_view();
                            let ghost tv = t@;
                            pending_reasoning.push(t.clone());
                            proof {
                                let dv = pending_reasoning.deep_view();
                                assert(dv.len() == pre_pr.len() + 1);
                                assert forall|j: int| 0 <= j < dv.len() implies dv[j] == pre_pr.push(
                                    tv,
                                )[j] by {
                                    if j < pre_pr.len() {
                                        assert(dv[j] == pending_reasoning@[j]@);
                                        assert(pre_pr[j] == pending_reasoning@[j]@);
                                    }
                                }
                                assert(dv =~= pre_pr.push(tv));
                            }
                        }
                    },
                    ResponseInputItem::ItemReference { .. } => {},
                }
                proof {
                    let acc2 = WalkAcc {
                        msgs: msgs_view(messages@),
                        pending_reasoning: pending_reasoning.deep_view(),
                        pending_calls: pending_tool_calls@.map_values(|c: ChatToolCall| call_view(c)),
                    };
                    assert(walk_items(items@, 0, init) == walk_items(items@, i as int + 1, acc2));
                }
                i = i + 1;
            }
        },
    }

    let tools: Option<Vec<ChatTool>> = match &req.tools {
        None => None,
        Some(tools_vec) => {
            let mut out: Vec<ChatTool> = Vec::new();
            let mut i: usize = 0;
            while i < tools_vec.len()
                invariant
                    i <= tools_vec@.len(),
                    out@.map_values(|c: ChatTool| chat_tool_view(c)) =~= chat_tools_of(
                        tools_vec@.subrange(0, i as int),
                    ).map_values(|f: FnDefView| ("function"@, f)),
                decreases tools_vec.len() - i,
            {
                let ghost prefix = tools_vec@.subrange(0, i as int);
                let ghost cur = tools_vec@.subrange(0, i + 1 as int);
                proof {
                    assert(cur.drop_last() =~= prefix);
                    assert(cur.last() == tools_vec@[i as int]);
                }
                let tool = &tools_vec[i];
                if str_eq(tool.type_(), "function") {
                    let f = tool.function_def();
                    let ghost pre_out = out@.map_values(|c: ChatTool| chat_tool_view(c));
                    out.push(
                        ChatTool::Function {
                            type_: "function".to_owned(),
                            function: ChatFunction {
                                name: f.name,
                                description: f.description,
                                parameters: f.parameters,
                            },
                        },
                    );
                    proof {
                        assert(out@.map_values(|c: ChatTool| chat_tool_view(c)) =~= pre_out.push(
                            chat_tool_view(out@.last()),
                        ));
                        assert(chat_tools_of(cur).map_values(|f: FnDefView| ("function"@, f))
                            =~= chat_tools_of(prefix).map_values(|f: FnDefView| ("function"@, f)).push(
                            ("function"@, spec_function_def(tools_vec@[i as int])),
                        ));
                    }
                }
                i = i + 1;
            }
            proof {
                assert(tools_vec@.subrange(0, tools_vec@.len() as int) =~= tools_vec@);
            }
            if out.len() == 0 {
                None
            } else {
                Some(out)
            }
        },
    };
    proof {
        if req.tools is Some && tools is Some {
            let ts = req.tools->Some_0;
            assert(chat_tools_of(ts@).map_values(|f: FnDefView| ("function"@, f)).len()
                == chat_tools_of(ts@).len());
        }
        if req.tools is Some && tools is None {
            let ts = req.tools->Some_0;
            assert(chat_tools_of(ts@).map_values(|f: FnDefView| ("function"@, f)).len()
                == chat_tools_of(ts@).len());
        }
    }

    let stream = match req.stream {
        Some(s) => s,
        None => false,
    };

    Ok(
        ChatCompletionRequest {
            model,
            messages,
            max_tokens: req.max_output_tokens,
            temperature: copy_opt_value(&req.temperature),
            top_p: copy_opt_value(&req.top_p),
            tools,
            tool_choice: copy_opt_tool_choice(&req.tool_choice),
            parallel_tool_calls: req.parallel_tool_calls,
            stream,
        },
    )
}

/// Translate a backend `finish_reason` into a response status.
pub fn translate_finish_reason(finish_reason: Option<&str>) -> (r: &'static str)
    ensures
        r@ == spec_finish_status(match finish_reason {
            Some(s) => Some(s@),
            None => None,
        }),
{
    match finish_reason {
        Some(reason) => {
            if str_eq(reason, "length") {
                "incomplete"
            } else if str_eq(reason, "content_filter") {
                "failed"
            } else {
                "completed"
            }
        },
        None => "in_progress",
    }
}

/// The status a `finish_reason` maps to: `stop`, `tool_calls` and every
/// other given reason complete the response, `length` leaves it
/// incomplete, `content_filter` fails it, and no reason yet means it is
/// still in progress.
pub open spec fn spec_finish_status(finish_reason: Option<Seq<char>>) -> Seq<char> {
    match finish_reason {
        Some(s) => if s =~= "length"@ {
            "incomplete"@
        } else if s =~= "content_filter"@ {
            "failed"@
        } else {
            "completed"@
        },
        None => "in_progress"@,
    }
}

} // verus!
