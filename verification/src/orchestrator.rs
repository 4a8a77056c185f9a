//! Stream orchestrator: the state machine that turns the backend's chunk
//! stream into the client's output-item event stream.  It emits the
//! preamble (`response.created`, the message item, its content part),
//! translates each backend chunk into deltas and synthetic item events,
//! buffers text that looks like an XML-encoded tool call until it can be
//! salvaged, and finishes the stream with the `done` events and exactly
//! one `response.completed`.

use vstd::prelude::*;

use crate::models::{
    ChatCompletionChunk, Choice, ContentValue, Delta, EchoFields, IncompleteDetails, OutputContent,
    OutputItem, Response, StreamEvent, TokenDetails, ToolCallDelta, Usage, copy_opt_string,
};
use crate::sequencer::{EventSequencer, event_id_of};
use crate::text::{chars_of, chars_eq, has_sub, push_all, string_from_chars, u64_to_dec};

verus! {

// ---------- sketches: what an emitted event must look like ----------

/// What an output item of an event holds, at the view level.
pub enum ContentSketch {
    /// No content field.
    Absent,
    /// An empty content list.
    EmptyList,
    /// One final-text element.
    Text(Seq<char>),
    /// One reasoning element.
    Reasoning(Seq<char>),
}

/// The view of an output item carried by an event.
pub struct ItemSketch {
    pub id: Seq<char>,
    pub type_: Seq<char>,
    pub status: Seq<char>,
    pub role: Option<Seq<char>>,
    pub content: ContentSketch,
    pub call_id: Option<Seq<char>>,
    pub name: Option<Seq<char>>,
    pub arguments: Option<Seq<char>>,
}

/// The view of a response object carried by a terminal or created event,
/// apart from the echoed request fields.
pub struct RespSketch {
    pub id: Seq<char>,
    pub status: Seq<char>,
    pub output: Seq<ItemSketch>,
    pub usage: Option<(u32, u32)>,
    pub incomplete_reason: Option<Seq<char>>,
}

/// The view of one emitted event, before stamping.
pub struct EvSketch {
    pub type_: Seq<char>,
    pub item_id: Option<Seq<char>>,
    pub output_index: Option<u32>,
    pub content_index: Option<u32>,
    pub delta: Option<Seq<char>>,
    pub text: Option<Seq<char>>,
    pub call_id: Option<Seq<char>>,
    pub name: Option<Seq<char>>,
    pub arguments: Option<Seq<char>>,
    pub item: Option<ItemSketch>,
    pub response: Option<RespSketch>,
}

/// A sketch with only a type.
pub open spec fn bare_sketch(type_: Seq<char>) -> EvSketch {
    EvSketch {
        type_,
        item_id: None,
        output_index: None,
        content_index: None,
        delta: None,
        text: None,
        call_id: None,
        name: None,
        arguments: None,
        item: None,
        response: None,
    }
}

/// Whether an optional string field matches an optional view.
pub open spec fn opt_str_matches(f: Option<String>, s: Option<Seq<char>>) -> bool {
    match (f, s) {
        (Option::None, Option::None) => true,
        (Option::Some(v), Option::Some(w)) => v@ == w,
        _ => false,
    }
}

/// Whether an output item matches its sketch.
pub open spec fn item_matches(i: OutputItem, s: ItemSketch) -> bool {
    &&& i.id@ == s.id
    &&& i.object@ == "realtime.item"@
    &&& i.type_@ == s.type_
    &&& i.status@ == s.status
    &&& opt_str_matches(i.role, s.role)
    &&& opt_str_matches(i.call_id, s.call_id)
    &&& opt_str_matches(i.name, s.name)
    &&& opt_str_matches(i.arguments, s.arguments)
    &&& i.output is None
    &&& match s.content {
        ContentSketch::Absent => i.content is None,
        ContentSketch::EmptyList => i.content matches Some(v) && v@.len() == 0,
        ContentSketch::Text(t) => i.content matches Some(v) && v@.len() == 1 && (v@[0] matches
            OutputContent::OutputText { text, annotations } && text@ == t && annotations@.len()
            == 0),
        ContentSketch::Reasoning(t) => i.content matches Some(v) && v@.len() == 1 && (v@[0] matches
            OutputContent::Reasoning { text } && text@ == t),
    }
}

/// `a + b`, stopping at the largest `u32`.
pub open spec fn sat_add32(a: u32, b: u32) -> u32 {
    if a + b > u32::MAX {
        u32::MAX
    } else {
        (a + b) as u32
    }
}

/// Whether a carried response matches its sketch: its identity, status,
/// output items, usage and incomplete details (the echoed request fields
/// are stated separately).
pub open spec fn resp_matches_core(r: Response, s: RespSketch) -> bool {
    &&& r.id@ == s.id
    &&& r.object@ == "response"@
    &&& r.status@ == s.status
    &&& r.error is None
    &&& match s.incomplete_reason {
        None => r.incomplete_details is None,
        Some(t) => r.incomplete_details matches Some(d) && d.reason@ == t,
    }
    &&& r.output@.len() == s.output.len()
    &&& forall|k: int| 0 <= k < s.output.len() ==> item_matches(#[trigger] r.output@[k], s.output[k])
    &&& match s.usage {
        None => r.usage is None,
        Some((a, b)) => r.usage matches Some(u) && u.input_tokens == a && u.output_tokens == b
            && u.total_tokens == sat_add32(a, b) && (u.input_tokens_details matches Some(d)
            && d.cached_tokens == 0 && d.reasoning_tokens == 0) && (u.output_tokens_details
            matches Some(d) && d.cached_tokens == 0 && d.reasoning_tokens == 0),
    }
}

/// Whether a carried response echoes the request fields; the reasoning
/// state falls back to an empty one when `reasoning_fallback` holds and
/// the request carried none.
pub open spec fn resp_echoes(r: Response, echo: EchoFields, created_at: u64, reasoning_fallback: bool) -> bool {
    &&& r.created_at == created_at
    &&& r.model matches Some(m) && m@ == echo.model@
    &&& r.metadata == echo.metadata
    &&& r.instructions == echo.instructions
    &&& crate::models::opt_tools_eq(r.tools, echo.tools)
    &&& r.tool_choice == echo.tool_choice
    &&& r.parallel_tool_calls == echo.parallel_tool_calls
    &&& r.temperature == echo.temperature
    &&& r.top_p == echo.top_p
    &&& r.max_output_tokens == echo.max_output_tokens
    &&& r.store == echo.store
    &&& r.previous_response_id == echo.previous_response_id
    &&& match echo.reasoning {
        Some(x) => r.reasoning == Some(x),
        None => if reasoning_fallback {
            r.reasoning matches Some(d) && d.effort is None && d.summary is None
        } else {
            r.reasoning is None
        },
    }
    &&& r.background == echo.background
    &&& r.max_tool_calls == echo.max_tool_calls
    &&& r.text == echo.text
    &&& r.prompt == echo.prompt
    &&& r.truncation == echo.truncation
    &&& r.conversation == echo.conversation
    &&& r.top_logprobs == echo.top_logprobs
    &&& r.user == echo.user
    &&& r.safety_identifier == echo.safety_identifier
    &&& r.prompt_cache_key == echo.prompt_cache_key
    &&& r.service_tier == echo.service_tier
}

/// Whether an emitted event matches its sketch (all but the stamp and
/// the echoed request fields).
pub open spec fn ev_matches(e: StreamEvent, s: EvSketch) -> bool {
    &&& e.type_@ == s.type_
    &&& match s.response {
        None => e.response is None,
        Some(rs) => e.response matches Some(re) && resp_matches_core(re, rs),
    }
    &&& opt_str_matches(e.item_id, s.item_id)
    &&& e.output_index == s.output_index
    &&& e.content_index == s.content_index
    &&& opt_str_matches(e.delta, s.delta)
    &&& opt_str_matches(e.text, s.text)
    &&& opt_str_matches(e.call_id, s.call_id)
    &&& opt_str_matches(e.name, s.name)
    &&& opt_str_matches(e.arguments, s.arguments)
    &&& e.error is None
    &&& match s.item {
        Some(isk) => e.item matches Some(i) && item_matches(i, isk),
        None => e.item is None,
    }
}

/// Whether each event matches the corresponding sketch.
pub open spec fn evs_match(es: Seq<StreamEvent>, ss: Seq<EvSketch>) -> bool {
    es.len() == ss.len() && forall|i: int| 0 <= i < es.len() ==> ev_matches(es[i], ss[i])
}

// ---------- stamping invariants ----------

/// The saturating sequence number of the event at position `i`.
pub open spec fn seq_at(i: int) -> u32 {
    if i + 1 >= u32::MAX {
        u32::MAX
    } else {
        (i + 1) as u32
    }
}

/// The saturating event-id counter of the event at position `i`.
pub open spec fn ctr_at(i: int) -> u64 {
    if i + 1 >= u64::MAX {
        u64::MAX
    } else {
        (i + 1) as u64
    }
}

/// Whether an event is a terminal event of its response.
pub open spec fn is_terminal(e: StreamEvent) -> bool {
    e.type_@ == "response.completed"@ || e.type_@ == "response.failed"@
}

/// Every event of the stream is stamped for its position: sequence
/// number `i + 1`, event id for counter `i + 1` (both stopping at their
/// largest values), and the response id.
pub open spec fn events_stamped(es: Seq<StreamEvent>, rid: Seq<char>) -> bool {
    forall|i: int| 0 <= i < es.len() ==> {
        &&& (#[trigger] es[i]).sequence_number == Some(seq_at(i))
        &&& es[i].event_id matches Some(id) && id@ == event_id_of(rid, ctr_at(i))
        &&& es[i].response_id matches Some(r) && r@ == rid
    }
}

// ---------- the orchestrator's abstract streaming state ----------

/// One tracked tool call, at the view level.
pub struct CallSt {
    pub index: usize,
    pub call_id: Seq<char>,
    pub item_id: Seq<char>,
    pub type_: Seq<char>,
    pub name: Option<Seq<char>>,
    pub arguments: Seq<char>,
    pub item_added: bool,
}

/// The abstract streaming state.
pub struct OrchSt {
    pub text: Seq<char>,
    pub reasoning: Seq<char>,
    pub last_delta: Option<Seq<char>>,
    pub reasoning_started: bool,
    pub done: bool,
    pub status: Seq<char>,
    pub in_tokens: u32,
    pub out_tokens: u32,
    pub calls: Seq<CallSt>,
    pub next_xml: usize,
    pub buffering: bool,
}

/// Tool calls are kept in ascending backend-index order.
pub open spec fn calls_sorted(calls: Seq<CallSt>) -> bool {
    forall|i: int, j: int| 0 <= i < j < calls.len() ==> calls[i].index <= calls[j].index
}

/// One tracked tool call as the orchestrator stores it.
pub struct ToolCallState {
    /// The backend index of the call.
    pub index: usize,
    /// The call id (from the backend, or synthesised).
    pub call_id: String,
    /// The item id used in events for this call.
    pub item_id: String,
    /// The call type, `function` unless the backend says otherwise.
    pub type_: String,
    /// The function name, once seen.
    pub name: Option<String>,
    /// The accumulated argument text.
    pub arguments: String,
    /// Whether `output_item.added` was emitted for this call.
    pub item_added: bool,
}

impl ToolCallState {
    /// The view of this call.
    pub open spec fn view(&self) -> CallSt {
        CallSt {
            index: self.index,
            call_id: self.call_id@,
            item_id: self.item_id@,
            type_: self.type_@,
            name: match self.name {
                Some(n) => Some(n@),
                None => None,
            },
            arguments: self.arguments@,
            item_added: self.item_added,
        }
    }
}

/// The phase of one response's lifecycle.
#[derive(Debug, PartialEq, Eq, Structural)]
pub enum Phase {
    /// Created; the preamble has not been emitted.
    Start,
    /// The preamble is out; chunks are being consumed.
    Streaming,
    /// The terminal event is out.
    Finished,
}

/// The orchestrator of one response.
pub struct Orchestrator {
    response_id: String,
    request_id: String,
    message_id: String,
    reasoning_id: String,
    created_at: u64,
    echo: EchoFields,
    phase: Phase,
    sequencer: EventSequencer,
    accumulated_text: Vec<char>,
    accumulated_reasoning: Vec<char>,
    last_text_delta: Option<Vec<char>>,
    reasoning_started: bool,
    done: bool,
    final_status: &'static str,
    total_input_tokens: u32,
    total_output_tokens: u32,
    tool_calls: Vec<ToolCallState>,
    next_xml_index: usize,
    xml_buffering: bool,
    emitted: Ghost<Seq<StreamEvent>>,
}

impl Orchestrator {
    /// The view of the response id.
    pub closed spec fn rid(&self) -> Seq<char> {
        self.response_id@
    }

    /// The view of the request id.
    pub closed spec fn req_id(&self) -> Seq<char> {
        self.request_id@
    }

    /// The view of the message item id.
    pub closed spec fn msg_id(&self) -> Seq<char> {
        self.message_id@
    }

    /// The view of the reasoning item id.
    pub closed spec fn reason_id(&self) -> Seq<char> {
        self.reasoning_id@
    }

    /// The creation timestamp echoed in response objects.
    pub closed spec fn created(&self) -> u64 {
        self.created_at
    }

    /// The echoed request fields.
    pub closed spec fn echo_fields(&self) -> EchoFields {
        self.echo
    }

    /// The lifecycle phase.
    pub closed spec fn phase(&self) -> Phase {
        self.phase
    }

    /// Every event emitted so far, in order.
    pub closed spec fn events(&self) -> Seq<StreamEvent> {
        self.emitted@
    }

    /// The ids stamped into this response's events.
    pub open spec fn ids(&self) -> OrchIds {
        OrchIds { msg_id: self.msg_id(), reason_id: self.reason_id(), req_id: self.req_id() }
    }

    /// The identity of the response is unchanged from `other`.
    pub open spec fn preserved_from(&self, other: Self) -> bool {
        &&& self.rid() == other.rid()
        &&& self.req_id() == other.req_id()
        &&& self.msg_id() == other.msg_id()
        &&& self.reason_id() == other.reason_id()
        &&& self.created() == other.created()
        &&& self.echo_fields() == other.echo_fields()
    }

    /// The abstract streaming state.
    pub closed spec fn st(&self) -> OrchSt {
        OrchSt {
            text: self.accumulated_text@,
            reasoning: self.accumulated_reasoning@,
            last_delta: match self.last_text_delta {
                Some(d) => Some(d@),
                None => None,
            },
            reasoning_started: self.reasoning_started,
            done: self.done,
            status: self.final_status@,
            in_tokens: self.total_input_tokens,
            out_tokens: self.total_output_tokens,
            calls: self.tool_calls@.map_values(|c: ToolCallState| c@),
            next_xml: self.next_xml_index,
            buffering: self.xml_buffering,
        }
    }

    /// The orchestrator's internal consistency: counters match the
    /// emitted history, every event is stamped for its position, no
    /// terminal event is out before the finish, and the tool calls are
    /// sorted by index.
    pub closed spec fn wf(&self) -> bool {
        &&& self.sequencer.next_sequence == seq_at(self.emitted@.len() - 1)
            || self.emitted@.len() == 0 && self.sequencer.next_sequence == 0
        &&& self.sequencer.next_event_id == ctr_at(self.emitted@.len() - 1)
            || self.emitted@.len() == 0 && self.sequencer.next_event_id == 0
        &&& events_stamped(self.emitted@, self.response_id@)
        &&& calls_sorted(self.st().calls)
    }

    /// A fresh orchestrator for one response.
    pub fn new(
        response_id: String,
        request_id: String,
        message_id: String,
        reasoning_id: String,
        created_at: u64,
        echo: EchoFields,
    ) -> (r: Self)
        ensures
            r.wf(),
            r.phase() == Phase::Start,
            r.events().len() == 0,
            r.rid() == response_id@,
            r.req_id() == request_id@,
            r.msg_id() == message_id@,
            r.reason_id() == reasoning_id@,
            r.created() == created_at,
            r.echo_fields() == echo,
            r.st() == init_state(),
    {
        let r = Orchestrator {
            response_id,
            request_id,
            message_id,
            reasoning_id,
            created_at,
            echo,
            phase: Phase::Start,
            sequencer: EventSequencer::new(),
            accumulated_text: Vec::new(),
            accumulated_reasoning: Vec::new(),
            last_text_delta: None,
            reasoning_started: false,
            done: false,
            final_status: "completed",
            total_input_tokens: 0,
            total_output_tokens: 0,
            tool_calls: Vec::new(),
            next_xml_index: 0,
            xml_buffering: false,
            emitted: Ghost(Seq::empty()),
        };
        proof {
            assert(r.st().calls =~= Seq::<CallSt>::empty());
            assert(r.st() == init_state());
        }
        r
    }

    /// Stamp one event and append it to the history.
    fn emit(&mut self, event: StreamEvent) -> (r: StreamEvent)
        requires
            old(self).wf(),
            event.sequence_number is None,
        ensures
            final(self).wf(),
            final(self).emitted@ =~= old(self).emitted@.push(r),
            r.type_ == event.type_,
            r.response == event.response,
            r.item_id == event.item_id,
            r.output_index == event.output_index,
            r.content_index == event.content_index,
            r.delta == event.delta,
            r.text == event.text,
            r.item == event.item,
            r.call_id == event.call_id,
            r.name == event.name,
            r.arguments == event.arguments,
            r.error == event.error,
            final(self).phase == old(self).phase,
            final(self).response_id == old(self).response_id,
            final(self).request_id == old(self).request_id,
            final(self).message_id == old(self).message_id,
            final(self).reasoning_id == old(self).reasoning_id,
            final(self).created_at == old(self).created_at,
            final(self).echo == old(self).echo,
            final(self).accumulated_text == old(self).accumulated_text,
            final(self).accumulated_reasoning == old(self).accumulated_reasoning,
            final(self).last_text_delta == old(self).last_text_delta,
            final(self).reasoning_started == old(self).reasoning_started,
            final(self).done == old(self).done,
            final(self).final_status == old(self).final_status,
            final(self).total_input_tokens == old(self).total_input_tokens,
            final(self).total_output_tokens == old(self).total_output_tokens,
            final(self).tool_calls == old(self).tool_calls,
            final(self).next_xml_index == old(self).next_xml_index,
            final(self).xml_buffering == old(self).xml_buffering,
    {
        let (stamped, _seq) = self.sequencer.prepare(event, self.response_id.as_str());
        proof {
            self.emitted@ = self.emitted@.push(stamped);
            let es = self.emitted@;
            let n = es.len() - 1;
            assert forall|i: int| 0 <= i < es.len() implies {
                &&& (#[trigger] es[i]).sequence_number == Some(seq_at(i))
                &&& es[i].event_id matches Some(id) && id@ == event_id_of(
                    self.response_id@,
                    ctr_at(i),
                )
                &&& es[i].response_id matches Some(r) && r@ == self.response_id@
            } by {
                if i < n {
                    assert(es[i] == old(self).emitted@[i]);
                }
            }
        }
        stamped
    }

    /// Build a response object carrying the echoed request fields.
    fn base_response(
        &self,
        status: String,
        output: Vec<OutputItem>,
        usage: Option<Usage>,
        incomplete_details: Option<IncompleteDetails>,
        reasoning_fallback: bool,
    ) -> (r: Response)
        ensures
            r.id@ == self.rid(),
            r.object@ == "response"@,
            r.status == status,
            r.error is None,
            r.incomplete_details == incomplete_details,
            r.output == output,
            r.usage == usage,
            resp_echoes(r, self.echo_fields(), self.created(), reasoning_fallback),
    {
        let reasoning = match &self.echo.reasoning {
            Some(x) => Some(x.duplicate()),
            None => if reasoning_fallback {
                Some(crate::models::ResponseReasoningState { effort: None, summary: None })
            } else {
                None
            },
        };
        Response {
            id: self.response_id.clone(),
            object: "response".to_owned(),
            created_at: self.created_at,
            status,
            error: None,
            incomplete_details,
            model: Some(self.echo.model.clone()),
            output,
            usage,
            metadata: crate::models::copy_opt_value(&self.echo.metadata),
            instructions: copy_opt_string(&self.echo.instructions),
            tools: crate::models::copy_opt_tools(&self.echo.tools),
            tool_choice: crate::models::copy_opt_tool_choice(&self.echo.tool_choice),
            parallel_tool_calls: self.echo.parallel_tool_calls,
            temperature: crate::models::copy_opt_value(&self.echo.temperature),
            top_p: crate::models::copy_opt_value(&self.echo.top_p),
            max_output_tokens: self.echo.max_output_tokens,
            store: self.echo.store,
            previous_response_id: copy_opt_string(&self.echo.previous_response_id),
            reasoning,
            background: self.echo.background,
            max_tool_calls: self.echo.max_tool_calls,
            text: match &self.echo.text {
                Some(t) => Some(t.duplicate()),
                None => None,
            },
            prompt: match &self.echo.prompt {
                Some(p) => Some(p.duplicate()),
                None => None,
            },
            truncation: copy_opt_string(&self.echo.truncation),
            conversation: match &self.echo.conversation {
                Some(c) => Some(c.duplicate()),
                None => None,
            },
            top_logprobs: self.echo.top_logprobs,
            user: copy_opt_string(&self.echo.user),
            safety_identifier: copy_opt_string(&self.echo.safety_identifier),
            prompt_cache_key: copy_opt_string(&self.echo.prompt_cache_key),
            service_tier: copy_opt_string(&self.echo.service_tier),
        }
    }

    /// Emit the preamble: `response.created`, the message item at output
    /// index 0, and its first content part, in that order, before any
    /// backend byte is consumed.
    pub fn preamble(&mut self) -> (r: Vec<StreamEvent>)
        requires
            old(self).wf(),
            old(self).phase() == Phase::Start,
        ensures
            final(self).wf(),
            final(self).phase() == Phase::Streaming,
            final(self).st() == old(self).st(),
            final(self).rid() == old(self).rid(),
            final(self).req_id() == old(self).req_id(),
            final(self).msg_id() == old(self).msg_id(),
            final(self).reason_id() == old(self).reason_id(),
            final(self).created() == old(self).created(),
            final(self).echo_fields() == old(self).echo_fields(),
            final(self).events() =~= old(self).events() + r@,
            evs_match(r@, preamble_sketches(old(self).rid(), old(self).msg_id())),
            r@[0].response matches Some(resp) && resp_echoes(
                resp,
                old(self).echo_fields(),
                old(self).created(),
                false,
            ),
    {
        let resp = self.base_response("in_progress".to_owned(), Vec::new(), None, None, false);
        let mut created = StreamEvent::bare("response.created".to_owned());
        created.response = Some(resp);
        let e0 = self.emit(created);

        let item = OutputItem {
            id: self.message_id.clone(),
            object: "realtime.item".to_owned(),
            type_: "message".to_owned(),
            status: "in_progress".to_owned(),
            role: Some("assistant".to_owned()),
            content: Some(Vec::new()),
            call_id: None,
            name: None,
            arguments: None,
            output: None,
        };
        let mut added = StreamEvent::bare("response.output_item.added".to_owned());
        added.item_id = Some(self.message_id.clone());
        added.output_index = Some(0);
        added.item = Some(item);
        let e1 = self.emit(added);

        let mut part = StreamEvent::bare("response.content_part.added".to_owned());
        part.item_id = Some(self.message_id.clone());
        part.output_index = Some(0);
        part.content_index = Some(0);
        let e2 = self.emit(part);

        self.phase = Phase::Streaming;
        let mut out: Vec<StreamEvent> = Vec::new();
        out.push(e0);
        out.push(e1);
        out.push(e2);
        proof {
            assert(out@ =~= seq![e0, e1, e2]);
            assert(final(self).events() =~= old(self).events() + out@);
            assert(ev_matches(e0, created_sketch(old(self).rid())));
            assert(ev_matches(e1, msg_added_sketch(old(self).msg_id())));
            assert(ev_matches(e2, part_added_sketch(old(self).msg_id())));
        }
        out
    }

    /// Whether a chunk asked to end the stream (an in-chunk error).
    pub fn is_done(&self) -> (r: bool)
        ensures
            r == self.st().done,
    {
        self.done
    }

    /// Emit every finish event after the streaming loop: the reasoning
    /// `done` if reasoning was streamed; the text `done`, part `done`
    /// and message item `done` if text was produced; the closing pair of
    /// every tool call in index order; and exactly one terminal
    /// `response.completed` carrying the full output, as the last event.
    pub fn finish(&mut self) -> (r: Vec<StreamEvent>)
        requires
            old(self).wf(),
            old(self).phase() == Phase::Streaming,
        ensures
            final(self).wf(),
            final(self).phase() == Phase::Finished,
            final(self).preserved_from(*old(self)),
            final(self).st() == old(self).st(),
            final(self).events() =~= old(self).events() + r@,
            evs_match(
                r@,
                finish_sketches(
                    old(self).st(),
                    old(self).rid(),
                    old(self).msg_id(),
                    old(self).reason_id(),
                ),
            ),
            r@.last().response matches Some(resp) && resp_echoes(
                resp,
                old(self).echo_fields(),
                old(self).created(),
                old(self).st().reasoning_started,
            ),
    {
        let ghost st0 = old(self).st();
        let ghost sketches = finish_sketches(st0, old(self).rid(), old(self).msg_id(), old(self).reason_id());
        let mut out: Vec<StreamEvent> = Vec::new();

        if self.reasoning_started {
            let mut ev = StreamEvent::bare("response.reasoning_text.done".to_owned());
            ev.item_id = Some(self.reasoning_id.clone());
            ev.output_index = Some(0);
            ev.content_index = Some(0);
            ev.text = Some(string_from_chars(&self.accumulated_reasoning));
            let e = self.emit(ev);
            out.push(e);
            proof {
                assert(ev_matches(e, reasoning_done_sketch(old(self).reason_id(), st0.reasoning)));
            }
        }

        if self.accumulated_text.len() > 0 {
            let full_text = string_from_chars(&self.accumulated_text);
            let mut ev = StreamEvent::bare("response.output_text.done".to_owned());
            ev.item_id = Some(self.message_id.clone());
            ev.output_index = Some(0);
            ev.content_index = Some(0);
            ev.text = Some(full_text);
            let e = self.emit(ev);
            out.push(e);

            let mut ev2 = StreamEvent::bare("response.content_part.done".to_owned());
            ev2.item_id = Some(self.message_id.clone());
            ev2.output_index = Some(0);
            ev2.content_index = Some(0);
            let e2 = self.emit(ev2);
            out.push(e2);

            let item = OutputItem {
                id: self.message_id.clone(),
                object: "realtime.item".to_owned(),
                type_: "message".to_owned(),
                status: "completed".to_owned(),
                role: Some("assistant".to_owned()),
                content: Some(
                    vec![
                        OutputContent::OutputText {
                            text: string_from_chars(&self.accumulated_text),
                            annotations: Vec::new(),
                        },
                    ],
                ),
                call_id: None,
                name: None,
                arguments: None,
                output: None,
            };
            let mut ev3 = StreamEvent::bare("response.output_item.done".to_owned());
            ev3.item_id = Some(self.message_id.clone());
            ev3.output_index = Some(0);
            ev3.item = Some(item);
            let e3 = self.emit(ev3);
            out.push(e3);
            proof {
                let ts = text_done_sketches(old(self).msg_id(), st0.text);
                assert(ev_matches(e, ts[0]));
                assert(ev_matches(e2, ts[1]));
                assert(ev_matches(e3, ts[2]));
            }
        }

        let ghost head = (if st0.reasoning_started { 1int } else { 0int }) + (if st0.text.len() > 0 {
            3int
        } else {
            0int
        });
        proof {
            let a: Seq<EvSketch> = if st0.reasoning_started {
                seq![reasoning_done_sketch(old(self).reason_id(), st0.reasoning)]
            } else {
                Seq::empty()
            };
            let b: Seq<EvSketch> = if st0.text.len() > 0 {
                text_done_sketches(old(self).msg_id(), st0.text)
            } else {
                Seq::empty()
            };
            assert(sketches.subrange(0, head) =~= a + b);
            assert(evs_match(out@, a + b));
        }

        let mut k: usize = 0;
        while k < self.tool_calls.len()
            invariant
                self.wf(),
                self.phase == Phase::Streaming,
                k <= self.tool_calls@.len(),
                self.st() == st0,
                self.rid() == old(self).rid(),
                self.req_id() == old(self).req_id(),
                self.msg_id() == old(self).msg_id(),
                self.reason_id() == old(self).reason_id(),
                self.created() == old(self).created(),
                self.echo_fields() == old(self).echo_fields(),
                self.response_id@ == old(self).response_id@,
                head == (if st0.reasoning_started { 1int } else { 0int }) + (if st0.text.len() > 0 {
                    3int
                } else {
                    0int
                }),
                sketches == finish_sketches(st0, old(self).rid(), old(self).msg_id(), old(self).reason_id()),
                out@.len() == head + 2 * k,
                self.events() =~= old(self).events() + out@,
                evs_match(
                    out@,
                    sketches.subrange(0, head) + call_done_sketches(
                        st0.calls.subrange(0, k as int),
                    ),
                ),
            decreases self.tool_calls.len() - k,
        {
            let ghost calls_pre = st0.calls.subrange(0, k as int);
            let ghost calls_cur = st0.calls.subrange(0, k as int + 1);
            proof {
                assert(calls_cur.drop_last() =~= calls_pre);
                assert(calls_cur.last() == st0.calls[k as int]);
            }
            let idx = self.tool_calls[k].index;
            let call_id = self.tool_calls[k].call_id.clone();
            let item_id = self.tool_calls[k].item_id.clone();
            let arguments = self.tool_calls[k].arguments.clone();
            let display_name = match &self.tool_calls[k].name {
                Some(n) => n.clone(),
                None => "function_call".to_owned(),
            };
            let idx32 = if (idx as u64) < (u32::MAX as u64) {
                (idx as u32) + 1
            } else {
                u32::MAX
            };
            proof {
                assert(idx32 == out_idx(idx)) by {
                    if (idx as u64) < (u32::MAX as u64) {
                        assert(idx as u32 == idx);
                    }
                }
            }

            let mut ev = StreamEvent::bare("response.function_call_arguments.done".to_owned());
            ev.item_id = Some(item_id.clone());
            ev.output_index = Some(idx32);
            ev.call_id = Some(call_id.clone());
            ev.name = Some(display_name.clone());
            ev.arguments = Some(arguments.clone());
            let e = self.emit(ev);
            out.push(e);

            let item = OutputItem {
                id: item_id.clone(),
                object: "realtime.item".to_owned(),
                type_: "function_call".to_owned(),
                status: "completed".to_owned(),
                role: None,
                content: None,
                call_id: Some(call_id.clone()),
                name: Some(display_name),
                arguments: Some(arguments),
                output: None,
            };
            let mut ev2 = StreamEvent::bare("response.output_item.done".to_owned());
            ev2.item_id = Some(item_id);
            ev2.output_index = Some(idx32);
            ev2.call_id = Some(call_id);
            ev2.item = Some(item);
            let e2 = self.emit(ev2);
            out.push(e2);

            proof {
                let c = st0.calls[k as int];
                assert(ev_matches(e, call_args_done_sketch(c)));
                assert(ev_matches(e2, call_item_done_sketch(c)));
                assert(call_done_sketches(calls_cur) =~= call_done_sketches(calls_pre) + seq![
                    call_args_done_sketch(c),
                    call_item_done_sketch(c),
                ]);
                assert(evs_match(
                    out@,
                    sketches.subrange(0, head) + call_done_sketches(calls_cur),
                ));
            }
            k = k + 1;
        }

        // the completed response
        let mut output_items: Vec<OutputItem> = Vec::new();
        if self.reasoning_started && self.accumulated_reasoning.len() > 0 {
            output_items.push(
                OutputItem {
                    id: self.reasoning_id.clone(),
                    object: "realtime.item".to_owned(),
                    type_: "reasoning".to_owned(),
                    status: "completed".to_owned(),
                    role: Some("assistant".to_owned()),
                    content: Some(
                        vec![
                            OutputContent::Reasoning {
                                text: string_from_chars(&self.accumulated_reasoning),
                            },
                        ],
                    ),
                    call_id: None,
                    name: None,
                    arguments: None,
                    output: None,
                },
            );
        }
        output_items.push(
            OutputItem {
                id: self.message_id.clone(),
                object: "realtime.item".to_owned(),
                type_: "message".to_owned(),
                status: "completed".to_owned(),
                role: Some("assistant".to_owned()),
                content: Some(
                    vec![
                        OutputContent::OutputText {
                            text: string_from_chars(&self.accumulated_text),
                            annotations: Vec::new(),
                        },
                    ],
                ),
                call_id: None,
                name: None,
                arguments: None,
                output: None,
            },
        );
        let ghost items_head = output_items@.len() as int;
        proof {
            let expect = completed_item_sketches(st0, old(self).msg_id(), old(self).reason_id());
            if st0.reasoning_started && st0.reasoning.len() > 0 {
                assert(expect[0] == ItemSketch {
                    id: old(self).reason_id(),
                    type_: "reasoning"@,
                    status: "completed"@,
                    role: Some("assistant"@),
                    content: ContentSketch::Reasoning(st0.reasoning),
                    call_id: None,
                    name: None,
                    arguments: None,
                });
                assert(item_matches(output_items@[0], expect[0]));
                assert(expect[1] == message_item_sketch(
                    old(self).msg_id(),
                    "completed"@,
                    ContentSketch::Text(st0.text),
                ));
                assert(item_matches(output_items@[1], expect[1]));
            } else {
                assert(expect[0] == message_item_sketch(
                    old(self).msg_id(),
                    "completed"@,
                    ContentSketch::Text(st0.text),
                ));
                assert(item_matches(output_items@[0], expect[0]));
            }
        }
        let mut k2: usize = 0;
        while k2 < self.tool_calls.len()
            invariant
                self.wf(),
                self.phase == Phase::Streaming,
                k2 <= self.tool_calls@.len(),
                self.st() == st0,
                self.msg_id() == old(self).msg_id(),
                self.reason_id() == old(self).reason_id(),
                items_head == (if st0.reasoning_started && st0.reasoning.len() > 0 { 1int } else { 0int })
                    + 1,
                output_items@.len() == items_head + k2,
                forall|j: int| 0 <= j < output_items@.len() ==> item_matches(
                    #[trigger] output_items@[j],
                    completed_item_sketches(st0, old(self).msg_id(), old(self).reason_id())[j],
                ),
            decreases self.tool_calls.len() - k2,
        {
            let call_id = self.tool_calls[k2].call_id.clone();
            let item_id = self.tool_calls[k2].item_id.clone();
            let arguments = self.tool_calls[k2].arguments.clone();
            let display_name = match &self.tool_calls[k2].name {
                Some(n) => n.clone(),
                None => "function_call".to_owned(),
            };
            output_items.push(
                OutputItem {
                    id: item_id,
                    object: "realtime.item".to_owned(),
                    type_: "function_call".to_owned(),
                    status: "completed".to_owned(),
                    role: None,
                    content: None,
                    call_id: Some(call_id),
                    name: Some(display_name),
                    arguments: Some(arguments),
                    output: None,
                },
            );
            proof {
                let expect = completed_item_sketches(st0, old(self).msg_id(), old(self).reason_id());
                let mapped = st0.calls.map_values(|c: CallSt| call_item_sketch(c));
                assert(expect[items_head + k2] == mapped[k2 as int]);
                assert(mapped[k2 as int] == call_item_sketch(st0.calls[k2 as int]));
                assert(item_matches(output_items@.last(), expect[items_head + k2]));
            }
            k2 = k2 + 1;
        }

        let usage = Some(
            Usage {
                input_tokens: self.total_input_tokens,
                output_tokens: self.total_output_tokens,
                total_tokens: self.total_input_tokens.saturating_add(self.total_output_tokens),
                input_tokens_details: Some(TokenDetails { cached_tokens: 0, reasoning_tokens: 0 }),
                output_tokens_details: Some(TokenDetails { cached_tokens: 0, reasoning_tokens: 0 }),
            },
        );
        let incomplete = if crate::text::str_eq(self.final_status, "incomplete") {
            Some(IncompleteDetails { reason: "max_output_tokens".to_owned() })
        } else {
            None
        };
        let resp = self.base_response(
            self.final_status.to_owned(),
            output_items,
            usage,
            incomplete,
            self.reasoning_started,
        );
        self.phase = Phase::Finished;
        let mut ev = StreamEvent::bare("response.completed".to_owned());
        ev.response = Some(resp);
        let ghost out_pre = out@;
        let last = self.emit(ev);
        out.push(last);
        proof {
            let completed = completed_sketch(st0, old(self).rid(), old(self).msg_id(), old(self).reason_id());
            assert(ev_matches(last, completed));
            let cds = call_done_sketches(st0.calls);
            assert(st0.calls.subrange(0, st0.calls.len() as int) =~= st0.calls);
            assert(evs_match(out_pre, sketches.subrange(0, head) + cds));
            assert(sketches =~= sketches.subrange(0, head) + cds + seq![completed]);
            assert(out@.len() == sketches.len());
            assert forall|i: int| 0 <= i < out@.len() implies ev_matches(
                #[trigger] out@[i],
                sketches[i],
            ) by {
                if i < out@.len() - 1 {
                    assert(out@[i] == out_pre[i]);
                    assert(sketches[i] == (sketches.subrange(0, head) + cds)[i]);
                    assert(ev_matches(out_pre[i], (sketches.subrange(0, head) + cds)[i]));
                } else {
                    assert(sketches[i] == completed);
                }
            }
        }
        out
    }

    /// Handle one native tool-call fragment.
    fn handle_tool_delta(&mut self, tc: &ToolCallDelta) -> (r: Vec<StreamEvent>)
        requires
            old(self).wf(),
            old(self).phase() == Phase::Streaming,
        ensures
            final(self).wf(),
            final(self).preserved_from(*old(self)),
            final(self).phase() == Phase::Streaming,
            final(self).st() == tool_delta_step(old(self).st(), *tc, old(self).ids()).0,
            final(self).events() =~= old(self).events() + r@,
            evs_match(r@, tool_delta_step(old(self).st(), *tc, old(self).ids()).1),
    {
        let ghost st_in = old(self).st();
        let pos = find_call_exec(&self.tool_calls, tc.index);
        let mut c: ToolCallState = match pos {
            Some(p) => ToolCallState {
                index: self.tool_calls[p].index,
                call_id: self.tool_calls[p].call_id.clone(),
                item_id: self.tool_calls[p].item_id.clone(),
                type_: self.tool_calls[p].type_.clone(),
                name: copy_opt_string(&self.tool_calls[p].name),
                arguments: self.tool_calls[p].arguments.clone(),
                item_added: self.tool_calls[p].item_added,
            },
            None => {
                let cid: String = match &tc.id {
                    Some(id) => id.clone(),
                    None => {
                        let mut ch = chars_of("call_");
                        push_all(&mut ch, &chars_of(self.request_id.as_str()));
                        push_all(&mut ch, &chars_of("_"));
                        push_all(&mut ch, &u64_to_dec(tc.index as u64));
                        proof {
                            assert(ch@ =~= native_call_id(self.req_id(), tc.index));
                        }
                        string_from_chars(&ch)
                    },
                };
                ToolCallState {
                    index: tc.index,
                    call_id: cid.clone(),
                    item_id: cid,
                    type_: match &tc.type_ {
                        Some(t) => t.clone(),
                        None => "function".to_owned(),
                    },
                    name: None,
                    arguments: String::new(),
                    item_added: false,
                }
            },
        };
        if let Some(id) = &tc.id {
            c.call_id = id.clone();
            c.item_id = id.clone();
        }
        if let Some(t) = &tc.type_ {
            c.type_ = t.clone();
        }
        let idx32: u32 = if tc.index < (u32::MAX as usize) {
            (tc.index + 1) as u32
        } else {
            u32::MAX
        };
        proof {
            assert(idx32 == out_idx(tc.index));
        }
        let mut out: Vec<StreamEvent> = Vec::new();
        if let Some(f) = &tc.function {
            if let Some(n) = &f.name {
                c.name = Some(n.clone());
                if !c.item_added {
                    c.item_added = true;
                    let item = OutputItem {
                        id: c.item_id.clone(),
                        object: "realtime.item".to_owned(),
                        type_: "function_call".to_owned(),
                        status: "in_progress".to_owned(),
                        role: None,
                        content: None,
                        call_id: Some(c.call_id.clone()),
                        name: copy_opt_string(&c.name),
                        arguments: Some(String::new()),
                        output: None,
                    };
                    let mut ev = StreamEvent::bare("response.output_item.added".to_owned());
                    ev.item_id = Some(c.item_id.clone());
                    ev.output_index = Some(idx32);
                    ev.call_id = Some(c.call_id.clone());
                    ev.item = Some(item);
                    let e = self.emit(ev);
                    out.push(e);
                    proof {
                        assert(ev_matches(e, native_added_sketch(c@)));
                    }
                }
            }
            if let Some(a) = &f.arguments {
                let mut ch = chars_of(c.arguments.as_str());
                push_all(&mut ch, &chars_of(a.as_str()));
                c.arguments = string_from_chars(&ch);
                let mut ev = StreamEvent::bare(
                    "response.function_call_arguments.delta".to_owned(),
                );
                ev.item_id = Some(c.item_id.clone());
                ev.output_index = Some(idx32);
                ev.delta = Some(a.clone());
                ev.call_id = Some(c.call_id.clone());
                let e = self.emit(ev);
                out.push(e);
                proof {
                    assert(ev_matches(e, args_delta_sketch(c@, a@)));
                }
            }
        }
        let ghost c_final = c@;
        match pos {
            Some(p) => {
                self.tool_calls.set(p, c);
                proof {
                    let cs = self.tool_calls@.map_values(|x: ToolCallState| x@);
                    let expect = st_in.calls.update(p as int, c_final);
                    assert forall|j: int| 0 <= j < cs.len() implies cs[j] == expect[j] by {}
                    assert(cs =~= expect);
                    assert forall|i: int, j: int| 0 <= i < j < cs.len() implies cs[i].index
                        <= cs[j].index by {
                        assert(cs[i] == expect[i] && cs[j] == expect[j]);
                        assert(st_in.calls[p as int].index == tc.index);
                    }
                }
            },
            None => {
                insert_call_exec(&mut self.tool_calls, c);
            },
        }
        proof {
            let (st2, sk) = tool_delta_step(st_in, *tc, old(self).ids());
            assert(self.st().calls =~= st2.calls);
            assert(self.st() == st2);
            assert(evs_match(out@, sk));
        }
        out
    }

    /// Emit one text delta, unless it repeats the last one.
    fn emit_text_delta(&mut self, t: &Vec<char>) -> (r: Vec<StreamEvent>)
        requires
            old(self).wf(),
            old(self).phase() == Phase::Streaming,
        ensures
            final(self).wf(),
            final(self).preserved_from(*old(self)),
            final(self).phase() == Phase::Streaming,
            final(self).st() == text_emit(old(self).st(), t@, old(self).ids()).0,
            final(self).events() =~= old(self).events() + r@,
            evs_match(r@, text_emit(old(self).st(), t@, old(self).ids()).1),
    {
        let dup = match &self.last_text_delta {
            Some(d) => chars_eq(d, t),
            None => false,
        };
        let mut out: Vec<StreamEvent> = Vec::new();
        if !dup {
            self.last_text_delta = Some(crate::text::vec_sub(t, 0, t.len()));
            proof {
                assert(t@.subrange(0, t@.len() as int) =~= t@);
            }
            let mut ev = StreamEvent::bare("response.output_text.delta".to_owned());
            ev.item_id = Some(self.message_id.clone());
            ev.output_index = Some(0);
            ev.content_index = Some(0);
            ev.delta = Some(string_from_chars(t));
            let e = self.emit(ev);
            out.push(e);
            proof {
                assert(ev_matches(e, text_delta_sketch(old(self).msg_id(), t@)));
                assert(self.st().last_delta == Some(t@));
                assert(self.st() == text_emit(old(self).st(), t@, old(self).ids()).0);
            }
        }
        out
    }

    /// Handle one recovered text fragment: append it, buffer and salvage
    /// XML tool calls, and emit deduplicated text deltas.
    fn handle_text_fragment(&mut self, t: &Vec<char>) -> (r: Vec<StreamEvent>)
        requires
            old(self).wf(),
            old(self).phase() == Phase::Streaming,
        ensures
            final(self).wf(),
            final(self).preserved_from(*old(self)),
            final(self).phase() == Phase::Streaming,
            final(self).st() == content_step(old(self).st(), t@, old(self).ids()).0,
            final(self).events() =~= old(self).events() + r@,
            evs_match(r@, content_step(old(self).st(), t@, old(self).ids()).1),
    {
        let ghost st_in = old(self).st();
        let ghost ids = old(self).ids();
        let mut out: Vec<StreamEvent> = Vec::new();
        if t.len() == 0 {
            return out;
        }
        proof {
            reveal_strlit("<function=");
            reveal_strlit("</tool_call>");
            reveal_strlit("</function>");
        }
        push_all(&mut self.accumulated_text, t);
        let fn_open = chars_of("<function=");
        let has_marker = match crate::text::find_sub_from(&self.accumulated_text, &fn_open, 0) {
            Some(_) => true,
            None => false,
        };
        let flip = !self.xml_buffering && has_marker;
        if flip {
            self.xml_buffering = true;
            self.last_text_delta = None;
        }
        if self.xml_buffering {
            let tc_close = chars_of("</tool_call>");
            let fn_close = chars_of("</function>");
            let has_closing = match crate::text::find_sub_from(
                &self.accumulated_text,
                &tc_close,
                0,
            ) {
                Some(_) => true,
                None => match crate::text::find_sub_from(&self.accumulated_text, &fn_close, 0) {
                    Some(_) => true,
                    None => false,
                },
            };
            if has_closing {
                let buffered = string_from_chars(&self.accumulated_text);
                let (cleaned, calls) = crate::xml::extract_xml_tool_calls(buffered.as_str());
                let ghost spec_calls = crate::xml::extract_spec(buffered@).1;
                if calls.len() > 0 {
                    self.accumulated_text = chars_of(cleaned.as_str());
                    self.xml_buffering = false;
                    let ghost st_base = self.st();
                    let ghost sk_all = xml_fold(st_base, spec_calls, 0, ids).1;
                    proof {
                        lemma_xml_fold_len(st_base, spec_calls, 0, ids);
                    }
                    let mut k: usize = 0;
                    while k < calls.len()
                        invariant
                            self.wf(),
                            self.phase == Phase::Streaming,
                            self.preserved_from(*old(self)),
                            k <= calls@.len(),
                            ids == old(self).ids(),
                            calls@.len() == spec_calls.len(),
                            forall|j: int| 0 <= j < calls@.len() ==> (#[trigger] calls@[j]).name@
                                == spec_calls[j].0 && calls@[j].arguments@ == spec_calls[j].1,
                            sk_all == xml_fold(st_base, spec_calls, 0, ids).1,
                            xml_fold(st_base, spec_calls, 0, ids).0 == xml_fold(
                                self.st(),
                                spec_calls,
                                k as int,
                                ids,
                            ).0,
                            sk_all =~= sk_all.subrange(0, 2 * k as int) + xml_fold(
                                self.st(),
                                spec_calls,
                                k as int,
                                ids,
                            ).1,
                            out@.len() == 2 * k,
                            evs_match(out@, sk_all.subrange(0, 2 * k as int)),
                            self.events() =~= old(self).events() + out@,
                        decreases calls@.len() - k,
                    {
                        let ghost st_k = self.st();
                        let idx = alloc_free_exec(&self.tool_calls, self.next_xml_index);
                        let mut ch = chars_of("call_xml_");
                        push_all(&mut ch, &chars_of(self.request_id.as_str()));
                        push_all(&mut ch, &chars_of("_"));
                        push_all(&mut ch, &u64_to_dec(idx as u64));
                        proof {
                            assert((idx as u64) as nat == idx as nat);
                            assert(ch@ =~= xml_call_id(ids.req_id, idx));
                        }
                        let cid = string_from_chars(&ch);
                        let name = calls[k].name.clone();
                        let arguments = calls[k].arguments.clone();
                        let idx32: u32 = if idx < (u32::MAX as usize) {
                            (idx + 1) as u32
                        } else {
                            u32::MAX
                        };
                        proof {
                            assert(idx32 == out_idx(idx));
                        }
                        let c = ToolCallState {
                            index: idx,
                            call_id: cid.clone(),
                            item_id: cid.clone(),
                            type_: "function".to_owned(),
                            name: Some(name.clone()),
                            arguments: arguments.clone(),
                            item_added: true,
                        };
                        let ghost c_view = c@;

                        let item = OutputItem {
                            id: cid.clone(),
                            object: "realtime.item".to_owned(),
                            type_: "function_call".to_owned(),
                            status: "in_progress".to_owned(),
                            role: None,
                            content: None,
                            call_id: Some(cid.clone()),
                            name: Some(name.clone()),
                            arguments: None,
                            output: None,
                        };
                        let mut ev = StreamEvent::bare("response.output_item.added".to_owned());
                        ev.item_id = Some(cid.clone());
                        ev.output_index = Some(idx32);
                        ev.call_id = Some(cid.clone());
                        ev.name = Some(name.clone());
                        ev.item = Some(item);
                        let e = self.emit(ev);
                        out.push(e);

                        let mut ev2 = StreamEvent::bare(
                            "response.function_call_arguments.done".to_owned(),
                        );
                        ev2.item_id = Some(cid.clone());
                        ev2.output_index = Some(idx32);
                        ev2.call_id = Some(cid.clone());
                        ev2.name = Some(name.clone());
                        ev2.arguments = Some(arguments);
                        let e2 = self.emit(ev2);
                        out.push(e2);

                        insert_call_exec(&mut self.tool_calls, c);
                        self.next_xml_index = if idx < usize::MAX {
                            idx + 1
                        } else {
                            idx
                        };

                        proof {
                            assert(ev_matches(e, xml_added_sketch(c_view, spec_calls[k as int].0)));
                            assert(ev_matches(
                                e2,
                                xml_args_done_sketch(
                                    c_view,
                                    spec_calls[k as int].0,
                                    spec_calls[k as int].1,
                                ),
                            ));
                            let (st_next, pair) = (
                                xml_fold(st_k, spec_calls, k as int, ids).0,
                                seq![
                                    xml_added_sketch(c_view, spec_calls[k as int].0),
                                    xml_args_done_sketch(
                                        c_view,
                                        spec_calls[k as int].0,
                                        spec_calls[k as int].1,
                                    ),
                                ],
                            );
                            assert(self.st() == OrchSt {
                                calls: insert_call(st_k.calls, c_view),
                                next_xml: sat_inc(c_view.index),
                                ..st_k
                            });
                            assert(sk_all.subrange(0, 2 * (k + 1) as int) =~= sk_all.subrange(
                                0,
                                2 * k as int,
                            ) + pair) by {
                                assert(xml_fold(st_k, spec_calls, k as int, ids).1 =~= pair
                                    + xml_fold(self.st(), spec_calls, k as int + 1, ids).1);
                            }
                        }
                        k = k + 1;
                    }
                    proof {
                        assert(xml_fold(self.st(), spec_calls, calls@.len() as int, ids).1
                            =~= Seq::<EvSketch>::empty());
                        assert(sk_all =~= sk_all.subrange(0, 2 * calls@.len() as int));
                        assert(evs_match(out@, sk_all));
                    }
                    out
                } else {
                    self.xml_buffering = false;
                    let evs = self.emit_text_delta(t);
                    append_events(&mut out, evs);
                    out
                }
            } else {
                out
            }
        } else {
            let evs = self.emit_text_delta(t);
            append_events(&mut out, evs);
            out
        }
    }

    /// Process one choice of a backend chunk.
    #[verifier::rlimit(100)]
    fn process_choice(&mut self, choice: &Choice) -> (r: Vec<StreamEvent>)
        requires
            old(self).wf(),
            old(self).phase() == Phase::Streaming,
        ensures
            final(self).wf(),
            final(self).preserved_from(*old(self)),
            final(self).phase() == Phase::Streaming,
            final(self).st() == choice_step(old(self).st(), *choice, old(self).ids()).0,
            final(self).events() =~= old(self).events() + r@,
            evs_match(r@, choice_step(old(self).st(), *choice, old(self).ids()).1),
    {
        let mut out: Vec<StreamEvent> = Vec::new();
        if let Some(reason) = &choice.finish_reason {
            self.final_status = crate::translate::translate_finish_reason(Some(reason.as_str()));
        }
        if let Some(m) = &choice.message {
            if let Some(text) = &m.content {
                push_all(&mut self.accumulated_text, &chars_of(text.as_str()));
                let mut ev = StreamEvent::bare("response.output_text.delta".to_owned());
                ev.item_id = Some(self.message_id.clone());
                ev.output_index = Some(0);
                ev.content_index = Some(0);
                ev.delta = Some(text.clone());
                let e = self.emit(ev);
                out.push(e);
                proof {
                    assert(ev_matches(e, text_delta_sketch(old(self).msg_id(), text@)));
                }
            }
            return out;
        }
        if let Some(d) = &choice.delta {
            let evs = self.process_delta(d);
            append_events(&mut out, evs);
            proof {
                assert(out@ =~= evs@);
            }
        }
        out
    }

    /// Process one streamed delta: reasoning, text, then tool calls.
    #[verifier::rlimit(100)]
    fn process_delta(&mut self, d: &Delta) -> (r: Vec<StreamEvent>)
        requires
            old(self).wf(),
            old(self).phase() == Phase::Streaming,
        ensures
            final(self).wf(),
            final(self).preserved_from(*old(self)),
            final(self).phase() == Phase::Streaming,
            final(self).st() == delta_step(old(self).st(), *d, old(self).ids()).0,
            final(self).events() =~= old(self).events() + r@,
            evs_match(r@, delta_step(old(self).st(), *d, old(self).ids()).1),
    {
        let mut out: Vec<StreamEvent> = Vec::new();
        if let Some(rtext) = &d.reasoning_content {
            if !rtext.as_str().is_empty() {
                push_all(&mut self.accumulated_reasoning, &chars_of(rtext.as_str()));
                self.reasoning_started = true;
                let mut ev = StreamEvent::bare("response.reasoning_text.delta".to_owned());
                ev.item_id = Some(self.reasoning_id.clone());
                ev.output_index = Some(0);
                ev.content_index = Some(0);
                ev.delta = Some(rtext.clone());
                let e = self.emit(ev);
                out.push(e);
                proof {
                    assert(ev_matches(e, reasoning_delta_sketch(old(self).reason_id(), rtext@)));
                }
            }
        }
        let ghost n1 = out@.len() as int;
        let ghost st_b = self.st();
        if let Some(cv) = &d.content {
            match extract_text_delta(cv) {
                Some(t) => {
                    let tv = chars_of(t.as_str());
                    proof {
                        assert(tv@ == recover_text(*cv)->Some_0);
                    }
                    let evs = self.handle_text_fragment(&tv);
                    append_events(&mut out, evs);
                    proof {
                        assert(out@.subrange(n1, out@.len() as int) =~= evs@);
                    }
                },
                None => {},
            }
        }
        let ghost n2 = out@.len() as int;
        let ghost st_c = self.st();
        if let Some(ts) = &d.tool_calls {
            let ghost st_mid = self.st();
            let ghost ids = old(self).ids();
            let ghost pre_out = out@;
            let ghost pre_events = self.events();
            let mut k: usize = 0;
            while k < ts.len()
                invariant
                    self.wf(),
                    self.phase == Phase::Streaming,
                    self.preserved_from(*old(self)),
                    ids == old(self).ids(),
                    k <= ts@.len(),
                    tools_fold(st_mid, ts@, 0, ids).0 == tools_fold(self.st(), ts@, k as int, ids).0,
                    out@.len() >= pre_out.len(),
                    out@.subrange(0, pre_out.len() as int) =~= pre_out,
                    evs_match(
                        out@.skip(pre_out.len() as int),
                        tools_fold(st_mid, ts@, 0, ids).1.subrange(0, out@.len() - pre_out.len()),
                    ),
                    tools_fold(st_mid, ts@, 0, ids).1 =~= tools_fold(st_mid, ts@, 0, ids).1.subrange(
                        0,
                        out@.len() - pre_out.len(),
                    ) + tools_fold(self.st(), ts@, k as int, ids).1,
                    self.events() =~= pre_events + out@.skip(pre_out.len() as int),
                decreases ts@.len() - k,
            {
                let ghost st_k = self.st();
                let evs = self.handle_tool_delta(&ts[k]);
                append_events(&mut out, evs);
                proof {
                    assert(tools_fold(st_k, ts@, k as int, ids).1 =~= tool_delta_step(
                        st_k,
                        ts@[k as int],
                        ids,
                    ).1 + tools_fold(self.st(), ts@, k as int + 1, ids).1);
                }
                k = k + 1;
            }
            proof {
                assert(tools_fold(self.st(), ts@, ts@.len() as int, ids).1
                    =~= Seq::<EvSketch>::empty());
                assert(tools_fold(st_mid, ts@, 0, ids).1 =~= tools_fold(
                    st_mid,
                    ts@,
                    0,
                    ids,
                ).1.subrange(0, out@.len() - pre_out.len()));
            }
        }
        proof {
            let ids0 = old(self).ids();
            let target = delta_step(old(self).st(), *d, ids0);
            let s1 = out@.subrange(0, n1);
            let s2 = out@.subrange(n1, n2);
            let s3 = out@.subrange(n2, out@.len() as int);
            assert(out@ =~= s1 + s2 + s3);
            let sk1 = match &d.reasoning_content {
                Some(r) => if r@.len() > 0 {
                    seq![reasoning_delta_sketch(ids0.reason_id, r@)]
                } else {
                    Seq::<EvSketch>::empty()
                },
                None => Seq::<EvSketch>::empty(),
            };
            let sk2 = match &d.content {
                Some(cv) => match recover_text(*cv) {
                    Some(t) => content_step(st_b, t, ids0).1,
                    None => Seq::<EvSketch>::empty(),
                },
                None => Seq::<EvSketch>::empty(),
            };
            let sk3 = match &d.tool_calls {
                Some(ts) => tools_fold(st_c, ts@, 0, ids0).1,
                None => Seq::<EvSketch>::empty(),
            };
            assert(evs_match(s1, sk1));
            assert(evs_match(s2, sk2));
            assert(evs_match(s3, sk3));
            assert(target.1 =~= sk1 + sk2 + sk3);
            assert forall|i: int| 0 <= i < out@.len() implies ev_matches(
                #[trigger] out@[i],
                target.1[i],
            ) by {
                if i < n1 {
                    assert(out@[i] == s1[i] && target.1[i] == sk1[i]);
                } else if i < n2 {
                    assert(out@[i] == s2[i - n1] && target.1[i] == sk2[i - n1]);
                } else {
                    assert(out@[i] == s3[i - n2] && target.1[i] == sk3[i - n2]);
                }
            }
        }
        out
    }

    /// Consume one backend chunk: an in-chunk error fails the response
    /// and ends the stream; token usage is recorded last-write-wins; and
    /// every choice is translated into its events.
    pub fn on_chunk(&mut self, chunk: &ChatCompletionChunk) -> (r: Vec<StreamEvent>)
        requires
            old(self).wf(),
            old(self).phase() == Phase::Streaming,
        ensures
            final(self).wf(),
            final(self).preserved_from(*old(self)),
            final(self).phase() == Phase::Streaming,
            final(self).st() == chunk_step(old(self).st(), *chunk, old(self).ids()).0,
            final(self).events() =~= old(self).events() + r@,
            evs_match(r@, chunk_step(old(self).st(), *chunk, old(self).ids()).1),
    {
        let mut out: Vec<StreamEvent> = Vec::new();
        if chunk.error.is_some() {
            self.final_status = "failed";
            self.done = true;
            return out;
        }
        if let Some(u) = &chunk.usage {
            if let Some(p) = u.prompt_tokens {
                self.total_input_tokens = p;
            }
            if let Some(c) = u.completion_tokens {
                self.total_output_tokens = c;
            }
        }
        let ghost st_mid = self.st();
        let ghost ids = old(self).ids();
        let ghost pre_events = self.events();
        let mut k: usize = 0;
        while k < chunk.choices.len()
            invariant
                self.wf(),
                self.phase == Phase::Streaming,
                self.preserved_from(*old(self)),
                ids == old(self).ids(),
                k <= chunk.choices@.len(),
                choices_fold(st_mid, chunk.choices@, 0, ids).0 == choices_fold(
                    self.st(),
                    chunk.choices@,
                    k as int,
                    ids,
                ).0,
                evs_match(
                    out@,
                    choices_fold(st_mid, chunk.choices@, 0, ids).1.subrange(0, out@.len() as int),
                ),
                choices_fold(st_mid, chunk.choices@, 0, ids).1 =~= choices_fold(
                    st_mid,
                    chunk.choices@,
                    0,
                    ids,
                ).1.subrange(0, out@.len() as int) + choices_fold(
                    self.st(),
                    chunk.choices@,
                    k as int,
                    ids,
                ).1,
                self.events() =~= pre_events + out@,
            decreases chunk.choices@.len() - k,
        {
            let ghost st_k = self.st();
            let evs = self.process_choice(&chunk.choices[k]);
            append_events(&mut out, evs);
            proof {
                assert(choices_fold(st_k, chunk.choices@, k as int, ids).1 =~= choice_step(
                    st_k,
                    chunk.choices@[k as int],
                    ids,
                ).1 + choices_fold(self.st(), chunk.choices@, k as int + 1, ids).1);
            }
            k = k + 1;
        }
        proof {
            assert(choices_fold(self.st(), chunk.choices@, chunk.choices@.len() as int, ids).1
                =~= Seq::<EvSketch>::empty());
            assert(choices_fold(st_mid, chunk.choices@, 0, ids).1 =~= choices_fold(
                st_mid,
                chunk.choices@,
                0,
                ids,
            ).1.subrange(0, out@.len() as int));
        }
        out
    }

    /// Run one whole response over an already-collected chunk list:
    /// the preamble, every chunk until one ends the stream, and the
    /// finish events.  Every event is stamped for its position (so the
    /// sequence numbers rise strictly from 1 and the event ids are
    /// unique, by `lemma_sequence_numbers` and `lemma_event_ids`), and
    /// exactly the last event is terminal.
    pub fn process_response(&mut self, chunks: &Vec<ChatCompletionChunk>) -> (r: Vec<StreamEvent>)
        requires
            old(self).wf(),
            old(self).phase() == Phase::Start,
        ensures
            final(self).wf(),
            final(self).phase() == Phase::Finished,
            final(self).events() =~= old(self).events() + r@,
            events_stamped(final(self).events(), final(self).rid()),
            final(self).rid() == old(self).rid(),
            old(self).events().len() == 0 ==> events_stamped(r@, old(self).rid()),
            r@.len() > 3,
            forall|i: int| 0 <= i < r@.len() ==> (is_terminal(#[trigger] r@[i]) <==> i == r@.len()
                - 1),
            evs_match(r@.subrange(0, 3), preamble_sketches(old(self).rid(), old(self).msg_id())),
            r@.last().response matches Some(resp) && resp_matches_core(
                resp,
                completed_sketch(
                    final(self).st(),
                    old(self).rid(),
                    old(self).msg_id(),
                    old(self).reason_id(),
                ).response->Some_0,
            ) && resp_echoes(
                resp,
                old(self).echo_fields(),
                old(self).created(),
                final(self).st().reasoning_started,
            ),
            final(self).st().text.len() == 0 ==> forall|i: int|
                0 <= i < r@.len() ==> !closes_message_item(#[trigger] r@[i]),
    {
        let ghost ids = old(self).ids();
        let mut out = self.preamble();
        proof {
            lemma_preamble_nonterminal(old(self).rid(), old(self).msg_id());
            assert forall|i: int| 0 <= i < out@.len() implies !is_terminal(#[trigger] out@[i])
                && !closes_message_item(out@[i]) by {
                assert(ev_matches(out@[i], preamble_sketches(old(self).rid(), old(self).msg_id())[i]));
                lemma_preamble_no_close(old(self).rid(), old(self).msg_id(), out@[i], i);
            }
        }
        let mut k: usize = 0;
        while k < chunks.len()
            invariant
                self.wf(),
                self.phase == Phase::Streaming,
                self.preserved_from(*old(self)),
                ids == old(self).ids(),
                k <= chunks@.len(),
                out@.len() >= 3,
                self.events() =~= old(self).events() + out@,
                evs_match(out@.subrange(0, 3), preamble_sketches(old(self).rid(), old(self).msg_id())),
                forall|i: int| 0 <= i < out@.len() ==> !is_terminal(#[trigger] out@[i])
                    && !closes_message_item(out@[i]),
            decreases chunks@.len() - k,
        {
            if self.done {
                break;
            }
            let ghost st_k = self.st();
            let evs = self.on_chunk(&chunks[k]);
            proof {
                lemma_chunk_step_types(st_k, chunks@[k as int], ids);
                assert forall|i: int| 0 <= i < evs@.len() implies !is_terminal(#[trigger] evs@[i])
                    && !closes_message_item(evs@[i]) by {
                    assert(ev_matches(evs@[i], chunk_step(st_k, chunks@[k as int], ids).1[i]));
                    lemma_stream_delta_type_excludes(
                        chunk_step(st_k, chunks@[k as int], ids).1[i].type_,
                    );
                }
            }
            let ghost pre_out = out@;
            append_events(&mut out, evs);
            proof {
                assert(out@.subrange(0, 3) =~= pre_out.subrange(0, 3));
            }
            k = k + 1;
        }
        let ghost st_fin = self.st();
        let ghost pre_out = out@;
        let evs = self.finish();
        proof {
            lemma_finish_terminal(st_fin, old(self).rid(), old(self).msg_id(), old(self).reason_id());
            lemma_message_item_pairing(st_fin, old(self).rid(), old(self).msg_id(), old(self).reason_id());
            if st_fin.text.len() == 0 {
                let sk = finish_sketches(st_fin, old(self).rid(), old(self).msg_id(), old(self).reason_id());
                assert forall|i: int| 0 <= i < evs@.len() implies !closes_message_item(
                    #[trigger] evs@[i],
                ) by {
                    assert(ev_matches(evs@[i], sk[i]));
                }
            }
        }
        append_events(&mut out, evs);
        proof {
            let sk = finish_sketches(st_fin, old(self).rid(), old(self).msg_id(), old(self).reason_id());
            assert(out@.subrange(0, 3) =~= pre_out.subrange(0, 3));
            assert(evs@.len() == sk.len());
            assert(out@.len() > 3);
            assert forall|i: int| 0 <= i < out@.len() implies (is_terminal(#[trigger] out@[i])
                <==> i == out@.len() - 1) by {
                if i < pre_out.len() {
                    assert(out@[i] == pre_out[i]);
                } else {
                    let j = i - pre_out.len();
                    assert(out@[i] == evs@[j]);
                    assert(ev_matches(evs@[j], sk[j]));
                    if j < sk.len() - 1 {
                        assert(sk[j].type_ != "response.completed"@ && sk[j].type_
                            != "response.failed"@);
                    } else {
                        assert(sk[j].type_ == "response.completed"@);
                        assert(sk[j] == completed_sketch(
                            st_fin,
                            old(self).rid(),
                            old(self).msg_id(),
                            old(self).reason_id(),
                        ));
                    }
                }
            }
            assert(out@.last() == evs@.last());
            assert(ev_matches(evs@.last(), sk.last()));
            assert(sk.last() == completed_sketch(
                st_fin,
                old(self).rid(),
                old(self).msg_id(),
                old(self).reason_id(),
            ));
            if old(self).events().len() == 0 {
                assert(final(self).events() =~= out@);
            }
        }
        out
    }
}

// ---------- whole-run composition and laws ----------

/// The streaming state after a sequence of chunks.
pub open spec fn run_state(st: OrchSt, chunks: Seq<ChatCompletionChunk>, i: int, ids: OrchIds) -> OrchSt
    decreases chunks.len() - i,
{
    if i < 0 || i >= chunks.len() {
        st
    } else {
        run_state(chunk_step(st, chunks[i], ids).0, chunks, i + 1, ids)
    }
}

/// The event types the streaming loop can emit.
pub open spec fn is_stream_delta_type(t: Seq<char>) -> bool {
    t == "response.output_text.delta"@ || t == "response.reasoning_text.delta"@ || t
        == "response.output_item.added"@ || t == "response.function_call_arguments.delta"@ || t
        == "response.function_call_arguments.done"@
}

proof fn lemma_xml_fold_types(st: OrchSt, calls: Seq<crate::xml::SpecCall>, i: int, ids: OrchIds)
    ensures
        forall|k: int| 0 <= k < xml_fold(st, calls, i, ids).1.len() ==> is_stream_delta_type(
            (#[trigger] xml_fold(st, calls, i, ids).1[k]).type_,
        ),
    decreases calls.len() - i,
{
    if 0 <= i < calls.len() {
        let idx = alloc_free(st.calls, 0, st.next_xml);
        let cid = xml_call_id(ids.req_id, idx);
        let c = CallSt {
            index: idx,
            call_id: cid,
            item_id: cid,
            type_: "function"@,
            name: Some(calls[i].0),
            arguments: calls[i].1,
            item_added: true,
        };
        let st2 = OrchSt { calls: insert_call(st.calls, c), next_xml: sat_inc(idx), ..st };
        lemma_xml_fold_types(st2, calls, i + 1, ids);
    }
}

proof fn lemma_tools_fold_types(st: OrchSt, ts: Seq<ToolCallDelta>, i: int, ids: OrchIds)
    ensures
        forall|k: int| 0 <= k < tools_fold(st, ts, i, ids).1.len() ==> is_stream_delta_type(
            (#[trigger] tools_fold(st, ts, i, ids).1[k]).type_,
        ),
    decreases ts.len() - i,
{
    if 0 <= i < ts.len() {
        lemma_tools_fold_types(tool_delta_step(st, ts[i], ids).0, ts, i + 1, ids);
    }
}

proof fn lemma_content_step_types(st: OrchSt, t: Seq<char>, ids: OrchIds)
    ensures
        forall|k: int| 0 <= k < content_step(st, t, ids).1.len() ==> is_stream_delta_type(
            (#[trigger] content_step(st, t, ids).1[k]).type_,
        ),
{
    if t.len() > 0 {
        let text1 = st.text + t;
        let flip = !st.buffering && has_sub(text1, "<function="@);
        let last1: Option<Seq<char>> = if flip {
            None
        } else {
            st.last_delta
        };
        let buffering1 = st.buffering || flip;
        let st1 = OrchSt { text: text1, last_delta: last1, buffering: buffering1, ..st };
        if buffering1 && (has_sub(text1, "</tool_call>"@) || has_sub(text1, "</function>"@)) {
            let (cleaned, calls) = crate::xml::extract_spec(text1);
            if calls.len() > 0 {
                let st2 = OrchSt { text: cleaned, buffering: false, ..st1 };
                lemma_xml_fold_types(st2, calls, 0, ids);
            }
        }
    }
}

proof fn lemma_choice_step_types(st: OrchSt, choice: Choice, ids: OrchIds)
    ensures
        forall|k: int| 0 <= k < choice_step(st, choice, ids).1.len() ==> is_stream_delta_type(
            (#[trigger] choice_step(st, choice, ids).1[k]).type_,
        ),
{
    let st0 = match choice.finish_reason {
        Some(r) => OrchSt { status: crate::translate::spec_finish_status(Some(r@)), ..st },
        None => st,
    };
    match choice.message {
        Some(_) => {},
        None => match choice.delta {
            None => {},
            Some(d) => {
                let (st1, _) = match d.reasoning_content {
                    Some(r) => if r@.len() > 0 {
                        (
                            OrchSt {
                                reasoning: st0.reasoning + r@,
                                reasoning_started: true,
                                ..st0
                            },
                            seq![reasoning_delta_sketch(ids.reason_id, r@)],
                        )
                    } else {
                        (st0, Seq::<EvSketch>::empty())
                    },
                    None => (st0, Seq::<EvSketch>::empty()),
                };
                match d.content {
                    Some(cv) => match recover_text(cv) {
                        Some(t) => lemma_content_step_types(st1, t, ids),
                        None => {},
                    },
                    None => {},
                }
                let (st2, _) = match d.content {
                    Some(cv) => match recover_text(cv) {
                        Some(t) => content_step(st1, t, ids),
                        None => (st1, Seq::<EvSketch>::empty()),
                    },
                    None => (st1, Seq::<EvSketch>::empty()),
                };
                match d.tool_calls {
                    Some(ts) => lemma_tools_fold_types(st2, ts@, 0, ids),
                    None => {},
                }
            },
        },
    }
}

proof fn lemma_choices_fold_types(st: OrchSt, cs: Seq<Choice>, i: int, ids: OrchIds)
    ensures
        forall|k: int| 0 <= k < choices_fold(st, cs, i, ids).1.len() ==> is_stream_delta_type(
            (#[trigger] choices_fold(st, cs, i, ids).1[k]).type_,
        ),
    decreases cs.len() - i,
{
    if 0 <= i < cs.len() {
        lemma_choice_step_types(st, cs[i], ids);
        lemma_choices_fold_types(choice_step(st, cs[i], ids).0, cs, i + 1, ids);
    }
}

/// Every event a chunk produces is a delta or item event of the
/// streaming loop; none is terminal and none closes the message item.
pub proof fn lemma_chunk_step_types(st: OrchSt, chunk: ChatCompletionChunk, ids: OrchIds)
    ensures
        forall|k: int| 0 <= k < chunk_step(st, chunk, ids).1.len() ==> is_stream_delta_type(
            (#[trigger] chunk_step(st, chunk, ids).1[k]).type_,
        ),
{
    if !(chunk.error is Some) {
        let st1 = match chunk.usage {
            Some(u) => OrchSt {
                in_tokens: match u.prompt_tokens {
                    Some(p) => p,
                    None => st.in_tokens,
                },
                out_tokens: match u.completion_tokens {
                    Some(c) => c,
                    None => st.out_tokens,
                },
                ..st
            },
            None => st,
        };
        lemma_choices_fold_types(st1, chunk.choices@, 0, ids);
    }
}

/// A streaming-loop event is neither terminal nor a `done` event of the
/// message item or its content part.
pub proof fn lemma_stream_delta_type_excludes(t: Seq<char>)
    requires
        is_stream_delta_type(t),
    ensures
        t != "response.completed"@,
        t != "response.failed"@,
        t != "response.content_part.done"@,
        !(t == "response.output_item.done"@),
{
    reveal_strlit("response.output_text.delta");
    reveal_strlit("response.reasoning_text.delta");
    reveal_strlit("response.output_item.added");
    reveal_strlit("response.function_call_arguments.delta");
    reveal_strlit("response.function_call_arguments.done");
    reveal_strlit("response.completed");
    reveal_strlit("response.failed");
    reveal_strlit("response.content_part.done");
    reveal_strlit("response.output_item.done");
    assert("response.output_text.delta"@.len() == 26);
    assert("response.reasoning_text.delta"@.len() == 29);
    assert("response.output_item.added"@.len() == 26);
    assert("response.function_call_arguments.delta"@.len() == 38);
    assert("response.function_call_arguments.done"@.len() == 37);
    assert("response.completed"@.len() == 18);
    assert("response.failed"@.len() == 15);
    assert("response.content_part.done"@.len() == 26);
    assert("response.output_item.done"@.len() == 25);
    assert("response.output_text.delta"@[9] == 'o');
    assert("response.output_item.added"@[9] == 'o');
    assert("response.content_part.done"@[9] == 'c');
    if t == "response.output_text.delta"@ || t == "response.output_item.added"@ {
        assert(t[9] == 'o');
        assert(t != "response.content_part.done"@);
    }
}

/// Sequence numbers are strictly increasing and start at 1 (P-style
/// ordering law), for any response of fewer events than the counter can
/// count.
pub proof fn lemma_sequence_numbers(es: Seq<StreamEvent>, rid: Seq<char>)
    requires
        events_stamped(es, rid),
        es.len() <= u32::MAX,
    ensures
        es.len() > 0 ==> es[0].sequence_number == Some(1u32),
        forall|i: int, j: int| 0 <= i < j < es.len() ==> (#[trigger] es[i]).sequence_number->Some_0
            < (#[trigger] es[j]).sequence_number->Some_0,
{
    assert forall|i: int, j: int| 0 <= i < j < es.len() implies (
    #[trigger] es[i]).sequence_number->Some_0 < (#[trigger] es[j]).sequence_number->Some_0 by {
        assert(es[i].sequence_number == Some(seq_at(i)));
        assert(es[j].sequence_number == Some(seq_at(j)));
    }
}

/// An event id stamped for position `i`: `evt_<response_id>_<16 hex
/// digits>` with the digits rendering counter `i + 1` (every character a
/// hex digit, by `lemma_hex_of_digits`).
pub open spec fn well_formed_event_id(e: StreamEvent, rid: Seq<char>, i: int) -> bool {
    e.event_id matches Some(id) && id@ == "evt_"@ + rid + "_"@ + crate::text::hex_of(
        ctr_at(i) as nat,
        16,
    )
}

/// Every event id has the form `evt_<response_id>_<16 hex digits>`, and
/// ids are unique within the response.
pub proof fn lemma_event_ids(es: Seq<StreamEvent>, rid: Seq<char>)
    requires
        events_stamped(es, rid),
        es.len() < u64::MAX,
    ensures
        forall|i: int| 0 <= i < es.len() ==> well_formed_event_id(#[trigger] es[i], rid, i),
        forall|i: int, j: int| 0 <= i < j < es.len() ==> (#[trigger] es[i]).event_id->Some_0@ != (
        #[trigger] es[j]).event_id->Some_0@,
{
    assert forall|i: int| 0 <= i < es.len() implies well_formed_event_id(
        #[trigger] es[i],
        rid,
        i,
    ) by {
        assert(es[i].event_id matches Some(id) && id@ == event_id_of(rid, ctr_at(i)));
    }
    assert forall|i: int, j: int| 0 <= i < j < es.len() implies (
    #[trigger] es[i]).event_id->Some_0@ != (#[trigger] es[j]).event_id->Some_0@ by {
        assert(ctr_at(i) != ctr_at(j));
        crate::sequencer::lemma_event_id_injective(rid, ctr_at(i), ctr_at(j));
    }
}

/// A fresh backend index: with every tracked index below the largest
/// `usize`, the allocator returns an index no call occupies, so a
/// salvaged call never collides with a native one.
pub proof fn lemma_alloc_free_fresh(calls: Seq<CallSt>, i: int, n: usize)
    requires
        calls_sorted(calls),
        0 <= i,
        forall|j: int| 0 <= j < calls.len() ==> (#[trigger] calls[j]).index < usize::MAX,
    ensures
        alloc_free(calls, i, n) >= n,
        alloc_free(calls, i, n) == n || exists|j: int|
            i <= j < calls.len() && (#[trigger] calls[j]).index + 1 == alloc_free(calls, i, n),
        forall|j: int| i <= j < calls.len() ==> (#[trigger] calls[j]).index != alloc_free(
            calls,
            i,
            n,
        ),
    decreases calls.len() - i,
{
    if i < calls.len() {
        let r = alloc_free(calls, i, n);
        if calls[i].index == n {
            lemma_alloc_free_fresh(calls, i + 1, sat_inc(n));
            assert(sat_inc(n) == n + 1);
            assert(r >= n + 1);
            assert(calls[i].index != r);
            if r == n + 1 {
                assert(calls[i].index + 1 == r);
            }
        } else {
            lemma_alloc_free_fresh(calls, i + 1, n);
            assert(r == alloc_free(calls, i + 1, n));
            if calls[i].index == r {
                assert(r != n);
                assert(r > n) by {
                    assert(r >= n);
                }
                let j = choose|j: int|
                    i + 1 <= j < calls.len() && (#[trigger] calls[j]).index + 1 == r;
                assert(calls[j].index + 1 == r);
                assert(calls[j].index >= calls[i].index);
                assert(false);
            }
        }
    }
}

/// The completed event reports `max_output_tokens` as the incomplete
/// reason exactly when the final status is `incomplete`.
pub proof fn lemma_incomplete_reason(st: OrchSt, rid: Seq<char>, msg_id: Seq<char>, reason_id: Seq<char>)
    ensures
        completed_sketch(st, rid, msg_id, reason_id).response->Some_0.incomplete_reason == if st.status
            == "incomplete"@ {
            Some("max_output_tokens"@)
        } else {
            None::<Seq<char>>
        },
{
}

/// The message item's closing events appear exactly when text was
/// produced: with text, the finish events close the text, the part and
/// the item at output index 0; without text, no finish event closes
/// the part or the item at output index 0.
pub proof fn lemma_message_item_pairing(st: OrchSt, rid: Seq<char>, msg_id: Seq<char>, reason_id: Seq<char>)
    ensures
        st.text.len() == 0 ==> forall|i: int|
            0 <= i < finish_sketches(st, rid, msg_id, reason_id).len() ==> !(((
            #[trigger] finish_sketches(st, rid, msg_id, reason_id)[i]).type_
                == "response.content_part.done"@ || finish_sketches(st, rid, msg_id, reason_id)[i].type_
                == "response.output_item.done"@) && finish_sketches(st, rid, msg_id, reason_id)[i].output_index
                == Some(0u32)),
        st.text.len() > 0 ==> exists|i: int|
            0 <= i < finish_sketches(st, rid, msg_id, reason_id).len() && (
            #[trigger] finish_sketches(st, rid, msg_id, reason_id)[i]).type_
                == "response.output_item.done"@ && finish_sketches(st, rid, msg_id, reason_id)[i].output_index
                == Some(0u32) && finish_sketches(st, rid, msg_id, reason_id)[i].item == Some(
                message_item_sketch(msg_id, "completed"@, ContentSketch::Text(st.text)),
            ),
{
    reveal_strlit("response.completed");
    reveal_strlit("response.failed");
    reveal_strlit("response.reasoning_text.done");
    reveal_strlit("response.output_text.done");
    reveal_strlit("response.content_part.done");
    reveal_strlit("response.output_item.done");
    reveal_strlit("response.function_call_arguments.done");
    let sk = finish_sketches(st, rid, msg_id, reason_id);
    let a: Seq<EvSketch> = if st.reasoning_started {
        seq![reasoning_done_sketch(reason_id, st.reasoning)]
    } else {
        Seq::empty()
    };
    let b: Seq<EvSketch> = if st.text.len() > 0 {
        text_done_sketches(msg_id, st.text)
    } else {
        Seq::empty()
    };
    let cds = call_done_sketches(st.calls);
    lemma_call_done_index(st.calls);
    if st.text.len() == 0 {
        assert forall|i: int| 0 <= i < sk.len() implies !(((#[trigger] sk[i]).type_
            == "response.content_part.done"@ || sk[i].type_ == "response.output_item.done"@)
            && sk[i].output_index == Some(0u32)) by {
            assert(sk == a + b + cds + seq![completed_sketch(st, rid, msg_id, reason_id)]);
            assert("response.content_part.done"@.len() == 26);
            assert("response.output_item.done"@.len() == 25);
            assert("response.reasoning_text.done"@.len() == 28);
            assert("response.completed"@.len() == 18);
            assert("response.function_call_arguments.done"@.len() == 37);
            if i < a.len() {
                assert(sk[i] == a[0]);
            } else if i < a.len() + b.len() {
            } else if i < a.len() + b.len() + cds.len() {
                let j = i - a.len() - b.len();
                assert(sk[i] == cds[j]);
                let k = j / 2;
                assert(0 <= k < st.calls.len());
                if j % 2 == 0 {
                    assert(j == 2 * k);
                    assert(cds[j] == call_args_done_sketch(st.calls[k]));
                } else {
                    assert(j == 2 * k + 1);
                    assert(cds[j] == call_item_done_sketch(st.calls[k]));
                    assert(cds[j].output_index == Some(out_idx(st.calls[k].index)));
                    assert(out_idx(st.calls[k].index) >= 1);
                }
            } else {
                assert(sk[i] == completed_sketch(st, rid, msg_id, reason_id));
            }
        }
    } else {
        let w = a.len() as int + 2;
        assert(sk == a + b + cds + seq![completed_sketch(st, rid, msg_id, reason_id)]);
        assert(sk[w] == b[2]);
        assert(b[2].type_ == "response.output_item.done"@);
        assert(b[2].output_index == Some(0u32));
        assert(b[2].item == Some(message_item_sketch(msg_id, "completed"@, ContentSketch::Text(st.text))));
    }
}

/// Append a batch of events to an output list.
fn append_events(dst: &mut Vec<StreamEvent>, src: Vec<StreamEvent>)
    ensures
        final(dst)@ =~= old(dst)@ + src@,
{
    let ghost src0 = src@;
    let mut src = src;
    let total = src.len();
    let mut taken: usize = 0;
    while src.len() > 0
        invariant
            total == src0.len(),
            taken + src@.len() == total,
            src@ =~= src0.subrange(taken as int, src0.len() as int),
            dst@ =~= old(dst)@ + src0.subrange(0, taken as int),
        decreases src@.len(),
    {
        let e = src.remove(0);
        proof {
            assert(src0.subrange(0, taken + 1 as int) =~= src0.subrange(0, taken as int).push(e));
            assert(src@ =~= src0.subrange(taken + 1 as int, src0.len() as int));
        }
        dst.push(e);
        taken = taken + 1;
    }
    proof {
        assert(src0.subrange(0, src0.len() as int) =~= src0);
    }
}

/// The salvaged-call fold emits two events per remaining call.
proof fn lemma_xml_fold_len(st: OrchSt, calls: Seq<crate::xml::SpecCall>, i: int, ids: OrchIds)
    requires
        0 <= i <= calls.len(),
    ensures
        xml_fold(st, calls, i, ids).1.len() == 2 * (calls.len() - i),
    decreases calls.len() - i,
{
    if i < calls.len() {
        let idx = alloc_free(st.calls, 0, st.next_xml);
        let cid = xml_call_id(ids.req_id, idx);
        let c = CallSt {
            index: idx,
            call_id: cid,
            item_id: cid,
            type_: "function"@,
            name: Some(calls[i].0),
            arguments: calls[i].1,
            item_added: true,
        };
        let st2 = OrchSt { calls: insert_call(st.calls, c), next_xml: sat_inc(idx), ..st };
        lemma_xml_fold_len(st2, calls, i + 1, ids);
    }
}

/// Recover the text of a streamed content value, in whatever JSON shape
/// the backend chose.
pub fn extract_text_delta(value: &ContentValue) -> (r: Option<String>)
    ensures
        match r {
            Some(s) => recover_text(*value) == Some(s@),
            None => recover_text(*value) is None,
        },
    decreases *value,
{
    match value {
        ContentValue::Text(s) => Some(s.clone()),
        ContentValue::Typed { type_, text } => {
            if crate::text::str_eq(type_.as_str(), "text") || crate::text::str_eq(
                type_.as_str(),
                "output_text",
            ) {
                match text {
                    Some(t) => Some(t.clone()),
                    None => None,
                }
            } else {
                None
            }
        },
        ContentValue::List(items) => {
            let mut combined: Vec<char> = Vec::new();
            let mut i: usize = 0;
            #[verifier::loop_isolation(false)]
            while i < items.len()
                invariant
                    i <= items@.len(),
                    recover_fold(*items, 0, Seq::empty()) == recover_fold(*items, i as int, combined@),
                decreases items@.len() - i,
            {
                proof {
                    broadcast use vstd::std_specs::vec::axiom_vec_index_decreases;

                    assert(decreases_to!(*value => *items));
                    assert(decreases_to!(*items => items[i as int]));
                }
                match extract_text_delta(&items[i]) {
                    Some(seg) => {
                        if combined.len() == 0 {
                            combined = chars_of(seg.as_str());
                        } else {
                            push_all(&mut combined, &chars_of("\n"));
                            push_all(&mut combined, &chars_of(seg.as_str()));
                        }
                    },
                    None => {},
                }
                i = i + 1;
            }
            if combined.len() == 0 {
                None
            } else {
                Some(string_from_chars(&combined))
            }
        },
        ContentValue::Other => None,
    }
}

/// Find the first free index at or after `start`.
fn alloc_free_exec(calls: &Vec<ToolCallState>, start: usize) -> (r: usize)
    ensures
        r == alloc_free(calls@.map_values(|c: ToolCallState| c@), 0, start),
{
    let ghost cs = calls@.map_values(|c: ToolCallState| c@);
    let mut n: usize = start;
    let mut i: usize = 0;
    while i < calls.len()
        invariant
            i <= calls@.len(),
            cs == calls@.map_values(|c: ToolCallState| c@),
            alloc_free(cs, 0, start) == alloc_free(cs, i as int, n),
        decreases calls@.len() - i,
    {
        if calls[i].index == n {
            if n < usize::MAX {
                n = n + 1;
            }
        }
        i = i + 1;
    }
    n
}

/// Find the first tracked call with the given index.
fn find_call_exec(calls: &Vec<ToolCallState>, idx: usize) -> (r: Option<usize>)
    ensures
        match r {
            Some(p) => find_call(calls@.map_values(|c: ToolCallState| c@), idx) == Some(p as int)
                && p < calls@.len() && calls@[p as int].index == idx,
            None => find_call(calls@.map_values(|c: ToolCallState| c@), idx) is None,
        },
{
    let ghost cs = calls@.map_values(|c: ToolCallState| c@);
    let mut i: usize = 0;
    while i < calls.len()
        invariant
            i <= calls@.len(),
            cs == calls@.map_values(|c: ToolCallState| c@),
            find_call(cs, idx) == find_call_from(cs, idx, i as int),
        decreases calls@.len() - i,
    {
        if calls[i].index == idx {
            return Some(i);
        }
        i = i + 1;
    }
    None
}

proof fn lemma_insert_call_at(calls: Seq<CallSt>, c: CallSt, p: int)
    requires
        0 <= p <= calls.len(),
        forall|j: int| 0 <= j < p ==> calls[j].index <= c.index,
        forall|j: int| p <= j < calls.len() ==> c.index < calls[j].index,
    ensures
        insert_call(calls, c) =~= calls.subrange(0, p) + seq![c] + calls.subrange(
            p,
            calls.len() as int,
        ),
    decreases calls.len(),
{
    if calls.len() == 0 {
    } else if c.index < calls[0].index {
        assert(p == 0);
        assert(calls.subrange(0, calls.len() as int) =~= calls);
    } else {
        assert(p >= 1);
        lemma_insert_call_at(calls.drop_first(), c, p - 1);
        assert(calls.drop_first().subrange(0, p - 1) =~= calls.subrange(1, p));
        assert(calls.drop_first().subrange(p - 1, calls.drop_first().len() as int)
            =~= calls.subrange(p, calls.len() as int));
    }
}

/// Insert a call, keeping ascending index order.
fn insert_call_exec(calls: &mut Vec<ToolCallState>, c: ToolCallState)
    requires
        calls_sorted(old(calls)@.map_values(|x: ToolCallState| x@)),
    ensures
        final(calls)@.map_values(|x: ToolCallState| x@) =~= insert_call(
            old(calls)@.map_values(|x: ToolCallState| x@),
            c@,
        ),
        calls_sorted(final(calls)@.map_values(|x: ToolCallState| x@)),
{
    let ghost cs = old(calls)@.map_values(|x: ToolCallState| x@);
    let mut p: usize = 0;
    while p < calls.len() && calls[p].index <= c.index
        invariant
            p <= calls@.len(),
            calls@ == old(calls)@,
            cs == calls@.map_values(|x: ToolCallState| x@),
            forall|j: int| 0 <= j < p ==> cs[j].index <= c@.index,
        decreases calls@.len() - p,
    {
        p = p + 1;
    }
    proof {
        assert forall|j: int| p <= j < cs.len() implies c@.index < cs[j].index by {
            if p < cs.len() {
                assert(cs[p as int].index > c@.index);
            }
        }
        lemma_insert_call_at(cs, c@, p as int);
    }
    calls.insert(p, c);
    proof {
        let res = calls@.map_values(|x: ToolCallState| x@);
        let expect = cs.subrange(0, p as int) + seq![c@] + cs.subrange(p as int, cs.len() as int);
        assert forall|j: int| 0 <= j < res.len() implies res[j] == expect[j] by {
            if j < p {
                assert(calls@[j] == old(calls)@[j]);
            } else if j == p {
            } else {
                assert(calls@[j] == old(calls)@[j - 1]);
            }
        }
        assert(res =~= expect);
        assert forall|i: int, j: int| 0 <= i < j < res.len() implies res[i].index <= res[j].index by {
            assert(res[i] == expect[i] && res[j] == expect[j]);
        }
    }
}

// ---------- the preamble and finish, sketched ----------

/// The item sketch of the message item with the given status and content.
pub open spec fn message_item_sketch(msg_id: Seq<char>, status: Seq<char>, content: ContentSketch) -> ItemSketch {
    ItemSketch {
        id: msg_id,
        type_: "message"@,
        status,
        role: Some("assistant"@),
        content,
        call_id: None,
        name: None,
        arguments: None,
    }
}

/// The `response.created` event: an in-progress response with an empty
/// output.
pub open spec fn created_sketch(rid: Seq<char>) -> EvSketch {
    EvSketch {
        response: Some(
            RespSketch {
                id: rid,
                status: "in_progress"@,
                output: Seq::empty(),
                usage: None,
                incomplete_reason: None,
            },
        ),
        ..bare_sketch("response.created"@)
    }
}

/// The `output_item.added` event of the message item at output index 0.
pub open spec fn msg_added_sketch(msg_id: Seq<char>) -> EvSketch {
    EvSketch {
        item_id: Some(msg_id),
        output_index: Some(0u32),
        item: Some(message_item_sketch(msg_id, "in_progress"@, ContentSketch::EmptyList)),
        ..bare_sketch("response.output_item.added"@)
    }
}

/// The `content_part.added` event of the message's first content part.
pub open spec fn part_added_sketch(msg_id: Seq<char>) -> EvSketch {
    EvSketch {
        item_id: Some(msg_id),
        output_index: Some(0u32),
        content_index: Some(0u32),
        ..bare_sketch("response.content_part.added"@)
    }
}

/// The three preamble events, in order.
pub open spec fn preamble_sketches(rid: Seq<char>, msg_id: Seq<char>) -> Seq<EvSketch> {
    seq![created_sketch(rid), msg_added_sketch(msg_id), part_added_sketch(msg_id)]
}

/// The name a tool call is reported with: its function name, or
/// `function_call` when none ever arrived.
pub open spec fn call_display_name(c: CallSt) -> Seq<char> {
    match c.name {
        Some(n) => n,
        None => "function_call"@,
    }
}

/// The output index of a tool call: its backend index plus one (the
/// message item holds index 0), stopping at the largest `u32`.
pub open spec fn out_idx(i: usize) -> u32 {
    if i < u32::MAX {
        (i + 1) as u32
    } else {
        u32::MAX
    }
}

/// The `function_call_arguments.done` event of one finished call.
pub open spec fn call_args_done_sketch(c: CallSt) -> EvSketch {
    EvSketch {
        item_id: Some(c.item_id),
        output_index: Some(out_idx(c.index)),
        call_id: Some(c.call_id),
        name: Some(call_display_name(c)),
        arguments: Some(c.arguments),
        ..bare_sketch("response.function_call_arguments.done"@)
    }
}

/// The item sketch of one completed tool call.
pub open spec fn call_item_sketch(c: CallSt) -> ItemSketch {
    ItemSketch {
        id: c.item_id,
        type_: "function_call"@,
        status: "completed"@,
        role: None,
        content: ContentSketch::Absent,
        call_id: Some(c.call_id),
        name: Some(call_display_name(c)),
        arguments: Some(c.arguments),
    }
}

/// The `output_item.done` event of one finished call.
pub open spec fn call_item_done_sketch(c: CallSt) -> EvSketch {
    EvSketch {
        item_id: Some(c.item_id),
        output_index: Some(out_idx(c.index)),
        call_id: Some(c.call_id),
        item: Some(call_item_sketch(c)),
        ..bare_sketch("response.output_item.done"@)
    }
}

/// The closing event pair of every tracked call, in index order.
pub open spec fn call_done_sketches(calls: Seq<CallSt>) -> Seq<EvSketch>
    decreases calls.len(),
{
    if calls.len() == 0 {
        Seq::empty()
    } else {
        call_done_sketches(calls.drop_last()) + seq![
            call_args_done_sketch(calls.last()),
            call_item_done_sketch(calls.last()),
        ]
    }
}

/// The output items of the completed response: the reasoning item when
/// reasoning was produced, the message item always, then every tool
/// call.
pub open spec fn completed_item_sketches(st: OrchSt, msg_id: Seq<char>, reason_id: Seq<char>) -> Seq<ItemSketch> {
    let head: Seq<ItemSketch> = if st.reasoning_started && st.reasoning.len() > 0 {
        seq![
            ItemSketch {
                id: reason_id,
                type_: "reasoning"@,
                status: "completed"@,
                role: Some("assistant"@),
                content: ContentSketch::Reasoning(st.reasoning),
                call_id: None,
                name: None,
                arguments: None,
            },
        ]
    } else {
        Seq::empty()
    };
    head + seq![message_item_sketch(msg_id, "completed"@, ContentSketch::Text(st.text))]
        + st.calls.map_values(|c: CallSt| call_item_sketch(c))
}

/// The `response.completed` event: the final status, the full output,
/// the token totals, and the incomplete reason exactly when the status
/// is `incomplete`.
pub open spec fn completed_sketch(st: OrchSt, rid: Seq<char>, msg_id: Seq<char>, reason_id: Seq<char>) -> EvSketch {
    EvSketch {
        response: Some(
            RespSketch {
                id: rid,
                status: st.status,
                output: completed_item_sketches(st, msg_id, reason_id),
                usage: Some((st.in_tokens, st.out_tokens)),
                incomplete_reason: if st.status == "incomplete"@ {
                    Some("max_output_tokens"@)
                } else {
                    None
                },
            },
        ),
        ..bare_sketch("response.completed"@)
    }
}

/// The `reasoning_text.done` event closing streamed reasoning.
pub open spec fn reasoning_done_sketch(reason_id: Seq<char>, reasoning: Seq<char>) -> EvSketch {
    EvSketch {
        item_id: Some(reason_id),
        output_index: Some(0u32),
        content_index: Some(0u32),
        text: Some(reasoning),
        ..bare_sketch("response.reasoning_text.done"@)
    }
}

/// The three events closing produced text: the text `done`, the content
/// part `done`, and the message item `done`.
pub open spec fn text_done_sketches(msg_id: Seq<char>, text: Seq<char>) -> Seq<EvSketch> {
    seq![
        EvSketch {
            item_id: Some(msg_id),
            output_index: Some(0u32),
            content_index: Some(0u32),
            text: Some(text),
            ..bare_sketch("response.output_text.done"@)
        },
        EvSketch {
            item_id: Some(msg_id),
            output_index: Some(0u32),
            content_index: Some(0u32),
            ..bare_sketch("response.content_part.done"@)
        },
        EvSketch {
            item_id: Some(msg_id),
            output_index: Some(0u32),
            item: Some(message_item_sketch(msg_id, "completed"@, ContentSketch::Text(text))),
            ..bare_sketch("response.output_item.done"@)
        },
    ]
}

/// Every finish event, in order: the reasoning `done` when reasoning was
/// produced; the text `done` triple when text was produced; the two
/// closing events of every call; the completed event.
pub open spec fn finish_sketches(st: OrchSt, rid: Seq<char>, msg_id: Seq<char>, reason_id: Seq<char>) -> Seq<EvSketch> {
    let a: Seq<EvSketch> = if st.reasoning_started {
        seq![reasoning_done_sketch(reason_id, st.reasoning)]
    } else {
        Seq::empty()
    };
    let b: Seq<EvSketch> = if st.text.len() > 0 {
        text_done_sketches(msg_id, st.text)
    } else {
        Seq::empty()
    };
    a + b + call_done_sketches(st.calls) + seq![completed_sketch(st, rid, msg_id, reason_id)]
}

/// The closing pairs of a call list, indexed: two events per call, in
/// order.
pub proof fn lemma_call_done_index(calls: Seq<CallSt>)
    ensures
        call_done_sketches(calls).len() == 2 * calls.len(),
        forall|k: int| 0 <= k < calls.len() ==> call_done_sketches(calls)[2 * k]
            == call_args_done_sketch(calls[k]) && call_done_sketches(calls)[2 * k + 1]
            == call_item_done_sketch(calls[k]),
    decreases calls.len(),
{
    if calls.len() > 0 {
        lemma_call_done_index(calls.drop_last());
        assert forall|k: int| 0 <= k < calls.len() implies call_done_sketches(calls)[2 * k]
            == call_args_done_sketch(calls[k]) && call_done_sketches(calls)[2 * k + 1]
            == call_item_done_sketch(calls[k]) by {
            if k < calls.len() - 1 {
                assert(calls.drop_last()[k] == calls[k]);
            }
        }
    }
}

/// Of the finish events, exactly the last one is terminal: every `done`
/// event keeps the stream open, and the one `response.completed` closes
/// it.
pub proof fn lemma_finish_terminal(st: OrchSt, rid: Seq<char>, msg_id: Seq<char>, reason_id: Seq<char>)
    ensures
        finish_sketches(st, rid, msg_id, reason_id).len() > 0,
        forall|i: int| 0 <= i < finish_sketches(st, rid, msg_id, reason_id).len() - 1 ==> {
            let t = (#[trigger] finish_sketches(st, rid, msg_id, reason_id)[i]).type_;
            t != "response.completed"@ && t != "response.failed"@
        },
        finish_sketches(st, rid, msg_id, reason_id).last().type_ == "response.completed"@,
{
    reveal_strlit("response.completed");
    reveal_strlit("response.failed");
    reveal_strlit("response.reasoning_text.done");
    reveal_strlit("response.output_text.done");
    reveal_strlit("response.content_part.done");
    reveal_strlit("response.output_item.done");
    reveal_strlit("response.function_call_arguments.done");
    let sk = finish_sketches(st, rid, msg_id, reason_id);
    let a: Seq<EvSketch> = if st.reasoning_started {
        seq![reasoning_done_sketch(reason_id, st.reasoning)]
    } else {
        Seq::empty()
    };
    let b: Seq<EvSketch> = if st.text.len() > 0 {
        text_done_sketches(msg_id, st.text)
    } else {
        Seq::empty()
    };
    let cds = call_done_sketches(st.calls);
    lemma_call_done_index(st.calls);
    assert forall|i: int| 0 <= i < sk.len() - 1 implies {
        let t = (#[trigger] sk[i]).type_;
        t != "response.completed"@ && t != "response.failed"@
    } by {
        reveal_strlit("response.completed");
        reveal_strlit("response.failed");
        reveal_strlit("response.reasoning_text.done");
        reveal_strlit("response.output_text.done");
        reveal_strlit("response.content_part.done");
        reveal_strlit("response.output_item.done");
        reveal_strlit("response.function_call_arguments.done");
        assert(sk == a + b + cds + seq![completed_sketch(st, rid, msg_id, reason_id)]);
        assert(sk.len() == a.len() + b.len() + cds.len() + 1);
        assert("response.completed"@.len() == 18);
        assert("response.failed"@.len() == 15);
        assert("response.reasoning_text.done"@.len() == 28);
        assert("response.output_text.done"@.len() == 25);
        assert("response.content_part.done"@.len() == 26);
        assert("response.output_item.done"@.len() == 25);
        assert("response.function_call_arguments.done"@.len() == 37);
        if i < a.len() {
            assert(sk[i] == ((a + b + cds)[i]));
            assert((a + b + cds)[i] == (a + b)[i]);
            assert((a + b)[i] == a[0]);
            assert(sk[i].type_ == "response.reasoning_text.done"@);
        } else if i < a.len() + b.len() {
            let j = i - a.len();
            assert(sk[i] == ((a + b + cds)[i]));
            assert((a + b + cds)[i] == (a + b)[i]);
            assert((a + b)[i] == b[j]);
            assert(b[j].type_ == "response.output_text.done"@ || b[j].type_
                == "response.content_part.done"@ || b[j].type_ == "response.output_item.done"@);
        } else {
            let j = i - a.len() - b.len();
            assert(sk[i] == ((a + b + cds)[i]));
            assert((a + b + cds)[i] == cds[j]);
            let k = j / 2;
            assert(0 <= k < st.calls.len());
            if j % 2 == 0 {
                assert(j == 2 * k);
                assert(cds[j] == call_args_done_sketch(st.calls[k]));
                assert(sk[i].type_ == "response.function_call_arguments.done"@);
            } else {
                assert(j == 2 * k + 1);
                assert(cds[j] == call_item_done_sketch(st.calls[k]));
                assert(sk[i].type_ == "response.output_item.done"@);
            }
        }
    }
    assert(sk.last() == completed_sketch(st, rid, msg_id, reason_id));
}

/// No preamble event is terminal.
pub proof fn lemma_preamble_nonterminal(rid: Seq<char>, msg_id: Seq<char>)
    ensures
        forall|i: int| 0 <= i < preamble_sketches(rid, msg_id).len() ==> {
            let t = (#[trigger] preamble_sketches(rid, msg_id)[i]).type_;
            t != "response.completed"@ && t != "response.failed"@
        },
{
    reveal_strlit("response.completed");
    reveal_strlit("response.failed");
    reveal_strlit("response.created");
    reveal_strlit("response.output_item.added");
    reveal_strlit("response.content_part.added");
    let sk = preamble_sketches(rid, msg_id);
    assert("response.completed"@.len() == 18);
    assert("response.failed"@.len() == 15);
    assert("response.created"@.len() == 16);
    assert("response.output_item.added"@.len() == 26);
    assert("response.content_part.added"@.len() == 27);
    assert(sk[0].type_ == "response.created"@);
    assert(sk[1].type_ == "response.output_item.added"@);
    assert(sk[2].type_ == "response.content_part.added"@);
}

/// Whether an event closes the message item or its content part (the
/// pair suppressed when no text was produced).
pub open spec fn closes_message_item(e: StreamEvent) -> bool {
    (e.type_@ == "response.content_part.done"@ || e.type_@ == "response.output_item.done"@)
        && e.output_index == Some(0u32)
}

/// No preamble event closes the message item.
pub proof fn lemma_preamble_no_close(rid: Seq<char>, msg_id: Seq<char>, e: StreamEvent, i: int)
    requires
        0 <= i < preamble_sketches(rid, msg_id).len(),
        ev_matches(e, preamble_sketches(rid, msg_id)[i]),
    ensures
        !closes_message_item(e),
{
    reveal_strlit("response.created");
    reveal_strlit("response.output_item.added");
    reveal_strlit("response.content_part.added");
    reveal_strlit("response.content_part.done");
    reveal_strlit("response.output_item.done");
    assert("response.created"@.len() == 16);
    assert("response.output_item.added"@.len() == 26);
    assert("response.content_part.added"@.len() == 27);
    assert("response.content_part.done"@.len() == 26);
    assert("response.output_item.done"@.len() == 25);
    assert("response.output_item.added"@[9] == 'o');
    assert("response.content_part.done"@[9] == 'c');
    let sk = preamble_sketches(rid, msg_id);
    if i == 0 {
        assert(sk[0].type_ == "response.created"@);
    } else if i == 1 {
        assert(sk[1].type_ == "response.output_item.added"@);
        assert(e.type_@[9] == 'o');
    } else {
        assert(sk[2].type_ == "response.content_part.added"@);
    }
}

// ---------- chunk processing, specified ----------

/// The ids one response stamps into its events.
pub struct OrchIds {
    pub msg_id: Seq<char>,
    pub reason_id: Seq<char>,
    pub req_id: Seq<char>,
}

/// The text recovered from a streamed content value: a string is taken
/// as is, a `text`/`output_text` object contributes its text, an array
/// joins its recovered parts with newlines, anything else carries none.
pub open spec fn recover_text(cv: ContentValue) -> Option<Seq<char>>
    decreases cv, 0int, 0int,
{
    match cv {
        ContentValue::Text(s) => Some(s@),
        ContentValue::Typed { type_, text } => {
            if type_@ == "text"@ || type_@ == "output_text"@ {
                match text {
                    Some(t) => Some(t@),
                    None => None,
                }
            } else {
                None
            }
        },
        ContentValue::List(items) => {
            let combined = recover_fold(items, 0, Seq::empty());
            if combined.len() == 0 {
                None
            } else {
                Some(combined)
            }
        },
        ContentValue::Other => None,
    }
}

/// Fold the recovered texts of a value list into one newline-joined
/// text.
pub open spec fn recover_fold(items: Vec<ContentValue>, i: int, acc: Seq<char>) -> Seq<char>
    decreases items, 1int, items@.len() - i,
{
    if i < 0 || i >= items@.len() {
        acc
    } else {
        let acc2 = match recover_text(items@[i]) {
            Some(seg) => if acc.len() == 0 {
                seg
            } else {
                acc + "\n"@ + seg
            },
            None => acc,
        };
        recover_fold(items, i + 1, acc2)
    }
}

/// The `output_text.delta` event of one text fragment.
pub open spec fn text_delta_sketch(msg_id: Seq<char>, t: Seq<char>) -> EvSketch {
    EvSketch {
        item_id: Some(msg_id),
        output_index: Some(0u32),
        content_index: Some(0u32),
        delta: Some(t),
        ..bare_sketch("response.output_text.delta"@)
    }
}

/// The `reasoning_text.delta` event of one reasoning fragment.
pub open spec fn reasoning_delta_sketch(reason_id: Seq<char>, t: Seq<char>) -> EvSketch {
    EvSketch {
        item_id: Some(reason_id),
        output_index: Some(0u32),
        content_index: Some(0u32),
        delta: Some(t),
        ..bare_sketch("response.reasoning_text.delta"@)
    }
}

/// Emit a text delta unless it repeats the last one.
pub open spec fn text_emit(st: OrchSt, t: Seq<char>, ids: OrchIds) -> (OrchSt, Seq<EvSketch>) {
    if st.last_delta == Some(t) {
        (st, Seq::empty())
    } else {
        (
            OrchSt { last_delta: Some(t), ..st },
            seq![text_delta_sketch(ids.msg_id, t)],
        )
    }
}

/// `n + 1`, stopping at the largest `usize`.
pub open spec fn sat_inc(n: usize) -> usize {
    if n < usize::MAX {
        (n + 1) as usize
    } else {
        n
    }
}

/// The first backend index not taken by any tracked call, at or after
/// `n`; one ascending pass over the sorted call list.
pub open spec fn alloc_free(calls: Seq<CallSt>, i: int, n: usize) -> usize
    decreases calls.len() - i,
{
    if i < 0 || i >= calls.len() {
        n
    } else if calls[i].index == n {
        alloc_free(calls, i + 1, sat_inc(n))
    } else {
        alloc_free(calls, i + 1, n)
    }
}

/// A call list with one more call, keeping ascending index order.
pub open spec fn insert_call(calls: Seq<CallSt>, c: CallSt) -> Seq<CallSt>
    decreases calls.len(),
{
    if calls.len() == 0 {
        seq![c]
    } else if c.index < calls[0].index {
        seq![c] + calls
    } else {
        seq![calls[0]] + insert_call(calls.drop_first(), c)
    }
}

/// The position of the first call tracked for a backend index, if any,
/// searching from position `i`.
pub open spec fn find_call_from(calls: Seq<CallSt>, idx: usize, i: int) -> Option<int>
    decreases calls.len() - i,
{
    if i < 0 || i >= calls.len() {
        None
    } else if calls[i].index == idx {
        Some(i)
    } else {
        find_call_from(calls, idx, i + 1)
    }
}

/// The position of the call tracked for a backend index, if any.
pub open spec fn find_call(calls: Seq<CallSt>, idx: usize) -> Option<int> {
    find_call_from(calls, idx, 0)
}

/// The synthesised id of an XML-salvaged call.
pub open spec fn xml_call_id(req_id: Seq<char>, idx: usize) -> Seq<char> {
    "call_xml_"@ + req_id + "_"@ + crate::text::dec_of(idx as nat)
}

/// The synthesised id of a native call the backend never named.
pub open spec fn native_call_id(req_id: Seq<char>, idx: usize) -> Seq<char> {
    "call_"@ + req_id + "_"@ + crate::text::dec_of(idx as nat)
}

/// The `output_item.added` event of an XML-salvaged call.
pub open spec fn xml_added_sketch(c: CallSt, name: Seq<char>) -> EvSketch {
    EvSketch {
        item_id: Some(c.item_id),
        output_index: Some(out_idx(c.index)),
        call_id: Some(c.call_id),
        name: Some(name),
        item: Some(
            ItemSketch {
                id: c.item_id,
                type_: "function_call"@,
                status: "in_progress"@,
                role: None,
                content: ContentSketch::Absent,
                call_id: Some(c.call_id),
                name: Some(name),
                arguments: None,
            },
        ),
        ..bare_sketch("response.output_item.added"@)
    }
}

/// The immediate `function_call_arguments.done` event of an XML-salvaged
/// call.
pub open spec fn xml_args_done_sketch(c: CallSt, name: Seq<char>, args: Seq<char>) -> EvSketch {
    EvSketch {
        item_id: Some(c.item_id),
        output_index: Some(out_idx(c.index)),
        call_id: Some(c.call_id),
        name: Some(name),
        arguments: Some(args),
        ..bare_sketch("response.function_call_arguments.done"@)
    }
}

/// Attach the salvaged calls one by one: each takes the next free index
/// and immediately emits its `added` and `arguments.done` events.
pub open spec fn xml_fold(st: OrchSt, calls: Seq<crate::xml::SpecCall>, i: int, ids: OrchIds) -> (
    OrchSt,
    Seq<EvSketch>,
)
    decreases calls.len() - i,
{
    if i < 0 || i >= calls.len() {
        (st, Seq::empty())
    } else {
        let idx = alloc_free(st.calls, 0, st.next_xml);
        let cid = xml_call_id(ids.req_id, idx);
        let c = CallSt {
            index: idx,
            call_id: cid,
            item_id: cid,
            type_: "function"@,
            name: Some(calls[i].0),
            arguments: calls[i].1,
            item_added: true,
        };
        let st2 = OrchSt { calls: insert_call(st.calls, c), next_xml: sat_inc(idx), ..st };
        let evs = seq![
            xml_added_sketch(c, calls[i].0),
            xml_args_done_sketch(c, calls[i].0, calls[i].1),
        ];
        let (st3, rest) = xml_fold(st2, calls, i + 1, ids);
        (st3, evs + rest)
    }
}

/// One streamed text fragment: append it, start buffering when the text
/// holds an XML marker, salvage when a closing tag arrived, and
/// otherwise emit the fragment as a delta unless it repeats the last
/// one.
pub open spec fn content_step(st: OrchSt, t: Seq<char>, ids: OrchIds) -> (OrchSt, Seq<EvSketch>) {
    if t.len() == 0 {
        (st, Seq::empty())
    } else {
        let text1 = st.text + t;
        let flip = !st.buffering && has_sub(text1, "<function="@);
        let last1 = if flip {
            None
        } else {
            st.last_delta
        };
        let buffering1 = st.buffering || flip;
        let st1 = OrchSt { text: text1, last_delta: last1, buffering: buffering1, ..st };
        if buffering1 {
            if has_sub(text1, "</tool_call>"@) || has_sub(text1, "</function>"@) {
                let (cleaned, calls) = crate::xml::extract_spec(text1);
                if calls.len() > 0 {
                    let st2 = OrchSt { text: cleaned, buffering: false, ..st1 };
                    xml_fold(st2, calls, 0, ids)
                } else {
                    text_emit(OrchSt { buffering: false, ..st1 }, t, ids)
                }
            } else {
                (st1, Seq::empty())
            }
        } else {
            text_emit(st1, t, ids)
        }
    }
}

/// The `function_call_arguments.delta` event of one native fragment.
pub open spec fn args_delta_sketch(c: CallSt, frag: Seq<char>) -> EvSketch {
    EvSketch {
        item_id: Some(c.item_id),
        output_index: Some(out_idx(c.index)),
        delta: Some(frag),
        call_id: Some(c.call_id),
        ..bare_sketch("response.function_call_arguments.delta"@)
    }
}

/// The `output_item.added` event of a native call, emitted when its name
/// first arrives.
pub open spec fn native_added_sketch(c: CallSt) -> EvSketch {
    EvSketch {
        item_id: Some(c.item_id),
        output_index: Some(out_idx(c.index)),
        call_id: Some(c.call_id),
        item: Some(
            ItemSketch {
                id: c.item_id,
                type_: "function_call"@,
                status: "in_progress"@,
                role: None,
                content: ContentSketch::Absent,
                call_id: Some(c.call_id),
                name: c.name,
                arguments: Some(Seq::empty()),
            },
        ),
        ..bare_sketch("response.output_item.added"@)
    }
}

/// One native tool-call fragment: track the call under its backend
/// index, update its id and type as fields arrive, emit `added` on the
/// first name, and emit an arguments delta for each fragment.
pub open spec fn tool_delta_step(st: OrchSt, tc: ToolCallDelta, ids: OrchIds) -> (OrchSt, Seq<EvSketch>) {
    let base = match find_call(st.calls, tc.index) {
        Some(p) => st.calls[p],
        None => {
            let cid = match tc.id {
                Some(id) => id@,
                None => native_call_id(ids.req_id, tc.index),
            };
            CallSt {
                index: tc.index,
                call_id: cid,
                item_id: cid,
                type_: match tc.type_ {
                    Some(t) => t@,
                    None => "function"@,
                },
                name: None,
                arguments: Seq::empty(),
                item_added: false,
            }
        },
    };
    let c1 = CallSt {
        call_id: match tc.id {
            Some(id) => id@,
            None => base.call_id,
        },
        item_id: match tc.id {
            Some(id) => id@,
            None => base.item_id,
        },
        type_: match tc.type_ {
            Some(t) => t@,
            None => base.type_,
        },
        ..base
    };
    let (c2, evs) = match tc.function {
        None => (c1, Seq::<EvSketch>::empty()),
        Some(f) => {
            let (ca, evs_a) = match f.name {
                Some(n) => {
                    let named = CallSt { name: Some(n@), ..c1 };
                    if !named.item_added {
                        (
                            CallSt { item_added: true, ..named },
                            seq![native_added_sketch(CallSt { item_added: true, ..named })],
                        )
                    } else {
                        (named, Seq::<EvSketch>::empty())
                    }
                },
                None => (c1, Seq::<EvSketch>::empty()),
            };
            match f.arguments {
                Some(a) => {
                    let cb = CallSt { arguments: ca.arguments + a@, ..ca };
                    (cb, evs_a + seq![args_delta_sketch(cb, a@)])
                },
                None => (ca, evs_a),
            }
        },
    };
    let calls2 = match find_call(st.calls, tc.index) {
        Some(p) => st.calls.update(p, c2),
        None => insert_call(st.calls, c2),
    };
    (OrchSt { calls: calls2, ..st }, evs)
}

/// All native tool-call fragments of one delta, in order.
pub open spec fn tools_fold(st: OrchSt, ts: Seq<ToolCallDelta>, i: int, ids: OrchIds) -> (
    OrchSt,
    Seq<EvSketch>,
)
    decreases ts.len() - i,
{
    if i < 0 || i >= ts.len() {
        (st, Seq::empty())
    } else {
        let (st1, evs1) = tool_delta_step(st, ts[i], ids);
        let (st2, rest) = tools_fold(st1, ts, i + 1, ids);
        (st2, evs1 + rest)
    }
}

/// One streamed delta: the reasoning, text and tool-call paths in that
/// order.
pub open spec fn delta_step(st: OrchSt, d: Delta, ids: OrchIds) -> (OrchSt, Seq<EvSketch>) {
    let (st1, evs1) = match d.reasoning_content {
        Some(r) => if r@.len() > 0 {
            (
                OrchSt { reasoning: st.reasoning + r@, reasoning_started: true, ..st },
                seq![reasoning_delta_sketch(ids.reason_id, r@)],
            )
        } else {
            (st, Seq::<EvSketch>::empty())
        },
        None => (st, Seq::<EvSketch>::empty()),
    };
    let (st2, evs2) = match d.content {
        Some(cv) => match recover_text(cv) {
            Some(t) => content_step(st1, t, ids),
            None => (st1, Seq::<EvSketch>::empty()),
        },
        None => (st1, Seq::<EvSketch>::empty()),
    };
    let (st3, evs3) = match d.tool_calls {
        Some(ts) => tools_fold(st2, ts@, 0, ids),
        None => (st2, Seq::<EvSketch>::empty()),
    };
    (st3, evs1 + evs2 + evs3)
}

/// One backend choice: a finish reason updates the status; a complete
/// message emits its text as a single delta; a streamed delta feeds the
/// reasoning, text and tool-call paths in that order.
pub open spec fn choice_step(st: OrchSt, choice: Choice, ids: OrchIds) -> (OrchSt, Seq<EvSketch>) {
    let st0 = match choice.finish_reason {
        Some(r) => OrchSt { status: crate::translate::spec_finish_status(Some(r@)), ..st },
        None => st,
    };
    match choice.message {
        Some(m) => match m.content {
            Some(text) => (
                OrchSt { text: st0.text + text@, ..st0 },
                seq![text_delta_sketch(ids.msg_id, text@)],
            ),
            None => (st0, Seq::empty()),
        },
        None => match choice.delta {
            None => (st0, Seq::empty()),
            Some(d) => delta_step(st0, d, ids),
        },
    }
}

/// All choices of one chunk, in order.
pub open spec fn choices_fold(st: OrchSt, cs: Seq<Choice>, i: int, ids: OrchIds) -> (
    OrchSt,
    Seq<EvSketch>,
)
    decreases cs.len() - i,
{
    if i < 0 || i >= cs.len() {
        (st, Seq::empty())
    } else {
        let (st1, evs1) = choice_step(st, cs[i], ids);
        let (st2, rest) = choices_fold(st1, cs, i + 1, ids);
        (st2, evs1 + rest)
    }
}

/// One whole chunk: an in-chunk error fails and ends the stream; token
/// usage is last-write-wins; then every choice is processed in order.
pub open spec fn chunk_step(st: OrchSt, chunk: ChatCompletionChunk, ids: OrchIds) -> (
    OrchSt,
    Seq<EvSketch>,
) {
    if chunk.error is Some {
        (OrchSt { status: "failed"@, done: true, ..st }, Seq::empty())
    } else {
        let st1 = match chunk.usage {
            Some(u) => OrchSt {
                in_tokens: match u.prompt_tokens {
                    Some(p) => p,
                    None => st.in_tokens,
                },
                out_tokens: match u.completion_tokens {
                    Some(c) => c,
                    None => st.out_tokens,
                },
                ..st
            },
            None => st,
        };
        choices_fold(st1, chunk.choices@, 0, ids)
    }
}

/// The streaming state before any chunk: no text, no reasoning, status
/// `completed` unless a finish reason changes it, no tool calls.
pub open spec fn init_state() -> OrchSt {
    OrchSt {
        text: Seq::empty(),
        reasoning: Seq::empty(),
        last_delta: None,
        reasoning_started: false,
        done: false,
        status: "completed"@,
        in_tokens: 0,
        out_tokens: 0,
        calls: Seq::empty(),
        next_xml: 0,
        buffering: false,
    }
}

} // verus!
