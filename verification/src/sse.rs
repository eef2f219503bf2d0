//! Streaming response parser for the Gemini wire protocol.
//!
//! The parser is a state machine with two states — no pending item, or a
//! pending assistant message — driven by one incoming chunk at a time.
//! Text fragments open and extend the pending message and emit deltas;
//! function-call fragments close it and emit an atomic item; termination
//! signals flush and complete, or fail the stream. The surrounding
//! asynchronous loop (reading bytes, decoding chunked events, racing the
//! idle timer) hands the machine one `StreamEvent` per poll and forwards
//! the returned outputs to the consumer's channel.

use vstd::prelude::*;
use vstd::string::StringExecFns;
use crate::model::ApiError;
use crate::model::ApiErrorV;
use crate::model::ContentItem;
use crate::model::ContentItemV;
use crate::model::ResponseEvent;
use crate::model::ResponseEventV;
use crate::model::ResponseItem;
use crate::model::ResponseItemV;
use crate::model::StreamOutput;
use crate::model::StreamOutputV;
use crate::model::TokenUsage;
use crate::model::opt_str_view;
use crate::model::outputs_view;
use crate::model::strs_view;
use crate::text::spec_decimal;
use crate::text::str_eq;
use crate::text::u64_to_decimal;

verus! {

/// A function call found in one response part.
#[derive(Debug, Clone, PartialEq, Eq)]
pub struct GeminiFunctionCallChunk {
    pub name: String,
    /// The call's arguments as JSON text, if the vendor sent any.
    pub args_json: Option<String>,
    /// Thought signature for thinking mode, passed through unchanged.
    pub thought_signature: Option<String>,
}

/// Spec-level image of a `GeminiFunctionCallChunk`.
pub struct GeminiFunctionCallChunkV {
    pub name: Seq<char>,
    pub args_json: Option<Seq<char>>,
    pub thought_signature: Option<Seq<char>>,
}

impl View for GeminiFunctionCallChunk {
    type V = GeminiFunctionCallChunkV;

    open spec fn view(&self) -> GeminiFunctionCallChunkV {
        GeminiFunctionCallChunkV {
            name: self.name@,
            args_json: opt_str_view(self.args_json),
            thought_signature: opt_str_view(self.thought_signature),
        }
    }
}

/// One part of a response candidate: a text fragment, a function call,
/// or both (the text is processed first).
#[derive(Debug, Clone, PartialEq, Eq)]
pub struct GeminiChunkPart {
    pub text: Option<String>,
    pub function_call: Option<GeminiFunctionCallChunk>,
}

/// Spec-level image of a `GeminiChunkPart`.
pub struct GeminiChunkPartV {
    pub text: Option<Seq<char>>,
    pub function_call: Option<GeminiFunctionCallChunkV>,
}

impl View for GeminiChunkPart {
    type V = GeminiChunkPartV;

    open spec fn view(&self) -> GeminiChunkPartV {
        GeminiChunkPartV {
            text: opt_str_view(self.text),
            function_call: match &self.function_call {
                Some(fc) => Some(fc@),
                None => None,
            },
        }
    }
}

/// One response candidate: its content parts (empty when the vendor sent
/// no content) and its termination signal, if any.
#[derive(Debug, Clone, PartialEq, Eq)]
pub struct GeminiCandidate {
    pub parts: Vec<GeminiChunkPart>,
    pub finish_reason: Option<String>,
}

/// Spec-level image of a `GeminiCandidate`.
pub struct GeminiCandidateV {
    pub parts: Seq<GeminiChunkPartV>,
    pub finish_reason: Option<Seq<char>>,
}

impl View for GeminiCandidate {
    type V = GeminiCandidateV;

    open spec fn view(&self) -> GeminiCandidateV {
        GeminiCandidateV {
            parts: self.parts@.map(|i: int, p: GeminiChunkPart| p@),
            finish_reason: opt_str_view(self.finish_reason),
        }
    }
}

/// Aggregated usage metadata as the vendor reports it; every field may
/// be missing.
#[derive(Debug, Clone, Copy, PartialEq, Eq)]
pub struct GeminiUsage {
    pub prompt_token_count: Option<i64>,
    pub candidates_token_count: Option<i64>,
    pub total_token_count: Option<i64>,
}

/// One decoded response chunk.
#[derive(Debug, Clone, PartialEq, Eq)]
pub struct GeminiChunk {
    pub candidates: Vec<GeminiCandidate>,
    pub usage_metadata: Option<GeminiUsage>,
}

/// Spec-level image of a `GeminiChunk`.
pub struct GeminiChunkV {
    pub candidates: Seq<GeminiCandidateV>,
    pub usage_metadata: Option<GeminiUsage>,
}

impl View for GeminiChunk {
    type V = GeminiChunkV;

    open spec fn view(&self) -> GeminiChunkV {
        GeminiChunkV {
            candidates: self.candidates@.map(|i: int, c: GeminiCandidate| c@),
            usage_metadata: self.usage_metadata,
        }
    }
}

/// What one poll of the underlying byte stream produced.
#[derive(Debug, Clone, PartialEq, Eq)]
pub enum StreamEvent {
    /// A chunk that decoded to a response payload.
    Chunk(GeminiChunk),
    /// An empty or unparsable payload: skipped, never fatal.
    Malformed,
    /// The transport failed mid-stream.
    TransportError { message: String },
    /// No chunk arrived within the configured idle timeout.
    IdleTimeout,
    /// The stream ended without an explicit termination signal.
    Closed,
}

/// Spec-level image of a `StreamEvent`.
pub enum StreamEventV {
    Chunk(GeminiChunkV),
    Malformed,
    TransportError { message: Seq<char> },
    IdleTimeout,
    Closed,
}

impl View for StreamEvent {
    type V = StreamEventV;

    open spec fn view(&self) -> StreamEventV {
        match self {
            StreamEvent::Chunk(c) => StreamEventV::Chunk(c@),
            StreamEvent::Malformed => StreamEventV::Malformed,
            StreamEvent::TransportError { message } => StreamEventV::TransportError {
                message: message@,
            },
            StreamEvent::IdleTimeout => StreamEventV::IdleTimeout,
            StreamEvent::Closed => StreamEventV::Closed,
        }
    }
}

/// View of a sequence of stream events.
pub open spec fn events_view(s: Seq<StreamEvent>) -> Seq<StreamEventV> {
    s.map(|i: int, e: StreamEvent| e@)
}

/// The parser's state between two polls.
pub struct SseParser {
    /// The delta texts of the pending assistant message, oldest first;
    /// `None` when no item is pending.
    assistant_texts: Option<Vec<String>>,
    completed_sent: bool,
    last_usage: Option<GeminiUsage>,
    function_call_counter: u64,
    done: bool,
}

/// Spec-level image of the parser state.
pub struct SseStateV {
    pub assistant_texts: Option<Seq<Seq<char>>>,
    pub completed_sent: bool,
    pub last_usage: Option<GeminiUsage>,
    pub function_call_counter: u64,
    pub done: bool,
}

impl View for SseParser {
    type V = SseStateV;

    closed spec fn view(&self) -> SseStateV {
        SseStateV {
            assistant_texts: match &self.assistant_texts {
                Some(v) => Some(strs_view(v@)),
                None => None,
            },
            completed_sent: self.completed_sent,
            last_usage: self.last_usage,
            function_call_counter: self.function_call_counter,
            done: self.done,
        }
    }
}

/// The state a parser starts in.
pub open spec fn spec_initial_state() -> SseStateV {
    SseStateV {
        assistant_texts: None,
        completed_sent: false,
        last_usage: None,
        function_call_counter: 0,
        done: false,
    }
}

/// The assistant message assembled from the delta texts emitted so far.
pub open spec fn spec_assistant_message(texts: Seq<Seq<char>>) -> ResponseItemV {
    ResponseItemV::Message {
        id: None,
        role: "assistant"@,
        content: texts.map(|i: int, t: Seq<char>| ContentItemV::OutputText { text: t }),
    }
}

/// Token usage assembled from vendor usage metadata; missing fields
/// default to 0, the counters the vendor does not report stay 0.
pub open spec fn spec_usage_tokens(u: GeminiUsage) -> TokenUsage {
    TokenUsage {
        input_tokens: match u.prompt_token_count {
            Some(n) => n,
            None => 0,
        },
        output_tokens: match u.candidates_token_count {
            Some(n) => n,
            None => 0,
        },
        cached_input_tokens: 0,
        reasoning_output_tokens: 0,
        total_tokens: match u.total_token_count {
            Some(n) => n,
            None => 0,
        },
    }
}

/// The synthesized, stream-local identifier of the `n`-th function call.
pub open spec fn spec_call_id(n: u64) -> Seq<char> {
    "gemini_call_"@ + spec_decimal(n as nat)
}

/// The next value of the function-call counter; it saturates rather
/// than wrap, so identifiers never repeat within one stream.
pub open spec fn spec_next_counter(n: u64) -> u64 {
    if n < u64::MAX {
        (n + 1) as u64
    } else {
        n
    }
}

/// The function-call item emitted for one function-call fragment: absent
/// or malformed arguments degrade to an empty JSON object.
pub open spec fn spec_function_call_item(fc: GeminiFunctionCallChunkV, n: u64) -> ResponseItemV {
    ResponseItemV::FunctionCall {
        id: None,
        name: fc.name,
        arguments: match fc.args_json {
            Some(a) => a,
            None => "{}"@,
        },
        call_id: spec_call_id(n),
        thought_signature: fc.thought_signature,
    }
}

/// Flushing the pending assistant message: one `OutputItemDone` if an
/// item is pending, nothing otherwise.
pub open spec fn spec_flush(st: SseStateV) -> (SseStateV, Seq<StreamOutputV>) {
    match st.assistant_texts {
        Some(texts) => (
            SseStateV { assistant_texts: None, ..st },
            seq![Ok(ResponseEventV::OutputItemDone(spec_assistant_message(texts)))],
        ),
        None => (st, Seq::empty()),
    }
}

/// Appending one non-empty text fragment: opens the pending assistant
/// message if none is pending (emitting `OutputItemAdded`), then appends
/// the fragment and emits `OutputTextDelta` with exactly that fragment.
pub open spec fn spec_append_text(st: SseStateV, t: Seq<char>) -> (SseStateV, Seq<StreamOutputV>) {
    let (texts, opened) = match st.assistant_texts {
        Some(texts) => (texts, Seq::<StreamOutputV>::empty()),
        None => (
            Seq::<Seq<char>>::empty(),
            seq![
                Ok(ResponseEventV::OutputItemAdded(spec_assistant_message(Seq::empty()))),
            ],
        ),
    };
    (
        SseStateV { assistant_texts: Some(texts.push(t)), ..st },
        opened + seq![Ok(ResponseEventV::OutputTextDelta(t))],
    )
}

/// One content part: the text fragment first (if non-empty), then the
/// function call (which closes the pending text turn and is emitted
/// atomically).
pub open spec fn spec_step_part(st: SseStateV, part: GeminiChunkPartV) -> (
    SseStateV,
    Seq<StreamOutputV>,
) {
    let (st1, out1) = match part.text {
        Some(t) => if t.len() > 0 {
            spec_append_text(st, t)
        } else {
            (st, Seq::<StreamOutputV>::empty())
        },
        None => (st, Seq::<StreamOutputV>::empty()),
    };
    match part.function_call {
        Some(fc) => {
            let (st2, out2) = spec_flush(st1);
            let n = spec_next_counter(st2.function_call_counter);
            (
                SseStateV { function_call_counter: n, ..st2 },
                out1 + out2 + seq![
                    Ok(ResponseEventV::OutputItemDone(spec_function_call_item(fc, n))),
                ],
            )
        },
        None => (st1, out1),
    }
}

/// The first `k` parts of one candidate, in order.
pub open spec fn spec_parts_upto(st: SseStateV, parts: Seq<GeminiChunkPartV>, k: int) -> (
    SseStateV,
    Seq<StreamOutputV>,
)
    decreases k,
{
    if k <= 0 {
        (st, Seq::empty())
    } else {
        let (st1, out1) = spec_parts_upto(st, parts, k - 1);
        let (st2, out2) = spec_step_part(st1, parts[k - 1]);
        (st2, out1 + out2)
    }
}

/// A candidate's termination signal. Normal completion flushes and
/// emits exactly one `Completed` carrying the last-seen usage; a
/// length-limit signal yields the context-window error; a safety block
/// yields a generic stream failure; unrecognized reasons are
/// non-terminal.
pub open spec fn spec_finish(st: SseStateV, reason: Option<Seq<char>>) -> (
    SseStateV,
    Seq<StreamOutputV>,
) {
    match reason {
        None => (st, Seq::empty()),
        Some(r) => if r == "STOP"@ {
            let (st1, out1) = spec_flush(st);
            if !st1.completed_sent {
                (
                    SseStateV { completed_sent: true, last_usage: None, ..st1 },
                    out1 + seq![
                        Ok(
                            ResponseEventV::Completed {
                                response_id: Seq::empty(),
                                token_usage: match st1.last_usage {
                                    Some(u) => Some(spec_usage_tokens(u)),
                                    None => None,
                                },
                            },
                        ),
                    ],
                )
            } else {
                (st1, out1)
            }
        } else if r == "MAX_TOKENS"@ {
            (
                SseStateV { done: true, ..st },
                seq![Err(ApiErrorV::ContextWindowExceeded)],
            )
        } else if r == "SAFETY"@ {
            (
                SseStateV { done: true, ..st },
                seq![Err(ApiErrorV::Stream { message: "Response blocked by safety filters"@ })],
            )
        } else {
            (st, Seq::empty())
        },
    }
}

/// One candidate: content parts first, then its termination signal.
pub open spec fn spec_step_candidate(st: SseStateV, cand: GeminiCandidateV) -> (
    SseStateV,
    Seq<StreamOutputV>,
) {
    let (st1, out1) = spec_parts_upto(st, cand.parts, cand.parts.len() as int);
    let (st2, out2) = spec_finish(st1, cand.finish_reason);
    (st2, out1 + out2)
}

/// The first `k` candidates of one chunk; a terminal signal stops the
/// remaining candidates from being processed.
pub open spec fn spec_candidates_upto(st: SseStateV, cands: Seq<GeminiCandidateV>, k: int) -> (
    SseStateV,
    Seq<StreamOutputV>,
)
    decreases k,
{
    if k <= 0 {
        (st, Seq::empty())
    } else {
        let (st1, out1) = spec_candidates_upto(st, cands, k - 1);
        if st1.done {
            (st1, out1)
        } else {
            let (st2, out2) = spec_step_candidate(st1, cands[k - 1]);
            (st2, out1 + out2)
        }
    }
}

/// One whole chunk: retain the freshest usage metadata, then process the
/// candidates.
pub open spec fn spec_step_chunk(st: SseStateV, c: GeminiChunkV) -> (SseStateV, Seq<StreamOutputV>) {
    let st0 = match c.usage_metadata {
        Some(u) => SseStateV { last_usage: Some(u), ..st },
        None => st,
    };
    spec_candidates_upto(st0, c.candidates, c.candidates.len() as int)
}

/// One step of the state machine. A finished machine ignores further
/// input; a transport error or an idle timeout fails the stream; end of
/// input flushes and synthesizes the final `Completed` if none was sent.
pub open spec fn spec_step(st: SseStateV, ev: StreamEventV) -> (SseStateV, Seq<StreamOutputV>) {
    if st.done {
        (st, Seq::empty())
    } else {
        match ev {
            StreamEventV::Malformed => (st, Seq::empty()),
            StreamEventV::TransportError { message } => (
                SseStateV { done: true, ..st },
                seq![Err(ApiErrorV::Stream { message })],
            ),
            StreamEventV::IdleTimeout => (
                SseStateV { done: true, ..st },
                seq![Err(ApiErrorV::Stream { message: "idle timeout waiting for SSE"@ })],
            ),
            StreamEventV::Closed => {
                let (st1, out1) = spec_flush(st);
                if !st1.completed_sent {
                    (
                        SseStateV { completed_sent: true, done: true, ..st1 },
                        out1 + seq![
                            Ok(
                                ResponseEventV::Completed {
                                    response_id: Seq::empty(),
                                    token_usage: match st1.last_usage {
                                        Some(u) => Some(spec_usage_tokens(u)),
                                        None => None,
                                    },
                                },
                            ),
                        ],
                    )
                } else {
                    (SseStateV { done: true, ..st1 }, out1)
                }
            },
            StreamEventV::Chunk(c) => spec_step_chunk(st, c),
        }
    }
}

/// The machine run over the first `k` events, from the initial state.
pub open spec fn spec_run_upto(events: Seq<StreamEventV>, k: int) -> (
    SseStateV,
    Seq<StreamOutputV>,
)
    decreases k,
{
    if k <= 0 {
        (spec_initial_state(), Seq::empty())
    } else {
        let (st1, out1) = spec_run_upto(events, k - 1);
        let (st2, out2) = spec_step(st1, events[k - 1]);
        (st2, out1 + out2)
    }
}

/// The machine run over a whole event sequence.
pub open spec fn spec_run(events: Seq<StreamEventV>) -> (SseStateV, Seq<StreamOutputV>) {
    spec_run_upto(events, events.len() as int)
}

/// Builds token usage from vendor usage metadata.
pub fn usage_tokens(u: GeminiUsage) -> (t: TokenUsage)
    ensures
        t == spec_usage_tokens(u),
{
    TokenUsage {
        input_tokens: match u.prompt_token_count {
            Some(n) => n,
            None => 0,
        },
        output_tokens: match u.candidates_token_count {
            Some(n) => n,
            None => 0,
        },
        cached_input_tokens: 0,
        reasoning_output_tokens: 0,
        total_tokens: match u.total_token_count {
            Some(n) => n,
            None => 0,
        },
    }
}

/// Builds the assistant message from the delta texts emitted so far.
fn assistant_message(texts: Vec<String>) -> (item: ResponseItem)
    ensures
        item@ == spec_assistant_message(strs_view(texts@)),
{
    let mut content: Vec<ContentItem> = Vec::new();
    let mut i: usize = 0;
    while i < texts.len()
        invariant
            i <= texts@.len(),
            content@.map(|j: int, c: ContentItem| c@) =~= strs_view(texts@).take(i as int).map(
                |j: int, t: Seq<char>| ContentItemV::OutputText { text: t },
            ),
        decreases texts@.len() - i,
    {
        let ghost pre = content@;
        content.push(ContentItem::OutputText { text: texts[i].clone() });
        proof {
            assert(content@.map(|j: int, c: ContentItem| c@) =~= pre.map(
                |j: int, c: ContentItem| c@,
            ).push(ContentItemV::OutputText { text: texts@[i as int]@ }));
            assert(strs_view(texts@).take(i + 1 as int).map(
                |j: int, t: Seq<char>| ContentItemV::OutputText { text: t },
            ) =~= strs_view(texts@).take(i as int).map(
                |j: int, t: Seq<char>| ContentItemV::OutputText { text: t },
            ).push(ContentItemV::OutputText { text: texts@[i as int]@ }));
        }
        i = i + 1;
    }
    proof {
        assert(strs_view(texts@).take(texts@.len() as int) =~= strs_view(texts@));
    }
    ResponseItem::Message { id: None, role: String::from_str("assistant"), content }
}

impl SseParser {
    /// A parser in its initial state.
    pub fn new() -> (s: SseParser)
        ensures
            s@ == spec_initial_state(),
    {
        SseParser {
            assistant_texts: None,
            completed_sent: false,
            last_usage: None,
            function_call_counter: 0,
            done: false,
        }
    }

    /// Whether the stream has terminated; a finished parser ignores
    /// further input.
    pub fn is_done(&self) -> (r: bool)
        ensures
            r == self@.done,
    {
        self.done
    }

    /// Flushes the pending assistant message, if any, appending its
    /// `OutputItemDone` to `out`.
    fn flush_into(&mut self, out: &mut Vec<StreamOutput>)
        ensures
            ({
                let (st, o) = spec_flush(old(self)@);
                final(self)@ == st && outputs_view(final(out)@) == outputs_view(old(out)@) + o
            }),
    {
        let ghost pre = outputs_view(out@);
        match self.assistant_texts.take() {
            Some(texts) => {
                let item = assistant_message(texts);
                out.push(Ok(ResponseEvent::OutputItemDone(item)));
                proof {
                    assert(outputs_view(out@) =~= pre.push(
                        Ok(ResponseEventV::OutputItemDone(item@)),
                    ));
                    assert(pre.push(Ok(ResponseEventV::OutputItemDone(item@))) =~= pre
                        + spec_flush(old(self)@).1);
                }
            },
            None => {
                proof {
                    assert(outputs_view(out@) =~= pre + spec_flush(old(self)@).1);
                }
            },
        }
    }

    /// Opens the pending assistant message if none is pending, appends
    /// the fragment and emits the matching delta.
    fn append_assistant_text(&mut self, text: &String, out: &mut Vec<StreamOutput>)
        requires
            !old(self)@.done,
        ensures
            ({
                let (st, o) = spec_append_text(old(self)@, text@);
                final(self)@ == st && outputs_view(final(out)@) == outputs_view(old(out)@) + o
            }),
    {
        let ghost pre = outputs_view(out@);
        if self.assistant_texts.is_none() {
            let item = ResponseItem::Message {
                id: None,
                role: String::from_str("assistant"),
                content: Vec::new(),
            };
            proof {
                assert(Seq::<ContentItem>::empty().map(|j: int, c: ContentItem| c@) =~= Seq::<
                    Seq<char>,
                >::empty().map(|j: int, t: Seq<char>| ContentItemV::OutputText { text: t }));
                assert(item@ == spec_assistant_message(Seq::empty()));
            }
            out.push(Ok(ResponseEvent::OutputItemAdded(item)));
            self.assistant_texts = Some(Vec::new());
            proof {
                assert(strs_view(Seq::<String>::empty()) =~= Seq::<Seq<char>>::empty());
            }
        }
        let mut texts = match self.assistant_texts.take() {
            Some(v) => v,
            None => Vec::new(),
        };
        let ghost texts_pre = strs_view(texts@);
        texts.push(text.clone());
        proof {
            assert(strs_view(texts@) =~= texts_pre.push(text@));
        }
        self.assistant_texts = Some(texts);
        out.push(Ok(ResponseEvent::OutputTextDelta(text.clone())));
        proof {
            assert(outputs_view(out@) =~= pre + spec_append_text(old(self)@, text@).1);
        }
    }

    /// Processes one content part.
    fn handle_part(&mut self, part: &GeminiChunkPart, out: &mut Vec<StreamOutput>)
        requires
            !old(self)@.done,
        ensures
            ({
                let (st, o) = spec_step_part(old(self)@, part@);
                final(self)@ == st && outputs_view(final(out)@) == outputs_view(old(out)@) + o
            }),
            final(self)@.done == old(self)@.done,
    {
        let ghost pre = outputs_view(out@);
        match &part.text {
            Some(t) => {
                if !t.as_str().is_empty() {
                    self.append_assistant_text(t, out);
                }
            },
            None => {},
        }
        match &part.function_call {
            Some(fc) => {
                self.flush_into(out);
                if self.function_call_counter < u64::MAX {
                    self.function_call_counter = self.function_call_counter + 1;
                }
                let mut call_id = String::from_str("gemini_call_");
                let digits = u64_to_decimal(self.function_call_counter);
                call_id.append(digits.as_str());
                let arguments = match &fc.args_json {
                    Some(a) => a.clone(),
                    None => String::from_str("{}"),
                };
                let thought_signature = match &fc.thought_signature {
                    Some(s) => Some(s.clone()),
                    None => None,
                };
                let item = ResponseItem::FunctionCall {
                    id: None,
                    name: fc.name.clone(),
                    arguments,
                    call_id,
                    thought_signature,
                };
                proof {
                    assert(item@ == spec_function_call_item(
                        fc@,
                        self.function_call_counter,
                    ));
                }
                let ghost mid = outputs_view(out@);
                out.push(Ok(ResponseEvent::OutputItemDone(item)));
                proof {
                    assert(outputs_view(out@) =~= mid.push(
                        Ok(ResponseEventV::OutputItemDone(item@)),
                    ));
                    assert(outputs_view(out@) =~= pre + spec_step_part(old(self)@, part@).1);
                }
            },
            None => {},
        }
    }

    /// Processes one candidate: its parts, then its termination signal.
    fn handle_candidate(&mut self, cand: &GeminiCandidate, out: &mut Vec<StreamOutput>)
        requires
            !old(self)@.done,
        ensures
            ({
                let (st, o) = spec_step_candidate(old(self)@, cand@);
                final(self)@ == st && outputs_view(final(out)@) == outputs_view(old(out)@) + o
            }),
    {
        let ghost st_in = self@;
        let ghost parts_v = cand@.parts;
        let ghost pre = outputs_view(out@);
        let mut pi: usize = 0;
        while pi < cand.parts.len()
            invariant
                pi <= cand.parts@.len(),
                parts_v == cand@.parts,
                parts_v.len() == cand.parts@.len(),
                !st_in.done,
                self@ == spec_parts_upto(st_in, parts_v, pi as int).0,
                outputs_view(out@) == pre + spec_parts_upto(st_in, parts_v, pi as int).1,
                self@.done == st_in.done,
            decreases cand.parts@.len() - pi,
        {
            proof {
                assert(parts_v[pi as int] == cand.parts@[pi as int]@);
            }
            self.handle_part(&cand.parts[pi], out);
            pi = pi + 1;
        }
        let ghost st_mid = self@;
        let ghost mid = outputs_view(out@);
        match &cand.finish_reason {
            Some(reason) => {
                if str_eq(reason.as_str(), "STOP") {
                    self.flush_into(out);
                    if !self.completed_sent {
                        let usage = match self.last_usage.take() {
                            Some(u) => Some(usage_tokens(u)),
                            None => None,
                        };
                        out.push(
                            Ok(
                                ResponseEvent::Completed {
                                    response_id: String::new(),
                                    token_usage: usage,
                                },
                            ),
                        );
                        self.completed_sent = true;
                        proof {
                            let (st1, o1) = spec_flush(st_mid);
                            let done_ev: StreamOutputV = Ok(
                                ResponseEventV::Completed {
                                    response_id: Seq::empty(),
                                    token_usage: match st1.last_usage {
                                        Some(u) => Some(spec_usage_tokens(u)),
                                        None => None,
                                    },
                                },
                            );
                            assert(spec_finish(st_mid, cand@.finish_reason).1 == o1 + seq![
                                done_ev,
                            ]);
                            assert(outputs_view(out@) =~= (mid + o1).push(done_ev));
                            assert(outputs_view(out@) =~= mid + spec_finish(
                                st_mid,
                                cand@.finish_reason,
                            ).1);
                        }
                    }
                } else if str_eq(reason.as_str(), "MAX_TOKENS") {
                    out.push(Err(ApiError::ContextWindowExceeded));
                    self.done = true;
                    proof {
                        assert(outputs_view(out@) =~= mid + spec_finish(
                            st_mid,
                            cand@.finish_reason,
                        ).1);
                    }
                } else if str_eq(reason.as_str(), "SAFETY") {
                    out.push(
                        Err(
                            ApiError::Stream {
                                message: String::from_str("Response blocked by safety filters"),
                            },
                        ),
                    );
                    self.done = true;
                    proof {
                        assert(outputs_view(out@) =~= mid + spec_finish(
                            st_mid,
                            cand@.finish_reason,
                        ).1);
                    }
                }
            },
            None => {},
        }
        proof {
            assert(outputs_view(out@) =~= pre + spec_step_candidate(st_in, cand@).1);
        }
    }

    /// Advances the machine by one poll result and returns the outputs
    /// to forward, in order. A finished machine returns nothing.
    pub fn handle_event(&mut self, ev: StreamEvent) -> (out: Vec<StreamOutput>)
        ensures
            ({
                let (st, o) = spec_step(old(self)@, ev@);
                final(self)@ == st && outputs_view(out@) == o
            }),
    {
        let mut out: Vec<StreamOutput> = Vec::new();
        proof {
            assert(outputs_view(out@) =~= Seq::<StreamOutputV>::empty());
        }
        if self.done {
            return out;
        }
        match ev {
            StreamEvent::Malformed => {},
            StreamEvent::TransportError { message } => {
                out.push(Err(ApiError::Stream { message }));
                self.done = true;
                proof {
                    assert(outputs_view(out@) =~= spec_step(old(self)@, ev@).1);
                }
            },
            StreamEvent::IdleTimeout => {
                out.push(
                    Err(
                        ApiError::Stream {
                            message: String::from_str("idle timeout waiting for SSE"),
                        },
                    ),
                );
                self.done = true;
                proof {
                    assert(outputs_view(out@) =~= spec_step(old(self)@, ev@).1);
                }
            },
            StreamEvent::Closed => {
                self.flush_into(&mut out);
                if !self.completed_sent {
                    let usage = match self.last_usage {
                        Some(u) => Some(usage_tokens(u)),
                        None => None,
                    };
                    out.push(
                        Ok(
                            ResponseEvent::Completed {
                                response_id: String::new(),
                                token_usage: usage,
                            },
                        ),
                    );
                    self.completed_sent = true;
                }
                self.done = true;
                proof {
                    assert(outputs_view(out@) =~= spec_step(old(self)@, ev@).1);
                }
            },
            StreamEvent::Chunk(chunk) => {
                match chunk.usage_metadata {
                    Some(u) => {
                        self.last_usage = Some(u);
                    },
                    None => {},
                }
                let ghost st0 = self@;
                let ghost cands_v = chunk@.candidates;
                let mut ci: usize = 0;
                while ci < chunk.candidates.len()
                    invariant
                        ci <= chunk.candidates@.len(),
                        cands_v == chunk@.candidates,
                        cands_v.len() == chunk.candidates@.len(),
                        self@ == spec_candidates_upto(st0, cands_v, ci as int).0,
                        outputs_view(out@) == spec_candidates_upto(st0, cands_v, ci as int).1,
                    decreases chunk.candidates@.len() - ci,
                {
                    proof {
                        assert(cands_v[ci as int] == chunk.candidates@[ci as int]@);
                    }
                    if !self.done {
                        self.handle_candidate(&chunk.candidates[ci], &mut out);
                    }
                    ci = ci + 1;
                }
            },
        }
        out
    }
}

/// Runs a whole event sequence through a fresh parser and returns every
/// output in order.
pub fn run_stream(events: Vec<StreamEvent>) -> (out: Vec<StreamOutput>)
    ensures
        outputs_view(out@) == spec_run(events_view(events@)).1,
{
    let ghost orig = events@;
    let ghost all = events_view(events@);
    let mut events = events;
    let mut parser = SseParser::new();
    let mut out: Vec<StreamOutput> = Vec::new();
    proof {
        assert(outputs_view(out@) =~= Seq::<StreamOutputV>::empty());
        assert(events@ =~= orig.subrange(0, orig.len() as int));
    }
    let n0 = events.len();
    proof {
        assert(orig.len() == n0 as int);
    }
    let mut k: usize = 0;
    while events.len() > 0
        invariant
            k + events@.len() == orig.len(),
            orig.len() <= usize::MAX,
            events@ == orig.subrange(k as int, orig.len() as int),
            all == events_view(orig),
            all.len() == orig.len(),
            parser@ == spec_run_upto(all, k as int).0,
            outputs_view(out@) == spec_run_upto(all, k as int).1,
        decreases events@.len(),
    {
        let ev = events.remove(0);
        proof {
            assert(ev == orig[k as int]);
            assert(all[k as int] == orig[k as int]@);
            assert(events@ =~= orig.subrange(k + 1 as int, orig.len() as int));
        }
        let ghost pre = outputs_view(out@);
        let mut step_out = parser.handle_event(ev);
        let ghost step_v = outputs_view(step_out@);
        out.append(&mut step_out);
        proof {
            assert(outputs_view(out@) =~= pre + step_v);
        }
        k = k + 1;
    }
    proof {
        assert(k as int == all.len());
    }
    out
}

/// An output that neither fails the stream nor completes it: an `Ok`
/// event other than `Completed`.
pub open spec fn spec_output_benign(o: StreamOutputV) -> bool {
    match o {
        Ok(ev) => !(ev is Completed),
        Err(_) => false,
    }
}

/// An output that is the `Completed` event.
pub open spec fn spec_output_completed(o: StreamOutputV) -> bool {
    match o {
        Ok(ev) => ev is Completed,
        Err(_) => false,
    }
}

/// Content parts only open, extend or close items: they never complete
/// or fail the stream, and they leave the completion flag, the usage
/// and the done flag alone.
pub proof fn lemma_part_outputs_benign(st: SseStateV, part: GeminiChunkPartV)
    ensures
        ({
            let (st2, o) = spec_step_part(st, part);
            &&& st2.done == st.done
            &&& st2.completed_sent == st.completed_sent
            &&& st2.last_usage == st.last_usage
            &&& forall|x: int| 0 <= x < o.len() ==> spec_output_benign(#[trigger] o[x])
        }),
{
}

/// The parts fold inherits what each part guarantees.
pub proof fn lemma_parts_outputs_benign(st: SseStateV, parts: Seq<GeminiChunkPartV>, k: int)
    requires
        0 <= k <= parts.len(),
    ensures
        ({
            let (st2, o) = spec_parts_upto(st, parts, k);
            &&& st2.done == st.done
            &&& st2.completed_sent == st.completed_sent
            &&& st2.last_usage == st.last_usage
            &&& forall|x: int| 0 <= x < o.len() ==> spec_output_benign(#[trigger] o[x])
        }),
    decreases k,
{
    if k > 0 {
        lemma_parts_outputs_benign(st, parts, k - 1);
        lemma_part_outputs_benign(spec_parts_upto(st, parts, k - 1).0, parts[k - 1]);
    }
}

/// A termination signal equal to the length-limit reason yields exactly
/// one context-window-exceeded error as the last output, no `Completed`
/// event, and ends the stream — even if a message was mid-flush.
pub proof fn lemma_max_tokens_terminates(st: SseStateV, c: GeminiChunkV, cand: GeminiCandidateV)
    requires
        !st.done,
        c.candidates == seq![cand],
        cand.finish_reason == Some("MAX_TOKENS"@),
    ensures
        ({
            let (st2, o) = spec_step(st, StreamEventV::Chunk(c));
            &&& st2.done
            &&& o.len() > 0
            &&& o.last() == Err::<ResponseEventV, ApiErrorV>(ApiErrorV::ContextWindowExceeded)
            &&& forall|x: int| 0 <= x < o.len() - 1 ==> spec_output_benign(#[trigger] o[x])
        }),
{
    reveal_strlit("STOP");
    reveal_strlit("MAX_TOKENS");
    let st0 = match c.usage_metadata {
        Some(u) => SseStateV { last_usage: Some(u), ..st },
        None => st,
    };
    lemma_parts_outputs_benign(st0, cand.parts, cand.parts.len() as int);
    assert(c.candidates[0] == cand);
    assert(spec_candidates_upto(st0, c.candidates, 0) == ((
        st0,
        Seq::<StreamOutputV>::empty(),
    )));
    assert("MAX_TOKENS"@ != "STOP"@) by {
        assert("MAX_TOKENS"@.len() == 10 && "STOP"@.len() == 4);
    }
}

/// A termination signal equal to the safety-block reason yields exactly
/// one generic stream-failure error as the last output, after any text
/// already flushed, and no `Completed` event.
pub proof fn lemma_safety_terminates(st: SseStateV, c: GeminiChunkV, cand: GeminiCandidateV)
    requires
        !st.done,
        c.candidates == seq![cand],
        cand.finish_reason == Some("SAFETY"@),
    ensures
        ({
            let (st2, o) = spec_step(st, StreamEventV::Chunk(c));
            &&& st2.done
            &&& o.len() > 0
            &&& o.last() == Err::<ResponseEventV, ApiErrorV>(
                ApiErrorV::Stream { message: "Response blocked by safety filters"@ },
            )
            &&& forall|x: int| 0 <= x < o.len() - 1 ==> spec_output_benign(#[trigger] o[x])
        }),
{
    reveal_strlit("STOP");
    reveal_strlit("MAX_TOKENS");
    reveal_strlit("SAFETY");
    let st0 = match c.usage_metadata {
        Some(u) => SseStateV { last_usage: Some(u), ..st },
        None => st,
    };
    lemma_parts_outputs_benign(st0, cand.parts, cand.parts.len() as int);
    assert(c.candidates[0] == cand);
    assert(spec_candidates_upto(st0, c.candidates, 0) == ((
        st0,
        Seq::<StreamOutputV>::empty(),
    )));
    assert("SAFETY"@ != "STOP"@ && "SAFETY"@ != "MAX_TOKENS"@) by {
        assert("SAFETY"@.len() == 6 && "STOP"@.len() == 4 && "MAX_TOKENS"@.len() == 10);
    }
}

/// No incoming chunk within the configured idle timeout: the machine
/// emits exactly one stream-failure error citing the timeout and ends
/// the stream.
pub proof fn lemma_idle_timeout_fails(st: SseStateV)
    requires
        !st.done,
    ensures
        spec_step(st, StreamEventV::IdleTimeout) == (
            (
                SseStateV { done: true, ..st },
                seq![
                    Err::<ResponseEventV, ApiErrorV>(
                        ApiErrorV::Stream { message: "idle timeout waiting for SSE"@ },
                    ),
                ],
            )
        ),
{
}

/// A candidate whose termination signal is absent or unrecognized.
pub open spec fn spec_candidate_benign(cand: GeminiCandidateV) -> bool {
    match cand.finish_reason {
        None => true,
        Some(r) => r != "STOP"@ && r != "MAX_TOKENS"@ && r != "SAFETY"@,
    }
}

/// A chunk none of whose candidates carries a recognized termination
/// signal.
pub open spec fn spec_chunk_benign(c: GeminiChunkV) -> bool {
    forall|x: int| 0 <= x < c.candidates.len() ==> spec_candidate_benign(#[trigger] c.candidates[x])
}

/// A poll result that neither terminates nor completes the stream.
pub open spec fn spec_event_benign(e: StreamEventV) -> bool {
    match e {
        StreamEventV::Chunk(c) => spec_chunk_benign(c),
        StreamEventV::Malformed => true,
        _ => false,
    }
}

/// A benign candidate leaves the stream live and emits neither a
/// `Completed` event nor an error.
pub proof fn lemma_candidate_benign(st: SseStateV, cand: GeminiCandidateV)
    requires
        spec_candidate_benign(cand),
    ensures
        ({
            let (st2, o) = spec_step_candidate(st, cand);
            &&& st2.done == st.done
            &&& st2.completed_sent == st.completed_sent
            &&& forall|x: int| 0 <= x < o.len() ==> spec_output_benign(#[trigger] o[x])
        }),
{
    lemma_parts_outputs_benign(st, cand.parts, cand.parts.len() as int);
}

/// The candidates fold inherits what each benign candidate guarantees.
pub proof fn lemma_candidates_benign(st: SseStateV, cands: Seq<GeminiCandidateV>, k: int)
    requires
        0 <= k <= cands.len(),
        forall|x: int| 0 <= x < cands.len() ==> spec_candidate_benign(#[trigger] cands[x]),
    ensures
        ({
            let (st2, o) = spec_candidates_upto(st, cands, k);
            &&& st2.done == st.done
            &&& st2.completed_sent == st.completed_sent
            &&& forall|x: int| 0 <= x < o.len() ==> spec_output_benign(#[trigger] o[x])
        }),
    decreases k,
{
    if k > 0 {
        lemma_candidates_benign(st, cands, k - 1);
        let (st1, o1) = spec_candidates_upto(st, cands, k - 1);
        if !st1.done {
            lemma_candidate_benign(st1, cands[k - 1]);
        }
    }
}

/// A benign poll result leaves the stream live and uncompleted and
/// emits neither a `Completed` event nor an error.
pub proof fn lemma_event_benign(st: SseStateV, e: StreamEventV)
    requires
        spec_event_benign(e),
    ensures
        ({
            let (st2, o) = spec_step(st, e);
            &&& st2.done == st.done
            &&& st2.completed_sent == st.completed_sent
            &&& forall|x: int| 0 <= x < o.len() ==> spec_output_benign(#[trigger] o[x])
        }),
{
    if !st.done {
        match e {
            StreamEventV::Chunk(c) => {
                let st0 = match c.usage_metadata {
                    Some(u) => SseStateV { last_usage: Some(u), ..st },
                    None => st,
                };
                lemma_candidates_benign(st0, c.candidates, c.candidates.len() as int);
            },
            _ => {},
        }
    }
}

/// A run over benign poll results stays live and uncompleted and emits
/// neither a `Completed` event nor an error.
pub proof fn lemma_benign_run(events: Seq<StreamEventV>, k: int)
    requires
        0 <= k <= events.len(),
        forall|x: int| 0 <= x < k ==> spec_event_benign(#[trigger] events[x]),
    ensures
        ({
            let (st, o) = spec_run_upto(events, k);
            &&& !st.done
            &&& !st.completed_sent
            &&& forall|x: int| 0 <= x < o.len() ==> spec_output_benign(#[trigger] o[x])
        }),
    decreases k,
{
    if k > 0 {
        lemma_benign_run(events, k - 1);
        lemma_event_benign(spec_run_upto(events, k - 1).0, events[k - 1]);
    }
}

/// Exactly one `Completed` event is emitted per successful stream, and
/// it is the last output: here for a stream of benign poll results
/// closed by end of input.
pub proof fn lemma_completed_once_and_last(events: Seq<StreamEventV>)
    requires
        events.len() > 0,
        events.last() == StreamEventV::Closed,
        forall|x: int| 0 <= x < events.len() - 1 ==> spec_event_benign(#[trigger] events[x]),
    ensures
        ({
            let o = spec_run(events).1;
            &&& o.len() > 0
            &&& spec_output_completed(o.last())
            &&& forall|x: int| 0 <= x < o.len() - 1 ==> spec_output_benign(#[trigger] o[x])
        }),
{
    lemma_benign_run(events, events.len() - 1);
    let (st, o1) = spec_run_upto(events, events.len() - 1);
    assert(spec_run(events).1 == o1 + spec_step(st, StreamEventV::Closed).1);
}

/// Exactly one `Completed` event is emitted per successful stream, and
/// it is the last output: here for a stream of benign poll results
/// closed by a final chunk carrying the normal-completion signal.
pub proof fn lemma_completed_once_and_last_stop(
    events: Seq<StreamEventV>,
    c: GeminiChunkV,
    cand: GeminiCandidateV,
)
    requires
        events.len() > 0,
        events.last() == StreamEventV::Chunk(c),
        c.candidates == seq![cand],
        cand.finish_reason == Some("STOP"@),
        forall|x: int| 0 <= x < events.len() - 1 ==> spec_event_benign(#[trigger] events[x]),
    ensures
        ({
            let o = spec_run(events).1;
            &&& o.len() > 0
            &&& spec_output_completed(o.last())
            &&& forall|x: int| 0 <= x < o.len() - 1 ==> spec_output_benign(#[trigger] o[x])
        }),
{
    lemma_benign_run(events, events.len() - 1);
    let (st, o1) = spec_run_upto(events, events.len() - 1);
    let st0 = match c.usage_metadata {
        Some(u) => SseStateV { last_usage: Some(u), ..st },
        None => st,
    };
    lemma_parts_outputs_benign(st0, cand.parts, cand.parts.len() as int);
    assert(c.candidates[0] == cand);
    assert(spec_candidates_upto(st0, c.candidates, 0) == ((
        st0,
        Seq::<StreamOutputV>::empty(),
    )));
    assert(spec_run(events).1 == o1 + spec_step(st, StreamEventV::Chunk(c)).1);
}

/// How many `Completed` events a sequence of outputs holds.
pub open spec fn spec_count_completed(o: Seq<StreamOutputV>) -> int
    decreases o.len(),
{
    if o.len() == 0 {
        0
    } else {
        spec_count_completed(o.drop_last()) + if spec_output_completed(o.last()) {
            1int
        } else {
            0int
        }
    }
}

/// One for a set flag, zero for a clear one.
pub open spec fn spec_flag_count(b: bool) -> int {
    if b {
        1int
    } else {
        0int
    }
}

/// Counting `Completed` events distributes over concatenation.
proof fn lemma_count_concat(a: Seq<StreamOutputV>, b: Seq<StreamOutputV>)
    ensures
        spec_count_completed(a + b) == spec_count_completed(a) + spec_count_completed(b),
    decreases b.len(),
{
    if b.len() == 0 {
        assert(a + b =~= a);
    } else {
        assert((a + b).drop_last() =~= a + b.drop_last());
        assert((a + b).last() == b.last());
        lemma_count_concat(a, b.drop_last());
    }
}

/// Benign outputs hold no `Completed` event.
proof fn lemma_benign_count_zero(o: Seq<StreamOutputV>)
    requires
        forall|x: int| 0 <= x < o.len() ==> spec_output_benign(#[trigger] o[x]),
    ensures
        spec_count_completed(o) == 0,
    decreases o.len(),
{
    if o.len() > 0 {
        lemma_benign_count_zero(o.drop_last());
    }
}

/// One candidate emits exactly as many `Completed` events as it flips
/// the completion flag: one on a first normal completion, none
/// otherwise. The flag never clears.
proof fn lemma_candidate_completed_count(st: SseStateV, cand: GeminiCandidateV)
    ensures
        ({
            let (st2, o) = spec_step_candidate(st, cand);
            &&& spec_count_completed(o) == spec_flag_count(st2.completed_sent) - spec_flag_count(
                st.completed_sent,
            )
            &&& st.completed_sent ==> st2.completed_sent
        }),
{
    let (st1, o1) = spec_parts_upto(st, cand.parts, cand.parts.len() as int);
    lemma_parts_outputs_benign(st, cand.parts, cand.parts.len() as int);
    lemma_benign_count_zero(o1);
    let (st2, o2) = spec_finish(st1, cand.finish_reason);
    lemma_count_concat(o1, o2);
    match cand.finish_reason {
        Some(r) => {
            if r == "STOP"@ {
                let (stf, of) = spec_flush(st1);
                lemma_count_concat(
                    of,
                    o2.subrange(of.len() as int, o2.len() as int),
                );
                if !stf.completed_sent {
                    assert(o2 =~= of + o2.subrange(of.len() as int, o2.len() as int));
                    assert(spec_count_completed(
                        o2.subrange(of.len() as int, o2.len() as int),
                    ) == 1) by {
                        assert(spec_count_completed(Seq::<StreamOutputV>::empty()) == 0);
                        let tail = o2.subrange(of.len() as int, o2.len() as int);
                        assert(tail.len() == 1);
                        assert(tail.drop_last() =~= Seq::<StreamOutputV>::empty());
                        assert(spec_output_completed(tail.last()));
                    }
                    match st1.assistant_texts {
                        Some(texts) => {
                            assert(spec_count_completed(of) == 0) by {
                                assert(spec_count_completed(Seq::<StreamOutputV>::empty()) == 0);
                                assert(of.len() == 1);
                                assert(of.drop_last() =~= Seq::<StreamOutputV>::empty());
                            }
                        },
                        None => {
                            assert(of =~= Seq::<StreamOutputV>::empty());
                        },
                    }
                } else {
                    assert(o2 =~= of);
                    match st1.assistant_texts {
                        Some(texts) => {
                            assert(spec_count_completed(of) == 0) by {
                                assert(spec_count_completed(Seq::<StreamOutputV>::empty()) == 0);
                                assert(of.len() == 1);
                                assert(of.drop_last() =~= Seq::<StreamOutputV>::empty());
                            }
                        },
                        None => {
                            assert(of =~= Seq::<StreamOutputV>::empty());
                        },
                    }
                }
            } else if r == "MAX_TOKENS"@ {
                assert(spec_count_completed(o2) == 0) by {
                    assert(spec_count_completed(Seq::<StreamOutputV>::empty()) == 0);
                    assert(o2.len() == 1);
                    assert(o2.drop_last() =~= Seq::<StreamOutputV>::empty());
                }
            } else if r == "SAFETY"@ {
                assert(spec_count_completed(o2) == 0) by {
                    assert(spec_count_completed(Seq::<StreamOutputV>::empty()) == 0);
                    assert(o2.len() == 1);
                    assert(o2.drop_last() =~= Seq::<StreamOutputV>::empty());
                }
            } else {
                assert(o2 =~= Seq::<StreamOutputV>::empty());
            }
        },
        None => {
            assert(o2 =~= Seq::<StreamOutputV>::empty());
        },
    }
}

/// The candidates fold emits exactly as many `Completed` events as it
/// flips the completion flag.
proof fn lemma_candidates_completed_count(st: SseStateV, cands: Seq<GeminiCandidateV>, k: int)
    requires
        0 <= k <= cands.len(),
    ensures
        ({
            let (st2, o) = spec_candidates_upto(st, cands, k);
            &&& spec_count_completed(o) == spec_flag_count(st2.completed_sent) - spec_flag_count(
                st.completed_sent,
            )
            &&& st.completed_sent ==> st2.completed_sent
        }),
    decreases k,
{
    if k > 0 {
        lemma_candidates_completed_count(st, cands, k - 1);
        let (st1, o1) = spec_candidates_upto(st, cands, k - 1);
        if !st1.done {
            lemma_candidate_completed_count(st1, cands[k - 1]);
            lemma_count_concat(o1, spec_step_candidate(st1, cands[k - 1]).1);
        } else {
            assert(spec_candidates_upto(st, cands, k) == (st1, o1));
        }
    }
}

/// One machine step emits exactly as many `Completed` events as it
/// flips the completion flag.
proof fn lemma_step_completed_count(st: SseStateV, ev: StreamEventV)
    ensures
        ({
            let (st2, o) = spec_step(st, ev);
            &&& spec_count_completed(o) == spec_flag_count(st2.completed_sent) - spec_flag_count(
                st.completed_sent,
            )
            &&& st.completed_sent ==> st2.completed_sent
        }),
{
    if !st.done {
        match ev {
            StreamEventV::Chunk(c) => {
                let st0 = match c.usage_metadata {
                    Some(u) => SseStateV { last_usage: Some(u), ..st },
                    None => st,
                };
                lemma_candidates_completed_count(st0, c.candidates, c.candidates.len() as int);
            },
            StreamEventV::Closed => {
                let (st1, o1) = spec_flush(st);
                let o = spec_step(st, ev).1;
                match st.assistant_texts {
                    Some(texts) => {
                        assert(spec_count_completed(o1) == 0) by {
                            assert(spec_count_completed(Seq::<StreamOutputV>::empty()) == 0);
                            assert(o1.len() == 1);
                            assert(o1.drop_last() =~= Seq::<StreamOutputV>::empty());
                        }
                    },
                    None => {
                        assert(o1 =~= Seq::<StreamOutputV>::empty());
                    },
                }
                if !st1.completed_sent {
                    lemma_count_concat(o1, o.subrange(o1.len() as int, o.len() as int));
                    assert(o =~= o1 + o.subrange(o1.len() as int, o.len() as int));
                    assert(spec_count_completed(
                        o.subrange(o1.len() as int, o.len() as int),
                    ) == 1) by {
                        assert(spec_count_completed(Seq::<StreamOutputV>::empty()) == 0);
                        let tail = o.subrange(o1.len() as int, o.len() as int);
                        assert(tail.len() == 1);
                        assert(tail.drop_last() =~= Seq::<StreamOutputV>::empty());
                        assert(spec_output_completed(tail.last()));
                    }
                }
            },
            StreamEventV::TransportError { .. } => {
                let o = spec_step(st, ev).1;
                assert(spec_count_completed(o) == 0) by {
                    assert(spec_count_completed(Seq::<StreamOutputV>::empty()) == 0);
                    assert(o.len() == 1);
                    assert(o.drop_last() =~= Seq::<StreamOutputV>::empty());
                }
            },
            StreamEventV::IdleTimeout => {
                let o = spec_step(st, ev).1;
                assert(spec_count_completed(o) == 0) by {
                    assert(spec_count_completed(Seq::<StreamOutputV>::empty()) == 0);
                    assert(o.len() == 1);
                    assert(o.drop_last() =~= Seq::<StreamOutputV>::empty());
                }
            },
            StreamEventV::Malformed => {},
        }
    }
}

/// A whole run emits exactly as many `Completed` events as its final
/// completion flag shows: one if the stream completed, zero otherwise.
proof fn lemma_run_completed_count(events: Seq<StreamEventV>, k: int)
    requires
        0 <= k <= events.len(),
    ensures
        ({
            let (st, o) = spec_run_upto(events, k);
            spec_count_completed(o) == spec_flag_count(st.completed_sent)
        }),
    decreases k,
{
    if k > 0 {
        lemma_run_completed_count(events, k - 1);
        let (st1, o1) = spec_run_upto(events, k - 1);
        lemma_step_completed_count(st1, events[k - 1]);
        lemma_count_concat(o1, spec_step(st1, events[k - 1]).1);
    }
}

/// `Completed` is emitted at most once, whatever the stream delivers.
pub proof fn lemma_completed_at_most_once(events: Seq<StreamEventV>)
    ensures
        spec_count_completed(spec_run(events).1) <= 1,
{
    lemma_run_completed_count(events, events.len() as int);
}

/// The text-only part carrying one fragment.
pub open spec fn spec_text_part(t: Seq<char>) -> GeminiChunkPartV {
    GeminiChunkPartV { text: Some(t), function_call: None }
}

/// Two part sequences that agree on a prefix fold alike over it.
proof fn lemma_parts_upto_agree(
    st: SseStateV,
    p1: Seq<GeminiChunkPartV>,
    p2: Seq<GeminiChunkPartV>,
    k: int,
)
    requires
        k <= p1.len(),
        k <= p2.len(),
        forall|x: int| 0 <= x < k ==> p1[x] == p2[x],
    ensures
        spec_parts_upto(st, p1, k) == spec_parts_upto(st, p2, k),
    decreases k,
{
    if k > 0 {
        lemma_parts_upto_agree(st, p1, p2, k - 1);
    }
}

/// Feeding non-empty text fragments extends the pending message by
/// exactly the fragments emitted as deltas; a first fragment opens the
/// message with one `OutputItemAdded`.
pub proof fn lemma_text_parts_fold(st: SseStateV, texts: Seq<Seq<char>>)
    requires
        forall|x: int| 0 <= x < texts.len() ==> #[trigger] texts[x].len() > 0,
    ensures
        ({
            let parts = texts.map(|i: int, t: Seq<char>| spec_text_part(t));
            let (st2, o) = spec_parts_upto(st, parts, parts.len() as int);
            let deltas = texts.map(
                |i: int, t: Seq<char>| Ok::<ResponseEventV, ApiErrorV>(
                    ResponseEventV::OutputTextDelta(t),
                ),
            );
            &&& st2.completed_sent == st.completed_sent
            &&& st2.last_usage == st.last_usage
            &&& st2.done == st.done
            &&& st2.function_call_counter == st.function_call_counter
            &&& match st.assistant_texts {
                Some(acc) => st2.assistant_texts == Some(acc + texts) && o == deltas,
                None => if texts.len() == 0 {
                    st2 == st && o == Seq::<StreamOutputV>::empty()
                } else {
                    st2.assistant_texts == Some(texts) && o == seq![
                        Ok::<ResponseEventV, ApiErrorV>(
                            ResponseEventV::OutputItemAdded(
                                spec_assistant_message(Seq::empty()),
                            ),
                        ),
                    ] + deltas
                },
            }
        }),
    decreases texts.len(),
{
    let parts = texts.map(|i: int, t: Seq<char>| spec_text_part(t));
    if texts.len() == 0 {
        match st.assistant_texts {
            Some(acc) => {
                assert(acc + texts =~= acc);
                assert(texts.map(
                    |i: int, t: Seq<char>| Ok::<ResponseEventV, ApiErrorV>(
                        ResponseEventV::OutputTextDelta(t),
                    ),
                ) =~= Seq::<StreamOutputV>::empty());
            },
            None => {},
        }
    } else {
        let ts = texts.drop_last();
        let t = texts.last();
        assert(forall|x: int| 0 <= x < ts.len() ==> #[trigger] ts[x].len() > 0);
        lemma_text_parts_fold(st, ts);
        let prev_parts = ts.map(|i: int, t2: Seq<char>| spec_text_part(t2));
        assert(forall|x: int| 0 <= x < prev_parts.len() ==> prev_parts[x] == parts[x]);
        lemma_parts_upto_agree(st, prev_parts, parts, prev_parts.len() as int);
        let (st1, o1) = spec_parts_upto(st, parts, parts.len() - 1);
        assert(parts[parts.len() - 1] == spec_text_part(t));
        let (st2, o) = spec_parts_upto(st, parts, parts.len() as int);
        let deltas = texts.map(
            |i: int, t2: Seq<char>| Ok::<ResponseEventV, ApiErrorV>(
                ResponseEventV::OutputTextDelta(t2),
            ),
        );
        match st.assistant_texts {
            Some(acc) => {
                assert(st1.assistant_texts == Some(acc + ts));
                assert((acc + ts).push(t) =~= acc + texts);
                assert(o =~= deltas);
            },
            None => {
                if ts.len() == 0 {
                    assert(o =~= seq![
                        Ok::<ResponseEventV, ApiErrorV>(
                            ResponseEventV::OutputItemAdded(
                                spec_assistant_message(Seq::empty()),
                            ),
                        ),
                    ] + deltas);
                    assert(Seq::<Seq<char>>::empty().push(t) =~= texts);
                } else {
                    assert(st1.assistant_texts == Some(ts));
                    assert(ts.push(t) =~= texts);
                    assert(o =~= seq![
                        Ok::<ResponseEventV, ApiErrorV>(
                            ResponseEventV::OutputItemAdded(
                                spec_assistant_message(Seq::empty()),
                            ),
                        ),
                    ] + deltas);
                }
            },
        }
    }
}

/// Concatenating all `OutputTextDelta` values for one logical message
/// equals the `OutputItemDone` message's full text content: feeding any
/// non-empty text fragments from a state with no pending item emits one
/// `OutputItemAdded`, then exactly those fragments as deltas, and the
/// flushed message's content is exactly that fragment sequence.
pub proof fn lemma_deltas_match_done(st: SseStateV, texts: Seq<Seq<char>>)
    requires
        st.assistant_texts is None,
        texts.len() > 0,
        forall|x: int| 0 <= x < texts.len() ==> #[trigger] texts[x].len() > 0,
    ensures
        ({
            let parts = texts.map(|i: int, t: Seq<char>| spec_text_part(t));
            let (st2, o) = spec_parts_upto(st, parts, parts.len() as int);
            &&& st2.assistant_texts == Some(texts)
            &&& o == seq![
                Ok::<ResponseEventV, ApiErrorV>(
                    ResponseEventV::OutputItemAdded(spec_assistant_message(Seq::empty())),
                ),
            ] + texts.map(
                |i: int, t: Seq<char>| Ok::<ResponseEventV, ApiErrorV>(
                    ResponseEventV::OutputTextDelta(t),
                ),
            )
            &&& spec_flush(st2).1 == seq![
                Ok::<ResponseEventV, ApiErrorV>(
                    ResponseEventV::OutputItemDone(spec_assistant_message(texts)),
                ),
            ]
        }),
    decreases texts.len(),
{
    let parts = texts.map(|i: int, t: Seq<char>| spec_text_part(t));
    if texts.len() == 1 {
        assert(parts[0] == spec_text_part(texts[0]));
        assert(spec_parts_upto(st, parts, 0) == ((st, Seq::<StreamOutputV>::empty())));
        let (st2, o) = spec_parts_upto(st, parts, 1);
        assert(st2.assistant_texts == Some(Seq::<Seq<char>>::empty().push(texts[0])));
        assert(Seq::<Seq<char>>::empty().push(texts[0]) =~= texts);
        assert(o =~= seq![
            Ok::<ResponseEventV, ApiErrorV>(
                ResponseEventV::OutputItemAdded(spec_assistant_message(Seq::empty())),
            ),
        ] + texts.map(
            |i: int, t: Seq<char>| Ok::<ResponseEventV, ApiErrorV>(
                ResponseEventV::OutputTextDelta(t),
            ),
        ));
    } else {
        let ts = texts.drop_last();
        let t = texts.last();
        assert(forall|x: int| 0 <= x < ts.len() ==> #[trigger] ts[x].len() > 0);
        lemma_deltas_match_done(st, ts);
        let prev_parts = ts.map(|i: int, t2: Seq<char>| spec_text_part(t2));
        assert(forall|x: int| 0 <= x < prev_parts.len() ==> prev_parts[x] == parts[x]);
        lemma_parts_upto_agree(st, prev_parts, parts, prev_parts.len() as int);
        let (st1, o1) = spec_parts_upto(st, parts, parts.len() - 1);
        assert(st1.assistant_texts == Some(ts));
        assert(parts[parts.len() - 1] == spec_text_part(t));
        let (st2, o) = spec_parts_upto(st, parts, parts.len() as int);
        assert(st2.assistant_texts == Some(ts.push(t)));
        assert(ts.push(t) =~= texts);
        assert(o =~= seq![
            Ok::<ResponseEventV, ApiErrorV>(
                ResponseEventV::OutputItemAdded(spec_assistant_message(Seq::empty())),
            ),
        ] + texts.map(
            |i: int, t2: Seq<char>| Ok::<ResponseEventV, ApiErrorV>(
                ResponseEventV::OutputTextDelta(t2),
            ),
        ));
    }
}

/// A candidate that carries only text fragments and no termination
/// signal.
pub open spec fn spec_text_candidate(texts: Seq<Seq<char>>) -> GeminiCandidateV {
    GeminiCandidateV {
        parts: texts.map(|i: int, t: Seq<char>| spec_text_part(t)),
        finish_reason: None,
    }
}

/// One poll result carrying exactly one text-only candidate.
pub open spec fn spec_text_chunk_event(texts: Seq<Seq<char>>) -> StreamEventV {
    StreamEventV::Chunk(
        GeminiChunkV { candidates: seq![spec_text_candidate(texts)], usage_metadata: None },
    )
}

/// The fragments of the first `k` chunks, in delivery order.
pub open spec fn spec_flatten_texts_upto(tss: Seq<Seq<Seq<char>>>, k: int) -> Seq<Seq<char>>
    decreases k,
{
    if k <= 0 {
        Seq::empty()
    } else {
        spec_flatten_texts_upto(tss, k - 1) + tss[k - 1]
    }
}

/// Two event sequences that agree on a prefix run alike over it.
proof fn lemma_run_upto_agree(e1: Seq<StreamEventV>, e2: Seq<StreamEventV>, k: int)
    requires
        k <= e1.len(),
        k <= e2.len(),
        forall|x: int| 0 <= x < k ==> e1[x] == e2[x],
    ensures
        spec_run_upto(e1, k) == spec_run_upto(e2, k),
    decreases k,
{
    if k > 0 {
        lemma_run_upto_agree(e1, e2, k - 1);
    }
}

/// One logical message whose fragments span any number of chunks:
/// running the machine over text-only chunks emits one
/// `OutputItemAdded`, then exactly the delivered fragments as deltas,
/// and the pending message's content is exactly that fragment sequence
/// — so flushing it emits an `OutputItemDone` whose text equals the
/// concatenation of all deltas.
pub proof fn lemma_message_spans_chunks(tss: Seq<Seq<Seq<char>>>)
    requires
        tss.len() > 0,
        forall|i: int| 0 <= i < tss.len() ==> #[trigger] tss[i].len() > 0,
        forall|i: int, x: int|
            0 <= i < tss.len() && 0 <= x < #[trigger] tss[i].len() ==> #[trigger] tss[i][x].len()
                > 0,
    ensures
        ({
            let events = tss.map(|i: int, ts: Seq<Seq<char>>| spec_text_chunk_event(ts));
            let flat = spec_flatten_texts_upto(tss, tss.len() as int);
            let (st, o) = spec_run_upto(events, events.len() as int);
            &&& st.assistant_texts == Some(flat)
            &&& !st.done
            &&& !st.completed_sent
            &&& o == seq![
                Ok::<ResponseEventV, ApiErrorV>(
                    ResponseEventV::OutputItemAdded(spec_assistant_message(Seq::empty())),
                ),
            ] + flat.map(
                |i: int, t: Seq<char>| Ok::<ResponseEventV, ApiErrorV>(
                    ResponseEventV::OutputTextDelta(t),
                ),
            )
            &&& spec_flush(st).1 == seq![
                Ok::<ResponseEventV, ApiErrorV>(
                    ResponseEventV::OutputItemDone(spec_assistant_message(flat)),
                ),
            ]
        }),
    decreases tss.len(),
{
    let events = tss.map(|i: int, ts: Seq<Seq<char>>| spec_text_chunk_event(ts));
    let flat = spec_flatten_texts_upto(tss, tss.len() as int);
    let n = tss.len() as int;
    let ts_last = tss.last();
    let deltas = |s: Seq<Seq<char>>| s.map(
        |i: int, t: Seq<char>| Ok::<ResponseEventV, ApiErrorV>(
            ResponseEventV::OutputTextDelta(t),
        ),
    );
    if tss.len() == 1 {
        assert(spec_run_upto(events, 0) == (
            (spec_initial_state(), Seq::<StreamOutputV>::empty())
        ));
        assert(events[0] == spec_text_chunk_event(tss[0]));
        let st0 = spec_initial_state();
        let c = GeminiChunkV {
            candidates: seq![spec_text_candidate(tss[0])],
            usage_metadata: None,
        };
        assert(spec_candidates_upto(st0, c.candidates, 0) == ((
            st0,
            Seq::<StreamOutputV>::empty(),
        )));
        lemma_text_parts_fold(st0, tss[0]);
        assert(spec_flatten_texts_upto(tss, 0) =~= Seq::<Seq<char>>::empty());
        assert(flat =~= tss[0]);
        let (st, o) = spec_run_upto(events, 1);
        assert(o =~= seq![
            Ok::<ResponseEventV, ApiErrorV>(
                ResponseEventV::OutputItemAdded(spec_assistant_message(Seq::empty())),
            ),
        ] + deltas(flat));
    } else {
        let prefix = tss.drop_last();
        assert(forall|i: int| 0 <= i < prefix.len() ==> #[trigger] prefix[i].len() > 0);
        assert(forall|i: int, x: int|
            0 <= i < prefix.len() && 0 <= x < #[trigger] prefix[i].len()
                ==> #[trigger] prefix[i][x].len() > 0);
        lemma_message_spans_chunks(prefix);
        let prev_events = prefix.map(|i: int, ts: Seq<Seq<char>>| spec_text_chunk_event(ts));
        assert(forall|x: int| 0 <= x < prev_events.len() ==> prev_events[x] == events[x]);
        lemma_run_upto_agree(prev_events, events, n - 1);
        let prev_flat = spec_flatten_texts_upto(prefix, prefix.len() as int);
        assert(prev_flat =~= spec_flatten_texts_upto(tss, n - 1)) by {
            lemma_flatten_prefix(tss, prefix, n - 1);
        }
        let (st1, o1) = spec_run_upto(events, n - 1);
        assert(events[n - 1] == spec_text_chunk_event(ts_last));
        let c = GeminiChunkV {
            candidates: seq![spec_text_candidate(ts_last)],
            usage_metadata: None,
        };
        assert(spec_candidates_upto(st1, c.candidates, 0) == ((
            st1,
            Seq::<StreamOutputV>::empty(),
        )));
        lemma_text_parts_fold(st1, ts_last);
        let (st, o) = spec_run_upto(events, n);
        assert(st.assistant_texts == Some(prev_flat + ts_last));
        assert(prev_flat + ts_last =~= flat);
        assert(o =~= (seq![
            Ok::<ResponseEventV, ApiErrorV>(
                ResponseEventV::OutputItemAdded(spec_assistant_message(Seq::empty())),
            ),
        ] + deltas(prev_flat)) + deltas(ts_last));
        assert(deltas(prev_flat) + deltas(ts_last) =~= deltas(flat));
        assert(o =~= seq![
            Ok::<ResponseEventV, ApiErrorV>(
                ResponseEventV::OutputItemAdded(spec_assistant_message(Seq::empty())),
            ),
        ] + deltas(flat));
    }
}

/// Flattening a prefix of the chunk texts reads only that prefix.
proof fn lemma_flatten_prefix(tss: Seq<Seq<Seq<char>>>, prefix: Seq<Seq<Seq<char>>>, k: int)
    requires
        0 <= k <= prefix.len(),
        k <= tss.len(),
        forall|x: int| 0 <= x < k ==> prefix[x] == tss[x],
    ensures
        spec_flatten_texts_upto(prefix, k) == spec_flatten_texts_upto(tss, k),
    decreases k,
{
    if k > 0 {
        lemma_flatten_prefix(tss, prefix, k - 1);
    }
}

} // verus!
