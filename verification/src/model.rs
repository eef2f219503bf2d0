//! Normalized, vendor-agnostic vocabulary: conversation items, content
//! parts, prompts, response events, token-usage counters and the error
//! taxonomy. Pure data; each type carries a mathematical view over
//! `Seq<char>` so that contracts can speak of its contents.

use vstd::prelude::*;

verus! {

/// One part of a message's content.
#[derive(Debug, Clone, PartialEq, Eq)]
pub enum ContentItem {
    InputText { text: String },
    OutputText { text: String },
    InputImage { image_url: String },
}

/// Spec-level image of a `ContentItem`.
pub enum ContentItemV {
    InputText { text: Seq<char> },
    OutputText { text: Seq<char> },
    InputImage { image_url: Seq<char> },
}

impl View for ContentItem {
    type V = ContentItemV;

    open spec fn view(&self) -> ContentItemV {
        match self {
            ContentItem::InputText { text } => ContentItemV::InputText { text: text@ },
            ContentItem::OutputText { text } => ContentItemV::OutputText { text: text@ },
            ContentItem::InputImage { image_url } => ContentItemV::InputImage {
                image_url: image_url@,
            },
        }
    }
}

/// One part of a function-call result.
#[derive(Debug, Clone, PartialEq, Eq)]
pub enum FunctionCallOutputContentItem {
    InputText { text: String },
    InputImage { image_url: String },
}

/// Spec-level image of a `FunctionCallOutputContentItem`.
pub enum FunctionCallOutputContentItemV {
    InputText { text: Seq<char> },
    InputImage { image_url: Seq<char> },
}

impl View for FunctionCallOutputContentItem {
    type V = FunctionCallOutputContentItemV;

    open spec fn view(&self) -> FunctionCallOutputContentItemV {
        match self {
            FunctionCallOutputContentItem::InputText { text } => {
                FunctionCallOutputContentItemV::InputText { text: text@ }
            },
            FunctionCallOutputContentItem::InputImage { image_url } => {
                FunctionCallOutputContentItemV::InputImage { image_url: image_url@ }
            },
        }
    }
}

/// Payload of a `FunctionCallOutput` item: either one plain string or a
/// list of structured parts.
#[derive(Debug, Clone, PartialEq, Eq)]
pub struct FunctionCallOutputPayload {
    pub content: String,
    pub content_items: Option<Vec<FunctionCallOutputContentItem>>,
}

/// Spec-level image of a `FunctionCallOutputPayload`.
pub struct FunctionCallOutputPayloadV {
    pub content: Seq<char>,
    pub content_items: Option<Seq<FunctionCallOutputContentItemV>>,
}

impl View for FunctionCallOutputPayload {
    type V = FunctionCallOutputPayloadV;

    open spec fn view(&self) -> FunctionCallOutputPayloadV {
        FunctionCallOutputPayloadV {
            content: self.content@,
            content_items: match self.content_items {
                Some(items) => Some(items@.map(|i: int, it: FunctionCallOutputContentItem| it@)),
                None => None,
            },
        }
    }
}

/// One item of a conversation. Variants that no backend needs are carried
/// without payload: builders skip them and must never fail on them.
#[derive(Debug, Clone, PartialEq, Eq)]
pub enum ResponseItem {
    Message { id: Option<String>, role: String, content: Vec<ContentItem> },
    FunctionCall {
        id: Option<String>,
        name: String,
        arguments: String,
        call_id: String,
        thought_signature: Option<String>,
    },
    FunctionCallOutput { call_id: String, output: FunctionCallOutputPayload },
    LocalShellCall,
    CustomToolCall,
    CustomToolCallOutput,
    Reasoning,
    WebSearchCall,
    Snapshot,
    CompactionSummary,
    Other,
}

/// Spec-level image of a `ResponseItem`.
pub enum ResponseItemV {
    Message { id: Option<Seq<char>>, role: Seq<char>, content: Seq<ContentItemV> },
    FunctionCall {
        id: Option<Seq<char>>,
        name: Seq<char>,
        arguments: Seq<char>,
        call_id: Seq<char>,
        thought_signature: Option<Seq<char>>,
    },
    FunctionCallOutput { call_id: Seq<char>, output: FunctionCallOutputPayloadV },
    LocalShellCall,
    CustomToolCall,
    CustomToolCallOutput,
    Reasoning,
    WebSearchCall,
    Snapshot,
    CompactionSummary,
    Other,
}

/// View of an optional string.
pub open spec fn opt_str_view(s: Option<String>) -> Option<Seq<char>> {
    match s {
        Some(t) => Some(t@),
        None => None,
    }
}

impl View for ResponseItem {
    type V = ResponseItemV;

    open spec fn view(&self) -> ResponseItemV {
        match self {
            ResponseItem::Message { id, role, content } => ResponseItemV::Message {
                id: opt_str_view(*id),
                role: role@,
                content: content@.map(|i: int, c: ContentItem| c@),
            },
            ResponseItem::FunctionCall { id, name, arguments, call_id, thought_signature } => {
                ResponseItemV::FunctionCall {
                    id: opt_str_view(*id),
                    name: name@,
                    arguments: arguments@,
                    call_id: call_id@,
                    thought_signature: opt_str_view(*thought_signature),
                }
            },
            ResponseItem::FunctionCallOutput { call_id, output } => {
                ResponseItemV::FunctionCallOutput { call_id: call_id@, output: output@ }
            },
            ResponseItem::LocalShellCall => ResponseItemV::LocalShellCall,
            ResponseItem::CustomToolCall => ResponseItemV::CustomToolCall,
            ResponseItem::CustomToolCallOutput => ResponseItemV::CustomToolCallOutput,
            ResponseItem::Reasoning => ResponseItemV::Reasoning,
            ResponseItem::WebSearchCall => ResponseItemV::WebSearchCall,
            ResponseItem::Snapshot => ResponseItemV::Snapshot,
            ResponseItem::CompactionSummary => ResponseItemV::CompactionSummary,
            ResponseItem::Other => ResponseItemV::Other,
        }
    }
}

/// Token counts for one exchange; missing vendor fields default to 0.
#[derive(Debug, Clone, Copy, PartialEq, Eq)]
pub struct TokenUsage {
    pub input_tokens: i64,
    pub output_tokens: i64,
    pub cached_input_tokens: i64,
    pub reasoning_output_tokens: i64,
    pub total_tokens: i64,
}

/// Error taxonomy surfaced on the event channel and by the transport.
#[derive(Debug, Clone, PartialEq, Eq)]
pub enum ApiError {
    /// Transport/network failure before any response arrived.
    Transport { message: String },
    /// HTTP status error (429/5xx conditionally retryable, others fatal).
    Http { status: u16 },
    /// Generation hit the context window; callers may react by truncating.
    ContextWindowExceeded,
    /// Generic stream failure with a message (parse failure, safety block,
    /// idle timeout, transport error mid-stream).
    Stream { message: String },
}

/// Spec-level image of an `ApiError`.
pub enum ApiErrorV {
    Transport { message: Seq<char> },
    Http { status: u16 },
    ContextWindowExceeded,
    Stream { message: Seq<char> },
}

impl View for ApiError {
    type V = ApiErrorV;

    open spec fn view(&self) -> ApiErrorV {
        match self {
            ApiError::Transport { message } => ApiErrorV::Transport { message: message@ },
            ApiError::Http { status } => ApiErrorV::Http { status: *status },
            ApiError::ContextWindowExceeded => ApiErrorV::ContextWindowExceeded,
            ApiError::Stream { message } => ApiErrorV::Stream { message: message@ },
        }
    }
}

/// The parser's output alphabet. For a given logical output item,
/// `OutputItemAdded` (if emitted) precedes any deltas, which precede its
/// `OutputItemDone`; exactly one `Completed` terminates a successful
/// stream and it is always last.
#[derive(Debug, Clone, PartialEq, Eq)]
pub enum ResponseEvent {
    OutputItemAdded(ResponseItem),
    OutputTextDelta(String),
    OutputItemDone(ResponseItem),
    Completed { response_id: String, token_usage: Option<TokenUsage> },
}

/// Spec-level image of a `ResponseEvent`.
pub enum ResponseEventV {
    OutputItemAdded(ResponseItemV),
    OutputTextDelta(Seq<char>),
    OutputItemDone(ResponseItemV),
    Completed { response_id: Seq<char>, token_usage: Option<TokenUsage> },
}

impl View for ResponseEvent {
    type V = ResponseEventV;

    open spec fn view(&self) -> ResponseEventV {
        match self {
            ResponseEvent::OutputItemAdded(item) => ResponseEventV::OutputItemAdded(item@),
            ResponseEvent::OutputTextDelta(text) => ResponseEventV::OutputTextDelta(text@),
            ResponseEvent::OutputItemDone(item) => ResponseEventV::OutputItemDone(item@),
            ResponseEvent::Completed { response_id, token_usage } => ResponseEventV::Completed {
                response_id: response_id@,
                token_usage: *token_usage,
            },
        }
    }
}

/// What the consumer of a stream receives, one element per poll.
pub type StreamOutput = Result<ResponseEvent, ApiError>;

/// Spec-level image of a `StreamOutput`.
pub type StreamOutputV = Result<ResponseEventV, ApiErrorV>;

/// View of one stream output.
pub open spec fn output_view(o: StreamOutput) -> StreamOutputV {
    match o {
        Ok(ev) => Ok(ev@),
        Err(e) => Err(e@),
    }
}

/// View of a sequence of stream outputs.
pub open spec fn outputs_view(s: Seq<StreamOutput>) -> Seq<StreamOutputV> {
    s.map(|i: int, o: StreamOutput| output_view(o))
}

/// View of a sequence of strings.
pub open spec fn strs_view(s: Seq<String>) -> Seq<Seq<char>> {
    s.map(|i: int, t: String| t@)
}

/// View of a sequence of header (name, value) pairs.
pub open spec fn pairs_view(s: Seq<(String, String)>) -> Seq<(Seq<char>, Seq<char>)> {
    s.map(|i: int, p: (String, String)| (p.0@, p.1@))
}

/// View of a sequence of conversation items.
pub open spec fn items_view(s: Seq<ResponseItem>) -> Seq<ResponseItemV> {
    s.map(|i: int, it: ResponseItem| it@)
}

/// View of a sequence of tool specifications.
pub open spec fn tools_view(s: Seq<ToolSpec>) -> Seq<ToolSpecV> {
    s.map(|i: int, t: ToolSpec| t@)
}

/// A tool the model may call: the internal schema-carrying shape. Tools
/// without a recognizable function declaration are skipped by builders.
#[derive(Debug, Clone, PartialEq, Eq)]
pub enum ToolSpec {
    Function {
        name: Option<String>,
        description: Option<String>,
        parameters_json: Option<String>,
    },
    Other,
}

/// Spec-level image of a `ToolSpec`.
pub enum ToolSpecV {
    Function {
        name: Option<Seq<char>>,
        description: Option<Seq<char>>,
        parameters_json: Option<Seq<char>>,
    },
    Other,
}

impl View for ToolSpec {
    type V = ToolSpecV;

    open spec fn view(&self) -> ToolSpecV {
        match self {
            ToolSpec::Function { name, description, parameters_json } => ToolSpecV::Function {
                name: opt_str_view(*name),
                description: opt_str_view(*description),
                parameters_json: opt_str_view(*parameters_json),
            },
            ToolSpec::Other => ToolSpecV::Other,
        }
    }
}

/// The input of one call: immutable for its duration.
#[derive(Debug, Clone, PartialEq, Eq)]
pub struct Prompt {
    pub instructions: String,
    pub input: Vec<ResponseItem>,
    pub tools: Vec<ToolSpec>,
}

/// Where a session was started from; carried through request building
/// without being read.
#[derive(Debug, Clone, Copy, PartialEq, Eq)]
pub enum SessionSource {
    Cli,
    VsCode,
    Exec,
    Mcp,
}

} // verus!
