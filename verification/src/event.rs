//! The event model: a run's single ordered narrative.
//!
//! Every meaningful thing that happens during one agent run is visible as a
//! [`TurnEvent`]. Events carry self-sufficient payloads: understanding a
//! step never requires state outside the stream.
//!
//! Exactly one terminal lifecycle event (`Completed`, `Failed`, or
//! `Cancelled`) is the last event of a run; the stream closes after it. A
//! round spans from one `Requested` with the `Reasoning` purpose to the
//! next; the round number is carried explicitly in the payload.

use vstd::prelude::*;

use crate::error::{AgentError, AgentErrorView};
use crate::io::{AgentInput, AgentInputView, AgentOutput, AgentOutputView};
use crate::message::{
    CallId, Message, MessageView, ToolCall, ToolCallView, ToolResult, ToolResultView,
};

verus! {

/// Why a run was cancelled.
#[derive(Debug, Clone, Copy, PartialEq, Eq, Hash, Structural)]
pub enum CancelReason {
    /// The consumer asked for it (a call, a token, or a dropped handle).
    UserRequested,
    /// The run's time budget elapsed.
    Timeout,
    /// An enclosing run was cancelled.
    Parent,
}

/// What a cancel reason reads as.
pub open spec fn cancel_reason_text(reason: CancelReason) -> Seq<char> {
    match reason {
        CancelReason::UserRequested => "user requested"@,
        CancelReason::Timeout => "timeout"@,
        CancelReason::Parent => "parent"@,
    }
}

impl CancelReason {
    /// The reason as words.
    pub fn to_string(&self) -> (text: String)
        ensures
            text@ == cancel_reason_text(*self),
    {
        match self {
            CancelReason::UserRequested => "user requested".to_owned(),
            CancelReason::Timeout => "timeout".to_owned(),
            CancelReason::Parent => "parent".to_owned(),
        }
    }
}

/// What a model call is for.
#[derive(Debug, Clone, Copy, PartialEq, Eq, Hash, Structural)]
pub enum CallPurpose {
    /// A round of the reasoning loop.
    Reasoning,
    /// Maintenance of the context (summaries, rewrites).
    ContextManagement,
    /// A classification.
    Classification,
}

/// Token accounting.
#[derive(Debug, Clone, Copy, PartialEq, Eq, Structural)]
pub struct TokenUsage {
    /// Tokens sent to the model.
    pub input_tokens: u64,
    /// Tokens the model produced.
    pub output_tokens: u64,
}

impl TokenUsage {
    /// Creates an accounting record.
    pub fn new(input_tokens: u64, output_tokens: u64) -> (usage: Self)
        ensures
            usage == (TokenUsage { input_tokens, output_tokens }),
    {
        TokenUsage { input_tokens, output_tokens }
    }
}

/// An incremental response fragment.
#[derive(Debug, PartialEq)]
pub enum ModelDelta {
    /// A text fragment.
    Text {
        /// The fragment.
        text: String,
    },
}

/// What a [`ModelDelta`] holds.
pub ghost enum ModelDeltaView {
    Text { text: Seq<char> },
}

impl DeepView for ModelDelta {
    type V = ModelDeltaView;

    open spec fn deep_view(&self) -> ModelDeltaView {
        match self {
            ModelDelta::Text { text } => ModelDeltaView::Text { text: text@ },
        }
    }
}

impl Clone for ModelDelta {
    fn clone(&self) -> (copy: Self)
        ensures
            copy == *self,
    {
        match self {
            ModelDelta::Text { text } => ModelDelta::Text { text: text.clone() },
        }
    }
}

/// The reasoning round an event belongs to; `None` for auxiliary calls.
pub type Round = Option<usize>;

/// One event of a run.
#[derive(Debug, PartialEq)]
pub enum TurnEvent {
    /// The run's lifecycle.
    Lifecycle(LifecycleEvent),
    /// A model call.
    Model(ModelEvent),
    /// A tool call.
    Tool(ToolEvent),
}

/// What a [`TurnEvent`] holds.
pub ghost enum TurnEventView {
    Lifecycle(LifecycleEventView),
    Model(ModelEventView),
    Tool(ToolEventView),
}

impl DeepView for TurnEvent {
    type V = TurnEventView;

    open spec fn deep_view(&self) -> TurnEventView {
        match self {
            TurnEvent::Lifecycle(event) => TurnEventView::Lifecycle(event.deep_view()),
            TurnEvent::Model(event) => TurnEventView::Model(event.deep_view()),
            TurnEvent::Tool(event) => TurnEventView::Tool(event.deep_view()),
        }
    }
}

impl Clone for TurnEvent {
    fn clone(&self) -> (copy: Self)
        ensures
            copy.deep_view() == self.deep_view(),
    {
        match self {
            TurnEvent::Lifecycle(event) => TurnEvent::Lifecycle(event.clone()),
            TurnEvent::Model(event) => TurnEvent::Model(event.clone()),
            TurnEvent::Tool(event) => TurnEvent::Tool(event.clone()),
        }
    }
}

/// The run's lifecycle: one start, one terminal.
#[derive(Debug, PartialEq)]
pub enum LifecycleEvent {
    /// The run started.
    Started {
        /// The input of the run.
        input: AgentInput,
    },
    /// The run completed.
    Completed {
        /// The final output.
        response: AgentOutput,
    },
    /// The run failed.
    Failed {
        /// Why it failed.
        error: AgentError,
    },
    /// The run was cancelled.
    Cancelled {
        /// Why it was cancelled.
        reason: CancelReason,
    },
}

/// What a [`LifecycleEvent`] holds.
pub ghost enum LifecycleEventView {
    Started { input: AgentInputView },
    Completed { response: AgentOutputView },
    Failed { error: AgentErrorView },
    Cancelled { reason: CancelReason },
}

impl DeepView for LifecycleEvent {
    type V = LifecycleEventView;

    open spec fn deep_view(&self) -> LifecycleEventView {
        match self {
            LifecycleEvent::Started { input } => LifecycleEventView::Started {
                input: input.deep_view(),
            },
            LifecycleEvent::Completed { response } => LifecycleEventView::Completed {
                response: response.deep_view(),
            },
            LifecycleEvent::Failed { error } => LifecycleEventView::Failed {
                error: error.deep_view(),
            },
            LifecycleEvent::Cancelled { reason } => LifecycleEventView::Cancelled {
                reason: *reason,
            },
        }
    }
}

impl Clone for LifecycleEvent {
    fn clone(&self) -> (copy: Self)
        ensures
            copy.deep_view() == self.deep_view(),
    {
        match self {
            LifecycleEvent::Started { input } => LifecycleEvent::Started { input: input.clone() },
            LifecycleEvent::Completed { response } => LifecycleEvent::Completed {
                response: response.clone(),
            },
            LifecycleEvent::Failed { error } => LifecycleEvent::Failed { error: error.clone() },
            LifecycleEvent::Cancelled { reason } => LifecycleEvent::Cancelled { reason: *reason },
        }
    }
}

/// The course of a model call.
#[derive(Debug, PartialEq)]
pub enum ModelEvent {
    /// The call was made.
    Requested {
        /// What the call is for.
        purpose: CallPurpose,
        /// The messages sent.
        messages: Vec<Message>,
        /// The reasoning round.
        round: Round,
    },
    /// A fragment of the response arrived.
    StreamDelta {
        /// The fragment.
        delta: ModelDelta,
        /// The reasoning round.
        round: Round,
    },
    /// The response is complete.
    Responded {
        /// The complete message.
        message: Message,
        /// The call's token accounting.
        usage: TokenUsage,
        /// The reasoning round.
        round: Round,
    },
}

/// What a [`ModelEvent`] holds.
pub ghost enum ModelEventView {
    Requested { purpose: CallPurpose, messages: Seq<MessageView>, round: Option<usize> },
    StreamDelta { delta: ModelDeltaView, round: Option<usize> },
    Responded { message: MessageView, usage: TokenUsage, round: Option<usize> },
}

impl DeepView for ModelEvent {
    type V = ModelEventView;

    open spec fn deep_view(&self) -> ModelEventView {
        match self {
            ModelEvent::Requested { purpose, messages, round } => ModelEventView::Requested {
                purpose: *purpose,
                messages: messages.deep_view(),
                round: *round,
            },
            ModelEvent::StreamDelta { delta, round } => ModelEventView::StreamDelta {
                delta: delta.deep_view(),
                round: *round,
            },
            ModelEvent::Responded { message, usage, round } => ModelEventView::Responded {
                message: message.deep_view(),
                usage: *usage,
                round: *round,
            },
        }
    }
}

impl Clone for ModelEvent {
    fn clone(&self) -> (copy: Self)
        ensures
            copy.deep_view() == self.deep_view(),
    {
        match self {
            ModelEvent::Requested { purpose, messages, round } => {
                let copies = messages.clone();
                assert(copies.deep_view() =~= messages.deep_view());
                ModelEvent::Requested { purpose: *purpose, messages: copies, round: *round }
            },
            ModelEvent::StreamDelta { delta, round } => ModelEvent::StreamDelta {
                delta: delta.clone(),
                round: *round,
            },
            ModelEvent::Responded { message, usage, round } => ModelEvent::Responded {
                message: message.clone(),
                usage: *usage,
                round: *round,
            },
        }
    }
}

/// The course of a tool call.
#[derive(Debug, PartialEq)]
pub enum ToolEvent {
    /// The model asked for the call.
    CallRequested {
        /// The call.
        call: ToolCall,
        /// The reasoning round.
        round: Round,
    },
    /// The call finished.
    CallCompleted {
        /// The id of the call.
        call_id: CallId,
        /// What came of it.
        result: ToolResult,
        /// The reasoning round.
        round: Round,
    },
}

/// What a [`ToolEvent`] holds.
pub ghost enum ToolEventView {
    CallRequested { call: ToolCallView, round: Option<usize> },
    CallCompleted { call_id: Seq<char>, result: ToolResultView, round: Option<usize> },
}

impl DeepView for ToolEvent {
    type V = ToolEventView;

    open spec fn deep_view(&self) -> ToolEventView {
        match self {
            ToolEvent::CallRequested { call, round } => ToolEventView::CallRequested {
                call: call.deep_view(),
                round: *round,
            },
            ToolEvent::CallCompleted { call_id, result, round } => ToolEventView::CallCompleted {
                call_id: call_id.deep_view(),
                result: result.deep_view(),
                round: *round,
            },
        }
    }
}

impl Clone for ToolEvent {
    fn clone(&self) -> (copy: Self)
        ensures
            copy.deep_view() == self.deep_view(),
    {
        match self {
            ToolEvent::CallRequested { call, round } => ToolEvent::CallRequested {
                call: call.clone(),
                round: *round,
            },
            ToolEvent::CallCompleted { call_id, result, round } => ToolEvent::CallCompleted {
                call_id: call_id.clone(),
                result: result.clone(),
                round: *round,
            },
        }
    }
}

/// The stages of the memory flow, as failures name them.
#[derive(Debug, Clone, Copy, PartialEq, Eq, Structural)]
pub enum MemoryFlowStage {
    /// Reading the background while a run is assembled.
    AssembleRead,
    /// Archiving a turn or saving a conversation.
    Archive,
    /// Updating the topic.
    TopicUpdate,
    /// Summarizing older turns.
    Summarize,
    /// Distilling summaries into long-term knowledge.
    Distill,
    /// Waiting for background maintenance at conversation end.
    Drain,
}

/// The product narrative: what a consumer of a run renders.
#[derive(Debug, PartialEq)]
pub enum ExecutionEvent {
    /// A response fragment.
    Delta(ModelDelta),
    /// The model asked for a tool call.
    ToolRequested(ToolCall),
    /// A tool call finished.
    ToolCompleted {
        /// The id of the call.
        call_id: CallId,
        /// What came of it.
        result: ToolResult,
    },
    /// The run failed.
    Failed(AgentError),
    /// The run was cancelled.
    Cancelled(CancelReason),
    /// The run completed.
    Completed(AgentOutput),
}

/// What an [`ExecutionEvent`] holds.
pub ghost enum ExecutionEventView {
    Delta(ModelDeltaView),
    ToolRequested(ToolCallView),
    ToolCompleted { call_id: Seq<char>, result: ToolResultView },
    Failed(AgentErrorView),
    Cancelled(CancelReason),
    Completed(AgentOutputView),
}

impl DeepView for ExecutionEvent {
    type V = ExecutionEventView;

    open spec fn deep_view(&self) -> ExecutionEventView {
        match self {
            ExecutionEvent::Delta(delta) => ExecutionEventView::Delta(delta.deep_view()),
            ExecutionEvent::ToolRequested(call) => ExecutionEventView::ToolRequested(
                call.deep_view(),
            ),
            ExecutionEvent::ToolCompleted { call_id, result } => ExecutionEventView::ToolCompleted {
                call_id: call_id.deep_view(),
                result: result.deep_view(),
            },
            ExecutionEvent::Failed(error) => ExecutionEventView::Failed(error.deep_view()),
            ExecutionEvent::Cancelled(reason) => ExecutionEventView::Cancelled(*reason),
            ExecutionEvent::Completed(output) => ExecutionEventView::Completed(output.deep_view()),
        }
    }
}

/// Whether an event ends a run.
pub open spec fn is_terminal(event: TurnEventView) -> bool {
    match event {
        TurnEventView::Lifecycle(LifecycleEventView::Started { .. }) => false,
        TurnEventView::Lifecycle(_) => true,
        _ => false,
    }
}

} // verus!
