//! The reasoning loop: every decision of a run, from the assembled frame to
//! the terminal event.
//!
//! The loop is a state machine. It names the next thing to do as a
//! [`LoopAction`] (emit an event, open the model stream, wait for a tool,
//! record the turn, ...); whoever drives it does that and hands back what
//! came of it as a [`LoopInput`]. All that depends on the outside world is
//! in those inputs; everything the run decides is here.

use vstd::prelude::*;

use crate::bus::{MemoryEvent, MemoryEventView, MemoryFlowFailedMoment};
use crate::cancel::{cancel_reason, reason_of, CancelOutcome};
use crate::conversation::{
    store_error_text, ConversationStoreError, ConversationStoreErrorView, Turn, TurnOutcome,
    TurnOutcomeView, TurnView,
};
use crate::error::{AgentError, AgentErrorView, ModelError, ModelErrorView};
use crate::event::{
    CallPurpose, CancelReason, LifecycleEvent, LifecycleEventView, MemoryFlowStage, ModelEvent,
    ModelEventView, TokenUsage, ToolEvent, ToolEventView, TurnEvent, TurnEventView,
};
use crate::io::{AgentInput, AgentInputView, AgentOutput, AgentOutputView};
use crate::message::{
    copy_messages, text_message_view, CallId, ContentBlock, ContentBlockView, Message, MessageView,
    Role, ToolCall, ToolCallView, ToolResult, ToolResultView,
};
use crate::model::{
    ModelParams, ModelRequest, ModelRequestView, ModelStreamItem, ModelStreamItemView,
};
use crate::text::concat;
use crate::tool::{ToolSpec, ToolSpecView};
use crate::tool_round::{
    fresh_round, panic_result, panicked, settled_is_complete, ToolRound, ToolRoundView,
};

verus! {

/// What the driver of a run is to do next.
#[derive(Debug)]
pub enum LoopAction {
    /// Emit an event: the bus first, then the consumer. Answered by
    /// [`LoopInput::Sent`].
    Emit(TurnEvent),
    /// Assemble the frame of the run. Answered by [`LoopInput::Assembled`].
    Assemble,
    /// Look whether the run is cancelled already. Answered by
    /// [`LoopInput::CancelChecked`].
    CheckCancelled,
    /// Start a model call. Answered by [`LoopInput::Opened`],
    /// [`LoopInput::OpenFailed`], or [`LoopInput::Cancelled`].
    OpenModel(ModelRequest),
    /// Take the next item of the model stream. Answered by
    /// [`LoopInput::Item`] or [`LoopInput::Cancelled`].
    PollModel,
    /// Start all calls in parallel and wait for the first to finish.
    RunTools(Vec<ToolCall>),
    /// Wait for the next call to finish. Like [`LoopAction::RunTools`],
    /// answered by one of the tool inputs or [`LoopInput::Cancelled`].
    AwaitTool,
    /// Record a turn into the conversation and save it. Answered by
    /// [`LoopInput::Recorded`].
    Record(Turn),
    /// Report a memory fact on the bus. Answered by [`LoopInput::Reported`].
    Report(MemoryEvent),
    /// Maintain the memory after a completed turn. Answered by
    /// [`LoopInput::Maintained`].
    Maintain {
        /// The frame the turn started from.
        frame: Vec<Message>,
        /// The messages the turn added.
        responses: Vec<Message>,
    },
    /// The run is over.
    Stop,
}

/// What a [`LoopAction`] holds.
pub ghost enum LoopActionView {
    Emit(TurnEventView),
    Assemble,
    CheckCancelled,
    OpenModel(ModelRequestView),
    PollModel,
    RunTools(Seq<ToolCallView>),
    AwaitTool,
    Record(TurnView),
    Report(MemoryEventView),
    Maintain { frame: Seq<MessageView>, responses: Seq<MessageView> },
    Stop,
}

impl DeepView for LoopAction {
    type V = LoopActionView;

    open spec fn deep_view(&self) -> LoopActionView {
        match self {
            LoopAction::Emit(event) => LoopActionView::Emit(event.deep_view()),
            LoopAction::Assemble => LoopActionView::Assemble,
            LoopAction::CheckCancelled => LoopActionView::CheckCancelled,
            LoopAction::OpenModel(request) => LoopActionView::OpenModel(request.deep_view()),
            LoopAction::PollModel => LoopActionView::PollModel,
            LoopAction::RunTools(calls) => LoopActionView::RunTools(calls.deep_view()),
            LoopAction::AwaitTool => LoopActionView::AwaitTool,
            LoopAction::Record(turn) => LoopActionView::Record(turn.deep_view()),
            LoopAction::Report(event) => LoopActionView::Report(event.deep_view()),
            LoopAction::Maintain { frame, responses } => LoopActionView::Maintain {
                frame: frame.deep_view(),
                responses: responses.deep_view(),
            },
            LoopAction::Stop => LoopActionView::Stop,
        }
    }
}

/// What came of a [`LoopAction`].
#[derive(Debug)]
pub enum LoopInput {
    /// The event was emitted; whether the consumer is still there.
    Sent(bool),
    /// The frame of the run: all messages the model sees after the system
    /// message.
    Assembled(Vec<Message>),
    /// Whether the run is cancelled already, and by what.
    CancelChecked(Option<CancelOutcome>),
    /// The run was cancelled while waiting.
    Cancelled(CancelOutcome),
    /// The model call started.
    Opened,
    /// The model call could not be started.
    OpenFailed(ModelError),
    /// The next item of the model stream; `None` is its end.
    Item(Option<ModelStreamItem>),
    /// A call finished.
    ToolFinished {
        /// The id of the call.
        call_id: CallId,
        /// What came of it.
        result: ToolResult,
    },
    /// The task of a call panicked.
    ToolPanicked {
        /// The id of the call.
        call_id: CallId,
        /// What the panic left behind.
        detail: String,
    },
    /// The task of some call was aborted.
    ToolAborted,
    /// No call is left to wait for.
    ToolsDrained,
    /// The turn was recorded; the failure to save it, if any.
    Recorded(Option<ConversationStoreError>),
    /// The fact was reported.
    Reported,
    /// The memory was maintained.
    Maintained,
}

/// What a [`LoopInput`] holds.
pub ghost enum LoopInputView {
    Sent(bool),
    Assembled(Seq<MessageView>),
    CancelChecked(Option<CancelOutcome>),
    Cancelled(CancelOutcome),
    Opened,
    OpenFailed(ModelErrorView),
    Item(Option<ModelStreamItemView>),
    ToolFinished { call_id: Seq<char>, result: ToolResultView },
    ToolPanicked { call_id: Seq<char>, detail: Seq<char> },
    ToolAborted,
    ToolsDrained,
    Recorded(Option<ConversationStoreErrorView>),
    Reported,
    Maintained,
}

impl DeepView for LoopInput {
    type V = LoopInputView;

    open spec fn deep_view(&self) -> LoopInputView {
        match self {
            LoopInput::Sent(delivered) => LoopInputView::Sent(*delivered),
            LoopInput::Assembled(frame) => LoopInputView::Assembled(frame.deep_view()),
            LoopInput::CancelChecked(outcome) => LoopInputView::CancelChecked(*outcome),
            LoopInput::Cancelled(outcome) => LoopInputView::Cancelled(*outcome),
            LoopInput::Opened => LoopInputView::Opened,
            LoopInput::OpenFailed(error) => LoopInputView::OpenFailed(error.deep_view()),
            LoopInput::Item(item) => LoopInputView::Item(item.deep_view()),
            LoopInput::ToolFinished { call_id, result } => LoopInputView::ToolFinished {
                call_id: call_id.deep_view(),
                result: result.deep_view(),
            },
            LoopInput::ToolPanicked { call_id, detail } => LoopInputView::ToolPanicked {
                call_id: call_id.deep_view(),
                detail: detail@,
            },
            LoopInput::ToolAborted => LoopInputView::ToolAborted,
            LoopInput::ToolsDrained => LoopInputView::ToolsDrained,
            LoopInput::Recorded(error) => LoopInputView::Recorded(error.deep_view()),
            LoopInput::Reported => LoopInputView::Reported,
            LoopInput::Maintained => LoopInputView::Maintained,
        }
    }
}

/// What follows the recording of a turn.
#[derive(Debug, Clone, Copy, PartialEq, Eq, Structural)]
pub enum Closing {
    /// The terminal event follows, whether or not the consumer is still
    /// there.
    Announced,
    /// Nothing follows: the consumer is gone.
    Silent,
}

/// Where a run stands: what it waits for, and what it must remember until
/// then.
#[derive(Debug)]
enum LoopPhase {
    /// `Started` is being emitted.
    Starting,
    /// The frame is being assembled.
    Assembling,
    /// The cancellation signal is being looked at.
    Checking,
    /// `Requested` is being emitted.
    Requesting,
    /// The model call is being started.
    Opening,
    /// The next item of the model stream is awaited.
    Streaming,
    /// A delta is being emitted.
    Narrating,
    /// `Responded` is being emitted.
    Responding { message: Message },
    /// `CallRequested` of the call before `next` is being emitted.
    Announcing { calls: Vec<ToolCall>, next: usize },
    /// The next tool call to finish is awaited.
    Running { round: ToolRound },
    /// `CallCompleted` is being emitted.
    Settling { round: ToolRound, call_id: CallId, result: ToolResult },
    /// The turn is being recorded.
    Recording { outcome: TurnOutcome, closing: Closing },
    /// The failure to save the turn is being reported.
    Reporting { outcome: TurnOutcome, closing: Closing },
    /// The memory is being maintained.
    Maintaining { output: AgentOutput },
    /// The terminal event is being emitted.
    Terminating,
    /// The run is over.
    Done,
}

/// Where a run stands.
pub ghost enum LoopPhaseView {
    Starting,
    Assembling,
    Checking,
    Requesting,
    Opening,
    Streaming,
    Narrating,
    Responding { message: MessageView },
    Announcing { calls: Seq<ToolCallView>, next: int },
    Running { round: ToolRoundView },
    Settling { round: ToolRoundView, call_id: Seq<char>, result: ToolResultView },
    Recording { outcome: TurnOutcomeView, closing: Closing },
    Reporting { outcome: TurnOutcomeView, closing: Closing },
    Maintaining { output: AgentOutputView },
    Terminating,
    Done,
}

impl DeepView for LoopPhase {
    type V = LoopPhaseView;

    closed spec fn deep_view(&self) -> LoopPhaseView {
        match self {
            LoopPhase::Starting => LoopPhaseView::Starting,
            LoopPhase::Assembling => LoopPhaseView::Assembling,
            LoopPhase::Checking => LoopPhaseView::Checking,
            LoopPhase::Requesting => LoopPhaseView::Requesting,
            LoopPhase::Opening => LoopPhaseView::Opening,
            LoopPhase::Streaming => LoopPhaseView::Streaming,
            LoopPhase::Narrating => LoopPhaseView::Narrating,
            LoopPhase::Responding { message } => LoopPhaseView::Responding {
                message: message.deep_view(),
            },
            LoopPhase::Announcing { calls, next } => LoopPhaseView::Announcing {
                calls: calls.deep_view(),
                next: *next as int,
            },
            LoopPhase::Running { round } => LoopPhaseView::Running { round: round.deep_view() },
            LoopPhase::Settling { round, call_id, result } => LoopPhaseView::Settling {
                round: round.deep_view(),
                call_id: call_id.deep_view(),
                result: result.deep_view(),
            },
            LoopPhase::Recording { outcome, closing } => LoopPhaseView::Recording {
                outcome: outcome.deep_view(),
                closing: *closing,
            },
            LoopPhase::Reporting { outcome, closing } => LoopPhaseView::Reporting {
                outcome: outcome.deep_view(),
                closing: *closing,
            },
            LoopPhase::Maintaining { output } => LoopPhaseView::Maintaining {
                output: output.deep_view(),
            },
            LoopPhase::Terminating => LoopPhaseView::Terminating,
            LoopPhase::Done => LoopPhaseView::Done,
        }
    }
}

/// One run of the reasoning loop.
#[derive(Debug)]
pub struct AgentLoop {
    input: AgentInput,
    system_prompt: Option<String>,
    tools: Vec<ToolSpec>,
    max_rounds: u32,
    messages: Vec<Message>,
    base_len: usize,
    frame_len: usize,
    round: u32,
    usage: TokenUsage,
    phase: LoopPhase,
}

/// What an [`AgentLoop`] holds: its configuration, the conversation so far,
/// and where it stands.
#[verifier::ext_equal]
pub ghost struct LoopView {
    /// The input of the run.
    pub input: AgentInputView,
    /// The agent's system prompt.
    pub system_prompt: Option<Seq<char>>,
    /// The tools the model may call.
    pub tools: Seq<ToolSpecView>,
    /// The round budget.
    pub max_rounds: u32,
    /// All messages: the system message if there is one, the frame, and
    /// what the run added.
    pub messages: Seq<MessageView>,
    /// How many messages precede the frame.
    pub base_len: int,
    /// How many messages the frame holds.
    pub frame_len: int,
    /// The current round, counted from one; zero before the first.
    pub round: u32,
    /// The token usage of all calls so far.
    pub usage: TokenUsage,
    /// Where the run stands.
    pub phase: LoopPhaseView,
}

impl DeepView for AgentLoop {
    type V = LoopView;

    closed spec fn deep_view(&self) -> LoopView {
        LoopView {
            input: self.input.deep_view(),
            system_prompt: self.system_prompt.deep_view(),
            tools: self.tools.deep_view(),
            max_rounds: self.max_rounds,
            messages: self.messages.deep_view(),
            base_len: self.base_len as int,
            frame_len: self.frame_len as int,
            round: self.round,
            usage: self.usage,
            phase: self.phase.deep_view(),
        }
    }
}

/// The tool calls among the given blocks, in order.
pub open spec fn calls_in(blocks: Seq<ContentBlockView>) -> Seq<ToolCallView>
    decreases blocks.len(),
{
    if blocks.len() == 0 {
        Seq::empty()
    } else {
        let earlier = calls_in(blocks.drop_last());
        match blocks.last() {
            ContentBlockView::ToolCall(call) => earlier.push(call),
            _ => earlier,
        }
    }
}

/// The tool calls of a message, in order.
pub fn tool_calls_of(message: &Message) -> (calls: Vec<ToolCall>)
    ensures
        calls.deep_view() == calls_in(message.deep_view().blocks),
{
    let ghost blocks = message.deep_view().blocks;
    let mut calls: Vec<ToolCall> = Vec::new();
    let mut i: usize = 0;
    while i < message.blocks.len()
        invariant
            i <= message.blocks@.len(),
            blocks == message.deep_view().blocks,
            calls.deep_view() == calls_in(blocks.take(i as int)),
        decreases message.blocks@.len() - i,
    {
        let ghost before = calls.deep_view();
        assert(blocks[i as int] == message.blocks@[i as int].deep_view());
        assert(blocks.take(i + 1).drop_last() =~= blocks.take(i as int));
        if let ContentBlock::ToolCall(call) = &message.blocks[i] {
            calls.push(call.clone());
            assert(calls.deep_view() =~= before.push(call.deep_view()));
        }
        i += 1;
    }
    assert(blocks.take(i as int) =~= blocks);
    calls
}

/// The messages a turn is recorded with: all but the system message.
pub open spec fn turn_messages(s: LoopView) -> Seq<MessageView> {
    s.messages.subrange(s.base_len, s.messages.len() as int)
}

/// The event that ends a run with the given outcome.
pub open spec fn terminal_of(outcome: TurnOutcomeView) -> TurnEventView {
    TurnEventView::Lifecycle(
        match outcome {
            TurnOutcomeView::Completed(response) => LifecycleEventView::Completed { response },
            TurnOutcomeView::Failed(error) => LifecycleEventView::Failed { error },
            TurnOutcomeView::Cancelled(reason) => LifecycleEventView::Cancelled { reason },
        },
    )
}

/// The run ends with this outcome: the turn is recorded first.
pub open spec fn conclude(s: LoopView, outcome: TurnOutcomeView, closing: Closing) -> (
    LoopView,
    LoopActionView,
) {
    (
        LoopView { phase: LoopPhaseView::Recording { outcome, closing }, ..s },
        LoopActionView::Record(
            TurnView { input: s.input, messages: turn_messages(s), outcome },
        ),
    )
}

/// The run is cancelled at a suspension point.
pub open spec fn interrupt(s: LoopView, outcome: CancelOutcome) -> (LoopView, LoopActionView) {
    conclude(s, TurnOutcomeView::Cancelled(reason_of(outcome)), Closing::Announced)
}

/// The run fails on a model error.
pub open spec fn fail(s: LoopView, error: ModelErrorView) -> (LoopView, LoopActionView) {
    conclude(s, TurnOutcomeView::Failed(AgentErrorView::Model(error)), Closing::Announced)
}

/// The consumer is gone: the turn is recorded as cancelled and nothing
/// further is narrated.
pub open spec fn abandon(s: LoopView) -> (LoopView, LoopActionView) {
    conclude(s, TurnOutcomeView::Cancelled(CancelReason::UserRequested), Closing::Silent)
}

/// The turn is recorded; what follows depends on how the run closes. A
/// completed turn maintains the memory before its terminal event.
pub open spec fn after_record(s: LoopView, outcome: TurnOutcomeView, closing: Closing) -> (
    LoopView,
    LoopActionView,
) {
    if closing == Closing::Silent {
        (LoopView { phase: LoopPhaseView::Done, ..s }, LoopActionView::Stop)
    } else {
        match outcome {
            TurnOutcomeView::Completed(output) => (
                LoopView { phase: LoopPhaseView::Maintaining { output }, ..s },
                LoopActionView::Maintain {
                    frame: s.messages.subrange(s.base_len, s.base_len + s.frame_len),
                    responses: s.messages.subrange(
                        s.base_len + s.frame_len,
                        s.messages.len() as int,
                    ),
                },
            ),
            _ => (
                LoopView { phase: LoopPhaseView::Terminating, ..s },
                LoopActionView::Emit(terminal_of(outcome)),
            ),
        }
    }
}

/// The next round begins, or the budget is used up.
pub open spec fn begin_round(s: LoopView) -> (LoopView, LoopActionView) {
    if s.round < s.max_rounds {
        let round = (s.round + 1) as u32;
        (
            LoopView { round, phase: LoopPhaseView::Requesting, ..s },
            LoopActionView::Emit(
                TurnEventView::Model(
                    ModelEventView::Requested {
                        purpose: CallPurpose::Reasoning,
                        messages: s.messages,
                        round: Some(round as usize),
                    },
                ),
            ),
        )
    } else {
        conclude(
            s,
            TurnOutcomeView::Failed(AgentErrorView::MaxRoundsExceeded),
            Closing::Announced,
        )
    }
}

/// The request of the current round.
pub open spec fn round_request(s: LoopView) -> ModelRequestView {
    ModelRequestView {
        messages: s.messages,
        tools: s.tools,
        params: ModelParams { max_tokens: None },
    }
}

/// The `i`-th call of the round is announced.
pub open spec fn announce(s: LoopView, calls: Seq<ToolCallView>, i: int) -> (
    LoopView,
    LoopActionView,
) {
    (
        LoopView { phase: LoopPhaseView::Announcing { calls, next: i + 1 }, ..s },
        LoopActionView::Emit(
            TurnEventView::Tool(
                ToolEventView::CallRequested { call: calls[i], round: Some(s.round as usize) },
            ),
        ),
    )
}

/// A call's result is in and is announced.
pub open spec fn settle(
    s: LoopView,
    round: ToolRoundView,
    call_id: Seq<char>,
    result: ToolResultView,
) -> (LoopView, LoopActionView) {
    (
        LoopView { phase: LoopPhaseView::Settling { round, call_id, result }, ..s },
        LoopActionView::Emit(
            TurnEventView::Tool(
                ToolEventView::CallCompleted { call_id, result, round: Some(s.round as usize) },
            ),
        ),
    )
}

/// The tool round is over: its results join the conversation in call order
/// and the next round begins.
pub open spec fn finish_tools(s: LoopView, round: ToolRoundView) -> (LoopView, LoopActionView) {
    begin_round(LoopView { messages: s.messages + round.messages(), ..s })
}

/// The usage of two calls together.
pub open spec fn usage_sum(a: TokenUsage, b: TokenUsage) -> TokenUsage {
    TokenUsage {
        input_tokens: (a.input_tokens + b.input_tokens) as u64,
        output_tokens: (a.output_tokens + b.output_tokens) as u64,
    }
}

/// Whether the usage of two calls together can be counted.
pub open spec fn usage_fits(a: TokenUsage, b: TokenUsage) -> bool {
    a.input_tokens + b.input_tokens <= u64::MAX && a.output_tokens + b.output_tokens <= u64::MAX
}

/// The system message in front of the frame, if a prompt is configured.
pub open spec fn system_head(system_prompt: Option<Seq<char>>) -> Seq<MessageView> {
    match system_prompt {
        Some(prompt) => seq![text_message_view(Role::System, prompt)],
        None => Seq::empty(),
    }
}

/// A response of the model is narrated: its calls are run, or, when it makes
/// none, it is the final answer.
pub open spec fn respond(s: LoopView, message: MessageView) -> (LoopView, LoopActionView) {
    let next = LoopView { messages: s.messages.push(message), ..s };
    let calls = calls_in(message.blocks);
    if calls.len() == 0 {
        conclude(
            next,
            TurnOutcomeView::Completed(AgentOutputView { message, usage: s.usage }),
            Closing::Announced,
        )
    } else {
        announce(next, calls, 0)
    }
}

/// What the run waits for at this point. A finish item must leave the total
/// usage countable; a tool result must belong to a call of the round, and
/// each call ends once, in a result or in a panic; the
/// round may only run dry once every call has its result.
pub open spec fn expects(s: LoopView, input: LoopInputView) -> bool {
    match s.phase {
        LoopPhaseView::Starting
        | LoopPhaseView::Requesting
        | LoopPhaseView::Narrating
        | LoopPhaseView::Responding { .. }
        | LoopPhaseView::Announcing { .. }
        | LoopPhaseView::Settling { .. }
        | LoopPhaseView::Terminating => input is Sent,
        LoopPhaseView::Assembling => input is Assembled,
        LoopPhaseView::Checking => input is CancelChecked,
        LoopPhaseView::Opening => input is Cancelled || input is Opened || input is OpenFailed,
        LoopPhaseView::Streaming => match input {
            LoopInputView::Cancelled(_) => true,
            LoopInputView::Item(Some(ModelStreamItemView::Finish { usage, .. })) => usage_fits(
                s.usage,
                usage,
            ),
            LoopInputView::Item(_) => true,
            _ => false,
        },
        LoopPhaseView::Running { round } => match input {
            LoopInputView::Cancelled(_) => true,
            LoopInputView::ToolFinished { call_id, .. } => round.awaits(call_id),
            LoopInputView::ToolPanicked { call_id, .. } => round.awaits(call_id),
            LoopInputView::ToolAborted => true,
            LoopInputView::ToolsDrained => round.complete(),
            _ => false,
        },
        LoopPhaseView::Recording { .. } => input is Recorded,
        LoopPhaseView::Reporting { .. } => input is Reported,
        LoopPhaseView::Maintaining { .. } => input is Maintained,
        LoopPhaseView::Done => false,
    }
}

/// One step of a run: from where it stands and what came of its last action
/// to where it stands next and its next action.
pub open spec fn loop_step(s: LoopView, input: LoopInputView) -> (LoopView, LoopActionView) {
    match (s.phase, input) {
        // The start is narrated whether or not anybody listens; a consumer
        // already gone is noticed when the signal is looked at.
        (LoopPhaseView::Starting, _) => (
            LoopView { phase: LoopPhaseView::Assembling, ..s },
            LoopActionView::Assemble,
        ),
        (LoopPhaseView::Assembling, LoopInputView::Assembled(frame)) => (
            LoopView {
                messages: system_head(s.system_prompt) + frame,
                base_len: system_head(s.system_prompt).len() as int,
                frame_len: frame.len() as int,
                phase: LoopPhaseView::Checking,
                ..s
            },
            LoopActionView::CheckCancelled,
        ),
        (LoopPhaseView::Checking, LoopInputView::CancelChecked(Some(outcome))) => conclude(
            s,
            TurnOutcomeView::Cancelled(reason_of(outcome)),
            Closing::Announced,
        ),
        (LoopPhaseView::Checking, _) => begin_round(s),
        (LoopPhaseView::Requesting, LoopInputView::Sent(true)) => (
            LoopView { phase: LoopPhaseView::Opening, ..s },
            LoopActionView::OpenModel(round_request(s)),
        ),
        (LoopPhaseView::Opening, LoopInputView::Cancelled(outcome)) => interrupt(s, outcome),
        (LoopPhaseView::Opening, LoopInputView::OpenFailed(error)) => fail(s, error),
        (LoopPhaseView::Opening, _) => (
            LoopView { phase: LoopPhaseView::Streaming, ..s },
            LoopActionView::PollModel,
        ),
        (LoopPhaseView::Streaming, LoopInputView::Cancelled(outcome)) => interrupt(s, outcome),
        (LoopPhaseView::Streaming, LoopInputView::Item(item)) => match item {
            Some(ModelStreamItemView::Delta(delta)) => (
                LoopView { phase: LoopPhaseView::Narrating, ..s },
                LoopActionView::Emit(
                    TurnEventView::Model(
                        ModelEventView::StreamDelta { delta, round: Some(s.round as usize) },
                    ),
                ),
            ),
            Some(ModelStreamItemView::Failed(error)) => fail(s, error),
            Some(ModelStreamItemView::Finish { message, usage }) => (
                LoopView {
                    usage: usage_sum(s.usage, usage),
                    phase: LoopPhaseView::Responding { message },
                    ..s
                },
                LoopActionView::Emit(
                    TurnEventView::Model(
                        ModelEventView::Responded { message, usage, round: Some(s.round as usize) },
                    ),
                ),
            ),
            None => fail(
                s,
                ModelErrorView::Api { message: "model stream ended without a finish item"@ },
            ),
        },
        (LoopPhaseView::Narrating, LoopInputView::Sent(true)) => (
            LoopView { phase: LoopPhaseView::Streaming, ..s },
            LoopActionView::PollModel,
        ),
        (LoopPhaseView::Responding { message }, LoopInputView::Sent(true)) => respond(s, message),
        // Announcing stops early when the consumer is gone; the tools still
        // start, and the loop notices on its next emission.
        (LoopPhaseView::Announcing { calls, next }, LoopInputView::Sent(delivered)) => if delivered
            && next < calls.len() {
            announce(s, calls, next)
        } else {
            (
                LoopView {
                    phase: LoopPhaseView::Running { round: fresh_round(calls) },
                    ..s
                },
                LoopActionView::RunTools(calls),
            )
        },
        (LoopPhaseView::Running { round }, LoopInputView::Cancelled(outcome)) => interrupt(
            s,
            outcome,
        ),
        (LoopPhaseView::Running { round }, LoopInputView::ToolFinished { call_id, result }) => settle(
            s,
            round,
            call_id,
            result,
        ),
        (LoopPhaseView::Running { round }, LoopInputView::ToolPanicked { call_id, detail }) => settle(
            s,
            round,
            call_id,
            panic_result(detail),
        ),
        (LoopPhaseView::Running { round }, LoopInputView::ToolsDrained) => finish_tools(s, round),
        (LoopPhaseView::Running { .. }, _) => (s, LoopActionView::AwaitTool),
        (
            LoopPhaseView::Settling { round, call_id, result },
            LoopInputView::Sent(delivered),
        ) => if delivered {
            let next = ToolRoundView { results: round.results.insert(call_id, result), ..round };
            if next.settled() {
                finish_tools(s, next)
            } else {
                (
                    LoopView { phase: LoopPhaseView::Running { round: next }, ..s },
                    LoopActionView::AwaitTool,
                )
            }
        } else {
            interrupt(s, CancelOutcome::Signal)
        },
        (LoopPhaseView::Recording { outcome, closing }, LoopInputView::Recorded(Some(error))) => (
            LoopView { phase: LoopPhaseView::Reporting { outcome, closing }, ..s },
            LoopActionView::Report(
                MemoryEventView::FlowFailed {
                    stage: MemoryFlowStage::Archive,
                    detail: "conversation auto-save failed: "@ + store_error_text(error),
                    moment: MemoryFlowFailedMoment::AfterTurn,
                },
            ),
        ),
        (LoopPhaseView::Recording { outcome, closing }, _) => after_record(s, outcome, closing),
        (LoopPhaseView::Reporting { outcome, closing }, _) => after_record(s, outcome, closing),
        (LoopPhaseView::Maintaining { output }, _) => (
            LoopView { phase: LoopPhaseView::Terminating, ..s },
            LoopActionView::Emit(terminal_of(TurnOutcomeView::Completed(output))),
        ),
        // The turn is on record by now, whether or not anybody listens.
        (LoopPhaseView::Terminating, _) => (
            LoopView { phase: LoopPhaseView::Done, ..s },
            LoopActionView::Stop,
        ),
        // An emission inside the loop that finds the consumer gone.
        (_, _) => abandon(s),
    }
}

/// What holds of every run wherever it stands.
pub open spec fn loop_valid(s: LoopView) -> bool {
    &&& 0 <= s.base_len
    &&& 0 <= s.frame_len
    &&& s.base_len + s.frame_len <= s.messages.len()
    &&& s.round <= s.max_rounds
    &&& match s.phase {
        LoopPhaseView::Announcing { calls, next } => 0 < next <= calls.len(),
        LoopPhaseView::Running { round } => round.valid(),
        LoopPhaseView::Settling { round, call_id, .. } => round.valid() && round.has(call_id),
        _ => true,
    }
}

/// A run that has not begun.
pub open spec fn fresh_loop(
    input: AgentInputView,
    system_prompt: Option<Seq<char>>,
    tools: Seq<ToolSpecView>,
    max_rounds: u32,
) -> LoopView {
    LoopView {
        input,
        system_prompt,
        tools,
        max_rounds,
        messages: Seq::empty(),
        base_len: 0,
        frame_len: 0,
        round: 0,
        usage: TokenUsage { input_tokens: 0, output_tokens: 0 },
        phase: LoopPhaseView::Starting,
    }
}

impl AgentLoop {
    /// The tool round of this phase, if there is one, is well formed.
    closed spec fn phase_wf(phase: LoopPhase) -> bool {
        match phase {
            LoopPhase::Running { round } => round.wf(),
            LoopPhase::Settling { round, .. } => round.wf(),
            _ => true,
        }
    }

    /// The run is in order.
    pub closed spec fn wf(&self) -> bool {
        loop_valid(self.deep_view()) && Self::phase_wf(self.phase)
    }

    /// A run that is in order is valid.
    pub proof fn wf_is_valid(&self)
        requires
            self.wf(),
        ensures
            loop_valid(self.deep_view()),
    {
    }

    /// Starts a run: its first action narrates the start.
    pub fn start(
        input: AgentInput,
        system_prompt: Option<String>,
        tools: Vec<ToolSpec>,
        max_rounds: u32,
    ) -> (started: (AgentLoop, LoopAction))
        ensures
            started.0.wf(),
            started.0.deep_view() == fresh_loop(
                input.deep_view(),
                system_prompt.deep_view(),
                tools.deep_view(),
                max_rounds,
            ),
            started.1.deep_view() == LoopActionView::Emit(
                TurnEventView::Lifecycle(LifecycleEventView::Started { input: input.deep_view() }),
            ),
    {
        let action = LoopAction::Emit(
            TurnEvent::Lifecycle(LifecycleEvent::Started { input: input.clone() }),
        );
        let run = AgentLoop {
            input,
            system_prompt,
            tools,
            max_rounds,
            messages: Vec::new(),
            base_len: 0,
            frame_len: 0,
            round: 0,
            usage: TokenUsage::new(0, 0),
            phase: LoopPhase::Starting,
        };
        assert(run.deep_view().messages =~= Seq::<MessageView>::empty());
        (run, action)
    }

    fn conclude(&mut self, outcome: TurnOutcome, closing: Closing) -> (action: LoopAction)
        requires
            loop_valid(old(self).deep_view()),
        ensures
            final(self).wf(),
            (final(self).deep_view(), action.deep_view()) == conclude(
                old(self).deep_view(),
                outcome.deep_view(),
                closing,
            ),
    {
        let messages = copy_messages(&self.messages, self.base_len, self.messages.len());
        let turn = Turn { input: self.input.clone(), messages, outcome: outcome.clone() };
        self.phase = LoopPhase::Recording { outcome, closing };
        LoopAction::Record(turn)
    }

    fn interrupt(&mut self, outcome: CancelOutcome) -> (action: LoopAction)
        requires
            loop_valid(old(self).deep_view()),
        ensures
            final(self).wf(),
            (final(self).deep_view(), action.deep_view()) == interrupt(
                old(self).deep_view(),
                outcome,
            ),
    {
        self.conclude(TurnOutcome::Cancelled(cancel_reason(outcome)), Closing::Announced)
    }

    fn fail(&mut self, error: ModelError) -> (action: LoopAction)
        requires
            loop_valid(old(self).deep_view()),
        ensures
            final(self).wf(),
            (final(self).deep_view(), action.deep_view()) == fail(
                old(self).deep_view(),
                error.deep_view(),
            ),
    {
        self.conclude(TurnOutcome::Failed(AgentError::Model(error)), Closing::Announced)
    }

    fn abandon(&mut self) -> (action: LoopAction)
        requires
            loop_valid(old(self).deep_view()),
        ensures
            final(self).wf(),
            (final(self).deep_view(), action.deep_view()) == abandon(old(self).deep_view()),
    {
        self.conclude(TurnOutcome::Cancelled(CancelReason::UserRequested), Closing::Silent)
    }

    fn after_record(&mut self, outcome: TurnOutcome, closing: Closing) -> (action: LoopAction)
        requires
            loop_valid(old(self).deep_view()),
        ensures
            final(self).wf(),
            (final(self).deep_view(), action.deep_view()) == after_record(
                old(self).deep_view(),
                outcome.deep_view(),
                closing,
            ),
    {
        if closing == Closing::Silent {
            self.phase = LoopPhase::Done;
            return LoopAction::Stop;
        }
        match outcome {
            TurnOutcome::Completed(output) => {
                let total: usize = self.messages.len();
                let split: usize = self.base_len + self.frame_len;
                let frame = copy_messages(&self.messages, self.base_len, split);
                let responses = copy_messages(&self.messages, split, total);
                self.phase = LoopPhase::Maintaining { output };
                LoopAction::Maintain { frame, responses }
            },
            TurnOutcome::Failed(error) => {
                self.phase = LoopPhase::Terminating;
                LoopAction::Emit(TurnEvent::Lifecycle(LifecycleEvent::Failed { error }))
            },
            TurnOutcome::Cancelled(reason) => {
                self.phase = LoopPhase::Terminating;
                LoopAction::Emit(TurnEvent::Lifecycle(LifecycleEvent::Cancelled { reason }))
            },
        }
    }

    fn begin_round(&mut self) -> (action: LoopAction)
        requires
            loop_valid(old(self).deep_view()),
        ensures
            final(self).wf(),
            (final(self).deep_view(), action.deep_view()) == begin_round(old(self).deep_view()),
    {
        if self.round < self.max_rounds {
            self.round = self.round + 1;
            self.phase = LoopPhase::Requesting;
            let messages = self.messages.clone();
            assert(messages.deep_view() =~= self.messages.deep_view());
            LoopAction::Emit(
                TurnEvent::Model(
                    ModelEvent::Requested {
                        purpose: CallPurpose::Reasoning,
                        messages,
                        round: Some(self.round as usize),
                    },
                ),
            )
        } else {
            self.conclude(TurnOutcome::Failed(AgentError::MaxRoundsExceeded), Closing::Announced)
        }
    }

    fn announce(&mut self, calls: Vec<ToolCall>, i: usize) -> (action: LoopAction)
        requires
            loop_valid(old(self).deep_view()),
            i < calls@.len(),
        ensures
            final(self).wf(),
            (final(self).deep_view(), action.deep_view()) == announce(
                old(self).deep_view(),
                calls.deep_view(),
                i as int,
            ),
    {
        let call = calls[i].clone();
        let total: usize = calls.len();
        assert(i < total);
        self.phase = LoopPhase::Announcing { calls, next: i + 1 };
        LoopAction::Emit(
            TurnEvent::Tool(ToolEvent::CallRequested { call, round: Some(self.round as usize) }),
        )
    }

    fn settle(&mut self, round: ToolRound, call_id: CallId, result: ToolResult) -> (action:
        LoopAction)
        requires
            loop_valid(old(self).deep_view()),
            round.wf(),
            round.deep_view().has(call_id.deep_view()),
        ensures
            final(self).wf(),
            (final(self).deep_view(), action.deep_view()) == settle(
                old(self).deep_view(),
                round.deep_view(),
                call_id.deep_view(),
                result.deep_view(),
            ),
    {
        let event = ToolEvent::CallCompleted {
            call_id: call_id.clone(),
            result: result.clone(),
            round: Some(self.round as usize),
        };
        proof {
            round.wf_is_valid();
        }
        self.phase = LoopPhase::Settling { round, call_id, result };
        LoopAction::Emit(TurnEvent::Tool(event))
    }

    fn finish_tools(&mut self, round: ToolRound) -> (action: LoopAction)
        requires
            loop_valid(old(self).deep_view()),
            round.wf(),
            round.deep_view().complete(),
        ensures
            final(self).wf(),
            (final(self).deep_view(), action.deep_view()) == finish_tools(
                old(self).deep_view(),
                round.deep_view(),
            ),
    {
        let ghost before = *self;
        let mut results = round.result_messages();
        let ghost added = results.deep_view();
        self.messages.append(&mut results);
        assert(self.messages.deep_view() =~= before.messages.deep_view() + added);
        self.phase = LoopPhase::Done;
        self.begin_round()
    }

    fn respond(&mut self, message: Message) -> (action: LoopAction)
        requires
            loop_valid(old(self).deep_view()),
            old(self).deep_view().phase is Done,
        ensures
            final(self).wf(),
            (final(self).deep_view(), action.deep_view()) == respond(
                old(self).deep_view(),
                message.deep_view(),
            ),
    {
        let ghost before = *self;
        let calls = tool_calls_of(&message);
        if calls.len() == 0 {
            let output = AgentOutput::new(message.clone(), self.usage);
            self.messages.push(message);
            assert(self.messages.deep_view() =~= before.messages.deep_view().push(
                message.deep_view(),
            ));
            self.conclude(TurnOutcome::Completed(output), Closing::Announced)
        } else {
            self.messages.push(message);
            assert(self.messages.deep_view() =~= before.messages.deep_view().push(
                message.deep_view(),
            ));
            self.announce(calls, 0)
        }
    }
}

impl AgentLoop {
    /// Takes what came of the last action and names the next one.
    #[verifier::rlimit(60)]
    #[verifier::spinoff_prover]
    pub fn step(&mut self, input: LoopInput) -> (action: LoopAction)
        requires
            old(self).wf(),
            expects(old(self).deep_view(), input.deep_view()),
        ensures
            final(self).wf(),
            (final(self).deep_view(), action.deep_view()) == loop_step(
                old(self).deep_view(),
                input.deep_view(),
            ),
    {
        let mut phase = LoopPhase::Done;
        core::mem::swap(&mut self.phase, &mut phase);
        match phase {
            LoopPhase::Starting => {
                self.phase = LoopPhase::Assembling;
                LoopAction::Assemble
            },
            LoopPhase::Assembling => match input {
                LoopInput::Assembled(frame) => self.assembled(frame),
                _ => LoopAction::Stop,
            },
            LoopPhase::Checking => match input {
                LoopInput::CancelChecked(Some(outcome)) => self.conclude(
                    TurnOutcome::Cancelled(cancel_reason(outcome)),
                    Closing::Announced,
                ),
                _ => self.begin_round(),
            },
            LoopPhase::Requesting => match input {
                LoopInput::Sent(true) => {
                    self.phase = LoopPhase::Opening;
                    LoopAction::OpenModel(self.request())
                },
                _ => self.abandon(),
            },
            LoopPhase::Opening => match input {
                LoopInput::Cancelled(outcome) => self.interrupt(outcome),
                LoopInput::OpenFailed(error) => self.fail(error),
                _ => {
                    self.phase = LoopPhase::Streaming;
                    LoopAction::PollModel
                },
            },
            LoopPhase::Streaming => match input {
                LoopInput::Cancelled(outcome) => self.interrupt(outcome),
                LoopInput::Item(item) => self.item(item),
                _ => LoopAction::Stop,
            },
            LoopPhase::Narrating => match input {
                LoopInput::Sent(true) => {
                    self.phase = LoopPhase::Streaming;
                    LoopAction::PollModel
                },
                _ => self.abandon(),
            },
            LoopPhase::Responding { message } => match input {
                LoopInput::Sent(true) => self.respond(message),
                _ => self.abandon(),
            },
            LoopPhase::Announcing { calls, next } => match input {
                LoopInput::Sent(delivered) => if delivered && next < calls.len() {
                    self.announce(calls, next)
                } else {
                    let started = calls.clone();
                    assert(started.deep_view() =~= calls.deep_view());
                    self.phase = LoopPhase::Running { round: ToolRound::new(calls) };
                    LoopAction::RunTools(started)
                },
                _ => LoopAction::Stop,
            },
            LoopPhase::Running { round } => self.tool_input(round, input),
            LoopPhase::Settling { round, call_id, result } => match input {
                LoopInput::Sent(true) => self.settled(round, call_id, result),
                _ => self.interrupt(CancelOutcome::Signal),
            },
            LoopPhase::Recording { outcome, closing } => match input {
                LoopInput::Recorded(Some(error)) => {
                    self.phase = LoopPhase::Reporting { outcome, closing };
                    let cause = error.to_string();
                    LoopAction::Report(
                        MemoryEvent::FlowFailed {
                            stage: MemoryFlowStage::Archive,
                            detail: concat("conversation auto-save failed: ", cause.as_str()),
                            moment: MemoryFlowFailedMoment::AfterTurn,
                        },
                    )
                },
                _ => self.after_record(outcome, closing),
            },
            LoopPhase::Reporting { outcome, closing } => self.after_record(outcome, closing),
            LoopPhase::Maintaining { output } => {
                self.phase = LoopPhase::Terminating;
                LoopAction::Emit(
                    TurnEvent::Lifecycle(LifecycleEvent::Completed { response: output }),
                )
            },
            LoopPhase::Terminating => LoopAction::Stop,
            LoopPhase::Done => LoopAction::Stop,
        }
    }

    fn assembled(&mut self, frame: Vec<Message>) -> (action: LoopAction)
        requires
            loop_valid(old(self).deep_view()),
        ensures
            final(self).wf(),
            (final(self).deep_view(), action.deep_view()) == (
                LoopView {
                    messages: system_head(old(self).deep_view().system_prompt) + frame.deep_view(),
                    base_len: system_head(old(self).deep_view().system_prompt).len() as int,
                    frame_len: frame@.len() as int,
                    phase: LoopPhaseView::Checking,
                    ..old(self).deep_view()
                },
                LoopActionView::CheckCancelled,
            ),
    {
        let mut messages: Vec<Message> = Vec::new();
        if let Some(prompt) = &self.system_prompt {
            messages.push(Message::system(prompt.clone()));
        }
        let ghost head = messages.deep_view();
        assert(head =~= system_head(self.deep_view().system_prompt));
        self.base_len = messages.len();
        self.frame_len = frame.len();
        let ghost given = frame.deep_view();
        let mut frame = frame;
        messages.append(&mut frame);
        assert(messages.deep_view() =~= head + given);
        self.messages = messages;
        self.phase = LoopPhase::Checking;
        LoopAction::CheckCancelled
    }

    fn request(&self) -> (request: ModelRequest)
        ensures
            request.deep_view() == round_request(self.deep_view()),
    {
        let messages = self.messages.clone();
        assert(messages.deep_view() =~= self.messages.deep_view());
        let tools = self.tools.clone();
        assert(tools.deep_view() =~= self.tools.deep_view());
        ModelRequest::new(messages, tools, ModelParams::default())
    }

    fn item(&mut self, item: Option<ModelStreamItem>) -> (action: LoopAction)
        requires
            loop_valid(old(self).deep_view()),
            item.deep_view() matches Some(ModelStreamItemView::Finish { usage, .. }) ==> usage_fits(
                old(self).deep_view().usage,
                usage,
            ),
        ensures
            final(self).wf(),
            (final(self).deep_view(), action.deep_view()) == loop_step(
                (LoopView { phase: LoopPhaseView::Streaming, ..old(self).deep_view() }),
                LoopInputView::Item(item.deep_view()),
            ),
    {
        match item {
            Some(ModelStreamItem::Delta(delta)) => {
                self.phase = LoopPhase::Narrating;
                LoopAction::Emit(
                    TurnEvent::Model(
                        ModelEvent::StreamDelta { delta, round: Some(self.round as usize) },
                    ),
                )
            },
            Some(ModelStreamItem::Failed(error)) => self.fail(error),
            Some(ModelStreamItem::Finish { message, usage }) => {
                self.usage = TokenUsage::new(
                    self.usage.input_tokens + usage.input_tokens,
                    self.usage.output_tokens + usage.output_tokens,
                );
                let event = ModelEvent::Responded {
                    message: message.clone(),
                    usage,
                    round: Some(self.round as usize),
                };
                self.phase = LoopPhase::Responding { message };
                LoopAction::Emit(TurnEvent::Model(event))
            },
            None => self.fail(
                ModelError::Api { message: "model stream ended without a finish item".to_owned() },
            ),
        }
    }

    fn tool_input(&mut self, round: ToolRound, input: LoopInput) -> (action: LoopAction)
        requires
            loop_valid(old(self).deep_view()),
            round.wf(),
            expects(
                (LoopView {
                    phase: LoopPhaseView::Running { round: round.deep_view() },
                    ..old(self).deep_view()
                }),
                input.deep_view(),
            ),
        ensures
            final(self).wf(),
            (final(self).deep_view(), action.deep_view()) == loop_step(
                (LoopView {
                    phase: LoopPhaseView::Running { round: round.deep_view() },
                    ..old(self).deep_view()
                }),
                input.deep_view(),
            ),
    {
        proof {
            round.wf_is_valid();
        }
        match input {
            LoopInput::Cancelled(outcome) => self.interrupt(outcome),
            LoopInput::ToolFinished { call_id, result } => self.settle(round, call_id, result),
            LoopInput::ToolPanicked { call_id, detail } => {
                let result = panicked(detail.as_str());
                self.settle(round, call_id, result)
            },
            LoopInput::ToolsDrained => self.finish_tools(round),
            _ => {
                self.phase = LoopPhase::Running { round };
                LoopAction::AwaitTool
            },
        }
    }

    fn settled(&mut self, round: ToolRound, call_id: CallId, result: ToolResult) -> (action:
        LoopAction)
        requires
            loop_valid(old(self).deep_view()),
            round.wf(),
            round.deep_view().has(call_id.deep_view()),
        ensures
            final(self).wf(),
            (final(self).deep_view(), action.deep_view()) == loop_step(
                (LoopView {
                    phase: LoopPhaseView::Settling {
                        round: round.deep_view(),
                        call_id: call_id.deep_view(),
                        result: result.deep_view(),
                    },
                    ..old(self).deep_view()
                }),
                LoopInputView::Sent(true),
            ),
    {
        let mut round = round;
        round.insert(call_id, result);
        proof {
            round.wf_is_valid();
        }
        if round.is_settled() {
            proof {
                settled_is_complete(round.deep_view());
            }
            self.finish_tools(round)
        } else {
            self.phase = LoopPhase::Running { round };
            LoopAction::AwaitTool
        }
    }
}

} // verus!
