//! What holds of every run, whatever the model, the tools, and the consumer
//! do.
//!
//! A run is followed through the inputs it was given: [`after`] is where it
//! stands then, [`actions`] is what it asked for on the way, and [`events`]
//! and [`records`] are the events it emitted and the turns it recorded.

use vstd::prelude::*;

use crate::agent::{ends_narrative, narrative, narrative_ends_with_the_terminal, outcome_of};
use crate::agent_loop::{
    calls_in, expects, loop_step, loop_valid, system_head, terminal_of, turn_messages, Closing,
    LoopActionView, LoopInputView, LoopPhaseView, LoopView,
};
use crate::bus::{MemoryEventView, MemoryFlowFailedMoment};
use crate::cancel::CancelOutcome;
use crate::conversation::{
    store_error_text, ConversationStoreErrorView, TurnOutcomeView, TurnView,
};
use crate::error::{AgentErrorView, ModelErrorView};
use crate::event::{
    is_terminal, CallPurpose, CancelReason, LifecycleEventView, MemoryFlowStage, ModelEventView,
    ToolEventView, TurnEventView,
};
use crate::io::AgentOutputView;
use crate::message::{
    canonical, canonical_behind_text, canonical_plain_addition, canonical_result_addition,
    has_call, has_call_addition, plain_addition, text_message_view, ContentBlockView, MessageView,
    Role, ToolCallView, ToolResultView,
};
use crate::model::{ModelParams, ModelRequestView, ModelStreamItemView};
use crate::tool_round::{panic_result, settled_is_complete, ToolRoundView};

verus! {

/// Where a run stands after the given inputs.
pub open spec fn after(s: LoopView, inputs: Seq<LoopInputView>) -> LoopView
    decreases inputs.len(),
{
    if inputs.len() == 0 {
        s
    } else {
        loop_step(after(s, inputs.drop_last()), inputs.last()).0
    }
}

/// What a run asked for on the given inputs.
pub open spec fn actions(s: LoopView, inputs: Seq<LoopInputView>) -> Seq<LoopActionView>
    decreases inputs.len(),
{
    if inputs.len() == 0 {
        Seq::empty()
    } else {
        actions(s, inputs.drop_last()).push(
            loop_step(after(s, inputs.drop_last()), inputs.last()).1,
        )
    }
}

/// Whether each input is one the run waited for.
pub open spec fn accepted(s: LoopView, inputs: Seq<LoopInputView>) -> bool
    decreases inputs.len(),
{
    inputs.len() == 0 || (accepted(s, inputs.drop_last()) && expects(
        after(s, inputs.drop_last()),
        inputs.last(),
    ))
}

/// The events among the given actions.
pub open spec fn emitted(actions: Seq<LoopActionView>) -> Seq<TurnEventView>
    decreases actions.len(),
{
    if actions.len() == 0 {
        Seq::empty()
    } else {
        let earlier = emitted(actions.drop_last());
        match actions.last() {
            LoopActionView::Emit(event) => earlier.push(event),
            _ => earlier,
        }
    }
}

/// The events of a run: its start, and what it emitted since.
pub open spec fn events(s: LoopView, inputs: Seq<LoopInputView>) -> Seq<TurnEventView> {
    seq![TurnEventView::Lifecycle(LifecycleEventView::Started { input: s.input })] + emitted(
        actions(s, inputs),
    )
}

/// The turns among the given actions.
pub open spec fn recorded(actions: Seq<LoopActionView>) -> Seq<TurnView>
    decreases actions.len(),
{
    if actions.len() == 0 {
        Seq::empty()
    } else {
        let earlier = recorded(actions.drop_last());
        match actions.last() {
            LoopActionView::Record(turn) => earlier.push(turn),
            _ => earlier,
        }
    }
}

/// The turns a run recorded.
pub open spec fn records(s: LoopView, inputs: Seq<LoopInputView>) -> Seq<TurnView> {
    recorded(actions(s, inputs))
}

/// Whether the consumer was there for every event.
pub open spec fn all_delivered(inputs: Seq<LoopInputView>) -> bool {
    forall|i: int| 0 <= i < inputs.len() ==> #[trigger] inputs[i] != LoopInputView::Sent(false)
}

/// Whether nothing further is narrated from here on.
pub open spec fn past_narration(phase: LoopPhaseView) -> bool {
    match phase {
        LoopPhaseView::Terminating => true,
        LoopPhaseView::Done => true,
        LoopPhaseView::Recording { closing, .. } => closing == Closing::Silent,
        LoopPhaseView::Reporting { closing, .. } => closing == Closing::Silent,
        _ => false,
    }
}

/// One step: nothing is emitted past the narration, and the narration ends
/// with a terminal event or with a consumer that is gone.
proof fn step_narrates(s: LoopView, input: LoopInputView)
    requires
        expects(s, input),
    ensures
        ({
            let (next, action) = loop_step(s, input);
            &&& past_narration(s.phase) ==> past_narration(next.phase) && !(action is Emit)
            &&& !past_narration(s.phase) ==> match action {
                LoopActionView::Emit(event) => is_terminal(event) == (next.phase is Terminating)
                    && is_terminal(event) == past_narration(next.phase),
                _ => past_narration(next.phase) ==> input == LoopInputView::Sent(false)
                    && !(next.phase is Terminating) && !(next.phase is Done),
            }
            &&& next.phase is Done ==> past_narration(s.phase)
            &&& past_narration(s.phase) && input != LoopInputView::Sent(false)
                && s.phase is Terminating ==> next.phase is Done
        }),
{
}

/// What the narration looks like wherever a run stands.
proof fn narration(s: LoopView, inputs: Seq<LoopInputView>)
    requires
        s.phase is Starting,
        accepted(s, inputs),
    ensures
        ({
            let told = events(s, inputs);
            let phase = after(s, inputs).phase;
            &&& told.len() > 0
            &&& forall|i: int| 0 <= i < told.len() - 1 ==> !is_terminal(#[trigger] told[i])
            &&& !past_narration(phase) ==> !is_terminal(told.last())
            &&& phase is Terminating ==> is_terminal(told.last())
            &&& all_delivered(inputs) && past_narration(phase) ==> (phase is Terminating
                || phase is Done) && is_terminal(told.last())
        }),
    decreases inputs.len(),
{
    if inputs.len() > 0 {
        let earlier = inputs.drop_last();
        narration(s, earlier);
        let before = after(s, earlier);
        let input = inputs.last();
        step_narrates(before, input);
        let action = loop_step(before, input).1;
        let acts = actions(s, inputs);
        assert(acts.drop_last() =~= actions(s, earlier));
        assert(acts.last() == action);
        if let LoopActionView::Emit(event) = action {
            assert(events(s, inputs) =~= events(s, earlier).push(event));
        } else {
            assert(events(s, inputs) =~= events(s, earlier));
        }
        if all_delivered(inputs) {
            assert forall|i: int| 0 <= i < earlier.len() implies #[trigger] earlier[i]
                != LoopInputView::Sent(false) by {
                assert(earlier[i] == inputs[i]);
            }
            assert(input == inputs[inputs.len() - 1]);
        }
    }
}

/// A run narrates at most one terminal event, and nothing after it.
pub proof fn terminal_event_is_last(s: LoopView, inputs: Seq<LoopInputView>, i: int)
    requires
        s.phase is Starting,
        accepted(s, inputs),
        0 <= i < events(s, inputs).len(),
        is_terminal(events(s, inputs)[i]),
    ensures
        i == events(s, inputs).len() - 1,
{
    narration(s, inputs);
}

/// A run that is over has narrated a terminal event, unless its consumer
/// left.
pub proof fn finished_runs_are_terminated(s: LoopView, inputs: Seq<LoopInputView>)
    requires
        s.phase is Starting,
        accepted(s, inputs),
        all_delivered(inputs),
        after(s, inputs).phase is Done,
    ensures
        is_terminal(events(s, inputs).last()),
{
    narration(s, inputs);
}

/// Nothing is waited for, and so nothing happens, once a run is over.
pub proof fn finished_runs_stay_finished(s: LoopView, input: LoopInputView)
    requires
        s.phase is Done,
    ensures
        !expects(s, input),
{
}

/// How many turns a run has recorded, and with which outcome, wherever it
/// stands.
pub open spec fn archive_matches(
    phase: LoopPhaseView,
    archive: Seq<TurnView>,
    told: Seq<TurnEventView>,
) -> bool {
    match phase {
        LoopPhaseView::Recording { outcome, .. } => archive.len() == 1 && archive[0].outcome
            == outcome,
        LoopPhaseView::Reporting { outcome, .. } => archive.len() == 1 && archive[0].outcome
            == outcome,
        LoopPhaseView::Maintaining { output } => archive.len() == 1 && archive[0].outcome
            == TurnOutcomeView::Completed(output),
        LoopPhaseView::Terminating => archive.len() == 1 && told.len() > 0 && told.last()
            == terminal_of(archive[0].outcome),
        LoopPhaseView::Done => archive.len() == 1,
        _ => archive.len() == 0,
    }
}

proof fn archive(s: LoopView, inputs: Seq<LoopInputView>)
    requires
        s.phase is Starting,
        accepted(s, inputs),
    ensures
        archive_matches(after(s, inputs).phase, records(s, inputs), events(s, inputs)),
        forall|i: int|
            0 <= i < records(s, inputs).len() ==> (#[trigger] records(s, inputs)[i]).input
                == s.input,
        all_delivered(inputs) && after(s, inputs).phase is Done ==> records(s, inputs).len() == 1
            && events(s, inputs).last() == terminal_of(records(s, inputs)[0].outcome),
        all_delivered(inputs) ==> match after(s, inputs).phase {
            LoopPhaseView::Recording { closing, .. } => closing != Closing::Silent,
            LoopPhaseView::Reporting { closing, .. } => closing != Closing::Silent,
            _ => true,
        },
        after(s, inputs).input == s.input,
    decreases inputs.len(),
{
    if inputs.len() > 0 {
        let earlier = inputs.drop_last();
        archive(s, earlier);
        let before = after(s, earlier);
        let input = inputs.last();
        let (next, action) = loop_step(before, input);
        let acts = actions(s, inputs);
        assert(acts.drop_last() =~= actions(s, earlier));
        assert(acts.last() == action);
        if let LoopActionView::Emit(event) = action {
            assert(events(s, inputs) =~= events(s, earlier).push(event));
        } else {
            assert(events(s, inputs) =~= events(s, earlier));
        }
        if let LoopActionView::Record(turn) = action {
            assert(records(s, inputs) == records(s, earlier).push(turn));
        } else {
            assert(records(s, inputs) == records(s, earlier));
        }
        if all_delivered(inputs) {
            assert forall|i: int| 0 <= i < earlier.len() implies #[trigger] earlier[i]
                != LoopInputView::Sent(false) by {
                assert(earlier[i] == inputs[i]);
            }
            assert(input == inputs[inputs.len() - 1]);
        }
    }
}

/// Every run that is over is on record exactly once, with its own input,
/// whether or not its consumer stayed; and the terminal event of a run whose
/// consumer stayed tells the recorded outcome.
pub proof fn every_outcome_is_recorded(s: LoopView, inputs: Seq<LoopInputView>)
    requires
        s.phase is Starting,
        accepted(s, inputs),
        after(s, inputs).phase is Done,
    ensures
        records(s, inputs).len() == 1,
        records(s, inputs)[0].input == s.input,
        all_delivered(inputs) ==> events(s, inputs).last() == terminal_of(
            records(s, inputs)[0].outcome,
        ),
{
    archive(s, inputs);
}

/// What an outcome resolves to for whoever awaits the run.
pub open spec fn resolved(outcome: TurnOutcomeView) -> Result<AgentOutputView, AgentErrorView> {
    match outcome {
        TurnOutcomeView::Completed(output) => Ok(output),
        TurnOutcomeView::Failed(error) => Err(error),
        TurnOutcomeView::Cancelled(reason) => Err(AgentErrorView::Cancelled(reason)),
    }
}

/// The stream, the awaited result, and the record of a run agree: the
/// product narrative of a finished run ends with its only terminal item, and
/// awaiting the run gives the outcome that is on record.
pub proof fn finished_runs_resolve_to_their_record(s: LoopView, inputs: Seq<LoopInputView>)
    requires
        s.phase is Starting,
        accepted(s, inputs),
        all_delivered(inputs),
        after(s, inputs).phase is Done,
    ensures
        ({
            let shown = narrative(events(s, inputs));
            &&& shown.len() > 0
            &&& ends_narrative(shown.last())
            &&& forall|i: int| 0 <= i < shown.len() - 1 ==> !ends_narrative(#[trigger] shown[i])
            &&& outcome_of(events(s, inputs).last()) == Some(
                resolved(records(s, inputs)[0].outcome),
            )
        }),
{
    narration(s, inputs);
    archive(s, inputs);
    narrative_ends_with_the_terminal(events(s, inputs));
}

/// The memory is maintained for completed turns only: a failed or cancelled
/// turn never reaches it.
pub proof fn only_completed_turns_reach_the_memory(s: LoopView, inputs: Seq<LoopInputView>)
    requires
        s.phase is Starting,
        accepted(s, inputs),
        inputs.len() > 0,
        actions(s, inputs).last() is Maintain,
    ensures
        records(s, inputs).len() == 1,
        records(s, inputs)[0].outcome is Completed,
{
    archive(s, inputs);
    archive(s, inputs.drop_last());
}

/// How many reasoning rounds the given events opened.
pub open spec fn rounds_opened(told: Seq<TurnEventView>) -> nat
    decreases told.len(),
{
    if told.len() == 0 {
        0
    } else {
        rounds_opened(told.drop_last()) + match told.last() {
            TurnEventView::Model(
                ModelEventView::Requested { purpose, .. },
            ) if purpose == CallPurpose::Reasoning => 1nat,
            _ => 0nat,
        }
    }
}

/// A run opens no more rounds than its budget, and the current round number
/// is the number of rounds opened.
pub proof fn rounds_stay_within_the_budget(s: LoopView, inputs: Seq<LoopInputView>)
    requires
        s.phase is Starting,
        s.round == 0,
        accepted(s, inputs),
    ensures
        rounds_opened(emitted(actions(s, inputs))) == after(s, inputs).round,
        after(s, inputs).round <= s.max_rounds,
        after(s, inputs).max_rounds == s.max_rounds,
    decreases inputs.len(),
{
    if inputs.len() > 0 {
        let earlier = inputs.drop_last();
        rounds_stay_within_the_budget(s, earlier);
        let action = loop_step(after(s, earlier), inputs.last()).1;
        let acts = actions(s, inputs);
        assert(acts.drop_last() =~= actions(s, earlier));
        if let LoopActionView::Emit(event) = action {
            let told = emitted(acts);
            assert(told.drop_last() =~= emitted(actions(s, earlier)));
        }
    }
}

/// The input tokens of all finished model calls among the given inputs.
pub open spec fn input_tokens_of(inputs: Seq<LoopInputView>) -> int
    decreases inputs.len(),
{
    if inputs.len() == 0 {
        0
    } else {
        input_tokens_of(inputs.drop_last()) + match inputs.last() {
            LoopInputView::Item(Some(ModelStreamItemView::Finish { usage, .. })) =>
                usage.input_tokens as int,
            _ => 0,
        }
    }
}

/// The output tokens of all finished model calls among the given inputs.
pub open spec fn output_tokens_of(inputs: Seq<LoopInputView>) -> int
    decreases inputs.len(),
{
    if inputs.len() == 0 {
        0
    } else {
        output_tokens_of(inputs.drop_last()) + match inputs.last() {
            LoopInputView::Item(Some(ModelStreamItemView::Finish { usage, .. })) =>
                usage.output_tokens as int,
            _ => 0,
        }
    }
}

/// The usage a run reports is the sum over all its finished model calls.
pub proof fn usage_is_the_sum_over_all_calls(s: LoopView, inputs: Seq<LoopInputView>)
    requires
        s.phase is Starting,
        s.usage.input_tokens == 0,
        s.usage.output_tokens == 0,
        accepted(s, inputs),
    ensures
        after(s, inputs).usage.input_tokens == input_tokens_of(inputs),
        after(s, inputs).usage.output_tokens == output_tokens_of(inputs),
    decreases inputs.len(),
{
    if inputs.len() > 0 {
        usage_is_the_sum_over_all_calls(s, inputs.drop_last());
    }
}

/// Whether the frame has been assembled by now.
pub open spec fn framed(phase: LoopPhaseView) -> bool {
    !(phase is Starting) && !(phase is Assembling)
}

proof fn conversation_shape(s: LoopView, inputs: Seq<LoopInputView>)
    requires
        s.phase is Starting,
        loop_valid(s),
        accepted(s, inputs),
    ensures
        ({
            let now = after(s, inputs);
            &&& loop_valid(now)
            &&& now.system_prompt == s.system_prompt
            &&& now.tools == s.tools
            &&& framed(now.phase) ==> now.base_len == system_head(s.system_prompt).len()
                && now.messages.subrange(0, now.base_len) == system_head(s.system_prompt)
        }),
    decreases inputs.len(),
{
    if inputs.len() > 0 {
        let earlier = inputs.drop_last();
        conversation_shape(s, earlier);
        let before = after(s, earlier);
        let input = inputs.last();
        let now = after(s, inputs);
        step_keeps_valid(before, input);
        if framed(before.phase) {
            assert(now.messages.subrange(0, now.base_len) =~= before.messages.subrange(
                0,
                before.base_len,
            ));
        } else if framed(now.phase) {
            assert(now.messages.subrange(0, now.base_len) =~= system_head(s.system_prompt));
        }
    }
}

/// Validity is kept by every step, and past the assembly the conversation
/// only grows.
proof fn step_keeps_valid(s: LoopView, input: LoopInputView)
    requires
        loop_valid(s),
        expects(s, input),
    ensures
        loop_valid(loop_step(s, input).0),
        framed(s.phase) ==> framed(loop_step(s, input).0.phase) && loop_step(s, input).0.base_len
            == s.base_len && loop_step(s, input).0.frame_len == s.frame_len && s.messages.len()
            <= loop_step(s, input).0.messages.len() && loop_step(s, input).0.messages.subrange(
            0,
            s.messages.len() as int,
        ) =~= s.messages,
{
    if let LoopPhaseView::Settling { round, call_id, result } = s.phase {
        let next = crate::tool_round::ToolRoundView {
            results: round.results.insert(call_id, result),
            ..round
        };
        assert(next.valid()) by {
            assert forall|id: Seq<char>| #[trigger] next.results.contains_key(id) implies next.has(
                id,
            ) by {
                if id != call_id {
                    assert(round.results.contains_key(id));
                }
                assert(round.has(id));
                let i = choose|i: int|
                    0 <= i < round.calls.len() && #[trigger] round.calls[i].call_id == id;
                assert(next.calls[i].call_id == id);
            }
        }
    }
}

/// When a system prompt is configured, it is the first message of every
/// request; when none is, no message is put in front of the frame. And every
/// request offers all tools.
pub proof fn requests_start_with_the_system_prompt(s: LoopView, inputs: Seq<LoopInputView>)
    requires
        s.phase is Starting,
        loop_valid(s),
        accepted(s, inputs),
        inputs.len() > 0,
    ensures
        actions(s, inputs).last() matches LoopActionView::OpenModel(request) ==> {
            let head = system_head(s.system_prompt);
            &&& head.len() <= request.messages.len()
            &&& request.messages.subrange(0, head.len() as int) == head
            &&& request.tools == s.tools
        },
{
    conversation_shape(s, inputs.drop_last());
}

/// Every call among the given blocks stands in one of them.
proof fn calls_stand_in_blocks(blocks: Seq<ContentBlockView>, i: int)
    requires
        0 <= i < calls_in(blocks).len(),
    ensures
        exists|j: int|
            0 <= j < blocks.len() && #[trigger] blocks[j] == ContentBlockView::ToolCall(
                calls_in(blocks)[i],
            ),
    decreases blocks.len(),
{
    let shorter = blocks.drop_last();
    if i < calls_in(shorter).len() {
        calls_stand_in_blocks(shorter, i);
        let j = choose|j: int|
            0 <= j < shorter.len() && #[trigger] shorter[j] == ContentBlockView::ToolCall(
                calls_in(shorter)[i],
            );
        assert(blocks[j] == shorter[j]);
    } else {
        assert(blocks[blocks.len() - 1] == blocks.last());
    }
}

/// Whether all the given calls were made in the conversation.
pub open spec fn all_called(messages: Seq<MessageView>, calls: Seq<ToolCallView>) -> bool {
    forall|i: int| 0 <= i < calls.len() ==> has_call(messages, (#[trigger] calls[i]).call_id)
}

/// The first `n` results of a round, appended in call order, keep the
/// conversation canonical.
proof fn results_keep_canonical(messages: Seq<MessageView>, round: ToolRoundView, n: int)
    requires
        canonical(messages),
        all_called(messages, round.calls),
        0 <= n <= round.calls.len(),
    ensures
        canonical(messages + round.messages().take(n)),
        all_called(messages + round.messages().take(n), round.calls),
    decreases n,
{
    if n == 0 {
        assert(messages + round.messages().take(0) =~= messages);
    } else {
        results_keep_canonical(messages, round, n - 1);
        let shorter = messages + round.messages().take(n - 1);
        let id = round.calls[n - 1].call_id;
        canonical_result_addition(shorter, id, round.results[id]);
        has_call_addition(shorter, round.messages()[n - 1]);
        assert(messages + round.messages().take(n) =~= shorter.push(round.messages()[n - 1]));
    }
}

/// The model answers in assistant messages that hold no tool results, and
/// the frame it is given is canonical.
pub open spec fn well_behaved(inputs: Seq<LoopInputView>) -> bool {
    forall|i: int|
        0 <= i < inputs.len() ==> match #[trigger] inputs[i] {
            LoopInputView::Assembled(frame) => canonical(frame),
            LoopInputView::Item(Some(ModelStreamItemView::Finish { message, .. })) =>
                plain_addition(message),
            _ => true,
        }
}

/// The conversation is canonical, and the calls being worked on were made.
spec fn canonical_state(s: LoopView) -> bool {
    &&& canonical(s.messages)
    &&& match s.phase {
        LoopPhaseView::Responding { message } => plain_addition(message),
        LoopPhaseView::Announcing { calls, .. } => all_called(s.messages, calls),
        LoopPhaseView::Running { round } => all_called(s.messages, round.calls),
        LoopPhaseView::Settling { round, .. } => all_called(s.messages, round.calls),
        _ => true,
    }
}

proof fn system_head_is_text(system_prompt: Option<Seq<char>>, messages: Seq<MessageView>)
    ensures
        canonical(system_head(system_prompt) + messages) == canonical(messages),
{
    match system_prompt {
        Some(prompt) => {
            let head = crate::message::text_message_view(crate::message::Role::System, prompt);
            canonical_behind_text(head, messages);
        },
        None => {
            assert(system_head(system_prompt) + messages =~= messages);
        },
    }
}

proof fn step_keeps_canonical(s: LoopView, input: LoopInputView)
    requires
        expects(s, input),
        canonical_state(s),
        well_behaved(seq![input]),
    ensures
        canonical_state(loop_step(s, input).0),
{
    assert(seq![input][0] == input);
    match s.phase {
        LoopPhaseView::Assembling => {
            if let LoopInputView::Assembled(frame) = input {
                system_head_is_text(s.system_prompt, frame);
            }
        },
        LoopPhaseView::Responding { message } => {
            canonical_plain_addition(s.messages, message);
            has_call_addition(s.messages, message);
            let calls = calls_in(message.blocks);
            assert forall|i: int| 0 <= i < calls.len() implies has_call(
                s.messages.push(message),
                (#[trigger] calls[i]).call_id,
            ) by {
                calls_stand_in_blocks(message.blocks, i);
            }
        },
        LoopPhaseView::Running { round } => {
            results_keep_canonical(s.messages, round, round.calls.len() as int);
            assert(round.messages().take(round.calls.len() as int) =~= round.messages());
        },
        LoopPhaseView::Settling { round, call_id, result } => {
            let next = ToolRoundView { results: round.results.insert(call_id, result), ..round };
            results_keep_canonical(s.messages, next, next.calls.len() as int);
            assert(next.messages().take(next.calls.len() as int) =~= next.messages());
        },
        _ => {},
    }
}

proof fn stays_canonical(s: LoopView, inputs: Seq<LoopInputView>)
    requires
        s.phase is Starting,
        s.messages.len() == 0,
        accepted(s, inputs),
        well_behaved(inputs),
    ensures
        canonical_state(after(s, inputs)),
    decreases inputs.len(),
{
    if inputs.len() > 0 {
        let earlier = inputs.drop_last();
        assert forall|i: int| 0 <= i < earlier.len() implies match #[trigger] earlier[i] {
            LoopInputView::Assembled(frame) => canonical(frame),
            LoopInputView::Item(Some(ModelStreamItemView::Finish { message, .. })) =>
                plain_addition(message),
            _ => true,
        } by {
            assert(earlier[i] == inputs[i]);
        }
        stays_canonical(s, earlier);
        assert(inputs[inputs.len() - 1] == inputs.last());
        step_keeps_canonical(after(s, earlier), inputs.last());
    }
}

/// The loop keeps the conversation canonical by construction: whatever a run
/// sends to the model, and whatever it records, satisfies the canonical
/// invariants, as long as the frame does and the model answers in assistant
/// messages without tool results.
pub proof fn conversations_stay_canonical(s: LoopView, inputs: Seq<LoopInputView>)
    requires
        s.phase is Starting,
        s.messages.len() == 0,
        loop_valid(s),
        accepted(s, inputs),
        well_behaved(inputs),
        inputs.len() > 0,
    ensures
        canonical(after(s, inputs).messages),
        actions(s, inputs).last() matches LoopActionView::OpenModel(request) ==> canonical(
            request.messages,
        ),
        actions(s, inputs).last() matches LoopActionView::Record(turn) ==> canonical(turn.messages),
{
    stays_canonical(s, inputs);
    conversation_shape(s, inputs);
    let now = after(s, inputs);
    let before = after(s, inputs.drop_last());
    if let LoopActionView::Record(turn) = actions(s, inputs).last() {
        assert(turn.messages == turn_messages(now));
        let head = system_head(s.system_prompt);
        assert(now.messages =~= head + turn.messages);
        system_head_is_text(s.system_prompt, turn.messages);
    }
}

/// The round an event says it belongs to; `None` for an event that belongs
/// to the run as a whole.
pub open spec fn stated_round(event: TurnEventView) -> Option<Option<usize>> {
    match event {
        TurnEventView::Lifecycle(_) => None,
        TurnEventView::Model(ModelEventView::Requested { round, .. }) => Some(round),
        TurnEventView::Model(ModelEventView::StreamDelta { round, .. }) => Some(round),
        TurnEventView::Model(ModelEventView::Responded { round, .. }) => Some(round),
        TurnEventView::Tool(ToolEventView::CallRequested { round, .. }) => Some(round),
        TurnEventView::Tool(ToolEventView::CallCompleted { round, .. }) => Some(round),
    }
}

/// The model and tool events of a run carry the number of the round they
/// belong to, counted from one: no consumer has to derive it.
pub proof fn events_carry_their_round(s: LoopView, inputs: Seq<LoopInputView>, i: int)
    requires
        s.phase is Starting,
        s.round == 0,
        accepted(s, inputs),
        0 <= i < emitted(actions(s, inputs)).len(),
    ensures
        ({
            let told = emitted(actions(s, inputs));
            stated_round(told[i]) matches Some(round) ==> round is Some && round->0
                == rounds_opened(told.take(i + 1))
        }),
    decreases inputs.len(),
{
    let earlier = inputs.drop_last();
    let before = emitted(actions(s, earlier));
    let told = emitted(actions(s, inputs));
    assert(actions(s, inputs).drop_last() =~= actions(s, earlier));
    if i < before.len() {
        events_carry_their_round(s, earlier, i);
        assert(told.take(i + 1) =~= before.take(i + 1));
    } else {
        rounds_stay_within_the_budget(s, inputs);
        rounds_stay_within_the_budget(s, earlier);
        assert(told.take(i + 1) =~= told);
    }
}

/// Whether an event announces the call with this id, in this round.
pub open spec fn announces(event: TurnEventView, call_id: Seq<char>, in_round: Option<usize>) -> bool {
    event matches TurnEventView::Tool(ToolEventView::CallRequested { call, round }) && call.call_id
        == call_id && round == in_round
}

/// Whether the call with this id was announced in this round.
pub open spec fn announced(
    told: Seq<TurnEventView>,
    call_id: Seq<char>,
    in_round: Option<usize>,
) -> bool {
    exists|j: int| 0 <= j < told.len() && #[trigger] announces(told[j], call_id, in_round)
}

/// Whether the first `n` calls were announced in this round.
pub open spec fn all_announced(
    told: Seq<TurnEventView>,
    calls: Seq<ToolCallView>,
    n: int,
    in_round: Option<usize>,
) -> bool {
    forall|k: int| 0 <= k < n ==> announced(told, (#[trigger] calls[k]).call_id, in_round)
}

/// The calls that are worked on were announced.
pub open spec fn announcements_match(s: LoopView, told: Seq<TurnEventView>) -> bool {
    let round = Some(s.round as usize);
    match s.phase {
        LoopPhaseView::Announcing { calls, next } => 0 <= next <= calls.len() && all_announced(
            told,
            calls,
            next,
            round,
        ),
        LoopPhaseView::Running { round: tools } => all_announced(
            told,
            tools.calls,
            tools.calls.len() as int,
            round,
        ),
        LoopPhaseView::Settling { round: tools, .. } => all_announced(
            told,
            tools.calls,
            tools.calls.len() as int,
            round,
        ),
        _ => true,
    }
}

/// What was announced stays announced as events are added.
proof fn announcements_last(
    told: Seq<TurnEventView>,
    event: TurnEventView,
    calls: Seq<ToolCallView>,
    n: int,
    in_round: Option<usize>,
)
    requires
        all_announced(told, calls, n, in_round),
    ensures
        all_announced(told.push(event), calls, n, in_round),
{
    assert forall|k: int| 0 <= k < n implies announced(
        told.push(event),
        (#[trigger] calls[k]).call_id,
        in_round,
    ) by {
        let j = choose|j: int|
            0 <= j < told.len() && #[trigger] announces(told[j], calls[k].call_id, in_round);
        assert(announces(told.push(event)[j], calls[k].call_id, in_round));
    }
}

proof fn announcements(s: LoopView, inputs: Seq<LoopInputView>)
    requires
        s.phase is Starting,
        accepted(s, inputs),
        all_delivered(inputs),
    ensures
        announcements_match(after(s, inputs), events(s, inputs)),
    decreases inputs.len(),
{
    if inputs.len() > 0 {
        let earlier = inputs.drop_last();
        assert forall|i: int| 0 <= i < earlier.len() implies #[trigger] earlier[i]
            != LoopInputView::Sent(false) by {
            assert(earlier[i] == inputs[i]);
        }
        assert(inputs.last() == inputs[inputs.len() - 1]);
        announcements(s, earlier);
        let before = after(s, earlier);
        let now = after(s, inputs);
        let told = events(s, earlier);
        let action = loop_step(before, inputs.last()).1;
        let acts = actions(s, inputs);
        let round = Some(now.round as usize);
        assert(acts.drop_last() =~= actions(s, earlier));
        assert(acts.last() == action);
        if let LoopActionView::Emit(event) = action {
            assert(events(s, inputs) =~= told.push(event));
            match before.phase {
                LoopPhaseView::Announcing { calls, next } => {
                    announcements_last(told, event, calls, next, Some(before.round as usize));
                },
                LoopPhaseView::Running { round: tools } => {
                    announcements_last(
                        told,
                        event,
                        tools.calls,
                        tools.calls.len() as int,
                        Some(before.round as usize),
                    );
                },
                _ => {},
            }
            if let LoopPhaseView::Announcing { calls, next } = now.phase {
                assert(announces(told.push(event)[told.len() as int], calls[next - 1].call_id, round));
            }
        } else {
            assert(events(s, inputs) =~= told);
        }
    }
}

/// As long as the consumer listens, every completed call it hears of was
/// announced to it before, in the same round.
pub proof fn completed_calls_were_announced(s: LoopView, inputs: Seq<LoopInputView>)
    requires
        s.phase is Starting,
        loop_valid(s),
        accepted(s, inputs),
        inputs.len() > 0,
        all_delivered(inputs.drop_last()),
    ensures
        actions(s, inputs).last() matches LoopActionView::Emit(
            TurnEventView::Tool(ToolEventView::CallCompleted { call_id, round, .. }),
        ) ==> announced(events(s, inputs.drop_last()), call_id, round),
{
    let earlier = inputs.drop_last();
    announcements(s, earlier);
    conversation_shape(s, earlier);
}

/// A later request of a run repeats an earlier one and only adds to it.
pub proof fn requests_extend_each_other(s: LoopView, inputs: Seq<LoopInputView>, k: int)
    requires
        s.phase is Starting,
        loop_valid(s),
        accepted(s, inputs),
        0 < k <= inputs.len(),
    ensures
        actions(s, inputs.take(k)).last() matches LoopActionView::OpenModel(first) ==> (actions(
            s,
            inputs,
        ).last() matches LoopActionView::OpenModel(second) ==> first.messages.is_prefix_of(
            second.messages,
        )),
{
    accepted_prefix(s, inputs, k);
    let cut = inputs.take(k);
    conversation_grows(s, inputs, k);
    assert(actions(s, cut).last() == loop_step(after(s, cut.drop_last()), cut.last()).1);
    assert(actions(s, inputs).last() == loop_step(
        after(s, inputs.drop_last()),
        inputs.last(),
    ).1);
}

/// A run that accepted its inputs accepted the first of them.
proof fn accepted_prefix(s: LoopView, inputs: Seq<LoopInputView>, k: int)
    requires
        accepted(s, inputs),
        0 <= k <= inputs.len(),
    ensures
        accepted(s, inputs.take(k)),
    decreases inputs.len(),
{
    if k < inputs.len() {
        accepted_prefix(s, inputs.drop_last(), k);
        assert(inputs.drop_last().take(k) =~= inputs.take(k));
    } else {
        assert(inputs.take(k) =~= inputs);
    }
}

/// Past the assembly the conversation of a run only grows.
proof fn conversation_grows(s: LoopView, inputs: Seq<LoopInputView>, k: int)
    requires
        s.phase is Starting,
        loop_valid(s),
        accepted(s, inputs),
        0 <= k <= inputs.len(),
    ensures
        framed(after(s, inputs.take(k)).phase) ==> framed(after(s, inputs).phase) && after(
            s,
            inputs.take(k),
        ).messages.is_prefix_of(after(s, inputs).messages),
    decreases inputs.len(),
{
    let cut = after(s, inputs.take(k)).messages;
    if k < inputs.len() {
        let earlier = inputs.drop_last();
        conversation_grows(s, earlier, k);
        conversation_shape(s, earlier);
        assert(earlier.take(k) =~= inputs.take(k));
        step_keeps_valid(after(s, earlier), inputs.last());
        if framed(after(s, inputs.take(k)).phase) {
            let middle = after(s, earlier).messages;
            let now = after(s, inputs).messages;
            assert(middle =~= now.subrange(0, middle.len() as int));
            assert(cut =~= now.subrange(0, cut.len() as int));
        }
    } else {
        assert(inputs.take(k) =~= inputs);
        assert(cut =~= cut.subrange(0, cut.len() as int));
    }
}

/// Whether the run goes back to the model on this input: it starts, or the
/// last result of a tool round is in.
pub open spec fn returns_to_the_model(s: LoopView, input: LoopInputView) -> bool {
    match s.phase {
        LoopPhaseView::Checking => input == LoopInputView::CancelChecked(None),
        LoopPhaseView::Running { .. } => input is ToolsDrained,
        LoopPhaseView::Settling { round, call_id, result } => input == LoopInputView::Sent(true) && (
        ToolRoundView { results: round.results.insert(call_id, result), ..round }).settled(),
        _ => false,
    }
}

/// A used-up budget is an explicit failure, never a silent truncation: the
/// run goes back to the model exactly as long as rounds are left, and is
/// recorded as failed on the first one past its budget.
pub proof fn used_up_budgets_fail(s: LoopView, input: LoopInputView)
    requires
        expects(s, input),
        returns_to_the_model(s, input),
    ensures
        s.round < s.max_rounds ==> (loop_step(s, input).1 matches LoopActionView::Emit(
            TurnEventView::Model(ModelEventView::Requested { purpose, round, .. }),
        ) && purpose == CallPurpose::Reasoning && round == Some((s.round + 1) as usize)),
        s.round >= s.max_rounds ==> (loop_step(s, input).1 matches LoopActionView::Record(turn)
            && turn.outcome == TurnOutcomeView::Failed(AgentErrorView::MaxRoundsExceeded)),
{
}

/// A turn that could not be saved is reported, and the run goes on as if it
/// had been saved.
pub proof fn unsaved_turns_are_reported(s: LoopView, error: ConversationStoreErrorView)
    requires
        s.phase is Recording,
    ensures
        ({
            let (next, action) = loop_step(s, LoopInputView::Recorded(Some(error)));
            &&& action matches LoopActionView::Report(MemoryEventView::FlowFailed { stage, .. })
            &&& stage == MemoryFlowStage::Archive
            &&& loop_step(next, LoopInputView::Reported) == loop_step(
                s,
                LoopInputView::Recorded(None),
            )
        }),
{
}

/// How often the call with this id was told to have completed in this round.
pub open spec fn completions(
    told: Seq<TurnEventView>,
    call_id: Seq<char>,
    in_round: Option<usize>,
) -> nat
    decreases told.len(),
{
    if told.len() == 0 {
        0
    } else {
        completions(told.drop_last(), call_id, in_round) + if told.last()
            matches TurnEventView::Tool(ToolEventView::CallCompleted { call_id: id, round, .. }) && id
            == call_id && round == in_round {
            1nat
        } else {
            0nat
        }
    }
}

/// Each call with an id of its own was told once when it has its result, and
/// not at all before.
pub open spec fn tally_matches(
    tools: ToolRoundView,
    told: Seq<TurnEventView>,
    in_round: Option<usize>,
) -> bool {
    forall|id: Seq<char>| #[trigger]
        completions(told, id, in_round) == (if tools.results.contains_key(id) {
            1nat
        } else {
            0nat
        }) || tools.repeated(id)
}

/// Nothing was told to have completed in this round.
pub open spec fn none_completed(told: Seq<TurnEventView>, in_round: Option<usize>) -> bool {
    forall|id: Seq<char>| #[trigger] completions(told, id, in_round) == 0
}

/// The tally of completed calls wherever a run stands.
pub open spec fn tallied(s: LoopView, told: Seq<TurnEventView>) -> bool {
    let round = Some(s.round as usize);
    &&& forall|later: u32| later > s.round ==> #[trigger] none_completed(told, Some(later as usize))
    &&& match s.phase {
        LoopPhaseView::Running { round: tools } => tally_matches(tools, told, round),
        LoopPhaseView::Settling { round: tools, call_id, result } => tally_matches(
            ToolRoundView { results: tools.results.insert(call_id, result), ..tools },
            told,
            round,
        ),
        LoopPhaseView::Requesting
        | LoopPhaseView::Opening
        | LoopPhaseView::Streaming
        | LoopPhaseView::Narrating
        | LoopPhaseView::Responding { .. }
        | LoopPhaseView::Announcing { .. } => none_completed(told, round),
        _ => true,
    }
}

proof fn tally(s: LoopView, inputs: Seq<LoopInputView>)
    requires
        s.phase is Starting,
        s.round == 0,
        accepted(s, inputs),
    ensures
        tallied(after(s, inputs), events(s, inputs)),
    decreases inputs.len(),
{
    if inputs.len() == 0 {
        let told = events(s, inputs);
        assert(told =~= seq![
            TurnEventView::Lifecycle(LifecycleEventView::Started { input: s.input }),
        ]);
        assert forall|id: Seq<char>, round: Option<usize>| #[trigger]
            completions(told, id, round) == 0 by {
            reveal_with_fuel(completions, 2);
        }
    } else {
        let earlier = inputs.drop_last();
        tally(s, earlier);
        let before = after(s, earlier);
        let now = after(s, inputs);
        let told = events(s, earlier);
        let next = events(s, inputs);
        let action = loop_step(before, inputs.last()).1;
        let acts = actions(s, inputs);
        assert(acts.drop_last() =~= actions(s, earlier));
        assert(acts.last() == action);
        if let LoopActionView::Emit(event) = action {
            assert(next =~= told.push(event));
            assert(next.drop_last() =~= told);
            assert forall|later: u32| later > now.round implies #[trigger] none_completed(
                next,
                Some(later as usize),
            ) by {
                assert(none_completed(told, Some(later as usize)));
                assert forall|id: Seq<char>| #[trigger]
                    completions(next, id, Some(later as usize)) == 0 by {
                    assert(completions(told, id, Some(later as usize)) == 0);
                }
            }
            let round = Some(now.round as usize);
            assert(now.round > before.round ==> none_completed(told, round));
            assert forall|id: Seq<char>|
                completions(next, id, round) == completions(told, id, round) + (if event
                    matches TurnEventView::Tool(
                    ToolEventView::CallCompleted { call_id, .. },
                ) && id == call_id {
                    1nat
                } else {
                    0nat
                }) by {}
            match now.phase {
                LoopPhaseView::Settling { round: tools, call_id, result } => {
                    let counted = ToolRoundView {
                        results: tools.results.insert(call_id, result),
                        ..tools
                    };
                    assert forall|id: Seq<char>| #[trigger]
                        completions(next, id, round) == (if counted.results.contains_key(id) {
                            1nat
                        } else {
                            0nat
                        }) || counted.repeated(id) by {
                        assert(tools.repeated(id) == counted.repeated(id));
                        assert(completions(told, id, round) == (if tools.results.contains_key(id) {
                            1nat
                        } else {
                            0nat
                        }) || tools.repeated(id));
                    }
                },
                _ => {},
            }
        } else {
            assert(next =~= told);
            if let LoopPhaseView::Running { round: tools } = now.phase {
                let round = Some(now.round as usize);
                match before.phase {
                    LoopPhaseView::Announcing { .. } => {
                        assert forall|id: Seq<char>| #[trigger]
                            completions(next, id, round) == (if tools.results.contains_key(id) {
                                1nat
                            } else {
                                0nat
                            }) || tools.repeated(id) by {
                            assert(completions(told, id, round) == 0);
                        }
                    },
                    _ => {},
                }
            }
        }
    }
}

/// Tool failures never end a run, panics included: however the calls of a
/// round end, each call with an id of its own is told to have completed
/// exactly once by the time the run goes back to the model.
pub proof fn every_call_completes_once(s: LoopView, inputs: Seq<LoopInputView>, i: int)
    requires
        s.phase is Starting,
        s.round == 0,
        loop_valid(s),
        accepted(s, inputs),
        inputs.len() > 0,
        returns_to_the_model(after(s, inputs.drop_last()), inputs.last()),
    ensures
        ({
            let before = after(s, inputs.drop_last());
            let told = events(s, inputs.drop_last());
            tools_of(before.phase) matches Some(tools) ==> 0 <= i < tools.calls.len()
                && !tools.repeated(tools.calls[i].call_id) ==> completions(
                told,
                tools.calls[i].call_id,
                Some(before.round as usize),
            ) == 1
        }),
{
    let earlier = inputs.drop_last();
    let before = after(s, earlier);
    tally(s, earlier);
    conversation_shape(s, earlier);
    match before.phase {
        LoopPhaseView::Running { round: tools } => {
            if 0 <= i < tools.calls.len() {
                assert(tools.results.contains_key(tools.calls[i].call_id));
            }
        },
        LoopPhaseView::Settling { round: tools, call_id, result } => {
            let counted = ToolRoundView { results: tools.results.insert(call_id, result), ..tools };
            inserting_keeps_valid(tools, call_id, result);
            settled_is_complete(counted);
            if 0 <= i < tools.calls.len() {
                let id = tools.calls[i].call_id;
                assert(counted.calls[i].call_id == id);
                assert(counted.results.contains_key(id));
                assert(completions(events(s, earlier), id, Some(before.round as usize)) == 1
                    || counted.repeated(id));
            }
        },
        _ => {},
    }
}

/// The tool round a phase works on.
pub open spec fn tools_of(phase: LoopPhaseView) -> Option<ToolRoundView> {
    match phase {
        LoopPhaseView::Running { round } => Some(round),
        LoopPhaseView::Settling { round, .. } => Some(round),
        _ => None,
    }
}

proof fn inserting_keeps_valid(tools: ToolRoundView, call_id: Seq<char>, result: ToolResultView)
    requires
        tools.valid(),
        tools.has(call_id),
    ensures
        (ToolRoundView { results: tools.results.insert(call_id, result), ..tools }).valid(),
{
    let next = ToolRoundView { results: tools.results.insert(call_id, result), ..tools };
    assert forall|id: Seq<char>| #[trigger] next.results.contains_key(id) implies next.has(id) by {
        if id != call_id {
            assert(tools.results.contains_key(id));
        }
        assert(tools.has(id));
        let i = choose|i: int| 0 <= i < tools.calls.len() && #[trigger] tools.calls[i].call_id == id;
        assert(next.calls[i].call_id == id);
    }
}

/// A panicked call is told as a failed one, like any call that failed, and
/// the run goes on.
pub proof fn panics_are_soft(s: LoopView, call_id: Seq<char>, detail: Seq<char>)
    requires
        s.phase is Running,
    ensures
        loop_step(s, LoopInputView::ToolPanicked { call_id, detail }) == loop_step(
            s,
            LoopInputView::ToolFinished { call_id, result: panic_result(detail) },
        ),
        loop_step(s, LoopInputView::ToolPanicked { call_id, detail }).1 == LoopActionView::Emit(
            TurnEventView::Tool(
                ToolEventView::CallCompleted {
                    call_id,
                    result: panic_result(detail),
                    round: Some(s.round as usize),
                },
            ),
        ),
{
}

/// The messages of the requests among the given actions, in order.
pub open spec fn asked(actions: Seq<LoopActionView>) -> Seq<Seq<MessageView>>
    decreases actions.len(),
{
    if actions.len() == 0 {
        Seq::empty()
    } else {
        let earlier = asked(actions.drop_last());
        match actions.last() {
            LoopActionView::OpenModel(request) => earlier.push(request.messages),
            _ => earlier,
        }
    }
}

/// The messages of the requests of a run, in order.
pub open spec fn requests(s: LoopView, inputs: Seq<LoopInputView>) -> Seq<Seq<MessageView>> {
    asked(actions(s, inputs))
}

/// The answers of the model among the given inputs, in order.
pub open spec fn answers(inputs: Seq<LoopInputView>) -> Seq<MessageView>
    decreases inputs.len(),
{
    if inputs.len() == 0 {
        Seq::empty()
    } else {
        let earlier = answers(inputs.drop_last());
        match inputs.last() {
            LoopInputView::Item(Some(ModelStreamItemView::Finish { message, .. })) => earlier.push(
                message,
            ),
            _ => earlier,
        }
    }
}

/// The results of the calls told to have completed in this round, by id.
pub open spec fn results_in(told: Seq<TurnEventView>, in_round: Option<usize>) -> Map<
    Seq<char>,
    ToolResultView,
>
    decreases told.len(),
{
    if told.len() == 0 {
        Map::empty()
    } else {
        let earlier = results_in(told.drop_last(), in_round);
        match told.last() {
            TurnEventView::Tool(
                ToolEventView::CallCompleted { call_id, result, round },
            ) if round == in_round => earlier.insert(call_id, result),
            _ => earlier,
        }
    }
}

/// The conversation after an answer: the answer joins it, and behind it the
/// results of its calls, in the order of the calls.
pub open spec fn continued(
    request: Seq<MessageView>,
    answer: MessageView,
    results: Map<Seq<char>, ToolResultView>,
) -> Seq<MessageView> {
    request.push(answer) + (ToolRoundView { calls: calls_in(answer.blocks), results }).messages()
}

/// Each request but the first continues the one before it.
pub open spec fn chained(
    asked: Seq<Seq<MessageView>>,
    answered: Seq<MessageView>,
    told: Seq<TurnEventView>,
) -> bool {
    forall|k: int|
        0 <= k < asked.len() - 1 ==> #[trigger] asked[k + 1] == continued(
            asked[k],
            answered[k],
            results_in(told, Some((k + 1) as usize)),
        )
}

/// How the requests and the answers of a run stand to its conversation,
/// wherever it stands.
pub open spec fn exchange_matches(
    s: LoopView,
    asked: Seq<Seq<MessageView>>,
    answered: Seq<MessageView>,
    told: Seq<TurnEventView>,
) -> bool {
    let here = results_in(told, Some(s.round as usize));
    match s.phase {
        LoopPhaseView::Starting | LoopPhaseView::Assembling | LoopPhaseView::Checking => s.round == 0
            && asked.len() == 0 && answered.len() == 0,
        LoopPhaseView::Requesting => {
            &&& s.round >= 1
            &&& asked.len() == s.round - 1
            &&& answered.len() == s.round - 1
            &&& here == Map::<Seq<char>, ToolResultView>::empty()
            &&& s.round >= 2 ==> s.messages == continued(
                asked.last(),
                answered.last(),
                results_in(told, Some((s.round - 1) as usize)),
            )
        },
        LoopPhaseView::Opening | LoopPhaseView::Streaming | LoopPhaseView::Narrating => {
            &&& s.round >= 1
            &&& asked.len() == s.round
            &&& answered.len() == s.round - 1
            &&& here == Map::<Seq<char>, ToolResultView>::empty()
            &&& s.messages == asked.last()
        },
        LoopPhaseView::Responding { message } => {
            &&& s.round >= 1
            &&& asked.len() == s.round
            &&& answered.len() == s.round
            &&& here == Map::<Seq<char>, ToolResultView>::empty()
            &&& s.messages == asked.last()
            &&& message == answered.last()
        },
        LoopPhaseView::Announcing { calls, .. } => {
            &&& s.round >= 1
            &&& asked.len() == s.round
            &&& answered.len() == s.round
            &&& here == Map::<Seq<char>, ToolResultView>::empty()
            &&& s.messages == asked.last().push(answered.last())
            &&& calls == calls_in(answered.last().blocks)
        },
        LoopPhaseView::Running { round } => {
            &&& s.round >= 1
            &&& asked.len() == s.round
            &&& answered.len() == s.round
            &&& here == round.results
            &&& s.messages == asked.last().push(answered.last())
            &&& round.calls == calls_in(answered.last().blocks)
        },
        LoopPhaseView::Settling { round, call_id, result } => {
            &&& s.round >= 1
            &&& asked.len() == s.round
            &&& answered.len() == s.round
            &&& here == round.results.insert(call_id, result)
            &&& s.messages == asked.last().push(answered.last())
            &&& round.calls == calls_in(answered.last().blocks)
        },
        _ => asked.len() <= s.round && answered.len() >= asked.len() - 1,
    }
}

/// Adding an event of a later round, or one that completes no call, leaves
/// the results of a round as they are.
proof fn results_last(told: Seq<TurnEventView>, event: TurnEventView, in_round: Option<usize>)
    requires
        event matches TurnEventView::Tool(ToolEventView::CallCompleted { round, .. }) ==> round
            != in_round,
    ensures
        results_in(told.push(event), in_round) == results_in(told, in_round),
{
    assert(told.push(event).drop_last() =~= told);
}

#[verifier::spinoff_prover]
#[verifier::rlimit(60)]
proof fn exchange(s: LoopView, inputs: Seq<LoopInputView>)
    requires
        s.phase is Starting,
        s.round == 0,
        accepted(s, inputs),
    ensures
        exchange_matches(
            after(s, inputs),
            requests(s, inputs),
            answers(inputs),
            events(s, inputs),
        ),
        chained(requests(s, inputs), answers(inputs), events(s, inputs)),
        forall|later: u32|
            later > after(s, inputs).round ==> #[trigger] results_in(
                events(s, inputs),
                Some(later as usize),
            ) == Map::<Seq<char>, ToolResultView>::empty(),
    decreases inputs.len(),
{
    if inputs.len() == 0 {
        let told = events(s, inputs);
        assert(told =~= Seq::<TurnEventView>::empty().push(
            TurnEventView::Lifecycle(LifecycleEventView::Started { input: s.input }),
        ));
        assert forall|later: u32| later > s.round implies #[trigger] results_in(
            told,
            Some(later as usize),
        ) == Map::<Seq<char>, ToolResultView>::empty() by {
            results_last(
                Seq::<TurnEventView>::empty(),
                TurnEventView::Lifecycle(LifecycleEventView::Started { input: s.input }),
                Some(later as usize),
            );
        }
    } else {
        let earlier = inputs.drop_last();
        exchange(s, earlier);
        let before = after(s, earlier);
        let now = after(s, inputs);
        let told = events(s, earlier);
        let next = events(s, inputs);
        let acts = actions(s, inputs);
        let action = loop_step(before, inputs.last()).1;
        assert(acts.drop_last() =~= actions(s, earlier));
        assert(acts.last() == action);
        let before_asked = requests(s, earlier);
        let now_asked = requests(s, inputs);
        let before_answers = answers(earlier);
        let now_answers = answers(inputs);
        if let LoopActionView::Emit(event) = action {
            assert(next =~= told.push(event));
            assert(next.drop_last() =~= told);
            assert forall|other: u32| other != before.round implies #[trigger] results_in(
                next,
                Some(other as usize),
            ) == results_in(told, Some(other as usize)) by {
                results_last(told, event, Some(other as usize));
            }
            if !(now.phase is Settling) {
                results_last(told, event, Some(before.round as usize));
            }
        } else {
            assert(next =~= told);
        }
        assert forall|k: int| 0 <= k < now_asked.len() - 1 implies #[trigger] now_asked[k + 1]
            == continued(now_asked[k], now_answers[k], results_in(next, Some((k + 1) as usize))) by {
            if k < before_asked.len() - 1 {
                assert(now_asked[k + 1] == before_asked[k + 1]);
                assert(now_asked[k] == before_asked[k]);
                assert(now_answers[k] == before_answers[k]);
                let number = (k + 1) as u32;
                assert(number as usize == (k + 1) as usize);
                if action is Emit {
                    if number != before.round {
                        assert(results_in(next, Some(number as usize)) == results_in(
                            told,
                            Some(number as usize),
                        ));
                    } else {
                        assert(!(now.phase is Settling));
                    }
                }
            } else {
                assert(before.phase is Requesting);
                assert(k + 1 == before_asked.len());
                assert(now_asked[k + 1] == before.messages);
                assert(before_asked.last() == now_asked[k]);
                assert(before_answers.last() == now_answers[k]);
                assert((before.round - 1) as usize == (k + 1) as usize);
            }
        }
    }
}

/// The conversation the model is asked with is built up exactly: each
/// request after the first is the one before it, then the answer to it, then
/// the results of that answer's calls, one message per call and in the order
/// of the calls, as they were told to have completed.
pub proof fn requests_continue_each_other(s: LoopView, inputs: Seq<LoopInputView>, k: int)
    requires
        s.phase is Starting,
        s.round == 0,
        accepted(s, inputs),
        0 <= k < requests(s, inputs).len() - 1,
    ensures
        k < answers(inputs).len(),
        requests(s, inputs)[k + 1] == continued(
            requests(s, inputs)[k],
            answers(inputs)[k],
            results_in(events(s, inputs), Some((k + 1) as usize)),
        ),
{
    exchange(s, inputs);
    assert(requests(s, inputs)[k + 1] == continued(
        requests(s, inputs)[k],
        answers(inputs)[k],
        results_in(events(s, inputs), Some((k + 1) as usize)),
    ));
}

/// The frame a run was given.
pub open spec fn frame_of(inputs: Seq<LoopInputView>) -> Seq<MessageView>
    decreases inputs.len(),
{
    if inputs.len() == 0 {
        Seq::empty()
    } else {
        match inputs.last() {
            LoopInputView::Assembled(frame) => frame,
            _ => frame_of(inputs.drop_last()),
        }
    }
}

proof fn first_request(s: LoopView, inputs: Seq<LoopInputView>)
    requires
        s.phase is Starting,
        s.round == 0,
        accepted(s, inputs),
    ensures
        ({
            let now = after(s, inputs);
            &&& now.system_prompt == s.system_prompt
            &&& now.phase is Checking || (now.phase is Requesting && now.round == 1)
                ==> now.messages == system_head(s.system_prompt) + frame_of(inputs)
            &&& requests(s, inputs).len() > 0 ==> requests(s, inputs)[0] == system_head(
                s.system_prompt,
            ) + frame_of(inputs)
        }),
    decreases inputs.len(),
{
    if inputs.len() > 0 {
        let earlier = inputs.drop_last();
        first_request(s, earlier);
        exchange(s, earlier);
        assert(actions(s, inputs).drop_last() =~= actions(s, earlier));
    }
}

/// The first request of a run is the system prompt, when one is configured,
/// and the frame. When the frame is the user's input alone, as on a fresh
/// conversation with the bundled memory, the request ends with the input,
/// and has a system message exactly when a prompt is configured.
pub proof fn the_first_request_is_the_frame(s: LoopView, inputs: Seq<LoopInputView>)
    requires
        s.phase is Starting,
        s.round == 0,
        accepted(s, inputs),
        requests(s, inputs).len() > 0,
    ensures
        ({
            let first = requests(s, inputs)[0];
            let input = text_message_view(Role::User, s.input.text);
            &&& first == system_head(s.system_prompt) + frame_of(inputs)
            &&& frame_of(inputs) == seq![input] ==> {
                &&& first.last() == input
                &&& s.system_prompt matches Some(prompt) ==> first[0] == text_message_view(
                    Role::System,
                    prompt,
                )
                &&& s.system_prompt is None ==> forall|i: int|
                    0 <= i < first.len() ==> (#[trigger] first[i]).role != Role::System
            }
        }),
{
    first_request(s, inputs);
}

/// The message of an answer of the model.
pub open spec fn answer_in(input: LoopInputView) -> Option<MessageView> {
    match input {
        LoopInputView::Item(Some(ModelStreamItemView::Finish { message, .. })) => Some(message),
        _ => None,
    }
}

/// The answers of the model that the consumer was there to hear, in order.
pub open spec fn heard(inputs: Seq<LoopInputView>) -> Seq<MessageView>
    decreases inputs.len(),
{
    if inputs.len() < 2 {
        Seq::empty()
    } else {
        let earlier = heard(inputs.drop_last());
        match answer_in(inputs[inputs.len() - 2]) {
            Some(message) if inputs.last() == LoopInputView::Sent(true) => earlier.push(message),
            _ => earlier,
        }
    }
}

/// Every answer was heard but the one that is being narrated.
proof fn answers_are_heard(s: LoopView, inputs: Seq<LoopInputView>)
    requires
        s.phase is Starting,
        accepted(s, inputs),
    ensures
        match after(s, inputs).phase {
            LoopPhaseView::Responding { message } => {
                &&& answers(inputs) == heard(inputs).push(message)
                &&& inputs.len() > 0
                &&& answer_in(inputs.last()) == Some(message)
            },
            LoopPhaseView::Recording { .. }
            | LoopPhaseView::Reporting { .. }
            | LoopPhaseView::Maintaining { .. }
            | LoopPhaseView::Terminating
            | LoopPhaseView::Done => inputs.len() > 0 && answer_in(inputs.last()) is None,
            _ => {
                &&& answers(inputs) == heard(inputs)
                &&& inputs.len() > 0 ==> answer_in(inputs.last()) is None
            },
        },
    decreases inputs.len(),
{
    if inputs.len() > 0 {
        answers_are_heard(s, inputs.drop_last());
        if inputs.len() > 1 {
            assert(inputs[inputs.len() - 2] == inputs.drop_last().last());
        }
    }
}

/// What a run's conversation holds by now, told from what was asked, what
/// was heard, and what was told: the system prompt and the frame, continued
/// with each answer that was heard and, once the run goes back to the model,
/// the results of its calls.
pub open spec fn conversation_so_far(
    opening: Seq<MessageView>,
    asked: Seq<Seq<MessageView>>,
    heard: Seq<MessageView>,
    told: Seq<TurnEventView>,
    back: bool,
) -> Seq<MessageView> {
    if asked.len() == 0 {
        opening
    } else if heard.len() < asked.len() {
        asked.last()
    } else if back {
        continued(asked.last(), heard.last(), results_in(told, Some(asked.len() as usize)))
    } else {
        asked.last().push(heard.last())
    }
}

/// Where the frame stands in a run's conversation.
proof fn frame_stays(s: LoopView, inputs: Seq<LoopInputView>)
    requires
        s.phase is Starting,
        loop_valid(s),
        accepted(s, inputs),
    ensures
        framed(after(s, inputs).phase) ==> {
            let now = after(s, inputs);
            let head = system_head(s.system_prompt);
            &&& now.base_len == head.len()
            &&& now.frame_len == frame_of(inputs).len()
            &&& (head + frame_of(inputs)).is_prefix_of(now.messages)
        },
        !framed(after(s, inputs).phase) ==> frame_of(inputs) == Seq::<MessageView>::empty(),
    decreases inputs.len(),
{
    if inputs.len() > 0 {
        let earlier = inputs.drop_last();
        frame_stays(s, earlier);
        conversation_shape(s, earlier);
        let before = after(s, earlier);
        let now = after(s, inputs);
        step_keeps_valid(before, inputs.last());
        let start = system_head(s.system_prompt) + frame_of(inputs);
        if framed(before.phase) {
            assert(frame_of(inputs) == frame_of(earlier));
            assert(before.messages =~= now.messages.subrange(0, before.messages.len() as int));
            assert(start =~= now.messages.subrange(0, start.len() as int));
        } else if framed(now.phase) {
            assert(now.messages =~= start);
            assert(start =~= now.messages.subrange(0, start.len() as int));
        }
    }
}

/// The step that records the turn leaves the conversation as it was told.
proof fn recording_step(
    before: LoopView,
    input: LoopInputView,
    opening: Seq<MessageView>,
    asked: Seq<Seq<MessageView>>,
    answered: Seq<MessageView>,
    listened: Seq<MessageView>,
    told: Seq<TurnEventView>,
)
    requires
        expects(before, input),
        loop_step(before, input).1 is Record,
        exchange_matches(before, asked, answered, told),
        before.phase is Checking || (before.phase is Requesting && before.round == 1)
            ==> before.messages == opening,
        before.phase is Responding && input == LoopInputView::Sent(false) ==> listened.len()
            < asked.len(),
        !(before.phase is Responding && input == LoopInputView::Sent(false)) ==> listened
            == answered,
    ensures
        loop_step(before, input).0.messages == conversation_so_far(
            opening,
            asked,
            listened,
            told,
            before.round > asked.len() || loop_step(before, input).1->Record_0.outcome
                == TurnOutcomeView::Failed(AgentErrorView::MaxRoundsExceeded),
        ),
{
    match before.phase {
        LoopPhaseView::Running { round } => {
            assert(round =~= (ToolRoundView {
                calls: calls_in(answered.last().blocks),
                results: results_in(told, Some(asked.len() as usize)),
            }));
        },
        LoopPhaseView::Settling { round, call_id, result } => {
            let next = ToolRoundView { results: round.results.insert(call_id, result), ..round };
            assert(next =~= (ToolRoundView {
                calls: calls_in(answered.last().blocks),
                results: results_in(told, Some(asked.len() as usize)),
            }));
        },
        _ => {},
    }
}

/// What was heard when the turn is recorded.
proof fn heard_at_the_end(s: LoopView, inputs: Seq<LoopInputView>)
    requires
        s.phase is Starting,
        s.round == 0,
        accepted(s, inputs),
        inputs.len() > 0,
        loop_step(after(s, inputs.drop_last()), inputs.last()).1 is Record,
    ensures
        ({
            let earlier = inputs.drop_last();
            let before = after(s, earlier);
            if before.phase is Responding && inputs.last() == LoopInputView::Sent(false) {
                heard(inputs).len() < requests(s, earlier).len()
            } else {
                heard(inputs) == answers(earlier)
            }
        }),
{
    let earlier = inputs.drop_last();
    answers_are_heard(s, earlier);
    exchange(s, earlier);
    if inputs.len() > 1 {
        assert(inputs[inputs.len() - 2] == earlier.last());
    }
}

/// What follows a common head keeps its order of prefixes.
proof fn prefix_behind_a_head(
    head: Seq<MessageView>,
    part: Seq<MessageView>,
    whole: Seq<MessageView>,
)
    requires
        (head + part).is_prefix_of(head + whole),
    ensures
        part.is_prefix_of(whole),
{
    assert forall|i: int| 0 <= i < part.len() implies part[i] == whole[i] by {
        assert((head + part)[head.len() + i] == (head + whole).subrange(
            0,
            (head + part).len() as int,
        )[head.len() + i]);
    }
    assert(part =~= whole.subrange(0, part.len() as int));
}

/// A recorded turn holds all messages but the system prompt.
proof fn recorded_behind_the_prompt(s: LoopView, inputs: Seq<LoopInputView>)
    requires
        s.phase is Starting,
        loop_valid(s),
        accepted(s, inputs),
        inputs.len() > 0,
    ensures
        loop_step(after(s, inputs.drop_last()), inputs.last()).1 matches LoopActionView::Record(
            turn,
        ) ==> {
            &&& turn.input == s.input
            &&& after(s, inputs).messages == system_head(s.system_prompt) + turn.messages
            &&& frame_of(inputs) == frame_of(inputs.drop_last())
            &&& frame_of(inputs).is_prefix_of(turn.messages)
        },
{
    let earlier = inputs.drop_last();
    let before = after(s, earlier);
    let now = after(s, inputs);
    archive(s, earlier);
    conversation_shape(s, inputs);
    frame_stays(s, inputs);
    if let LoopActionView::Record(turn) = loop_step(before, inputs.last()).1 {
        let head = system_head(s.system_prompt);
        assert(turn.messages == turn_messages(now));
        assert(now.messages =~= head + turn.messages);
        assert(framed(now.phase));
        prefix_behind_a_head(head, frame_of(inputs), turn.messages);
    }
}

/// The conversation when the turn is recorded, as it was told.
proof fn recorded_as_told(s: LoopView, inputs: Seq<LoopInputView>)
    requires
        s.phase is Starting,
        s.round == 0,
        accepted(s, inputs),
        inputs.len() > 0,
        loop_step(after(s, inputs.drop_last()), inputs.last()).1 is Record,
    ensures
        ({
            let earlier = inputs.drop_last();
            let before = after(s, earlier);
            let asked = requests(s, earlier);
            after(s, inputs).messages == conversation_so_far(
                system_head(s.system_prompt) + frame_of(earlier),
                asked,
                heard(inputs),
                events(s, earlier),
                before.round > asked.len() || loop_step(before, inputs.last()).1->Record_0.outcome
                    == TurnOutcomeView::Failed(AgentErrorView::MaxRoundsExceeded),
            )
        }),
{
    let earlier = inputs.drop_last();
    exchange(s, earlier);
    first_request(s, earlier);
    heard_at_the_end(s, inputs);
    recording_step(
        after(s, earlier),
        inputs.last(),
        system_head(s.system_prompt) + frame_of(earlier),
        requests(s, earlier),
        answers(earlier),
        heard(inputs),
        events(s, earlier),
    );
}

/// Whatever ends a run, its turn is recorded with the whole conversation of
/// the run but the system prompt: the frame it was given, then each answer
/// that was narrated and heard, then the results of its calls in call order.
/// The last request says it up to the last round; behind it come the answer,
/// if it was heard, and the results, if the run went back to the model or
/// its budget was used up.
pub proof fn turns_are_recorded_whole(s: LoopView, inputs: Seq<LoopInputView>)
    requires
        s.phase is Starting,
        s.round == 0,
        loop_valid(s),
        accepted(s, inputs),
        inputs.len() > 0,
    ensures
        actions(s, inputs).last() matches LoopActionView::Record(turn) ==> {
            let head = system_head(s.system_prompt);
            let told = events(s, inputs);
            let asked = requests(s, inputs);
            &&& turn.input == s.input
            &&& frame_of(inputs).is_prefix_of(turn.messages)
            &&& head + turn.messages == conversation_so_far(
                head + frame_of(inputs),
                asked,
                heard(inputs),
                told,
                rounds_opened(told) > asked.len() || turn.outcome == TurnOutcomeView::Failed(
                    AgentErrorView::MaxRoundsExceeded,
                ),
            )
        },
{
    let earlier = inputs.drop_last();
    assert(actions(s, inputs).drop_last() =~= actions(s, earlier));
    if actions(s, inputs).last() is Record {
        assert(emitted(actions(s, inputs)) == emitted(actions(s, earlier)));
        assert(requests(s, inputs) == requests(s, earlier));
        recorded_behind_the_prompt(s, inputs);
        recorded_as_told(s, inputs);
        rounds_stay_within_the_budget(s, earlier);
        told_rounds(s, earlier);
    }
}

/// The rounds opened by all events of a run are those opened by what it
/// emitted.
proof fn told_rounds(s: LoopView, inputs: Seq<LoopInputView>)
    ensures
        rounds_opened(events(s, inputs)) == rounds_opened(emitted(actions(s, inputs))),
{
    rounds_ignore_the_start(
        TurnEventView::Lifecycle(LifecycleEventView::Started { input: s.input }),
        emitted(actions(s, inputs)),
    );
}

proof fn rounds_ignore_the_start(start: TurnEventView, told: Seq<TurnEventView>)
    requires
        start is Lifecycle,
    ensures
        rounds_opened(seq![start] + told) == rounds_opened(told),
    decreases told.len(),
{
    if told.len() == 0 {
        assert(seq![start] + told =~= seq![start]);
        reveal_with_fuel(rounds_opened, 2);
    } else {
        rounds_ignore_the_start(start, told.drop_last());
        assert((seq![start] + told).drop_last() =~= seq![start] + told.drop_last());
    }
}

/// The calls of an answer are all its tool calls, in order: those of blocks
/// in a row are those of the first ones, then those of the others.
pub proof fn calls_join(
    blocks: Seq<ContentBlockView>,
    more: Seq<ContentBlockView>,
    block: ContentBlockView,
)
    ensures
        calls_in(blocks + more) == calls_in(blocks) + calls_in(more),
        calls_in(seq![block]) == (match block {
            ContentBlockView::ToolCall(call) => seq![call],
            _ => Seq::empty(),
        }),
    decreases more.len(),
{
    reveal_with_fuel(calls_in, 2);
    assert(seq![block].drop_last() =~= Seq::<ContentBlockView>::empty());
    if let ContentBlockView::ToolCall(call) = block {
        assert(Seq::<ToolCallView>::empty().push(call) =~= seq![call]);
    }
    if more.len() == 0 {
        assert(blocks + more =~= blocks);
        assert(calls_in(blocks) + calls_in(more) =~= calls_in(blocks));
    } else {
        calls_join(blocks, more.drop_last(), block);
        assert((blocks + more).drop_last() =~= blocks + more.drop_last());
        assert((blocks + more).last() == more.last());
        assert(calls_in(blocks + more) =~= calls_in(blocks) + calls_in(more));
    }
}

/// The model reads one result per call, in the order of the calls: a tool
/// message that holds nothing but the result of that call.
pub proof fn results_follow_the_calls(round: ToolRoundView, i: int)
    requires
        0 <= i < round.calls.len(),
    ensures
        round.messages().len() == round.calls.len(),
        round.messages()[i].role == Role::Tool,
        round.messages()[i].blocks == seq![
            ContentBlockView::ToolResult {
                call_id: round.calls[i].call_id,
                result: round.results[round.calls[i].call_id],
            },
        ],
{
}

/// What the outside hands in is told as it came: a fragment of the stream,
/// an answer with its usage, the result of a call.
pub proof fn what_comes_in_is_told(s: LoopView, inputs: Seq<LoopInputView>)
    requires
        s.phase is Starting,
        accepted(s, inputs),
        inputs.len() > 0,
    ensures
        ({
            let action = actions(s, inputs).last();
            match inputs.last() {
                LoopInputView::Item(Some(ModelStreamItemView::Delta(piece))) => (action
                    matches LoopActionView::Emit(
                    TurnEventView::Model(ModelEventView::StreamDelta { delta, .. }),
                ) && delta == piece),
                LoopInputView::Item(
                    Some(ModelStreamItemView::Finish { message: answer, usage: spent }),
                ) => (action matches LoopActionView::Emit(
                    TurnEventView::Model(ModelEventView::Responded { message, usage, .. }),
                ) && message == answer && usage == spent),
                LoopInputView::ToolFinished { call_id: id, result: came } => (action
                    matches LoopActionView::Emit(
                    TurnEventView::Tool(ToolEventView::CallCompleted { call_id, result, .. }),
                ) && call_id == id && result == came),
                LoopInputView::ToolPanicked { call_id: id, detail } => (action
                    matches LoopActionView::Emit(
                    TurnEventView::Tool(ToolEventView::CallCompleted { call_id, result, .. }),
                ) && call_id == id && result == (ToolResultView::Failure {
                    message: "tool task failed: "@ + detail,
                })),
                LoopInputView::ToolAborted => action is AwaitTool,
                LoopInputView::Opened => action is PollModel,
                LoopInputView::Assembled(_) => action is CheckCancelled,
                _ => true,
            }
        }),
{
    archive(s, inputs.drop_last());
}

/// What ends a run is what its record says: a model that fails to start or
/// fails on the way, a stream that ends without an answer, a cancellation
/// before or in the middle of the run, a consumer that is gone.
pub proof fn what_ends_a_run_is_recorded(s: LoopView, inputs: Seq<LoopInputView>)
    requires
        s.phase is Starting,
        accepted(s, inputs),
        inputs.len() > 0,
    ensures
        ({
            let action = actions(s, inputs).last();
            let ended = |outcome: TurnOutcomeView|
                action matches LoopActionView::Record(turn) && turn.outcome == outcome
                    && turn.input == s.input;
            let cancelled = |cause: CancelOutcome|
                ended(
                    TurnOutcomeView::Cancelled(
                        if cause == CancelOutcome::Timeout {
                            CancelReason::Timeout
                        } else {
                            CancelReason::UserRequested
                        },
                    ),
                );
            match inputs.last() {
                LoopInputView::OpenFailed(error) => ended(
                    TurnOutcomeView::Failed(AgentErrorView::Model(error)),
                ),
                LoopInputView::Item(Some(ModelStreamItemView::Failed(error))) => ended(
                    TurnOutcomeView::Failed(AgentErrorView::Model(error)),
                ),
                LoopInputView::Item(None) => ended(
                    TurnOutcomeView::Failed(
                        AgentErrorView::Model(
                            ModelErrorView::Api {
                                message: "model stream ended without a finish item"@,
                            },
                        ),
                    ),
                ),
                LoopInputView::Cancelled(cause) => cancelled(cause),
                LoopInputView::CancelChecked(Some(cause)) => cancelled(cause),
                _ => true,
            }
        }),
{
    archive(s, inputs.drop_last());
}

/// Which action a run waits for, told from where it stands.
proof fn phases_follow_actions(s: LoopView, input: LoopInputView)
    requires
        expects(s, input),
    ensures
        ({
            let (next, action) = loop_step(s, input);
            match action {
                LoopActionView::Emit(TurnEventView::Model(event)) => match event {
                    ModelEventView::Requested { messages, .. } => next.phase is Requesting
                        && messages == next.messages,
                    ModelEventView::StreamDelta { .. } => next.phase is Narrating,
                    ModelEventView::Responded { message, .. } => next.phase
                        == LoopPhaseView::Responding { message },
                },
                LoopActionView::Emit(TurnEventView::Tool(event)) => match event {
                    ToolEventView::CallRequested { .. } => next.phase is Announcing,
                    ToolEventView::CallCompleted { .. } => next.phase is Settling,
                },
                _ => true,
            }
        }),
{
}

/// What follows a narration that was heard. After the request is narrated
/// the model is asked exactly that, with all tools and without a limit on
/// its answer. After a fragment the stream goes on. An answer without calls
/// completes the run with that answer and the usage of all its calls; an
/// answer with calls has them announced, the first one first.
pub proof fn heard_narration_goes_on(s: LoopView, inputs: Seq<LoopInputView>)
    requires
        s.phase is Starting,
        s.usage.input_tokens == 0,
        s.usage.output_tokens == 0,
        loop_valid(s),
        accepted(s, inputs),
        inputs.len() > 1,
        inputs.last() == LoopInputView::Sent(true),
    ensures
        ({
            let action = actions(s, inputs).last();
            actions(s, inputs.drop_last()).last() matches LoopActionView::Emit(
                TurnEventView::Model(event),
            ) ==> match event {
                ModelEventView::Requested { messages, .. } => action == LoopActionView::OpenModel(
                    ModelRequestView {
                        messages,
                        tools: s.tools,
                        params: ModelParams { max_tokens: None },
                    },
                ),
                ModelEventView::StreamDelta { .. } => action is PollModel,
                ModelEventView::Responded { message, .. } => if calls_in(message.blocks).len()
                    == 0 {
                    action matches LoopActionView::Record(turn) && (turn.outcome
                        matches TurnOutcomeView::Completed(output) && output.message == message
                        && output.usage.input_tokens == input_tokens_of(inputs)
                        && output.usage.output_tokens == output_tokens_of(inputs))
                } else {
                    action matches LoopActionView::Emit(
                        TurnEventView::Tool(ToolEventView::CallRequested { call, .. }),
                    ) && call == calls_in(message.blocks)[0]
                },
            }
        }),
{
    let earlier = inputs.drop_last();
    conversation_shape(s, earlier);
    usage_is_the_sum_over_all_calls(s, earlier);
    assert(accepted(s, earlier));
    phases_follow_actions(after(s, earlier.drop_last()), earlier.last());
}

/// A consumer that is gone is noticed at the next narration inside the loop,
/// and the run is put down as cancelled by the user.
pub proof fn unheard_narration_cancels(s: LoopView, inputs: Seq<LoopInputView>)
    requires
        s.phase is Starting,
        accepted(s, inputs),
        inputs.len() > 1,
        inputs.last() == LoopInputView::Sent(false),
        actions(s, inputs.drop_last()).last() matches LoopActionView::Emit(event) && (event is Model
            || event matches TurnEventView::Tool(ToolEventView::CallCompleted { .. })),
    ensures
        actions(s, inputs).last() matches LoopActionView::Record(turn) && turn.outcome
            == TurnOutcomeView::Cancelled(CancelReason::UserRequested),
{
    let earlier = inputs.drop_last();
    assert(accepted(s, earlier));
    phases_follow_actions(after(s, earlier.drop_last()), earlier.last());
}

/// The last events told announce the first `n` of the calls, in order.
pub open spec fn ends_with_announcements(
    told: Seq<TurnEventView>,
    calls: Seq<ToolCallView>,
    n: int,
) -> bool {
    &&& 0 <= n <= calls.len()
    &&& n <= told.len()
    &&& forall|i: int|
        0 <= i < n ==> (#[trigger] told[told.len() - n + i] matches TurnEventView::Tool(
            ToolEventView::CallRequested { call, .. },
        ) && call == calls[i])
}

proof fn announced_in_order(s: LoopView, inputs: Seq<LoopInputView>)
    requires
        s.phase is Starting,
        accepted(s, inputs),
    ensures
        after(s, inputs).phase matches LoopPhaseView::Announcing { calls, next }
            ==> ends_with_announcements(events(s, inputs), calls, next),
    decreases inputs.len(),
{
    if inputs.len() > 0 {
        let earlier = inputs.drop_last();
        announced_in_order(s, earlier);
        let before = after(s, earlier);
        let told = events(s, earlier);
        let now_told = events(s, inputs);
        assert(actions(s, inputs).drop_last() =~= actions(s, earlier));
        if let LoopPhaseView::Announcing { calls, next } = after(s, inputs).phase {
            let event = TurnEventView::Tool(
                ToolEventView::CallRequested {
                    call: calls[next - 1],
                    round: Some(before.round as usize),
                },
            );
            assert(now_told =~= told.push(event));
            assert forall|i: int| 0 <= i < next implies (#[trigger] now_told[now_told.len() - next
                + i] matches TurnEventView::Tool(ToolEventView::CallRequested { call, .. }) && call
                == calls[i]) by {
                if i < next - 1 {
                    assert(now_told[now_told.len() - next + i] == told[told.len() - (next - 1) + i]);
                }
            }
        }
    }
}

/// The calls that are run are all calls of the answer, in order; and as long
/// as the consumer listens each is announced first, in order and right after
/// one another.
pub proof fn all_calls_are_announced_and_run(s: LoopView, inputs: Seq<LoopInputView>)
    requires
        s.phase is Starting,
        s.round == 0,
        loop_valid(s),
        accepted(s, inputs),
        inputs.len() > 0,
    ensures
        actions(s, inputs).last() matches LoopActionView::RunTools(calls) ==> {
            &&& answers(inputs).len() > 0
            &&& calls == calls_in(answers(inputs).last().blocks)
            &&& inputs.last() == LoopInputView::Sent(true) ==> ends_with_announcements(
                events(s, inputs),
                calls,
                calls.len() as int,
            )
        },
{
    let earlier = inputs.drop_last();
    assert(actions(s, inputs).drop_last() =~= actions(s, earlier));
    if actions(s, inputs).last() is RunTools {
        assert(events(s, inputs) =~= events(s, earlier));
        announced_in_order(s, earlier);
        conversation_shape(s, earlier);
        exchange(s, earlier);
    }
}

/// Where the conversation stands once the turn is recorded, and what was
/// recorded.
proof fn record_stays(s: LoopView, inputs: Seq<LoopInputView>)
    requires
        s.phase is Starting,
        loop_valid(s),
        accepted(s, inputs),
    ensures
        match after(s, inputs).phase {
            LoopPhaseView::Recording { .. }
            | LoopPhaseView::Reporting { .. }
            | LoopPhaseView::Maintaining { .. } => records(s, inputs).len() == 1 && after(
                s,
                inputs,
            ).messages == system_head(s.system_prompt) + records(s, inputs)[0].messages,
            _ => true,
        },
    decreases inputs.len(),
{
    if inputs.len() > 0 {
        let earlier = inputs.drop_last();
        record_stays(s, earlier);
        archive(s, inputs);
        archive(s, earlier);
        assert(actions(s, inputs).drop_last() =~= actions(s, earlier));
        if actions(s, inputs).last() is Record {
            recorded_behind_the_prompt(s, inputs);
        } else {
            assert(records(s, inputs) == records(s, earlier));
        }
    }
}

/// The memory is given the turn in two parts that make up what was recorded:
/// the frame as it was assembled, and everything the run added to it.
pub proof fn the_memory_is_given_the_whole_turn(s: LoopView, inputs: Seq<LoopInputView>)
    requires
        s.phase is Starting,
        loop_valid(s),
        accepted(s, inputs),
        inputs.len() > 0,
    ensures
        actions(s, inputs).last() matches LoopActionView::Maintain { frame, responses } ==> {
            &&& records(s, inputs).len() == 1
            &&& frame == frame_of(inputs)
            &&& frame + responses == records(s, inputs)[0].messages
        },
{
    let earlier = inputs.drop_last();
    let before = after(s, earlier);
    assert(actions(s, inputs).drop_last() =~= actions(s, earlier));
    if let LoopActionView::Maintain { frame, responses } = actions(s, inputs).last() {
        record_stays(s, earlier);
        frame_stays(s, earlier);
        conversation_shape(s, earlier);
        assert(frame_of(inputs) == frame_of(earlier));
        let head = system_head(s.system_prompt);
        let start = head + frame_of(earlier);
        assert(start =~= before.messages.subrange(0, start.len() as int));
        assert(frame =~= start.subrange(head.len() as int, start.len() as int));
        assert(frame =~= frame_of(earlier));
        assert(frame + responses =~= before.messages.subrange(
            head.len() as int,
            before.messages.len() as int,
        ));
        assert(records(s, earlier)[0].messages =~= (head + records(
            s,
            earlier,
        )[0].messages).subrange(head.len() as int, before.messages.len() as int));
    }
}

/// Once the turn is recorded the run closes as its outcome says: a completed
/// turn goes to the memory and then to its terminal event, a failed or
/// cancelled one to its terminal event; after a consumer that is gone
/// nothing further happens.
pub proof fn runs_close_as_recorded(s: LoopView, inputs: Seq<LoopInputView>)
    requires
        s.phase is Starting,
        accepted(s, inputs),
        inputs.len() > 0,
        inputs.last() == LoopInputView::Recorded(None) || inputs.last() is Reported,
        all_delivered(inputs),
    ensures
        records(s, inputs).len() == 1,
        match records(s, inputs)[0].outcome {
            TurnOutcomeView::Completed(_) => actions(s, inputs).last() is Maintain,
            TurnOutcomeView::Failed(error) => actions(s, inputs).last() == LoopActionView::Emit(
                TurnEventView::Lifecycle(LifecycleEventView::Failed { error }),
            ),
            TurnOutcomeView::Cancelled(reason) => actions(s, inputs).last()
                == LoopActionView::Emit(
                TurnEventView::Lifecycle(LifecycleEventView::Cancelled { reason }),
            ),
        },
{
    let earlier = inputs.drop_last();
    assert forall|i: int| 0 <= i < earlier.len() implies #[trigger] earlier[i]
        != LoopInputView::Sent(false) by {
        assert(earlier[i] == inputs[i]);
    }
    assert(actions(s, inputs).drop_last() =~= actions(s, earlier));
    archive(s, earlier);
    archive(s, inputs);
    assert(records(s, inputs) == records(s, earlier));
}

/// A completed turn that the memory has taken in ends with the answer that
/// was recorded; a turn that could not be saved is reported with what the
/// store said.
pub proof fn completed_runs_end_with_their_answer(s: LoopView, inputs: Seq<LoopInputView>)
    requires
        s.phase is Starting,
        accepted(s, inputs),
        inputs.len() > 0,
    ensures
        inputs.last() is Maintained ==> records(s, inputs).len() == 1 && (records(
            s,
            inputs,
        )[0].outcome matches TurnOutcomeView::Completed(response) && actions(s, inputs).last()
            == LoopActionView::Emit(
            TurnEventView::Lifecycle(LifecycleEventView::Completed { response }),
        )),
        inputs.last() matches LoopInputView::Recorded(Some(error)) ==> actions(s, inputs).last()
            == LoopActionView::Report(
            MemoryEventView::FlowFailed {
                stage: MemoryFlowStage::Archive,
                detail: "conversation auto-save failed: "@ + store_error_text(error),
                moment: MemoryFlowFailedMoment::AfterTurn,
            },
        ),
{
    let earlier = inputs.drop_last();
    assert(actions(s, inputs).drop_last() =~= actions(s, earlier));
    archive(s, earlier);
    if inputs.last() is Maintained {
        assert(records(s, inputs) == records(s, earlier));
    }
}

/// What follows the narration of a call. While the consumer listens the
/// calls are announced one after another; behind the last one, and as soon
/// as nobody listens, they are run. The run waits for further results as
/// long as there are fewer than calls, and goes back to the model, or fails
/// for its budget, once there are as many.
pub proof fn calls_are_seen_through(s: LoopView, inputs: Seq<LoopInputView>)
    requires
        s.phase is Starting,
        s.round == 0,
        loop_valid(s),
        accepted(s, inputs),
        inputs.len() > 1,
        inputs.last() is Sent,
    ensures
        ({
            let action = actions(s, inputs).last();
            let calls = calls_in(answers(inputs).last().blocks);
            let told = events(s, inputs.drop_last());
            actions(s, inputs.drop_last()).last() matches LoopActionView::Emit(
                TurnEventView::Tool(event),
            ) ==> match event {
                ToolEventView::CallRequested { .. } => {
                    ||| action == LoopActionView::RunTools(calls)
                    ||| inputs.last() == LoopInputView::Sent(true) && (action
                        matches LoopActionView::Emit(
                        TurnEventView::Tool(ToolEventView::CallRequested { .. }),
                    ))
                },
                ToolEventView::CallCompleted { round, .. } => inputs.last() == LoopInputView::Sent(
                    true,
                ) ==> if results_in(told, round).len() < calls.len() {
                    action is AwaitTool
                } else {
                    ||| (action matches LoopActionView::Emit(
                        TurnEventView::Model(ModelEventView::Requested { .. }),
                    ))
                    ||| (action matches LoopActionView::Record(turn) && turn.outcome
                        == TurnOutcomeView::Failed(AgentErrorView::MaxRoundsExceeded))
                },
            }
        }),
{
    let earlier = inputs.drop_last();
    assert(accepted(s, earlier));
    let before = after(s, earlier);
    completed_in_this_round(after(s, earlier.drop_last()), earlier.last());
    phases_follow_actions(after(s, earlier.drop_last()), earlier.last());
    conversation_shape(s, earlier);
    exchange(s, earlier);
    assert(answers(inputs) == answers(earlier));
}

proof fn completed_in_this_round(s: LoopView, input: LoopInputView)
    requires
        expects(s, input),
    ensures
        loop_step(s, input).1 matches LoopActionView::Emit(
            TurnEventView::Tool(ToolEventView::CallCompleted { round, .. }),
        ) ==> round == Some(loop_step(s, input).0.round as usize),
{
}

/// A run begins by assembling its frame, whether or not anybody listens, and
/// stops behind its terminal event.
pub proof fn runs_begin_and_stop(s: LoopView, inputs: Seq<LoopInputView>)
    requires
        s.phase is Starting,
        accepted(s, inputs),
        inputs.len() > 0,
    ensures
        inputs.len() == 1 ==> actions(s, inputs).last() is Assemble,
        inputs.len() > 1 && inputs.last() is Sent && (actions(s, inputs.drop_last()).last()
            matches LoopActionView::Emit(event) && is_terminal(event)) ==> actions(
            s,
            inputs,
        ).last() is Stop && after(s, inputs).phase is Done,
{
    if inputs.len() == 1 {
        assert(inputs.drop_last() =~= Seq::<LoopInputView>::empty());
    } else {
        let earlier = inputs.drop_last();
        assert(accepted(s, earlier));
        narration(s, earlier.drop_last());
        step_narrates(after(s, earlier.drop_last()), earlier.last());
    }
}

/// A configured system prompt is one system message that says just that;
/// without one there is none.
pub proof fn the_system_prompt_is_one_message(prompt: Seq<char>)
    ensures
        system_head(Some(prompt)) == seq![
            MessageView { role: Role::System, blocks: seq![ContentBlockView::Text { text: prompt }] },
        ],
        system_head(None) == Seq::<MessageView>::empty(),
{
}

/// A consumer that left while the model was narrated hears nothing more: the
/// run stops once its turn is recorded. One that left while a result was
/// narrated is still told that the run was cancelled.
pub proof fn gone_consumers(s: LoopView, inputs: Seq<LoopInputView>)
    requires
        s.phase is Starting,
        accepted(s, inputs),
        inputs.len() > 2,
        inputs.last() == LoopInputView::Recorded(None),
        inputs[inputs.len() - 2] == LoopInputView::Sent(false),
    ensures
        actions(s, inputs.drop_last().drop_last()).last() matches LoopActionView::Emit(event) ==> {
            &&& event is Model ==> actions(s, inputs).last() is Stop && after(
                s,
                inputs,
            ).phase is Done
            &&& event is Tool ==> actions(s, inputs).last() == LoopActionView::Emit(
                TurnEventView::Lifecycle(
                    LifecycleEventView::Cancelled { reason: CancelReason::UserRequested },
                ),
            )
        },
{
    let recorded = inputs.drop_last();
    let narrated = recorded.drop_last();
    assert(recorded.last() == inputs[inputs.len() - 2]);
    assert(accepted(s, recorded));
    assert(accepted(s, narrated));
    phases_follow_actions(after(s, narrated.drop_last()), narrated.last());
}

} // verus!
