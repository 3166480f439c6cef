//! The end of a conversation: marked once, torn down, saved, and told, in
//! this order.

use vstd::prelude::*;

use crate::bus::{
    ConversationEndReason, ConversationEventView, MemoryEvent, MemoryEventView, SynonzEvent,
    SynonzEventView,
};
use crate::context::topic_or_empty;
use crate::conversation::{
    state_of, Conversation, ConversationState, ConversationStateView, ConversationStoreError,
    ConversationStoreErrorView, ConversationView,
};
use crate::runtime::{ended_facts, ending, saved_view};
use crate::subject::subject_text;
use crate::teardown::{
    drain_from, fresh_teardown, teardown_expects, teardown_step, teardown_valid, Teardown,
    TeardownAction, TeardownActionView, TeardownInput, TeardownInputView, TeardownStep,
    TeardownStepView, TeardownView,
};

verus! {

/// What is to be done next for a conversation's end.
#[derive(Debug)]
pub enum EndAction {
    /// A step of the teardown.
    Teardown(TeardownAction),
    /// Save the conversation's last state.
    Save(ConversationState),
    /// Nothing: the end is over.
    Done,
}

/// What an [`EndAction`] holds.
pub ghost enum EndActionView {
    Teardown(TeardownActionView),
    Save(ConversationStateView),
    Done,
}

impl DeepView for EndAction {
    type V = EndActionView;

    open spec fn deep_view(&self) -> EndActionView {
        match self {
            EndAction::Teardown(action) => EndActionView::Teardown(action.deep_view()),
            EndAction::Save(state) => EndActionView::Save(state.deep_view()),
            EndAction::Done => EndActionView::Done,
        }
    }
}

/// What came of an [`EndAction`].
#[derive(Debug)]
pub enum EndInput {
    /// What came of a step of the teardown.
    Teardown(TeardownInput),
    /// What came of the save.
    Saved(Result<(), ConversationStoreError>),
}

/// What an [`EndInput`] holds.
pub ghost enum EndInputView {
    Teardown(TeardownInputView),
    Saved(Result<(), ConversationStoreErrorView>),
}

impl DeepView for EndInput {
    type V = EndInputView;

    open spec fn deep_view(&self) -> EndInputView {
        match self {
            EndInput::Teardown(input) => EndInputView::Teardown(input.deep_view()),
            EndInput::Saved(saved) => EndInputView::Saved(saved_view(*saved)),
        }
    }
}

/// What is decided at one step.
#[derive(Debug)]
pub struct EndStep {
    /// The facts to emit first, in order.
    pub facts: Vec<SynonzEvent>,
    /// What is done then.
    pub action: EndAction,
}

/// What an [`EndStep`] holds.
#[verifier::ext_equal]
pub ghost struct EndStepView {
    pub facts: Seq<SynonzEventView>,
    pub action: EndActionView,
}

impl DeepView for EndStep {
    type V = EndStepView;

    open spec fn deep_view(&self) -> EndStepView {
        EndStepView { facts: self.facts.deep_view(), action: self.action.deep_view() }
    }
}

/// Where the end stands.
#[derive(Debug)]
enum EndStage {
    TearingDown(Teardown),
    Saving,
    Finished,
}

/// What the stage of an end holds.
pub ghost enum EndStageView {
    TearingDown(TeardownView),
    Saving,
    Finished,
}

impl DeepView for EndStage {
    type V = EndStageView;

    closed spec fn deep_view(&self) -> EndStageView {
        match self {
            EndStage::TearingDown(teardown) => EndStageView::TearingDown(teardown.deep_view()),
            EndStage::Saving => EndStageView::Saving,
            EndStage::Finished => EndStageView::Finished,
        }
    }
}

/// The end of one conversation.
#[derive(Debug)]
pub struct ConversationEnd {
    reason: ConversationEndReason,
    stage: EndStage,
}

/// What a [`ConversationEnd`] holds.
#[verifier::ext_equal]
pub ghost struct EndView {
    /// Why the conversation ends.
    pub reason: ConversationEndReason,
    /// Where the end stands.
    pub stage: EndStageView,
}

impl DeepView for ConversationEnd {
    type V = EndView;

    closed spec fn deep_view(&self) -> EndView {
        EndView { reason: self.reason, stage: self.stage.deep_view() }
    }
}

/// Memory facts among the others.
pub open spec fn memory_facts(facts: Seq<MemoryEventView>) -> Seq<SynonzEventView> {
    Seq::new(facts.len(), |i: int| SynonzEventView::Memory(facts[i]))
}

/// The teardown goes on; behind it the conversation is saved as it stands
/// then.
pub open spec fn tearing_down(
    reason: ConversationEndReason,
    torn: (TeardownView, TeardownStepView),
    conversation: ConversationView,
    now: u64,
) -> (EndView, EndStepView) {
    let facts = memory_facts(torn.1.facts);
    if torn.1.action is Done {
        (
            EndView { reason, stage: EndStageView::Saving },
            EndStepView { facts, action: EndActionView::Save(state_of(conversation, now)) },
        )
    } else {
        (
            EndView { reason, stage: EndStageView::TearingDown(torn.0) },
            EndStepView { facts, action: EndActionView::Teardown(torn.1.action) },
        )
    }
}

/// The beginning of a conversation's end with so many background tasks; one
/// that has ended before is left alone.
pub open spec fn end_begun(
    conversation: ConversationView,
    reason: ConversationEndReason,
    tasks: usize,
    clock: u128,
    budget: u128,
    now: u64,
) -> (EndView, EndStepView) {
    if conversation.ended {
        (
            EndView { reason, stage: EndStageView::Finished },
            EndStepView { facts: Seq::empty(), action: EndActionView::Done },
        )
    } else {
        tearing_down(
            reason,
            drain_from(
                fresh_teardown(
                    subject_text(conversation.subject),
                    conversation.id,
                    topic_or_empty(conversation.topic),
                    (clock + budget) as u128,
                    tasks,
                ),
                0,
                clock,
            ),
            ConversationView { ended: true, ..conversation },
            now,
        )
    }
}

/// One step of a conversation's end.
pub open spec fn end_step(
    s: EndView,
    conversation: ConversationView,
    input: EndInputView,
    clock: u128,
    now: u64,
) -> (EndView, EndStepView) {
    match (s.stage, input) {
        (EndStageView::TearingDown(teardown), EndInputView::Teardown(answer)) => tearing_down(
            s.reason,
            teardown_step(teardown, answer, clock, now),
            conversation,
            now,
        ),
        (EndStageView::Saving, EndInputView::Saved(saved)) => (
            EndView { stage: EndStageView::Finished, ..s },
            EndStepView {
                facts: ended_facts(conversation, saved, s.reason),
                action: EndActionView::Done,
            },
        ),
        _ => (s, EndStepView { facts: Seq::empty(), action: EndActionView::Done }),
    }
}

/// What the end waits for.
pub open spec fn end_expects(s: EndView, input: EndInputView) -> bool {
    match s.stage {
        EndStageView::TearingDown(teardown) => input matches EndInputView::Teardown(answer)
            && teardown_expects(teardown, answer),
        EndStageView::Saving => input is Saved,
        EndStageView::Finished => false,
    }
}

/// What holds of every end: its teardown is valid.
pub open spec fn end_valid(s: EndView) -> bool {
    s.stage matches EndStageView::TearingDown(teardown) ==> teardown_valid(teardown)
}

/// Puts memory facts among the others.
fn as_memory_facts(facts: Vec<MemoryEvent>) -> (told: Vec<SynonzEvent>)
    ensures
        told.deep_view() == memory_facts(facts.deep_view()),
{
    let ghost all = facts.deep_view();
    let mut rest = facts;
    let mut told: Vec<SynonzEvent> = Vec::new();
    let ghost mut done: int = 0;
    assert(all.skip(0) =~= all);
    while rest.len() > 0
        invariant
            0 <= done <= all.len(),
            all == facts.deep_view(),
            rest.deep_view() == all.skip(done),
            told.deep_view() == memory_facts(all).take(done),
        decreases rest@.len(),
    {
        let ghost left = rest.deep_view();
        let ghost before = told.deep_view();
        let fact = rest.remove(0);
        assert(left[0] == fact.deep_view());
        assert(rest.deep_view() =~= left.drop_first());
        assert(all.skip(done + 1) =~= left.drop_first());
        told.push(SynonzEvent::Memory(fact));
        assert(told.deep_view() =~= before.push(SynonzEventView::Memory(fact.deep_view())));
        assert(memory_facts(all).take(done + 1) =~= told.deep_view());
        proof {
            done = done + 1;
        }
    }
    assert(rest.deep_view().len() == 0);
    assert(memory_facts(all).take(done) =~= memory_facts(all));
    told
}

impl ConversationEnd {
    fn tearing_down(
        reason: ConversationEndReason,
        teardown: Teardown,
        step: TeardownStep,
        conversation: &Conversation,
        now: u64,
    ) -> (torn: (Self, EndStep))
        requires
            teardown_valid(teardown.deep_view()),
        ensures
            end_valid(torn.0.deep_view()),
            (torn.0.deep_view(), torn.1.deep_view()) == tearing_down(
                reason,
                (teardown.deep_view(), step.deep_view()),
                conversation.deep_view(),
                now,
            ),
    {
        let facts = as_memory_facts(step.facts);
        match step.action {
            TeardownAction::Done => (
                ConversationEnd { reason, stage: EndStage::Saving },
                EndStep { facts, action: EndAction::Save(conversation.state(now)) },
            ),
            action => (
                ConversationEnd { reason, stage: EndStage::TearingDown(teardown) },
                EndStep { facts, action: EndAction::Teardown(action) },
            ),
        }
    }

    /// Begins the end of a conversation with so many background tasks: it is
    /// marked as ended, and its teardown begins, with a drain budget from
    /// the clock's reading (nanoseconds). A conversation that has ended
    /// before is left alone.
    pub fn begin(
        conversation: &mut Conversation,
        reason: ConversationEndReason,
        tasks: usize,
        clock: u128,
        budget: u128,
        now: u64,
    ) -> (begun: (Self, EndStep))
        requires
            clock + budget <= u128::MAX,
        ensures
            end_valid(begun.0.deep_view()),
            (begun.0.deep_view(), begun.1.deep_view()) == end_begun(
                old(conversation).deep_view(),
                reason,
                tasks,
                clock,
                budget,
                now,
            ),
            final(conversation).deep_view() == (ConversationView {
                ended: true,
                ..old(conversation).deep_view()
            }),
    {
        if !conversation.mark_ended() {
            let facts: Vec<SynonzEvent> = Vec::new();
            assert(facts.deep_view() =~= Seq::<SynonzEventView>::empty());
            return (
                ConversationEnd { reason, stage: EndStage::Finished },
                EndStep { facts, action: EndAction::Done },
            );
        }
        let (teardown, step) = Teardown::begin(conversation, tasks, clock, budget);
        Self::tearing_down(reason, teardown, step, conversation, now)
    }

    /// Takes what came of the last action, when the clock reads `clock`
    /// (nanoseconds) at the time `now` (epoch seconds), and names the next
    /// one.
    pub fn step(
        &mut self,
        conversation: &Conversation,
        input: EndInput,
        clock: u128,
        now: u64,
    ) -> (step: EndStep)
        requires
            end_valid(old(self).deep_view()),
            end_expects(old(self).deep_view(), input.deep_view()),
        ensures
            end_valid(final(self).deep_view()),
            (final(self).deep_view(), step.deep_view()) == end_step(
                old(self).deep_view(),
                conversation.deep_view(),
                input.deep_view(),
                clock,
                now,
            ),
    {
        let mut stage = EndStage::Finished;
        core::mem::swap(&mut stage, &mut self.stage);
        match (stage, input) {
            (EndStage::TearingDown(torn), EndInput::Teardown(answer)) => {
                let mut teardown = torn;
                let answered = teardown.step(answer, clock, now);
                let (end, step) = Self::tearing_down(
                    self.reason,
                    teardown,
                    answered,
                    conversation,
                    now,
                );
                self.stage = end.stage;
                step
            },
            (EndStage::Saving, EndInput::Saved(saved)) => EndStep {
                facts: ending(conversation, saved, self.reason),
                action: EndAction::Done,
            },
            _ => {
                let facts: Vec<SynonzEvent> = Vec::new();
                assert(facts.deep_view() =~= Seq::<SynonzEventView>::empty());
                EndStep { facts, action: EndAction::Done }
            },
        }
    }
}

/// One answer to a conversation's end: what came back, how the conversation
/// stood, the clock's reading, and the time.
pub ghost struct EndAnswer {
    pub input: EndInputView,
    pub conversation: ConversationView,
    pub clock: u128,
    pub now: u64,
}

/// Where an end stands after the given answers, and what it asked for last.
pub open spec fn end_after(begun: (EndView, EndStepView), answers: Seq<EndAnswer>) -> (
    EndView,
    EndStepView,
)
    decreases answers.len(),
{
    if answers.len() == 0 {
        begun
    } else {
        let last = answers.last();
        end_step(
            end_after(begun, answers.drop_last()).0,
            last.conversation,
            last.input,
            last.clock,
            last.now,
        )
    }
}

/// Whether each answer is one the end waited for.
pub open spec fn end_answered(begun: (EndView, EndStepView), answers: Seq<EndAnswer>) -> bool
    decreases answers.len(),
{
    answers.len() == 0 || (end_answered(begun, answers.drop_last()) && end_expects(
        end_after(begun, answers.drop_last()).0,
        answers.last().input,
    ))
}

/// The facts of an end so far, in order.
pub open spec fn end_facts(begun: (EndView, EndStepView), answers: Seq<EndAnswer>) -> Seq<
    SynonzEventView,
>
    decreases answers.len(),
{
    if answers.len() == 0 {
        begun.1.facts
    } else {
        end_facts(begun, answers.drop_last()) + end_after(begun, answers).1.facts
    }
}

/// How often an end asked for the save.
pub open spec fn saves(begun: (EndView, EndStepView), answers: Seq<EndAnswer>) -> nat
    decreases answers.len(),
{
    let here = if end_after(begun, answers).1.action is Save {
        1nat
    } else {
        0nat
    };
    if answers.len() == 0 {
        here
    } else {
        saves(begun, answers.drop_last()) + here
    }
}

/// How often an end asked for the finalize hook.
pub open spec fn finalizes(begun: (EndView, EndStepView), answers: Seq<EndAnswer>) -> nat
    decreases answers.len(),
{
    let here = if end_after(begun, answers).1.action == EndActionView::Teardown(
        TeardownActionView::Finalize,
    ) {
        1nat
    } else {
        0nat
    };
    if answers.len() == 0 {
        here
    } else {
        finalizes(begun, answers.drop_last()) + here
    }
}

/// Whether a fact tells of a conversation's end.
pub open spec fn tells_end(fact: SynonzEventView) -> bool {
    fact matches SynonzEventView::Conversation(event) && event is Ended
}

proof fn ends(begun: (EndView, EndStepView), answers: Seq<EndAnswer>)
    requires
        begun.0.stage matches EndStageView::TearingDown(teardown) && (teardown.phase is Draining
            || teardown.phase is Counting),
        begun.1.action matches EndActionView::Teardown(action) && action !is Finalize,
        forall|i: int| 0 <= i < begun.1.facts.len() ==> !tells_end(#[trigger] begun.1.facts[i]),
        end_answered(begun, answers),
    ensures
        ({
            let (at, step) = end_after(begun, answers);
            let told = end_facts(begun, answers);
            &&& at.reason == begun.0.reason
            &&& match at.stage {
                EndStageView::TearingDown(teardown) => saves(begun, answers) == 0 && step.action
                    is Teardown && finalizes(begun, answers) == (if teardown.phase is Finalizing {
                    1nat
                } else {
                    0nat
                }) && teardown.phase !is Finished && forall|i: int|
                    0 <= i < told.len() ==> !tells_end(#[trigger] told[i]),
                EndStageView::Saving => saves(begun, answers) == 1 && finalizes(begun, answers)
                    == 1 && step.action is Save && forall|i: int|
                    0 <= i < told.len() ==> !tells_end(#[trigger] told[i]),
                EndStageView::Finished => saves(begun, answers) == 1 && finalizes(begun, answers)
                    == 1 && step.action is Done && told.len() > 0 && told.last() == SynonzEventView::Conversation(
                    ConversationEventView::Ended {
                        conversation_id: answers.last().conversation.id,
                        subject_id: subject_text(answers.last().conversation.subject),
                        reason: begun.0.reason,
                    },
                ) && forall|i: int| 0 <= i < told.len() - 1 ==> !tells_end(#[trigger] told[i]),
            }
        }),
    decreases answers.len(),
{
    if answers.len() > 0 {
        let earlier = answers.drop_last();
        ends(begun, earlier);
        let before = end_facts(begun, earlier);
        let told = end_facts(begun, answers);
        let step = end_after(begun, answers).1;
        assert(told == before + step.facts);
        assert forall|i: int| 0 <= i < told.len() implies #[trigger] told[i] == (if i
            < before.len() {
            before[i]
        } else {
            step.facts[i - before.len()]
        }) by {}
    }
}

/// Ending has its order, and happens once: the teardown runs to its end, the
/// finalize hook in it exactly once; only behind it the conversation is
/// saved, exactly once; and only behind that the end is told, exactly once
/// and as the last fact, with the reason it was begun with. Beginning again
/// on the ended conversation does nothing.
pub proof fn ending_runs_in_order_once(
    conversation: ConversationView,
    reason: ConversationEndReason,
    tasks: usize,
    clock: u128,
    budget: u128,
    now: u64,
    answers: Seq<EndAnswer>,
    again: ConversationEndReason,
)
    requires
        !conversation.ended,
        end_answered(end_begun(conversation, reason, tasks, clock, budget, now), answers),
    ensures
        ({
            let begun = end_begun(conversation, reason, tasks, clock, budget, now);
            let (at, step) = end_after(begun, answers);
            let told = end_facts(begun, answers);
            &&& step.action is Teardown ==> saves(begun, answers) == 0
            &&& step.action is Save ==> saves(begun, answers) == 1 && finalizes(begun, answers)
                == 1 && forall|i: int| 0 <= i < told.len() ==> !tells_end(#[trigger] told[i])
            &&& at.stage is Finished ==> {
                &&& saves(begun, answers) == 1
                &&& finalizes(begun, answers) == 1
                &&& told.len() > 0
                &&& told.last() == SynonzEventView::Conversation(
                    ConversationEventView::Ended {
                        conversation_id: answers.last().conversation.id,
                        subject_id: subject_text(answers.last().conversation.subject),
                        reason,
                    },
                )
                &&& forall|i: int| 0 <= i < told.len() - 1 ==> !tells_end(#[trigger] told[i])
            }
        }),
        ({
            let ended = ConversationView { ended: true, ..conversation };
            let (at, step) = end_begun(ended, again, tasks, clock, budget, now);
            &&& at.stage is Finished
            &&& step.action is Done
            &&& step.facts.len() == 0
        }),
{
    ends(end_begun(conversation, reason, tasks, clock, budget, now), answers);
}

/// What is saved behind the teardown is the conversation as it stands then,
/// all of it, stamped with the time; it restores to that conversation.
pub proof fn the_end_saves_the_conversation(
    s: EndView,
    conversation: ConversationView,
    input: EndInputView,
    clock: u128,
    now: u64,
)
    ensures
        end_step(s, conversation, input, clock, now).1.action matches EndActionView::Save(state)
            ==> {
            &&& state.id == conversation.id
            &&& state.subject_id == subject_text(conversation.subject)
            &&& state.turns == conversation.turns
            &&& state.topic == conversation.topic
            &&& state.ended == conversation.ended
            &&& state.last_active == now
        },
{
}

/// Everything the teardown tells is told, in order, and what it asks for is
/// asked for, until it is over.
pub proof fn the_end_passes_the_teardown_on(
    s: EndView,
    teardown: TeardownView,
    conversation: ConversationView,
    answer: TeardownInputView,
    clock: u128,
    now: u64,
    i: int,
)
    requires
        s.stage == EndStageView::TearingDown(teardown),
    ensures
        ({
            let (next, torn) = teardown_step(teardown, answer, clock, now);
            let (after, step) = end_step(
                s,
                conversation,
                EndInputView::Teardown(answer),
                clock,
                now,
            );
            &&& after.reason == s.reason
            &&& step.facts.len() == torn.facts.len()
            &&& 0 <= i < torn.facts.len() ==> step.facts[i] == SynonzEventView::Memory(
                torn.facts[i],
            )
            &&& torn.action !is Done ==> after.stage == EndStageView::TearingDown(next)
                && step.action == EndActionView::Teardown(torn.action)
            &&& torn.action is Done ==> after.stage is Saving && step.action is Save
        }),
{
}

/// An end begins by awaiting the first background task for the whole drain
/// budget, and without tasks by counting the blocks; it is for this
/// conversation, under its topic, and for the reason given.
pub proof fn ends_begin_with_the_drain(
    conversation: ConversationView,
    reason: ConversationEndReason,
    tasks: usize,
    clock: u128,
    budget: u128,
    now: u64,
)
    requires
        !conversation.ended,
        clock + budget <= u128::MAX,
    ensures
        ({
            let (begun, step) = end_begun(conversation, reason, tasks, clock, budget, now);
            &&& begun.reason == reason
            &&& step.facts.len() == 0
            &&& tasks > 0 ==> step.action == EndActionView::Teardown(
                TeardownActionView::AwaitTask { task: 0, remaining: budget },
            )
            &&& tasks == 0 ==> step.action == EndActionView::Teardown(TeardownActionView::L2Len)
            &&& begun.stage matches EndStageView::TearingDown(teardown)
            &&& teardown.subject == subject_text(conversation.subject)
            &&& teardown.conversation_id == conversation.id
            &&& teardown.topic == (match conversation.topic {
                Some(topic) => topic,
                None => Seq::empty(),
            })
            &&& teardown.total == tasks
            &&& teardown.promoted == 0 && teardown.timed_out == 0
        }),
{
}

} // verus!
