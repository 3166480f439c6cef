//! The conversation-end teardown: a bounded drain of background maintenance,
//! then the promotion of what the conversation left, then the memory's own
//! finalization.

use vstd::prelude::*;

use crate::bus::{MemoryEvent, MemoryEventView, MemoryFlowFailedMoment};
use crate::context::{
    failed_fact, failure_fact, hook_done, topic_or_empty, MemoryFailure, MemoryFailureView,
};
use crate::conversation::Conversation;
use crate::event::MemoryFlowStage;
use crate::layers::{
    distill, distilled, KnowledgeFragment, KnowledgeFragmentView, SummaryBlock, SummaryBlockView,
};
use crate::memory::{memory_error_text, MemoryStoreError, MemoryStoreErrorView};
use crate::shelves::at_most;
use crate::subject::subject_text;
use crate::text::{concat, decimal, decimal_text};
use crate::trigger::{all_distilled, LayersView};

verus! {

/// The per-conversation drain budget, in nanoseconds: how long
/// conversation-end teardown waits for background maintenance tasks before
/// proceeding without them.
pub const MAINTENANCE_DRAIN_TIMEOUT: u128 = 60_000_000_000;

/// What teardown is to do next.
#[derive(Debug)]
pub enum TeardownAction {
    /// Wait for a background maintenance task, at most so long.
    AwaitTask {
        /// The task, by its place in registration order.
        task: usize,
        /// How long, in nanoseconds.
        remaining: u128,
    },
    /// Count the blocks in L2.
    L2Len,
    /// Take the oldest blocks out of L2.
    L2PopOldest(usize),
    /// Keep a piece of knowledge in L3.
    L3Upsert(KnowledgeFragment),
    /// Call the memory pipeline's finalize hook.
    Finalize,
    /// Nothing: teardown is over.
    Done,
}

/// What a [`TeardownAction`] holds.
pub ghost enum TeardownActionView {
    AwaitTask { task: usize, remaining: u128 },
    L2Len,
    L2PopOldest(usize),
    L3Upsert(KnowledgeFragmentView),
    Finalize,
    Done,
}

impl DeepView for TeardownAction {
    type V = TeardownActionView;

    open spec fn deep_view(&self) -> TeardownActionView {
        match self {
            TeardownAction::AwaitTask { task, remaining } => TeardownActionView::AwaitTask {
                task: *task,
                remaining: *remaining,
            },
            TeardownAction::L2Len => TeardownActionView::L2Len,
            TeardownAction::L2PopOldest(count) => TeardownActionView::L2PopOldest(*count),
            TeardownAction::L3Upsert(fragment) => TeardownActionView::L3Upsert(
                fragment.deep_view(),
            ),
            TeardownAction::Finalize => TeardownActionView::Finalize,
            TeardownAction::Done => TeardownActionView::Done,
        }
    }
}

/// What came of a [`TeardownAction`].
#[derive(Debug)]
pub enum TeardownInput {
    /// The task ended.
    TaskEnded,
    /// The task failed; what the failure reads as.
    TaskFailed(String),
    /// The task is still running.
    TaskTimedOut,
    /// A length.
    Counted(Result<usize, MemoryStoreError>),
    /// The blocks taken out.
    Blocks(Result<Vec<SummaryBlock>, MemoryStoreError>),
    /// An upsert.
    Written(Result<(), MemoryStoreError>),
    /// The finalize hook.
    Finalized(Result<(), MemoryFailure>),
}

/// What a [`TeardownInput`] holds.
pub ghost enum TeardownInputView {
    TaskEnded,
    TaskFailed(Seq<char>),
    TaskTimedOut,
    Counted(Result<usize, MemoryStoreErrorView>),
    Blocks(Result<Seq<SummaryBlockView>, MemoryStoreErrorView>),
    Written(Result<(), MemoryStoreErrorView>),
    Finalized(Result<(), MemoryFailureView>),
}

impl DeepView for TeardownInput {
    type V = TeardownInputView;

    open spec fn deep_view(&self) -> TeardownInputView {
        match self {
            TeardownInput::TaskEnded => TeardownInputView::TaskEnded,
            TeardownInput::TaskFailed(error) => TeardownInputView::TaskFailed(error@),
            TeardownInput::TaskTimedOut => TeardownInputView::TaskTimedOut,
            TeardownInput::Counted(Ok(count)) => TeardownInputView::Counted(Ok(*count)),
            TeardownInput::Counted(Err(error)) => TeardownInputView::Counted(
                Err(error.deep_view()),
            ),
            TeardownInput::Blocks(Ok(blocks)) => TeardownInputView::Blocks(Ok(blocks.deep_view())),
            TeardownInput::Blocks(Err(error)) => TeardownInputView::Blocks(Err(error.deep_view())),
            TeardownInput::Written(Ok(())) => TeardownInputView::Written(Ok(())),
            TeardownInput::Written(Err(error)) => TeardownInputView::Written(
                Err(error.deep_view()),
            ),
            TeardownInput::Finalized(done) => TeardownInputView::Finalized(hook_done(*done)),
        }
    }
}

/// What teardown decides at one step.
#[derive(Debug)]
pub struct TeardownStep {
    /// The facts to emit first, in order.
    pub facts: Vec<MemoryEvent>,
    /// What is done then.
    pub action: TeardownAction,
}

/// What a [`TeardownStep`] holds.
#[verifier::ext_equal]
pub ghost struct TeardownStepView {
    pub facts: Seq<MemoryEventView>,
    pub action: TeardownActionView,
}

impl DeepView for TeardownStep {
    type V = TeardownStepView;

    open spec fn deep_view(&self) -> TeardownStepView {
        TeardownStepView { facts: self.facts.deep_view(), action: self.action.deep_view() }
    }
}

/// Where teardown stands.
#[derive(Debug)]
enum TeardownPhase {
    Draining(usize),
    Counting,
    Popping,
    Promoting(Vec<SummaryBlock>),
    Finalizing,
    Finished,
}

/// What teardown's phase holds.
pub ghost enum TeardownPhaseView {
    Draining(usize),
    Counting,
    Popping,
    Promoting(Seq<SummaryBlockView>),
    Finalizing,
    Finished,
}

impl DeepView for TeardownPhase {
    type V = TeardownPhaseView;

    closed spec fn deep_view(&self) -> TeardownPhaseView {
        match self {
            TeardownPhase::Draining(task) => TeardownPhaseView::Draining(*task),
            TeardownPhase::Counting => TeardownPhaseView::Counting,
            TeardownPhase::Popping => TeardownPhaseView::Popping,
            TeardownPhase::Promoting(blocks) => TeardownPhaseView::Promoting(blocks.deep_view()),
            TeardownPhase::Finalizing => TeardownPhaseView::Finalizing,
            TeardownPhase::Finished => TeardownPhaseView::Finished,
        }
    }
}

/// The conversation-end teardown: drains the conversation's background
/// maintenance tasks, then mechanically promotes all L2 blocks into L3 (no
/// model call, no strategy), then has the memory pipeline finalize the
/// conversation.
///
/// The drain is bounded per conversation: stuck tasks delay teardown by at
/// most the budget. Stuck tasks and failed tasks surface as facts, and so do
/// failures of the promotion and of the finalize hook.
#[derive(Debug)]
pub struct Teardown {
    subject: String,
    conversation_id: String,
    topic: String,
    deadline: u128,
    total: usize,
    timed_out: usize,
    promoted: usize,
    phase: TeardownPhase,
}

/// What a [`Teardown`] holds.
#[verifier::ext_equal]
pub ghost struct TeardownView {
    /// The owning subject, in text form.
    pub subject: Seq<char>,
    /// The conversation.
    pub conversation_id: Seq<char>,
    /// Its topic, empty when it has none.
    pub topic: Seq<char>,
    /// When the drain gives up (a reading of the clock).
    pub deadline: u128,
    /// How many tasks there were.
    pub total: usize,
    /// How many of them were still running.
    pub timed_out: usize,
    /// How many blocks were promoted.
    pub promoted: usize,
    /// Where teardown stands.
    pub phase: TeardownPhaseView,
}

impl DeepView for Teardown {
    type V = TeardownView;

    closed spec fn deep_view(&self) -> TeardownView {
        TeardownView {
            subject: self.subject@,
            conversation_id: self.conversation_id@,
            topic: self.topic@,
            deadline: self.deadline,
            total: self.total,
            timed_out: self.timed_out,
            promoted: self.promoted,
            phase: self.phase.deep_view(),
        }
    }
}

/// A failure of teardown, as a fact.
pub open spec fn teardown_failure(stage: MemoryFlowStage, detail: Seq<char>) -> MemoryEventView {
    MemoryEventView::FlowFailed {
        stage,
        detail,
        moment: MemoryFlowFailedMoment::AtConversationEnd,
    }
}

/// How tasks that are still running are reported.
pub open spec fn drain_timed_out(timed_out: usize, total: usize) -> Seq<char> {
    "drain timed out: "@ + decimal(timed_out as nat) + " of "@ + decimal(total as nat)
        + " maintenance task(s) still running"@
}

/// The drain is over: tasks still running are reported, and the blocks are
/// counted.
pub open spec fn drained(s: TeardownView) -> (TeardownView, TeardownStepView) {
    (
        TeardownView { phase: TeardownPhaseView::Counting, ..s },
        TeardownStepView {
            facts: if s.timed_out > 0 {
                seq![
                    teardown_failure(
                        MemoryFlowStage::Drain,
                        drain_timed_out(s.timed_out, s.total),
                    ),
                ]
            } else {
                Seq::empty()
            },
            action: TeardownActionView::L2Len,
        },
    )
}

/// What is left of the drain budget.
pub open spec fn budget_left(s: TeardownView, clock: u128) -> u128 {
    if clock < s.deadline {
        (s.deadline - clock) as u128
    } else {
        0
    }
}

/// The next task is awaited for what is left of the budget. With nothing
/// left it is only looked at: it may have ended or failed meanwhile.
pub open spec fn drain_from(s: TeardownView, task: int, clock: u128) -> (
    TeardownView,
    TeardownStepView,
) {
    if task >= s.total {
        drained(s)
    } else {
        (
            TeardownView { phase: TeardownPhaseView::Draining(task as usize), ..s },
            TeardownStepView {
                facts: Seq::empty(),
                action: TeardownActionView::AwaitTask {
                    task: task as usize,
                    remaining: budget_left(s, clock),
                },
            },
        )
    }
}

/// The promotion is over: what was promoted is told, and the memory
/// finalizes the conversation.
pub open spec fn promoted_all(s: TeardownView) -> (TeardownView, TeardownStepView) {
    (
        TeardownView { phase: TeardownPhaseView::Finalizing, ..s },
        TeardownStepView {
            facts: if s.promoted > 0 {
                seq![
                    MemoryEventView::Promoted {
                        conversation_id: s.conversation_id,
                        count: s.promoted,
                    },
                ]
            } else {
                Seq::empty()
            },
            action: TeardownActionView::Finalize,
        },
    )
}

/// Teardown is over: a failure of the finalize hook is told.
pub open spec fn finalized(s: TeardownView, done: Result<(), MemoryFailureView>) -> (
    TeardownView,
    TeardownStepView,
) {
    (
        TeardownView { phase: TeardownPhaseView::Finished, ..s },
        TeardownStepView {
            facts: match done {
                Ok(()) => Seq::empty(),
                Err(failure) => seq![
                    failed_fact(failure, MemoryFlowFailedMoment::AtConversationEnd),
                ],
            },
            action: TeardownActionView::Done,
        },
    )
}

/// The next block is promoted; after the last one the promotion is over.
pub open spec fn promote_next(s: TeardownView, blocks: Seq<SummaryBlockView>, now: u64) -> (
    TeardownView,
    TeardownStepView,
) {
    if blocks.len() == 0 {
        promoted_all(s)
    } else {
        (
            TeardownView { phase: TeardownPhaseView::Promoting(blocks.drop_first()), ..s },
            TeardownStepView {
                facts: Seq::empty(),
                action: TeardownActionView::L3Upsert(
                    distilled(s.subject, s.topic, blocks[0], now),
                ),
            },
        )
    }
}

/// A step told first of another fact.
pub open spec fn told_first(
    fact: MemoryEventView,
    step: (TeardownView, TeardownStepView),
) -> (TeardownView, TeardownStepView) {
    (step.0, TeardownStepView { facts: seq![fact] + step.1.facts, ..step.1 })
}

/// The promotion cannot go on: the failure is told, and the memory finalizes
/// the conversation.
pub open spec fn promotion_failed(s: TeardownView, detail: Seq<char>) -> (
    TeardownView,
    TeardownStepView,
) {
    (
        TeardownView { phase: TeardownPhaseView::Finalizing, ..s },
        TeardownStepView {
            facts: seq![teardown_failure(MemoryFlowStage::Distill, detail)],
            action: TeardownActionView::Finalize,
        },
    )
}

/// One step of teardown when the clock reads `clock` (nanoseconds) at the
/// time `now` (epoch seconds).
pub open spec fn teardown_step(
    s: TeardownView,
    input: TeardownInputView,
    clock: u128,
    now: u64,
) -> (TeardownView, TeardownStepView) {
    match (s.phase, input) {
        (TeardownPhaseView::Draining(task), TeardownInputView::TaskEnded) => drain_from(
            s,
            task + 1,
            clock,
        ),
        (TeardownPhaseView::Draining(task), TeardownInputView::TaskFailed(error)) => told_first(
            teardown_failure(MemoryFlowStage::Drain, "maintenance task failed: "@ + error),
            drain_from(s, task + 1, clock),
        ),
        (TeardownPhaseView::Draining(task), TeardownInputView::TaskTimedOut) => drain_from(
            TeardownView { timed_out: (s.timed_out + 1) as usize, ..s },
            task + 1,
            clock,
        ),
        (TeardownPhaseView::Counting, TeardownInputView::Counted(Ok(count))) => if count == 0 {
            promoted_all(s)
        } else {
            (
                TeardownView { phase: TeardownPhaseView::Popping, ..s },
                TeardownStepView {
                    facts: Seq::empty(),
                    action: TeardownActionView::L2PopOldest(count),
                },
            )
        },
        (TeardownPhaseView::Counting, TeardownInputView::Counted(Err(error))) => promotion_failed(
            s,
            "promotion read: "@ + memory_error_text(error),
        ),
        (TeardownPhaseView::Popping, TeardownInputView::Blocks(Ok(blocks))) => promote_next(
            s,
            blocks,
            now,
        ),
        (TeardownPhaseView::Popping, TeardownInputView::Blocks(Err(error))) => promotion_failed(
            s,
            "promotion pop: "@ + memory_error_text(error),
        ),
        (TeardownPhaseView::Promoting(blocks), TeardownInputView::Written(Ok(()))) => promote_next(
            TeardownView { promoted: (s.promoted + 1) as usize, ..s },
            blocks,
            now,
        ),
        (TeardownPhaseView::Promoting(blocks), TeardownInputView::Written(Err(error))) =>
            told_first(
            teardown_failure(
                MemoryFlowStage::Distill,
                "promotion upsert: "@ + memory_error_text(error),
            ),
            promote_next(s, blocks, now),
        ),
        (TeardownPhaseView::Finalizing, TeardownInputView::Finalized(done)) => finalized(s, done),
        _ => (s, TeardownStepView { facts: Seq::empty(), action: TeardownActionView::Done }),
    }
}

/// What teardown waits for.
pub open spec fn teardown_expects(s: TeardownView, input: TeardownInputView) -> bool {
    match s.phase {
        TeardownPhaseView::Draining(_) => input is TaskEnded || input is TaskFailed
            || input is TaskTimedOut,
        TeardownPhaseView::Counting => input is Counted,
        TeardownPhaseView::Popping => input is Blocks,
        TeardownPhaseView::Promoting(_) => input is Written,
        TeardownPhaseView::Finalizing => input is Finalized,
        TeardownPhaseView::Finished => false,
    }
}

/// What holds of every teardown: its counts fit.
pub open spec fn teardown_valid(s: TeardownView) -> bool {
    match s.phase {
        TeardownPhaseView::Draining(task) => task < s.total && s.timed_out <= task && s.promoted
            == 0,
        TeardownPhaseView::Promoting(blocks) => s.timed_out <= s.total && s.promoted + blocks.len()
            < usize::MAX,
        TeardownPhaseView::Finalizing => s.timed_out <= s.total,
        TeardownPhaseView::Finished => s.timed_out <= s.total,
        _ => s.timed_out <= s.total && s.promoted == 0,
    }
}

impl Teardown {
    /// Begins the teardown of an ending conversation with so many background
    /// tasks: the budget runs from the clock's reading (nanoseconds).
    pub fn begin(
        conversation: &Conversation,
        tasks: usize,
        clock: u128,
        budget: u128,
    ) -> (begun: (Self, TeardownStep))
        requires
            clock + budget <= u128::MAX,
        ensures
            teardown_valid(begun.0.deep_view()),
            (begun.0.deep_view(), begun.1.deep_view()) == drain_from(
                fresh_teardown(
                    subject_text(conversation.deep_view().subject),
                    conversation.deep_view().id,
                    topic_or_empty(conversation.deep_view().topic),
                    (clock + budget) as u128,
                    tasks,
                ),
                0,
                clock,
            ),
    {
        let topic = match conversation.topic() {
            Some(topic) => topic.to_owned(),
            None => String::new(),
        };
        assert(topic@ =~= topic_or_empty(conversation.deep_view().topic));
        let mut teardown = Teardown {
            subject: conversation.subject().to_string(),
            conversation_id: conversation.id().to_owned(),
            topic,
            deadline: clock + budget,
            total: tasks,
            timed_out: 0,
            promoted: 0,
            phase: TeardownPhase::Counting,
        };
        let step = teardown.drain_from(0, clock);
        (teardown, step)
    }

    fn drained(&mut self) -> (step: TeardownStep)
        requires
            old(self).deep_view().timed_out <= old(self).deep_view().total,
            old(self).deep_view().promoted == 0,
        ensures
            teardown_valid(final(self).deep_view()),
            (final(self).deep_view(), step.deep_view()) == drained(old(self).deep_view()),
    {
        let mut facts: Vec<MemoryEvent> = Vec::new();
        assert(facts.deep_view() =~= Seq::<MemoryEventView>::empty());
        if self.timed_out > 0 {
            let stuck = decimal_text(self.timed_out);
            let total = decimal_text(self.total);
            let head = concat("drain timed out: ", stuck.as_str());
            let head = concat(head.as_str(), " of ");
            let head = concat(head.as_str(), total.as_str());
            let detail = concat(head.as_str(), " maintenance task(s) still running");
            facts.push(
                MemoryEvent::FlowFailed {
                    stage: MemoryFlowStage::Drain,
                    detail,
                    moment: MemoryFlowFailedMoment::AtConversationEnd,
                },
            );
            assert(facts.deep_view() =~= seq![
                teardown_failure(
                    MemoryFlowStage::Drain,
                    drain_timed_out(self.timed_out, self.total),
                ),
            ]);
        }
        self.phase = TeardownPhase::Counting;
        TeardownStep { facts, action: TeardownAction::L2Len }
    }

    fn drain_from(&mut self, task: usize, clock: u128) -> (step: TeardownStep)
        requires
            task <= old(self).deep_view().total,
            old(self).deep_view().timed_out <= task,
            old(self).deep_view().promoted == 0,
        ensures
            teardown_valid(final(self).deep_view()),
            (final(self).deep_view(), step.deep_view()) == drain_from(
                old(self).deep_view(),
                task as int,
                clock,
            ),
    {
        if task >= self.total {
            self.drained()
        } else {
            let remaining: u128 = if clock < self.deadline {
                self.deadline - clock
            } else {
                0
            };
            self.phase = TeardownPhase::Draining(task);
            let facts: Vec<MemoryEvent> = Vec::new();
            assert(facts.deep_view() =~= Seq::<MemoryEventView>::empty());
            TeardownStep { facts, action: TeardownAction::AwaitTask { task, remaining } }
        }
    }

    fn promoted_all(&mut self) -> (step: TeardownStep)
        requires
            old(self).deep_view().timed_out <= old(self).deep_view().total,
        ensures
            teardown_valid(final(self).deep_view()),
            (final(self).deep_view(), step.deep_view()) == promoted_all(old(self).deep_view()),
    {
        let mut facts: Vec<MemoryEvent> = Vec::new();
        assert(facts.deep_view() =~= Seq::<MemoryEventView>::empty());
        if self.promoted > 0 {
            facts.push(
                MemoryEvent::Promoted {
                    conversation_id: self.conversation_id.clone(),
                    count: self.promoted,
                },
            );
            assert(facts.deep_view() =~= seq![
                MemoryEventView::Promoted {
                    conversation_id: self.conversation_id@,
                    count: self.promoted,
                },
            ]);
        }
        self.phase = TeardownPhase::Finalizing;
        TeardownStep { facts, action: TeardownAction::Finalize }
    }

    fn promote_next(&mut self, blocks: Vec<SummaryBlock>, now: u64) -> (step: TeardownStep)
        requires
            old(self).deep_view().timed_out <= old(self).deep_view().total,
            old(self).deep_view().promoted + blocks@.len() <= usize::MAX,
        ensures
            teardown_valid(final(self).deep_view()),
            (final(self).deep_view(), step.deep_view()) == promote_next(
                old(self).deep_view(),
                blocks.deep_view(),
                now,
            ),
    {
        if blocks.len() == 0 {
            self.promoted_all()
        } else {
            let mut rest = blocks;
            let block = rest.remove(0);
            assert(rest.deep_view() =~= blocks.deep_view().drop_first());
            self.phase = TeardownPhase::Promoting(rest);
            let fragment = distill(self.subject.clone(), self.topic.clone(), block, now);
            let facts: Vec<MemoryEvent> = Vec::new();
            assert(facts.deep_view() =~= Seq::<MemoryEventView>::empty());
            TeardownStep { facts, action: TeardownAction::L3Upsert(fragment) }
        }
    }

    fn promotion_failed(&mut self, mark: &str, error: MemoryStoreError) -> (step: TeardownStep)
        requires
            old(self).deep_view().timed_out <= old(self).deep_view().total,
        ensures
            teardown_valid(final(self).deep_view()),
            (final(self).deep_view(), step.deep_view()) == promotion_failed(
                old(self).deep_view(),
                mark@ + memory_error_text(error.deep_view()),
            ),
    {
        let text = error.to_string();
        let mut facts: Vec<MemoryEvent> = Vec::new();
        facts.push(
            MemoryEvent::FlowFailed {
                stage: MemoryFlowStage::Distill,
                detail: concat(mark, text.as_str()),
                moment: MemoryFlowFailedMoment::AtConversationEnd,
            },
        );
        assert(facts.deep_view() =~= seq![
            teardown_failure(
                MemoryFlowStage::Distill,
                mark@ + memory_error_text(error.deep_view()),
            ),
        ]);
        self.phase = TeardownPhase::Finalizing;
        TeardownStep { facts, action: TeardownAction::Finalize }
    }

    fn finalized(&mut self, done: Result<(), MemoryFailure>) -> (step: TeardownStep)
        requires
            old(self).deep_view().timed_out <= old(self).deep_view().total,
        ensures
            teardown_valid(final(self).deep_view()),
            (final(self).deep_view(), step.deep_view()) == finalized(
                old(self).deep_view(),
                hook_done(done),
            ),
    {
        let mut facts: Vec<MemoryEvent> = Vec::new();
        assert(facts.deep_view() =~= Seq::<MemoryEventView>::empty());
        if let Err(failure) = done {
            let fact = failure_fact(failure, MemoryFlowFailedMoment::AtConversationEnd);
            facts.push(fact);
            assert(facts.deep_view() =~= seq![fact.deep_view()]);
        }
        self.phase = TeardownPhase::Finished;
        TeardownStep { facts, action: TeardownAction::Done }
    }

    fn told_first(stage: MemoryFlowStage, detail: String, step: TeardownStep) -> (told:
        TeardownStep)
        ensures
            told.deep_view() == (TeardownStepView {
                facts: seq![teardown_failure(stage, detail@)] + step.deep_view().facts,
                ..step.deep_view()
            }),
    {
        let mut told = step;
        told.facts.insert(
            0,
            MemoryEvent::FlowFailed {
                stage,
                detail,
                moment: MemoryFlowFailedMoment::AtConversationEnd,
            },
        );
        assert(told.facts.deep_view() =~= seq![teardown_failure(stage, detail@)]
            + step.facts.deep_view());
        told
    }

    /// Takes what came of the last action, when the clock reads `clock`
    /// (nanoseconds) at the time `now` (epoch seconds), and names the next
    /// one.
    #[verifier::rlimit(30)]
    pub fn step(&mut self, input: TeardownInput, clock: u128, now: u64) -> (step: TeardownStep)
        requires
            teardown_valid(old(self).deep_view()),
            teardown_expects(old(self).deep_view(), input.deep_view()),
        ensures
            teardown_valid(final(self).deep_view()),
            (final(self).deep_view(), step.deep_view()) == teardown_step(
                old(self).deep_view(),
                input.deep_view(),
                clock,
                now,
            ),
    {
        let mut phase = TeardownPhase::Finished;
        core::mem::swap(&mut phase, &mut self.phase);
        match (phase, input) {
            (TeardownPhase::Draining(task), TeardownInput::TaskEnded) => self.drain_from(
                task + 1,
                clock,
            ),
            (TeardownPhase::Draining(task), TeardownInput::TaskFailed(error)) => {
                let step = self.drain_from(task + 1, clock);
                Self::told_first(
                    MemoryFlowStage::Drain,
                    concat("maintenance task failed: ", error.as_str()),
                    step,
                )
            },
            (TeardownPhase::Draining(task), TeardownInput::TaskTimedOut) => {
                self.timed_out = self.timed_out + 1;
                self.drain_from(task + 1, clock)
            },
            (TeardownPhase::Counting, TeardownInput::Counted(counted)) => match counted {
                Ok(count) => {
                    if count == 0 {
                        self.promoted_all()
                    } else {
                        self.phase = TeardownPhase::Popping;
                        let facts: Vec<MemoryEvent> = Vec::new();
                        assert(facts.deep_view() =~= Seq::<MemoryEventView>::empty());
                        TeardownStep { facts, action: TeardownAction::L2PopOldest(count) }
                    }
                },
                Err(error) => self.promotion_failed("promotion read: ", error),
            },
            (TeardownPhase::Popping, TeardownInput::Blocks(popped)) => match popped {
                Ok(blocks) => {
                    let _count: usize = blocks.len();
                    self.promote_next(blocks, now)
                },
                Err(error) => self.promotion_failed("promotion pop: ", error),
            },
            (TeardownPhase::Promoting(blocks), TeardownInput::Written(written)) => match written {
                Ok(()) => {
                    self.promoted = self.promoted + 1;
                    self.promote_next(blocks, now)
                },
                Err(error) => {
                    let text = error.to_string();
                    let step = self.promote_next(blocks, now);
                    Self::told_first(
                        MemoryFlowStage::Distill,
                        concat("promotion upsert: ", text.as_str()),
                        step,
                    )
                },
            },
            (TeardownPhase::Finalizing, TeardownInput::Finalized(done)) => self.finalized(done),
            _ => {
                let facts: Vec<MemoryEvent> = Vec::new();
                assert(facts.deep_view() =~= Seq::<MemoryEventView>::empty());
                TeardownStep { facts, action: TeardownAction::Done }
            },
        }
    }
}

/// The drain is bounded: no task is awaited past the deadline, which never
/// moves, and every task is awaited at most once, in order.
pub proof fn the_drain_is_bounded(
    s: TeardownView,
    input: TeardownInputView,
    clock: u128,
    now: u64,
)
    requires
        teardown_valid(s),
        teardown_expects(s, input),
    ensures
        ({
            let (next, step) = teardown_step(s, input, clock, now);
            &&& next.deadline == s.deadline
            &&& step.action matches TeardownActionView::AwaitTask { task, remaining } ==> {
                &&& s.phase matches TeardownPhaseView::Draining(before)
                &&& task == before + 1
                &&& task < s.total
                &&& remaining > 0 ==> clock + remaining == s.deadline
            }
        }),
{
}

/// One answer to a teardown, with the clock's reading and the time it came
/// at.
pub ghost struct Answer {
    pub input: TeardownInputView,
    pub clock: u128,
    pub now: u64,
}

/// Where a teardown stands after the given answers, and what it asked for
/// last.
pub open spec fn torn_down(
    begun: (TeardownView, TeardownStepView),
    answers: Seq<Answer>,
) -> (TeardownView, TeardownStepView)
    decreases answers.len(),
{
    if answers.len() == 0 {
        begun
    } else {
        let before = torn_down(begun, answers.drop_last()).0;
        let last = answers.last();
        teardown_step(before, last.input, last.clock, last.now)
    }
}

/// Whether each answer is one the teardown waited for.
pub open spec fn answered(begun: (TeardownView, TeardownStepView), answers: Seq<Answer>) -> bool
    decreases answers.len(),
{
    answers.len() == 0 || (answered(begun, answers.drop_last()) && teardown_expects(
        torn_down(begun, answers.drop_last()).0,
        answers.last().input,
    ))
}

/// The facts of a teardown so far, in order.
pub open spec fn teardown_facts(
    begun: (TeardownView, TeardownStepView),
    answers: Seq<Answer>,
) -> Seq<MemoryEventView>
    decreases answers.len(),
{
    if answers.len() == 0 {
        begun.1.facts
    } else {
        teardown_facts(begun, answers.drop_last()) + torn_down(begun, answers).1.facts
    }
}

/// How often a teardown asked for the finalize hook.
pub open spec fn hook_calls(begun: (TeardownView, TeardownStepView), answers: Seq<Answer>) -> nat
    decreases answers.len(),
{
    let here = if torn_down(begun, answers).1.action is Finalize {
        1nat
    } else {
        0nat
    };
    if answers.len() == 0 {
        here
    } else {
        hook_calls(begun, answers.drop_last()) + here
    }
}

/// The facts of the tasks that failed, in order.
pub open spec fn task_failures(answers: Seq<Answer>) -> Seq<MemoryEventView>
    decreases answers.len(),
{
    if answers.len() == 0 {
        Seq::empty()
    } else {
        let earlier = task_failures(answers.drop_last());
        match answers.last().input {
            TeardownInputView::TaskFailed(error) => earlier.push(
                teardown_failure(MemoryFlowStage::Drain, "maintenance task failed: "@ + error),
            ),
            _ => earlier,
        }
    }
}

/// How many tasks were still running when they were looked at.
pub open spec fn still_running(answers: Seq<Answer>) -> nat
    decreases answers.len(),
{
    if answers.len() == 0 {
        0
    } else {
        still_running(answers.drop_last()) + if answers.last().input is TaskTimedOut {
            1nat
        } else {
            0nat
        }
    }
}

/// The start of a teardown with so many tasks.
pub open spec fn fresh_teardown(
    subject: Seq<char>,
    conversation_id: Seq<char>,
    topic: Seq<char>,
    deadline: u128,
    total: usize,
) -> TeardownView {
    TeardownView {
        subject,
        conversation_id,
        topic,
        deadline,
        total,
        timed_out: 0,
        promoted: 0,
        phase: TeardownPhaseView::Counting,
    }
}

proof fn draining(s: TeardownView, clock: u128, answers: Seq<Answer>)
    requires
        s == fresh_teardown(s.subject, s.conversation_id, s.topic, s.deadline, s.total),
        answered(drain_from(s, 0, clock), answers),
    ensures
        ({
            let begun = drain_from(s, 0, clock);
            let (at, step) = torn_down(begun, answers);
            let told = teardown_facts(begun, answers);
            &&& at.total == s.total
            &&& at.phase matches TeardownPhaseView::Draining(task) ==> {
                &&& answers.len() == task < s.total
                &&& at.timed_out == still_running(answers) <= task
                &&& told == task_failures(answers)
                &&& step.action is AwaitTask
                &&& hook_calls(begun, answers) == 0
            }
            &&& at.phase is Counting ==> {
                &&& answers.len() == s.total
                &&& at.timed_out == still_running(answers)
                &&& told == task_failures(answers) + (if still_running(answers) > 0 {
                    seq![
                        teardown_failure(
                            MemoryFlowStage::Drain,
                            drain_timed_out(still_running(answers) as usize, s.total),
                        ),
                    ]
                } else {
                    Seq::empty()
                })
                &&& step.action is L2Len
                &&& hook_calls(begun, answers) == 0
            }
            &&& at.phase is Popping || at.phase is Promoting ==> hook_calls(begun, answers) == 0
            &&& at.phase is Finalizing ==> hook_calls(begun, answers) == 1 && step.action
                is Finalize
            &&& at.phase is Finished ==> hook_calls(begun, answers) == 1 && step.action is Done
            &&& !(at.phase is Draining) ==> !(step.action is AwaitTask) && answers.len() >= s.total
            &&& !(at.phase is Finalizing) ==> !(step.action is Finalize)
        }),
    decreases answers.len(),
{
    let begun = drain_from(s, 0, clock);
    if answers.len() == 0 {
        if s.total == 0 {
            assert(teardown_facts(begun, answers) =~= task_failures(answers));
        }
        assert(task_failures(answers) + Seq::<MemoryEventView>::empty() =~= begun.1.facts);
    } else {
        let earlier = answers.drop_last();
        draining(s, clock, earlier);
        let before = torn_down(begun, earlier).0;
        let told = teardown_facts(begun, earlier);
        let (at, step) = torn_down(begun, answers);
        assert(teardown_facts(begun, answers) == told + step.facts);
        if before.phase is Draining {
            if at.phase is Draining {
                assert(teardown_facts(begun, answers) =~= task_failures(answers));
            } else {
                assert(teardown_facts(begun, answers) =~= task_failures(answers) + (
                if still_running(answers) > 0 {
                    seq![
                        teardown_failure(
                            MemoryFlowStage::Drain,
                            drain_timed_out(still_running(answers) as usize, s.total),
                        ),
                    ]
                } else {
                    Seq::empty()
                }));
            }
        }
    }
}

/// Nothing stuck or failed is passed over in silence, and nothing else is
/// told: when the drain is over every task was looked at once, each failed
/// one was told, and exactly when tasks were still running one more fact
/// tells how many of how many.
pub proof fn the_drain_is_visible(s: TeardownView, clock: u128, answers: Seq<Answer>)
    requires
        s == fresh_teardown(s.subject, s.conversation_id, s.topic, s.deadline, s.total),
        answered(drain_from(s, 0, clock), answers),
        torn_down(drain_from(s, 0, clock), answers).0.phase is Counting,
    ensures
        answers.len() == s.total,
        teardown_facts(drain_from(s, 0, clock), answers) == task_failures(answers) + (
        if still_running(answers) > 0 {
            seq![
                teardown_failure(
                    MemoryFlowStage::Drain,
                    drain_timed_out(still_running(answers) as usize, s.total),
                ),
            ]
        } else {
            Seq::empty()
        }),
{
    draining(s, clock, answers);
}

/// The memory's finalize hook is called exactly once in a teardown, after
/// every background task was looked at, whatever the promotion came to; and
/// its failure is told and ends nothing early.
pub proof fn the_finalize_hook_runs_once(s: TeardownView, clock: u128, answers: Seq<Answer>)
    requires
        s == fresh_teardown(s.subject, s.conversation_id, s.topic, s.deadline, s.total),
        answered(drain_from(s, 0, clock), answers),
    ensures
        ({
            let begun = drain_from(s, 0, clock);
            let (at, step) = torn_down(begun, answers);
            &&& at.phase is Finished ==> hook_calls(begun, answers) == 1
            &&& hook_calls(begun, answers) <= 1
            &&& step.action is Finalize ==> answers.len() >= s.total && hook_calls(begun, answers)
                == 1
            &&& step.action is AwaitTask ==> hook_calls(begun, answers) == 0
        }),
        forall|failure: MemoryFailureView|
            #![trigger finalized(s, Err(failure))]
            finalized(s, Err(failure)).1.facts == seq![
                failed_fact(failure, MemoryFlowFailedMoment::AtConversationEnd),
            ] && finalized(s, Err(failure)).0 == finalized(s, Ok(())).0,
{
    draining(s, clock, answers);
}

/// A promotion on its way: where teardown stands, what is to be done, and
/// the layers.
pub ghost struct TeardownMoment {
    pub teardown: TeardownView,
    pub action: TeardownActionView,
    pub layers: LayersView,
}

/// What a working store makes of a teardown action.
pub open spec fn teardown_store_works(
    before: LayersView,
    action: TeardownActionView,
    input: TeardownInputView,
    after: LayersView,
) -> bool {
    match action {
        TeardownActionView::L2Len => before.l2.len() <= usize::MAX && input
            == TeardownInputView::Counted(Ok(before.l2.len() as usize)) && after == before,
        TeardownActionView::L2PopOldest(count) => {
            let n = at_most(count, before.l2.len());
            input == TeardownInputView::Blocks(Ok(before.l2.take(n))) && after == (LayersView {
                l2: before.l2.skip(n),
                ..before
            })
        },
        TeardownActionView::L3Upsert(fragment) => input == TeardownInputView::Written(Ok(()))
            && after == (LayersView { l3: before.l3.push(fragment), ..before }),
        TeardownActionView::Finalize => input is Finalized && after == before,
        _ => false,
    }
}

/// Whether one moment leads to another on a working store at the time `now`.
pub open spec fn teardown_leads(before: TeardownMoment, now: u64, after: TeardownMoment) -> bool {
    exists|input: TeardownInputView, clock: u128|
        #![trigger teardown_step(before.teardown, input, clock, now)]
        teardown_store_works(before.layers, before.action, input, after.layers) && (
            after.teardown,
            after.action,
        ) == (
            teardown_step(before.teardown, input, clock, now).0,
            teardown_step(before.teardown, input, clock, now).1.action,
        )
}

/// The promotion's course on a working store at the time `now`, from the
/// moment the drain is over.
pub open spec fn promotion_run(moments: Seq<TeardownMoment>, now: u64) -> bool {
    &&& moments.len() > 0
    &&& moments[0].teardown.phase is Counting
    &&& moments[0].teardown.promoted == 0
    &&& moments[0].action is L2Len
    &&& forall|i: int|
        #![trigger moments[i]]
        0 < i < moments.len() ==> teardown_leads(moments[i - 1], now, moments[i])
}

/// What holds at every moment of a promotion that began with these layers.
spec fn promotion_keeps(first: TeardownMoment, m: TeardownMoment, now: u64) -> bool {
    let subject = first.teardown.subject;
    let topic = first.teardown.topic;
    let all = first.layers.l3 + all_distilled(subject, topic, first.layers.l2, now);
    &&& m.teardown.subject == subject
    &&& m.teardown.topic == topic
    &&& m.layers.l1 == first.layers.l1
    &&& m.layers.l3.len() == first.layers.l3.len() + m.teardown.promoted
    &&& first.layers.l2.len() <= usize::MAX || m.teardown.phase is Counting
    &&& match m.teardown.phase {
        TeardownPhaseView::Counting => m.action is L2Len && m.layers == first.layers,
        TeardownPhaseView::Popping => m.layers == first.layers && m.action
            == TeardownActionView::L2PopOldest(first.layers.l2.len() as usize)
            && first.layers.l2.len() > 0,
        TeardownPhaseView::Promoting(blocks) => {
            &&& m.layers.l2.len() == 0
            &&& m.action matches TeardownActionView::L3Upsert(fragment)
            &&& m.layers.l3.push(fragment) + all_distilled(subject, topic, blocks, now) == all
        },
        TeardownPhaseView::Finalizing => m.action is Finalize && m.layers.l2.len() == 0
            && m.layers.l3 == all,
        TeardownPhaseView::Finished => m.action is Done && m.layers.l2.len() == 0 && m.layers.l3
            == all,
        _ => false,
    }
}

proof fn promotion_step_keeps(
    first: TeardownMoment,
    before: TeardownMoment,
    now: u64,
    after: TeardownMoment,
)
    requires
        promotion_keeps(first, before, now),
        teardown_leads(before, now, after),
    ensures
        promotion_keeps(first, after, now),
{
    let subject = first.teardown.subject;
    let topic = first.teardown.topic;
    let all = first.layers.l3 + all_distilled(subject, topic, first.layers.l2, now);
    let (input, clock) = choose|input: TeardownInputView, clock: u128|
        #![trigger teardown_step(before.teardown, input, clock, now)]
        teardown_store_works(before.layers, before.action, input, after.layers) && (
            after.teardown,
            after.action,
        ) == (
            teardown_step(before.teardown, input, clock, now).0,
            teardown_step(before.teardown, input, clock, now).1.action,
        );
    match before.teardown.phase {
        TeardownPhaseView::Counting => {
            if first.layers.l2.len() == 0 {
                assert(all =~= first.layers.l3);
            }
        },
        TeardownPhaseView::Popping => {
            let blocks = first.layers.l2;
            assert(blocks.take(blocks.len() as int) =~= blocks);
            assert(blocks.skip(blocks.len() as int) =~= Seq::empty());
            assert(first.layers.l3.push(distilled(subject, topic, blocks[0], now))
                + all_distilled(subject, topic, blocks.drop_first(), now) =~= all);
        },
        TeardownPhaseView::Promoting(blocks) => {
            let stored = after.layers.l3;
            assert(stored.len() + blocks.len() == all.len());
            if blocks.len() == 0 {
                assert(stored + all_distilled(subject, topic, blocks, now) =~= stored);
            } else {
                assert(stored.push(distilled(subject, topic, blocks[0], now)) + all_distilled(
                    subject,
                    topic,
                    blocks.drop_first(),
                    now,
                ) =~= stored + all_distilled(subject, topic, blocks, now));
            }
        },
        _ => {},
    }
}

proof fn promotion_run_keeps(moments: Seq<TeardownMoment>, now: u64)
    requires
        promotion_run(moments, now),
    ensures
        promotion_keeps(moments[0], moments.last(), now),
    decreases moments.len(),
{
    if moments.len() > 1 {
        let earlier = moments.drop_last();
        assert forall|i: int|
            #![trigger earlier[i]]
            0 < i < earlier.len() implies teardown_leads(earlier[i - 1], now, earlier[i]) by {
            assert(moments[i] == earlier[i]);
        }
        promotion_run_keeps(earlier, now);
        assert(moments.last() == moments[moments.len() - 1]);
        promotion_step_keeps(moments[0], earlier.last(), now, moments.last());
    }
}

/// Teardown loses no block: on a working store every L2 block has become L3
/// knowledge under the conversation's topic, in order, L2 is empty, and as
/// many blocks are told as promoted.
pub proof fn teardown_promotes_every_block(moments: Seq<TeardownMoment>, now: u64)
    requires
        promotion_run(moments, now),
        moments.last().teardown.phase is Finished,
    ensures
        moments.last().layers.l2.len() == 0,
        moments.last().layers.l3 == moments[0].layers.l3 + all_distilled(
            moments[0].teardown.subject,
            moments[0].teardown.topic,
            moments[0].layers.l2,
            now,
        ),
        moments.last().teardown.promoted == moments[0].layers.l2.len(),
{
    promotion_run_keeps(moments, now);
}

/// The tasks are awaited one after another, each once, for what is left of
/// the budget: the time until the deadline, and nothing past it.
pub proof fn tasks_are_awaited_in_turn(s: TeardownView, task: int, clock: u128)
    requires
        0 <= task,
    ensures
        task < s.total ==> (drain_from(s, task, clock).1.action
            matches TeardownActionView::AwaitTask { task: awaited, remaining } && awaited == task && (
        clock <= s.deadline ==> clock + remaining == s.deadline) && (clock >= s.deadline
            ==> remaining == 0)),
        task >= s.total ==> drain_from(s, task, clock).1.action is L2Len,
        s.phase == TeardownPhaseView::Draining(task as usize) && task < usize::MAX ==> teardown_step(
            s,
            TeardownInputView::TaskEnded,
            clock,
            0,
        ) == drain_from(s, task + 1, clock),
{
}

/// What goes wrong in a teardown is told, with where and why, and holds
/// nothing up: after a failed task the next one is awaited as after one that
/// ended; after a failed upsert the next block is promoted; when the blocks
/// cannot be counted or taken out the memory finalizes all the same.
pub proof fn teardown_failures_are_told(
    s: TeardownView,
    task: usize,
    reason: Seq<char>,
    error: MemoryStoreErrorView,
    clock: u128,
    now: u64,
)
    ensures
        s.phase == TeardownPhaseView::Draining(task) ==> {
            let (failed, step) = teardown_step(
                s,
                TeardownInputView::TaskFailed(reason),
                clock,
                now,
            );
            let (ended, same) = teardown_step(s, TeardownInputView::TaskEnded, clock, now);
            &&& failed == ended && step.action == same.action
            &&& step.facts == seq![
                MemoryEventView::FlowFailed {
                    stage: MemoryFlowStage::Drain,
                    detail: "maintenance task failed: "@ + reason,
                    moment: MemoryFlowFailedMoment::AtConversationEnd,
                },
            ] + same.facts
        },
        s.phase is Counting ==> {
            let step = teardown_step(s, TeardownInputView::Counted(Err(error)), clock, now).1;
            &&& step.action is Finalize
            &&& step.facts == seq![
                MemoryEventView::FlowFailed {
                    stage: MemoryFlowStage::Distill,
                    detail: "promotion read: "@ + memory_error_text(error),
                    moment: MemoryFlowFailedMoment::AtConversationEnd,
                },
            ]
        },
        s.phase is Popping ==> {
            let step = teardown_step(s, TeardownInputView::Blocks(Err(error)), clock, now).1;
            &&& step.action is Finalize
            &&& step.facts == seq![
                MemoryEventView::FlowFailed {
                    stage: MemoryFlowStage::Distill,
                    detail: "promotion pop: "@ + memory_error_text(error),
                    moment: MemoryFlowFailedMoment::AtConversationEnd,
                },
            ]
        },
        s.phase matches TeardownPhaseView::Promoting(blocks) ==> {
            let (after, step) = teardown_step(
                s,
                TeardownInputView::Written(Err(error)),
                clock,
                now,
            );
            &&& after.promoted == s.promoted
            &&& step.facts.len() > 0
            &&& step.facts[0] == (MemoryEventView::FlowFailed {
                stage: MemoryFlowStage::Distill,
                detail: "promotion upsert: "@ + memory_error_text(error),
                moment: MemoryFlowFailedMoment::AtConversationEnd,
            })
            &&& blocks.len() > 0 ==> step.action is L3Upsert
        },
{
}

/// Promotion takes all blocks out and keeps each in L3, one after another
/// and in order; each that was kept is counted, and behind the last one the
/// count is told, if there is any, before the memory finalizes. A failure of
/// the finalize hook is told last.
pub proof fn promotion_takes_block_after_block(
    s: TeardownView,
    count: usize,
    blocks: Seq<SummaryBlockView>,
    done: Result<(), MemoryFailureView>,
    clock: u128,
    now: u64,
)
    requires
        s.promoted < usize::MAX,
    ensures
        s.phase is Counting && count > 0 ==> teardown_step(
            s,
            TeardownInputView::Counted(Ok(count)),
            clock,
            now,
        ).1.action == TeardownActionView::L2PopOldest(count),
        s.phase is Counting ==> teardown_step(
            s,
            TeardownInputView::Counted(Ok(0)),
            clock,
            now,
        ).1.action is Finalize,
        s.phase is Popping && blocks.len() > 0 ==> teardown_step(
            s,
            TeardownInputView::Blocks(Ok(blocks)),
            clock,
            now,
        ) == (
            TeardownView { phase: TeardownPhaseView::Promoting(blocks.skip(1)), ..s },
            TeardownStepView {
                facts: Seq::empty(),
                action: TeardownActionView::L3Upsert(
                    distilled(s.subject, s.topic, blocks[0], now),
                ),
            },
        ),
        s.phase == TeardownPhaseView::Promoting(blocks) && blocks.len() > 0 ==> teardown_step(
            s,
            TeardownInputView::Written(Ok(())),
            clock,
            now,
        ) == (
            TeardownView {
                phase: TeardownPhaseView::Promoting(blocks.skip(1)),
                promoted: (s.promoted + 1) as usize,
                ..s
            },
            TeardownStepView {
                facts: Seq::empty(),
                action: TeardownActionView::L3Upsert(
                    distilled(s.subject, s.topic, blocks[0], now),
                ),
            },
        ),
        s.phase == TeardownPhaseView::Promoting(Seq::empty()) ==> {
            let step = teardown_step(s, TeardownInputView::Written(Ok(())), clock, now).1;
            &&& step.action is Finalize
            &&& step.facts == seq![
                MemoryEventView::Promoted {
                    conversation_id: s.conversation_id,
                    count: (s.promoted + 1) as usize,
                },
            ]
        },
        s.phase is Finalizing ==> {
            let (after, step) = teardown_step(s, TeardownInputView::Finalized(done), clock, now);
            &&& after.phase is Finished
            &&& step.action is Done
            &&& done is Ok ==> step.facts.len() == 0
            &&& done matches Err(failure) ==> step.facts == seq![
                MemoryEventView::Failed {
                    stage: failure.stage,
                    detail: failure.detail,
                    moment: MemoryFlowFailedMoment::AtConversationEnd,
                },
            ]
        },
{
    assert(blocks.len() > 0 ==> blocks.drop_first() =~= blocks.skip(1));
}

/// Tasks that are still running when the drain is over are told with their
/// number and the number of all tasks; when none is, nothing is told. Each
/// task that times out is counted once.
pub proof fn stuck_tasks_are_counted(s: TeardownView, task: usize, clock: u128, now: u64)
    requires
        s.timed_out < usize::MAX,
    ensures
        s.timed_out == 0 ==> drained(s).1.facts.len() == 0,
        s.timed_out > 0 ==> drained(s).1.facts == seq![
            MemoryEventView::FlowFailed {
                stage: MemoryFlowStage::Drain,
                detail: "drain timed out: "@ + decimal(s.timed_out as nat) + " of "@ + decimal(
                    s.total as nat,
                ) + " maintenance task(s) still running"@,
                moment: MemoryFlowFailedMoment::AtConversationEnd,
            },
        ],
        s.phase == TeardownPhaseView::Draining(task) ==> teardown_step(
            s,
            TeardownInputView::TaskTimedOut,
            clock,
            now,
        ).0.timed_out == s.timed_out + 1,
        s.phase == TeardownPhaseView::Draining(task) ==> teardown_step(
            s,
            TeardownInputView::TaskEnded,
            clock,
            now,
        ).0.timed_out == s.timed_out,
{
}

} // verus!
