//! The memory contract family and the context engine: what the framework
//! decides around the hooks of a memory implementation.
//!
//! The framework owns the mechanism: when the read phase and the write phase
//! run, how model access is resolved and narrated, how failures become
//! facts. Failures degrade visibly: they are reported, and the phase goes
//! on.

use vstd::prelude::*;

use crate::bus::{
    ConversationEvent, ConversationEventView, MemoryEvent, MemoryEventView, MemoryFailedMoment,
    MemoryFlowFailedMoment, SynonzEvent, SynonzEventView,
};
use crate::event::{
    CallPurpose, ModelEvent, ModelEventView, TurnEvent, TurnEventView,
};
use crate::memory::MemoryReader;
use crate::message::{text_message_view, ContentBlockView, Message, MessageView, Role};
use crate::model::{ModelRequest, ModelStreamItem, ModelStreamItemView};
use crate::subject::{Subject, SubjectView};
use crate::text::{same_text, Text};

verus! {

/// How many recent successful turns the framework hands to the read-side
/// preprocessing as the conversation history.
pub const HISTORY_TURNS: usize = 3;

/// One memory-flow failure: the stage that failed and why. Stages are
/// implementation-defined strings.
#[derive(Debug, PartialEq)]
pub struct MemoryFailure {
    /// Which stage failed (implementation-defined).
    pub stage: String,
    /// Human-readable detail of the failure.
    pub detail: String,
}

/// What a [`MemoryFailure`] holds.
pub ghost struct MemoryFailureView {
    pub stage: Seq<char>,
    pub detail: Seq<char>,
}

impl DeepView for MemoryFailure {
    type V = MemoryFailureView;

    open spec fn deep_view(&self) -> MemoryFailureView {
        MemoryFailureView { stage: self.stage@, detail: self.detail@ }
    }
}

impl Clone for MemoryFailure {
    fn clone(&self) -> (copy: Self)
        ensures
            copy == *self,
    {
        MemoryFailure { stage: self.stage.clone(), detail: self.detail.clone() }
    }
}

impl MemoryFailure {
    /// Creates a failure record.
    pub fn new(stage: impl Text, detail: impl Text) -> (failure: Self)
        ensures
            failure.deep_view() == (MemoryFailureView {
                stage: stage.text(),
                detail: detail.text(),
            }),
    {
        MemoryFailure { stage: stage.into_text(), detail: detail.into_text() }
    }
}

/// The fact a failure surfaces as.
pub open spec fn failed_fact(
    failure: MemoryFailureView,
    moment: MemoryFlowFailedMoment,
) -> MemoryEventView {
    MemoryEventView::Failed { stage: failure.stage, detail: failure.detail, moment }
}

/// Turns a failure into the fact it surfaces as.
pub fn failure_fact(failure: MemoryFailure, moment: MemoryFailedMoment) -> (fact: MemoryEvent)
    ensures
        fact.deep_view() == failed_fact(failure.deep_view(), moment),
{
    MemoryEvent::Failed { stage: failure.stage, detail: failure.detail, moment }
}

/// What an optional-text hook's result holds: the text, or the failure.
pub open spec fn hook_text(result: Result<Option<String>, MemoryFailure>) -> Result<
    Option<Seq<char>>,
    MemoryFailureView,
> {
    match result {
        Ok(text) => Ok(text.deep_view()),
        Err(failure) => Err(failure.deep_view()),
    }
}

/// What a plain hook's result holds.
pub open spec fn hook_done(result: Result<(), MemoryFailure>) -> Result<(), MemoryFailureView> {
    match result {
        Ok(()) => Ok(()),
        Err(failure) => Err(failure.deep_view()),
    }
}

/// The model a hook gets: the provider's own, falling back to the agent's.
pub fn resolve_model<H: Clone>(provider: &Option<H>, agent: &H) -> (model: H)
    ensures
        match provider {
            Some(own) => cloned(*own, model),
            None => cloned(*agent, model),
        },
{
    match provider {
        Some(own) => own.clone(),
        None => agent.clone(),
    }
}

/// The assembly payload: what an assembler consumes. `H` is the narrated
/// model handle.
pub struct MemoryContextAssembleInput<'a, M, H> {
    /// The read-only projection of the memory implementation.
    pub reader: MemoryReader<'a, M>,
    /// The subject owning the memory.
    pub subject: &'a Subject,
    /// The conversation whose state is assembled.
    pub conversation_id: &'a str,
    /// The conversation's current topic.
    pub topic: &'a str,
    /// The turn's original user input text.
    pub input: &'a str,
    /// The model-view input of the read-side preprocessing; `None` = use the
    /// original input.
    pub rewritten_input: Option<&'a str>,
    /// The narrated model handle for the assembler's own model calls.
    pub model: H,
}

impl<'a, M, H> MemoryContextAssembleInput<'a, M, H> {
    /// Assembles the payload.
    pub fn new(
        reader: MemoryReader<'a, M>,
        subject: &'a Subject,
        conversation_id: &'a str,
        topic: &'a str,
        input: &'a str,
        rewritten_input: Option<&'a str>,
        model: H,
    ) -> (payload: Self)
        ensures
            payload == (MemoryContextAssembleInput {
                reader,
                subject,
                conversation_id,
                topic,
                input,
                rewritten_input,
                model,
            }),
    {
        MemoryContextAssembleInput {
            reader,
            subject,
            conversation_id,
            topic,
            input,
            rewritten_input,
            model,
        }
    }
}

/// What an assembly produced: the model-visible frame plus the reads that
/// failed along the way.
#[derive(Debug)]
pub struct MemoryContextAssembleOutput {
    /// The complete message frame after the agent's system message (the
    /// current turn's user message included).
    pub messages: Vec<Message>,
    /// The failures observed while composing.
    pub failures: Vec<MemoryFailure>,
}

/// What a [`MemoryContextAssembleOutput`] holds.
#[verifier::ext_equal]
pub ghost struct AssembleOutputView {
    pub messages: Seq<MessageView>,
    pub failures: Seq<MemoryFailureView>,
}

impl DeepView for MemoryContextAssembleOutput {
    type V = AssembleOutputView;

    open spec fn deep_view(&self) -> AssembleOutputView {
        AssembleOutputView {
            messages: self.messages.deep_view(),
            failures: self.failures.deep_view(),
        }
    }
}

impl MemoryContextAssembleOutput {
    /// Creates an output from its parts.
    pub fn new(messages: Vec<Message>, failures: Vec<MemoryFailure>) -> (output: Self)
        ensures
            output.messages == messages,
            output.failures == failures,
    {
        MemoryContextAssembleOutput { messages, failures }
    }
}

/// The rewrite payload: the turn's original input, the recent successful
/// turns' messages (oldest first), and the narrated model handle.
pub struct RewriteInput<'a, H> {
    /// The turn's original user input text.
    pub input: &'a str,
    /// The recent successful turns' messages, oldest first.
    pub history: &'a [Message],
    /// The narrated model handle for the rewriter's own model calls.
    pub model: H,
}

impl<'a, H> RewriteInput<'a, H> {
    /// Assembles the payload.
    pub fn new(input: &'a str, history: &'a [Message], model: H) -> (payload: Self)
        ensures
            payload == (RewriteInput { input, history, model }),
    {
        RewriteInput { input, history, model }
    }
}

/// The topic detection payload.
pub struct TopicDetectInput<'a, H> {
    /// The turn's original user input text.
    pub input: &'a str,
    /// The recent successful turns' messages, oldest first.
    pub history: &'a [Message],
    /// The conversation's current topic (`None` when none is established).
    pub topic: Option<&'a str>,
    /// The narrated model handle for the detector's own model calls.
    pub model: H,
}

impl<'a, H> TopicDetectInput<'a, H> {
    /// Assembles the payload.
    pub fn new(
        input: &'a str,
        history: &'a [Message],
        topic: Option<&'a str>,
        model: H,
    ) -> (payload: Self)
        ensures
            payload == (TopicDetectInput { input, history, topic, model }),
    {
        TopicDetectInput { input, history, topic, model }
    }
}

/// The read phase of a run, between its two hooks: the failures so far.
#[derive(Debug)]
pub struct ReadPhase {
    failures: Vec<MemoryFailure>,
}

/// The failures the rewrite leaves: its own, if it failed.
pub open spec fn rewrite_failures(
    outcome: Option<Result<Option<Seq<char>>, MemoryFailureView>>,
) -> Seq<MemoryFailureView> {
    match outcome {
        Some(Err(failure)) => seq![failure],
        _ => Seq::empty(),
    }
}

/// The failure reported when an assembler returns no frame.
pub open spec fn empty_frame_failure() -> MemoryFailureView {
    MemoryFailureView {
        stage: "assemble"@,
        detail: "the assembler returned an empty frame; the original input was used"@,
    }
}

/// What the read phase hands to the run: the assembler's frame, or the
/// original input in its place when it is empty; and all failures, the
/// rewriter's first.
pub open spec fn read_output(
    input: Seq<char>,
    earlier: Seq<MemoryFailureView>,
    assembled: AssembleOutputView,
) -> AssembleOutputView {
    if assembled.messages.len() == 0 {
        AssembleOutputView {
            messages: seq![text_message_view(Role::User, input)],
            failures: (earlier + assembled.failures).push(empty_frame_failure()),
        }
    } else {
        AssembleOutputView {
            messages: assembled.messages,
            failures: earlier + assembled.failures,
        }
    }
}

/// The facts the given failures surface as, in order.
pub open spec fn failed_facts(failures: Seq<MemoryFailureView>) -> Seq<MemoryEventView> {
    Seq::new(
        failures.len(),
        |i: int| failed_fact(failures[i], MemoryFlowFailedMoment::AfterTurn),
    )
}

impl ReadPhase {
    /// The failures so far.
    pub closed spec fn failed(&self) -> Seq<MemoryFailureView> {
        self.failures.deep_view()
    }

    /// Takes the outcome of the input rewrite (`None`: no rewriter is
    /// configured) and returns the model-view input for the assembler. A
    /// failed rewrite keeps the original input.
    pub fn rewritten(outcome: Option<Result<Option<String>, MemoryFailure>>) -> (begun: (
        ReadPhase,
        Option<String>,
    ))
        ensures
            ({
                let given = match outcome {
                    Some(result) => Some(hook_text(result)),
                    None => None,
                };
                &&& begun.0.failed() == rewrite_failures(given)
                &&& begun.1.deep_view() == (match given {
                    Some(Ok(text)) => text,
                    _ => None,
                })
            }),
    {
        let mut failures: Vec<MemoryFailure> = Vec::new();
        let text = match outcome {
            None => None,
            Some(Ok(text)) => text,
            Some(Err(failure)) => {
                failures.push(failure);
                None
            },
        };
        let phase = ReadPhase { failures };
        assert(phase.failed() =~= rewrite_failures(
            match outcome {
                Some(result) => Some(hook_text(result)),
                None => None,
            },
        ));
        (phase, text)
    }

    /// Takes what the assembler produced and returns what the run uses,
    /// together with the facts to report. The model never silently loses the
    /// input.
    pub fn assembled(self, input: &str, assembled: MemoryContextAssembleOutput) -> (read: (
        MemoryContextAssembleOutput,
        Vec<MemoryEvent>,
    ))
        ensures
            read.0.deep_view() == read_output(input@, self.failed(), assembled.deep_view()),
            read.1.deep_view() == failed_facts(read.0.deep_view().failures),
    {
        let ghost earlier = self.failed();
        let ghost given = assembled.deep_view();
        let mut failures = self.failures;
        let mut read_failures = assembled.failures;
        failures.append(&mut read_failures);
        assert(failures.deep_view() =~= earlier + given.failures);
        let mut messages = assembled.messages;
        if messages.len() == 0 {
            messages.push(Message::user(input));
            let ghost before = failures.deep_view();
            let failure = MemoryFailure::new(
                "assemble",
                "the assembler returned an empty frame; the original input was used",
            );
            failures.push(failure);
            assert(failures.deep_view() =~= before.push(failure.deep_view()));
            assert(messages.deep_view() =~= seq![text_message_view(Role::User, input@)]);
        }
        let facts = Self::facts(&failures);
        (MemoryContextAssembleOutput::new(messages, failures), facts)
    }

    fn facts(failures: &Vec<MemoryFailure>) -> (facts: Vec<MemoryEvent>)
        ensures
            facts.deep_view() == failed_facts(failures.deep_view()),
    {
        let ghost all = failed_facts(failures.deep_view());
        let mut facts: Vec<MemoryEvent> = Vec::new();
        let mut i: usize = 0;
        while i < failures.len()
            invariant
                i <= failures@.len(),
                all == failed_facts(failures.deep_view()),
                facts.deep_view() == all.take(i as int),
            decreases failures@.len() - i,
        {
            let ghost before = facts.deep_view();
            let fact = failure_fact(failures[i].clone(), MemoryFailedMoment::AfterTurn);
            facts.push(fact);
            assert(facts.deep_view() =~= before.push(fact.deep_view()));
            assert(facts.deep_view() =~= all.take(i + 1));
            i += 1;
        }
        assert(all.take(i as int) =~= all);
        facts
    }
}

/// The read phase never hands an empty frame to the run; a frame that is not
/// empty is passed through unchanged.
pub proof fn the_frame_is_never_empty(
    input: Seq<char>,
    earlier: Seq<MemoryFailureView>,
    assembled: AssembleOutputView,
)
    ensures
        read_output(input, earlier, assembled).messages.len() > 0,
        assembled.messages.len() > 0 ==> read_output(input, earlier, assembled).messages
            == assembled.messages,
{
}

/// The next hook of the write phase.
#[derive(Debug)]
pub enum WriteHook {
    /// Detect the topic of the turn.
    Detect,
    /// Archive the turn, under this topic and with this topic change.
    Archive {
        /// The conversation's topic after detection.
        topic: String,
        /// The change of topic at this turn, from and to.
        topic_change: Option<(String, String)>,
    },
    /// Derive the background work of the turn, under this topic and with
    /// this topic change.
    SpawnTask {
        /// The conversation's topic after detection.
        topic: String,
        /// The change of topic at this turn, from and to.
        topic_change: Option<(String, String)>,
    },
    /// The write phase is over.
    Finished,
}

/// What a [`WriteHook`] holds.
pub ghost enum WriteHookView {
    Detect,
    Archive { topic: Seq<char>, topic_change: Option<(Seq<char>, Seq<char>)> },
    SpawnTask { topic: Seq<char>, topic_change: Option<(Seq<char>, Seq<char>)> },
    Finished,
}

impl DeepView for WriteHook {
    type V = WriteHookView;

    open spec fn deep_view(&self) -> WriteHookView {
        match self {
            WriteHook::Detect => WriteHookView::Detect,
            WriteHook::Archive { topic, topic_change } => WriteHookView::Archive {
                topic: topic@,
                topic_change: topic_change.deep_view(),
            },
            WriteHook::SpawnTask { topic, topic_change } => WriteHookView::SpawnTask {
                topic: topic@,
                topic_change: topic_change.deep_view(),
            },
            WriteHook::Finished => WriteHookView::Finished,
        }
    }
}

/// One step of the write phase: the topic to write back, the facts to
/// report, in this order, and the next hook to call.
#[derive(Debug)]
pub struct WriteStep {
    /// The topic to write back to the conversation, if it changed.
    pub set_topic: Option<String>,
    /// The facts to report.
    pub facts: Vec<SynonzEvent>,
    /// The next hook.
    pub next: WriteHook,
}

/// What a [`WriteStep`] holds.
#[verifier::ext_equal]
pub ghost struct WriteStepView {
    pub set_topic: Option<Seq<char>>,
    pub facts: Seq<SynonzEventView>,
    pub next: WriteHookView,
}

impl DeepView for WriteStep {
    type V = WriteStepView;

    open spec fn deep_view(&self) -> WriteStepView {
        WriteStepView {
            set_topic: self.set_topic.deep_view(),
            facts: self.facts.deep_view(),
            next: self.next.deep_view(),
        }
    }
}

/// The write phase of a completed turn: topic detection, archive, background
/// work. Each hook runs whatever came of the ones before.
#[derive(Debug)]
pub struct WritePhase {
    conversation_id: String,
    subject_id: String,
    previous: String,
    topic: String,
    topic_change: Option<(String, String)>,
}

/// What a [`WritePhase`] holds.
pub ghost struct WritePhaseView {
    /// The conversation.
    pub conversation_id: Seq<char>,
    /// Its owning subject, in text form.
    pub subject_id: Seq<char>,
    /// The topic before the turn; empty when none was established.
    pub previous: Seq<char>,
    /// The topic after detection.
    pub topic: Seq<char>,
    /// The change of topic at this turn, from and to.
    pub topic_change: Option<(Seq<char>, Seq<char>)>,
}

impl DeepView for WritePhase {
    type V = WritePhaseView;

    closed spec fn deep_view(&self) -> WritePhaseView {
        WritePhaseView {
            conversation_id: self.conversation_id@,
            subject_id: self.subject_id@,
            previous: self.previous@,
            topic: self.topic@,
            topic_change: self.topic_change.deep_view(),
        }
    }
}

/// The topic in place before a turn: none established is the empty one.
pub open spec fn topic_or_empty(topic: Option<Seq<char>>) -> Seq<char> {
    match topic {
        Some(topic) => topic,
        None => Seq::empty(),
    }
}

/// The verdict of a detector, as far as it changes the topic.
pub open spec fn new_topic(
    previous: Seq<char>,
    detected: Result<Option<Seq<char>>, MemoryFailureView>,
) -> Option<Seq<char>> {
    match detected {
        Ok(Some(next)) if next != previous => Some(next),
        _ => None,
    }
}

/// What follows topic detection. The verdict is written back; a change is
/// reported unless it is the first topic's establishment; a failure keeps
/// the topic and is reported.
pub open spec fn after_detection(
    s: WritePhaseView,
    detected: Result<Option<Seq<char>>, MemoryFailureView>,
) -> (WritePhaseView, WriteStepView) {
    match new_topic(s.previous, detected) {
        Some(next) => {
            let shifted = s.previous.len() > 0;
            let topic_change = if shifted {
                Some((s.previous, next))
            } else {
                None
            };
            (
                WritePhaseView { topic: next, topic_change, ..s },
                WriteStepView {
                    set_topic: Some(next),
                    facts: if shifted {
                        seq![
                            SynonzEventView::Conversation(
                                ConversationEventView::TopicShifted {
                                    conversation_id: s.conversation_id,
                                    from: s.previous,
                                    to: next,
                                },
                            ),
                        ]
                    } else {
                        Seq::empty()
                    },
                    next: WriteHookView::Archive { topic: next, topic_change },
                },
            )
        },
        None => (
            WritePhaseView { topic_change: None, ..s },
            WriteStepView {
                set_topic: None,
                facts: match detected {
                    Err(failure) => seq![
                        SynonzEventView::Memory(
                            failed_fact(failure, MemoryFlowFailedMoment::AfterTurn),
                        ),
                    ],
                    Ok(_) => Seq::empty(),
                },
                next: WriteHookView::Archive { topic: s.topic, topic_change: None },
            },
        ),
    }
}

/// What follows the archive hook: the turn is reported as archived, or the
/// failure is; the background segment runs either way.
pub open spec fn after_archive(
    s: WritePhaseView,
    archived: Result<(), MemoryFailureView>,
) -> WriteStepView {
    WriteStepView {
        set_topic: None,
        facts: seq![
            SynonzEventView::Memory(
                match archived {
                    Ok(()) => MemoryEventView::TurnArchived {
                        conversation_id: s.conversation_id,
                        subject_id: s.subject_id,
                        topic: s.topic,
                    },
                    Err(failure) => failed_fact(failure, MemoryFlowFailedMoment::AfterTurn),
                },
            ),
        ],
        next: WriteHookView::SpawnTask { topic: s.topic, topic_change: s.topic_change },
    }
}

/// What follows the background hook: its failure is reported.
pub open spec fn after_spawn(spawned: Result<(), MemoryFailureView>) -> WriteStepView {
    WriteStepView {
        set_topic: None,
        facts: match spawned {
            Ok(()) => Seq::empty(),
            Err(failure) => seq![
                SynonzEventView::Memory(failed_fact(failure, MemoryFlowFailedMoment::AfterTurn)),
            ],
        },
        next: WriteHookView::Finished,
    }
}

fn copy_change(change: &Option<(String, String)>) -> (copy: Option<(String, String)>)
    ensures
        copy.deep_view() == change.deep_view(),
{
    match change {
        Some((from, to)) => Some((from.clone(), to.clone())),
        None => None,
    }
}

impl WritePhase {
    /// Begins the write phase of a completed turn. Without a detector the
    /// archive hook comes first.
    pub fn begin(
        conversation_id: &str,
        subject: &Subject,
        topic: Option<&str>,
        has_detector: bool,
    ) -> (begun: (WritePhase, WriteStep))
        ensures
            begun.0.deep_view() == (WritePhaseView {
                conversation_id: conversation_id@,
                subject_id: crate::subject::subject_text(subject.deep_view()),
                previous: topic_or_empty(topic.deep_view()),
                topic: topic_or_empty(topic.deep_view()),
                topic_change: None,
            }),
            begun.1.deep_view() == (WriteStepView {
                set_topic: None,
                facts: Seq::empty(),
                next: if has_detector {
                    WriteHookView::Detect
                } else {
                    WriteHookView::Archive {
                        topic: topic_or_empty(topic.deep_view()),
                        topic_change: None,
                    }
                },
            }),
    {
        let previous = match topic {
            Some(topic) => topic.to_owned(),
            None => String::new(),
        };
        let next = if has_detector {
            WriteHook::Detect
        } else {
            WriteHook::Archive { topic: previous.clone(), topic_change: None }
        };
        let phase = WritePhase {
            conversation_id: conversation_id.to_owned(),
            subject_id: subject.to_string(),
            topic: previous.clone(),
            previous,
            topic_change: None,
        };
        let facts: Vec<SynonzEvent> = Vec::new();
        assert(facts.deep_view() =~= Seq::<SynonzEventView>::empty());
        (phase, WriteStep { set_topic: None, facts, next })
    }

    /// Takes the detector's verdict.
    pub fn detected(&mut self, detected: Result<Option<String>, MemoryFailure>) -> (step: WriteStep)
        ensures
            (final(self).deep_view(), step.deep_view()) == after_detection(
                old(self).deep_view(),
                hook_text(detected),
            ),
    {
        let mut facts: Vec<SynonzEvent> = Vec::new();
        assert(facts.deep_view() =~= Seq::<SynonzEventView>::empty());
        self.topic_change = None;
        match detected {
            Ok(Some(next)) => {
                if same_text(next.as_str(), self.previous.as_str()) {
                    return WriteStep {
                        set_topic: None,
                        facts,
                        next: WriteHook::Archive { topic: self.topic.clone(), topic_change: None },
                    };
                }
                self.topic = next.clone();
                let topic_change = if self.previous.as_str().is_empty() {
                    None
                } else {
                    let shift = SynonzEvent::Conversation(
                        ConversationEvent::TopicShifted {
                            conversation_id: self.conversation_id.clone(),
                            from: self.previous.clone(),
                            to: next.clone(),
                        },
                    );
                    facts.push(shift);
                    assert(facts.deep_view() =~= seq![shift.deep_view()]);
                    Some((self.previous.clone(), next.clone()))
                };
                self.topic_change = copy_change(&topic_change);
                WriteStep {
                    set_topic: Some(next.clone()),
                    facts,
                    next: WriteHook::Archive { topic: next, topic_change },
                }
            },
            Ok(None) => WriteStep {
                set_topic: None,
                facts,
                next: WriteHook::Archive { topic: self.topic.clone(), topic_change: None },
            },
            Err(failure) => {
                let fact = SynonzEvent::Memory(
                    failure_fact(failure, MemoryFailedMoment::AfterTurn),
                );
                facts.push(fact);
                assert(facts.deep_view() =~= seq![fact.deep_view()]);
                WriteStep {
                    set_topic: None,
                    facts,
                    next: WriteHook::Archive { topic: self.topic.clone(), topic_change: None },
                }
            },
        }
    }

    /// Takes the outcome of the archive hook.
    pub fn archived(&self, archived: Result<(), MemoryFailure>) -> (step: WriteStep)
        ensures
            step.deep_view() == after_archive(self.deep_view(), hook_done(archived)),
    {
        let fact = match archived {
            Ok(()) => MemoryEvent::TurnArchived {
                conversation_id: self.conversation_id.clone(),
                subject_id: self.subject_id.clone(),
                topic: self.topic.clone(),
            },
            Err(failure) => failure_fact(failure, MemoryFailedMoment::AfterTurn),
        };
        let facts = vec![SynonzEvent::Memory(fact)];
        assert(facts.deep_view() =~= seq![SynonzEventView::Memory(fact.deep_view())]);
        WriteStep {
            set_topic: None,
            facts,
            next: WriteHook::SpawnTask {
                topic: self.topic.clone(),
                topic_change: copy_change(&self.topic_change),
            },
        }
    }

    /// Takes the outcome of the background hook.
    pub fn spawned(&self, spawned: Result<(), MemoryFailure>) -> (step: WriteStep)
        ensures
            step.deep_view() == after_spawn(hook_done(spawned)),
    {
        let mut facts: Vec<SynonzEvent> = Vec::new();
        assert(facts.deep_view() =~= Seq::<SynonzEventView>::empty());
        if let Err(failure) = spawned {
            let fact = SynonzEvent::Memory(failure_fact(failure, MemoryFailedMoment::AfterTurn));
            facts.push(fact);
            assert(facts.deep_view() =~= seq![fact.deep_view()]);
        }
        WriteStep { set_topic: None, facts, next: WriteHook::Finished }
    }
}

/// The facts of a whole write phase with a detector, in order.
pub open spec fn write_phase_facts(
    s: WritePhaseView,
    detected: Result<Option<Seq<char>>, MemoryFailureView>,
    archived: Result<(), MemoryFailureView>,
    spawned: Result<(), MemoryFailureView>,
) -> Seq<SynonzEventView> {
    let (next, step) = after_detection(s, detected);
    step.facts + after_archive(next, archived).facts + after_spawn(spawned).facts
}

/// The hooks run independently: whatever the detector returns the archive
/// hook runs next, and whatever that returns the background hook does. Both
/// are given the same topic and the same change of topic.
pub proof fn every_hook_runs(
    s: WritePhaseView,
    detected: Result<Option<Seq<char>>, MemoryFailureView>,
    archived: Result<(), MemoryFailureView>,
)
    ensures
        after_detection(s, detected).1.next is Archive,
        ({
            let (next, step) = after_detection(s, detected);
            &&& step.next matches WriteHookView::Archive { topic, topic_change }
            &&& after_archive(next, archived).next == (WriteHookView::SpawnTask {
                topic,
                topic_change,
            })
        }),
        after_archive(s, archived).next is SpawnTask,
{
}

/// The first topic is an establishment: it is written back and not reported
/// as a shift.
pub proof fn first_topic_is_no_shift(s: WritePhaseView, topic: Seq<char>)
    requires
        s.previous.len() == 0,
        topic.len() > 0,
    ensures
        after_detection(s, Ok(Some(topic))).1.set_topic == Some(topic),
        after_detection(s, Ok(Some(topic))).1.facts.len() == 0,
        after_detection(s, Ok(Some(topic))).0.topic == topic,
{
}

/// A failing detector keeps the topic, changes nothing, is reported, and the
/// turn is still archived under the topic that was in place.
pub proof fn failing_detector_keeps_the_topic(
    s: WritePhaseView,
    failure: MemoryFailureView,
    spawned: Result<(), MemoryFailureView>,
)
    requires
        s.topic == s.previous,
    ensures
        after_detection(s, Err(failure)).0 == (WritePhaseView { topic_change: None, ..s }),
        after_detection(s, Err(failure)).1.set_topic is None,
        write_phase_facts(s, Err(failure), Ok(()), spawned)[0] == SynonzEventView::Memory(
            failed_fact(failure, MemoryFlowFailedMoment::AfterTurn),
        ),
        write_phase_facts(s, Err(failure), Ok(()), spawned)[1] == SynonzEventView::Memory(
            MemoryEventView::TurnArchived {
                conversation_id: s.conversation_id,
                subject_id: s.subject_id,
                topic: s.previous,
            },
        ),
{
}

/// A failing archive is reported and never also counted as archived.
pub proof fn failing_archive_is_not_archived(s: WritePhaseView, failure: MemoryFailureView)
    ensures
        after_archive(s, Err(failure)).facts == seq![
            SynonzEventView::Memory(failed_fact(failure, MemoryFlowFailedMoment::AfterTurn)),
        ],
{
}

/// What is narrated when an auxiliary call is made: the request, with the
/// context-management purpose and no round.
pub fn narrate_request(request: &ModelRequest) -> (event: TurnEvent)
    ensures
        event.deep_view() == TurnEventView::Model(
            ModelEventView::Requested {
                purpose: CallPurpose::ContextManagement,
                messages: request.deep_view().messages,
                round: None,
            },
        ),
{
    let messages = request.messages.clone();
    assert(messages.deep_view() =~= request.messages.deep_view());
    TurnEvent::Model(
        ModelEvent::Requested { purpose: CallPurpose::ContextManagement, messages, round: None },
    )
}

/// What an auxiliary call's stream yields and narrates at one item.
#[derive(Debug)]
pub struct NarratedItem {
    /// The item passed on; `None` ends the stream.
    pub item: Option<ModelStreamItem>,
    /// The event narrated.
    pub event: Option<TurnEvent>,
    /// Whether the stream ends after this item.
    pub last: bool,
}

/// Narrates one item of an auxiliary call's stream: the finish item is
/// reported and ends the stream; deltas are passed on and never narrated.
pub fn narrate_item(item: Option<ModelStreamItem>) -> (narrated: NarratedItem)
    ensures
        narrated.item.deep_view() == item.deep_view(),
        narrated.event.deep_view() == (match item.deep_view() {
            Some(ModelStreamItemView::Finish { message, usage }) => Some(
                TurnEventView::Model(ModelEventView::Responded { message, usage, round: None }),
            ),
            _ => None,
        }),
        narrated.last == (item is None || item->0 is Finish),
{
    match item {
        Some(ModelStreamItem::Finish { message, usage }) => {
            let event = TurnEvent::Model(
                ModelEvent::Responded { message: message.clone(), usage, round: None },
            );
            NarratedItem {
                item: Some(ModelStreamItem::Finish { message, usage }),
                event: Some(event),
                last: true,
            }
        },
        Some(other) => NarratedItem { item: Some(other), event: None, last: false },
        None => NarratedItem { item: None, event: None, last: true },
    }
}

/// The fact a background task leaves: its failure, with the background
/// moment.
pub fn background_fact(outcome: Result<(), MemoryFailure>) -> (fact: Option<MemoryEvent>)
    ensures
        fact.deep_view() == (match hook_done(outcome) {
            Ok(()) => None,
            Err(failure) => Some(failed_fact(failure, MemoryFlowFailedMoment::Background)),
        }),
{
    match outcome {
        Ok(()) => None,
        Err(failure) => Some(failure_fact(failure, MemoryFailedMoment::Background)),
    }
}

/// The turn-level context the pipeline hooks receive. `H` is the narrated
/// model handle.
pub struct PipelineTurnContext<'a, M, H> {
    subject: &'a Subject,
    conversation_id: &'a str,
    topic: &'a str,
    topic_change: Option<(&'a str, &'a str)>,
    input: &'a str,
    frame: &'a [Message],
    responses: &'a [Message],
    reader: MemoryReader<'a, M>,
    model: H,
}

/// What a [`PipelineTurnContext`] tells.
pub ghost struct PipelineTurnView {
    pub subject: SubjectView,
    pub conversation_id: Seq<char>,
    pub topic: Seq<char>,
    pub topic_change: Option<(Seq<char>, Seq<char>)>,
    pub input: Seq<char>,
    pub frame: Seq<MessageView>,
    pub responses: Seq<MessageView>,
}

impl<'a, M, H> DeepView for PipelineTurnContext<'a, M, H> {
    type V = PipelineTurnView;

    closed spec fn deep_view(&self) -> PipelineTurnView {
        PipelineTurnView {
            subject: self.subject.deep_view(),
            conversation_id: self.conversation_id@,
            topic: self.topic@,
            topic_change: match self.topic_change {
                Some((from, to)) => Some((from@, to@)),
                None => None,
            },
            input: self.input@,
            frame: self.frame.deep_view(),
            responses: self.responses.deep_view(),
        }
    }
}

impl<'a, M, H> PipelineTurnContext<'a, M, H> {
    /// The memory the context reads.
    pub closed spec fn reads(&self) -> M {
        self.reader.reads()
    }

    /// The model handle of the context.
    pub closed spec fn handle(&self) -> H {
        self.model
    }

    /// Builds the context.
    pub fn new(
        subject: &'a Subject,
        conversation_id: &'a str,
        topic: &'a str,
        topic_change: Option<(&'a str, &'a str)>,
        input: &'a str,
        frame: &'a [Message],
        responses: &'a [Message],
        reader: MemoryReader<'a, M>,
        model: H,
    ) -> (context: Self)
        ensures
            context.deep_view() == (PipelineTurnView {
                subject: subject.deep_view(),
                conversation_id: conversation_id@,
                topic: topic@,
                topic_change: match topic_change {
                    Some((from, to)) => Some((from@, to@)),
                    None => None,
                },
                input: input@,
                frame: frame.deep_view(),
                responses: responses.deep_view(),
            }),
            context.reads() == reader.reads(),
            context.handle() == model,
    {
        PipelineTurnContext {
            subject,
            conversation_id,
            topic,
            topic_change,
            input,
            frame,
            responses,
            reader,
            model,
        }
    }

    /// The conversation's owning subject.
    pub fn subject(&self) -> (subject: &'a Subject)
        ensures
            subject.deep_view() == self.deep_view().subject,
    {
        self.subject
    }

    /// The conversation's identity.
    pub fn conversation_id(&self) -> (id: &'a str)
        ensures
            id@ == self.deep_view().conversation_id,
    {
        self.conversation_id
    }

    /// The conversation's topic (after this turn's detection).
    pub fn topic(&self) -> (topic: &'a str)
        ensures
            topic@ == self.deep_view().topic,
    {
        self.topic
    }

    /// This turn's topic change (from, to), when the topic shifted.
    pub fn topic_change(&self) -> (change: Option<(&'a str, &'a str)>)
        ensures
            self.deep_view().topic_change == (match change {
                Some((from, to)) => Some((from@, to@)),
                None => None,
            }),
    {
        self.topic_change
    }

    /// The turn's original user input text.
    pub fn input(&self) -> (input: &'a str)
        ensures
            input@ == self.deep_view().input,
    {
        self.input
    }

    /// The complete model-visible frame the turn started from.
    pub fn frame(&self) -> (frame: &'a [Message])
        ensures
            frame.deep_view() == self.deep_view().frame,
    {
        self.frame
    }

    /// The messages produced during this turn, after the frame.
    pub fn responses(&self) -> (responses: &'a [Message])
        ensures
            responses.deep_view() == self.deep_view().responses,
    {
        self.responses
    }

    /// The read-only projection of the memory implementation.
    pub fn reader(&self) -> (reader: &MemoryReader<'a, M>)
        ensures
            reader.reads() == self.reads(),
    {
        &self.reader
    }

    /// The narrated model handle for this hook's own model calls.
    pub fn model(&self) -> (model: &H)
        ensures
            *model == self.handle(),
    {
        &self.model
    }

    /// The fact a failure reported by a turn hook surfaces as.
    pub fn report_failure(&self, failure: MemoryFailure) -> (fact: MemoryEvent)
        ensures
            fact.deep_view() == failed_fact(
                failure.deep_view(),
                MemoryFlowFailedMoment::AfterTurn,
            ),
    {
        failure_fact(failure, MemoryFailedMoment::AfterTurn)
    }
}

/// The conversation-level context the finalize hook receives.
pub struct PipelineConversationContext<'a, M, H> {
    subject: &'a Subject,
    conversation_id: &'a str,
    topic: &'a str,
    reader: MemoryReader<'a, M>,
    model: Option<H>,
}

/// What a [`PipelineConversationContext`] tells.
pub ghost struct PipelineConversationView {
    pub subject: SubjectView,
    pub conversation_id: Seq<char>,
    pub topic: Seq<char>,
}

impl<'a, M, H> DeepView for PipelineConversationContext<'a, M, H> {
    type V = PipelineConversationView;

    closed spec fn deep_view(&self) -> PipelineConversationView {
        PipelineConversationView {
            subject: self.subject.deep_view(),
            conversation_id: self.conversation_id@,
            topic: self.topic@,
        }
    }
}

impl<'a, M, H> PipelineConversationContext<'a, M, H> {
    /// The memory the context reads.
    pub closed spec fn reads(&self) -> M {
        self.reader.reads()
    }

    /// The model handle of the context, if the provider configured one.
    pub closed spec fn handle(&self) -> Option<H> {
        self.model
    }

    /// Builds the context.
    pub fn new(
        subject: &'a Subject,
        conversation_id: &'a str,
        topic: &'a str,
        reader: MemoryReader<'a, M>,
        model: Option<H>,
    ) -> (context: Self)
        ensures
            context.deep_view() == (PipelineConversationView {
                subject: subject.deep_view(),
                conversation_id: conversation_id@,
                topic: topic@,
            }),
            context.reads() == reader.reads(),
            context.handle() == model,
    {
        PipelineConversationContext { subject, conversation_id, topic, reader, model }
    }

    /// The conversation's owning subject.
    pub fn subject(&self) -> (subject: &'a Subject)
        ensures
            subject.deep_view() == self.deep_view().subject,
    {
        self.subject
    }

    /// The conversation's identity.
    pub fn conversation_id(&self) -> (id: &'a str)
        ensures
            id@ == self.deep_view().conversation_id,
    {
        self.conversation_id
    }

    /// The conversation's final topic.
    pub fn topic(&self) -> (topic: &'a str)
        ensures
            topic@ == self.deep_view().topic,
    {
        self.topic
    }

    /// The read-only projection of the memory implementation.
    pub fn reader(&self) -> (reader: &MemoryReader<'a, M>)
        ensures
            reader.reads() == self.reads(),
    {
        &self.reader
    }

    /// The narrated model handle; `None` when the provider configured none
    /// (no agent is in scope at conversation end).
    pub fn model(&self) -> (model: Option<&H>)
        ensures
            match model {
                Some(model) => self.handle() == Some(*model),
                None => self.handle() is None,
            },
    {
        self.model.as_ref()
    }

    /// The fact a failure reported by the finalize hook surfaces as.
    pub fn report_failure(&self, failure: MemoryFailure) -> (fact: MemoryEvent)
        ensures
            fact.deep_view() == failed_fact(
                failure.deep_view(),
                MemoryFlowFailedMoment::AtConversationEnd,
            ),
    {
        failure_fact(failure, MemoryFailedMoment::AtConversationEnd)
    }
}

/// No failure of the read phase is lost, whoever caused it: the rewriter's
/// comes first, then all of the assembler's in order, then, when the frame
/// was empty, the loss of the frame; and each surfaces as a fact of its own,
/// in that order. In place of an empty frame the run gets the input alone,
/// as the user said it.
pub proof fn read_failures_surface(
    input: Seq<char>,
    outcome: Option<Result<Option<Seq<char>>, MemoryFailureView>>,
    assembled: AssembleOutputView,
    i: int,
)
    ensures
        ({
            let read = read_output(input, rewrite_failures(outcome), assembled);
            let own = if outcome is Some && outcome->0 is Err {
                1int
            } else {
                0int
            };
            let lost = if assembled.messages.len() == 0 {
                1int
            } else {
                0int
            };
            &&& read.failures.len() == own + assembled.failures.len() + lost
            &&& own == 1 ==> Err::<Option<Seq<char>>, _>(read.failures[0]) == outcome->0
            &&& 0 <= i < assembled.failures.len() ==> read.failures[own + i]
                == assembled.failures[i]
            &&& lost == 1 ==> read.failures.last().stage == "assemble"@
            &&& lost == 1 ==> read.messages == seq![
                MessageView { role: Role::User, blocks: seq![ContentBlockView::Text { text: input }] },
            ]
            &&& failed_facts(read.failures).len() == read.failures.len()
            &&& 0 <= i < read.failures.len() ==> failed_facts(read.failures)[i] == (
            MemoryEventView::Failed {
                stage: read.failures[i].stage,
                detail: read.failures[i].detail,
                moment: MemoryFlowFailedMoment::AfterTurn,
            })
        }),
{
}

/// A change from one topic to another is written back, is told once, from
/// the old topic to the new one, and both hooks see it.
pub proof fn topic_shifts_are_told(
    s: WritePhaseView,
    topic: Seq<char>,
    archived: Result<(), MemoryFailureView>,
)
    requires
        s.previous.len() > 0,
        topic != s.previous,
    ensures
        ({
            let (next, step) = after_detection(s, Ok(Some(topic)));
            let change = Some((s.previous, topic));
            &&& step.set_topic == Some(topic)
            &&& step.facts == seq![
                SynonzEventView::Conversation(
                    ConversationEventView::TopicShifted {
                        conversation_id: s.conversation_id,
                        from: s.previous,
                        to: topic,
                    },
                ),
            ]
            &&& step.next == (WriteHookView::Archive { topic, topic_change: change })
            &&& after_archive(next, archived).next == (WriteHookView::SpawnTask {
                topic,
                topic_change: change,
            })
        }),
{
}

/// A detector that names no topic, or the one in place, changes nothing and
/// tells nothing.
pub proof fn steady_topics_are_silent(s: WritePhaseView)
    ensures
        after_detection(s, Ok(None)) == after_detection(s, Ok(Some(s.previous))),
        ({
            let (next, step) = after_detection(s, Ok(None));
            &&& next.topic == s.topic
            &&& step.set_topic is None
            &&& step.facts.len() == 0
            &&& step.next == (WriteHookView::Archive { topic: s.topic, topic_change: None })
        }),
{
}

/// The archive hook is told to have archived the turn, under its topic, or
/// to have failed, and the background hook to have failed or nothing; no
/// failure is lost.
pub proof fn write_failures_surface(
    s: WritePhaseView,
    archived: Result<(), MemoryFailureView>,
    spawned: Result<(), MemoryFailureView>,
)
    ensures
        after_archive(s, archived).facts.len() == 1,
        archived is Ok ==> after_archive(s, archived).facts[0] == SynonzEventView::Memory(
            MemoryEventView::TurnArchived {
                conversation_id: s.conversation_id,
                subject_id: s.subject_id,
                topic: s.topic,
            },
        ),
        archived matches Err(failure) ==> after_archive(s, archived).facts[0]
            == SynonzEventView::Memory(
            MemoryEventView::Failed {
                stage: failure.stage,
                detail: failure.detail,
                moment: MemoryFlowFailedMoment::AfterTurn,
            },
        ),
        after_archive(s, archived).set_topic is None,
        spawned is Ok ==> after_spawn(spawned).facts.len() == 0,
        spawned matches Err(failure) ==> after_spawn(spawned).facts == seq![
            SynonzEventView::Memory(
                MemoryEventView::Failed {
                    stage: failure.stage,
                    detail: failure.detail,
                    moment: MemoryFlowFailedMoment::AfterTurn,
                },
            ),
        ],
        after_spawn(spawned).next is Finished,
        after_spawn(spawned).set_topic is None,
{
}

} // verus!
