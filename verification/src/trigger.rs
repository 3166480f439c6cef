//! The memory behavior engine: topic tracking and layer-flow triggers.
//!
//! Orchestration lives here; storage and model access live with the driver.
//! After every completed turn the topic is updated, the mandatory resource
//! floors fire (L1 window, L2 cap), and stacked event policies fire on their
//! conditions.

use vstd::prelude::*;

use crate::context::{narrate_request, topic_or_empty};
use crate::conversation::{Conversation, ConversationView};
use crate::error::ModelError;
use crate::event::{CallPurpose, ModelEvent, ModelEventView, TokenUsage, TurnEvent, TurnEventView};
use crate::layers::{
    distill, distilled, KnowledgeFragment, KnowledgeFragmentView, L1Entry, L1EntryView,
    SummaryBlock, SummaryBlockView,
};
use crate::memory::{memory_error_text, MemoryStoreError, MemoryStoreErrorView};
use crate::message::{
    text_message_view, ContentBlock, ContentBlockView, Message, MessageView, Role,
};
use crate::model::{
    completion_view, CompletionView, ModelParams, ModelRequest, ModelRequestView,
};
use crate::shelves::at_most;
use crate::subject::subject_text;
use crate::text::{
    blanks_of, concat, fewer_words_are_the_first, first_words, leading_words, spaced,
};
use crate::tool::ToolSpec;

verus! {

/// An opt-in, event-driven policy. The resource floors are not listed here:
/// they always apply.
#[non_exhaustive]
#[derive(Debug, Clone, Copy, PartialEq, Eq, Structural)]
pub enum EventPolicy {
    /// Flush pre-shift turns into L2 when the topic detector reports a topic
    /// shift.
    TopicShift,
    /// Promote L2 summaries into L3 when the conversation ends.
    ConversationEnd,
}

/// The resource floors (mandatory, deterministic, never removed) and the
/// stacked event policies (opt-in).
#[derive(Debug)]
pub struct MemoryPolicies {
    /// L1 window: how many of the conversation's turns are kept verbatim
    /// (mandatory floor; overflow demotes to L2).
    pub l1_window: usize,
    /// L2 cap: how many summary blocks this conversation keeps (mandatory
    /// floor; overflow distills into L3).
    pub l2_cap: usize,
    /// Stacked event policies (empty by default; the floors always apply).
    pub extra: Vec<EventPolicy>,
}

impl Clone for MemoryPolicies {
    fn clone(&self) -> (copy: Self)
        ensures
            copy.l1_window == self.l1_window,
            copy.l2_cap == self.l2_cap,
            copy.extra@ == self.extra@,
    {
        let extra = self.extra.clone();
        assert(extra@ =~= self.extra@);
        MemoryPolicies { l1_window: self.l1_window, l2_cap: self.l2_cap, extra }
    }
}

impl Default for MemoryPolicies {
    fn default() -> (policies: Self)
        ensures
            policies.l1_window == 20,
            policies.l2_cap == 8,
            policies.extra@ == Seq::<EventPolicy>::empty(),
    {
        MemoryPolicies { l1_window: 20, l2_cap: 8, extra: Vec::new() }
    }
}

impl MemoryPolicies {
    /// Creates policies with explicit resource floors and no stacked events.
    pub fn new(l1_window: usize, l2_cap: usize) -> (policies: Self)
        ensures
            policies.l1_window == l1_window,
            policies.l2_cap == l2_cap,
            policies.extra@ == Seq::<EventPolicy>::empty(),
    {
        MemoryPolicies { l1_window, l2_cap, extra: Vec::new() }
    }

    /// Stacks event policies on top of the mandatory floors.
    pub fn with_extra(self, policies: Vec<EventPolicy>) -> (stacked: Self)
        ensures
            stacked.l1_window == self.l1_window,
            stacked.l2_cap == self.l2_cap,
            stacked.extra@ == self.extra@ + policies@,
    {
        let mut stacked = self;
        let mut policies = policies;
        stacked.extra.append(&mut policies);
        stacked
    }

    /// Whether an event policy is stacked.
    pub fn stacks(&self, policy: EventPolicy) -> (stacked: bool)
        ensures
            stacked == self.extra@.contains(policy),
    {
        let mut i: usize = 0;
        while i < self.extra.len()
            invariant
                i <= self.extra@.len(),
                forall|k: int| 0 <= k < i ==> self.extra@[k] != policy,
            decreases self.extra@.len() - i,
        {
            if self.extra[i] == policy {
                return true;
            }
            i += 1;
        }
        false
    }
}

/// The topic state machine's decision on one turn.
#[derive(Debug, PartialEq, Eq)]
pub struct TopicDecision {
    /// The current topic after processing this turn.
    pub topic: String,
    /// Whether the topic shifted at this turn.
    pub shifted: bool,
}

/// Detects the topic of a turn and whether it shifted from the current one.
/// Pluggable; the default is [`FirstSegmentDetector`].
pub trait TopicDetector {
    /// Returns the topic for `input` given the `current` topic; `shifted`
    /// signals a topic change.
    fn detect(&self, input: &str, current: Option<&str>) -> TopicDecision;
}

/// The default detector: the first meaningful segment of the input as the
/// topic, and no shift detection (a heuristic, not a classification).
#[derive(Debug)]
pub struct FirstSegmentDetector;

impl Default for FirstSegmentDetector {
    fn default() -> (detector: Self) {
        FirstSegmentDetector
    }
}

/// How many words of the input make a topic.
pub const SEGMENT_WORDS: usize = 4;

/// The first segment of an input: its first words, with a space between
/// them.
pub open spec fn first_segment(input: Seq<char>) -> Seq<char> {
    spaced(leading_words(input, blanks_of(input), SEGMENT_WORDS as nat))
}

impl TopicDetector for FirstSegmentDetector {
    fn detect(&self, input: &str, current: Option<&str>) -> (decision: TopicDecision)
        ensures
            decision.topic@ == (match current {
                Some(existing) if existing@.len() > 0 => existing@,
                _ => first_segment(input@),
            }),
            !decision.shifted,
    {
        if let Some(existing) = current {
            if existing.unicode_len() > 0 {
                return TopicDecision { topic: existing.to_owned(), shifted: false };
            }
        }
        TopicDecision { topic: first_words(input, SEGMENT_WORDS), shifted: false }
    }
}

/// The text blocks of a message, joined.
pub open spec fn joined_text(blocks: Seq<ContentBlockView>) -> Seq<char>
    decreases blocks.len(),
{
    if blocks.len() == 0 {
        Seq::empty()
    } else {
        joined_text(blocks.drop_last()) + match blocks.last() {
            ContentBlockView::Text { text } => text,
            _ => Seq::empty(),
        }
    }
}

/// The text of a message; a message without text has none.
pub fn message_text(message: &Message) -> (text: Option<String>)
    ensures
        match text {
            Some(text) => text@ == joined_text(message.deep_view().blocks) && text@.len() > 0,
            None => joined_text(message.deep_view().blocks).len() == 0,
        },
{
    let ghost blocks = message.deep_view().blocks;
    let mut text = String::new();
    let mut i: usize = 0;
    assert(blocks.take(0) =~= Seq::empty());
    while i < message.blocks.len()
        invariant
            i <= message.blocks@.len(),
            blocks == message.blocks.deep_view(),
            text@ == joined_text(blocks.take(i as int)),
        decreases message.blocks@.len() - i,
    {
        assert(blocks.take(i as int + 1).drop_last() =~= blocks.take(i as int));
        if let ContentBlock::Text { text: fragment } = &message.blocks[i] {
            text.append(fragment.as_str());
        }
        i += 1;
    }
    assert(blocks.take(blocks.len() as int) =~= blocks);
    if text.as_str().unicode_len() == 0 {
        None
    } else {
        Some(text)
    }
}

/// Whose words a transcript records, and how it marks them.
pub open spec fn speaker(role: Role) -> Option<Seq<char>> {
    match role {
        Role::User => Some("User: "@),
        Role::Assistant => Some("Assistant: "@),
        _ => None,
    }
}

/// The line a message adds to a transcript: what the user or the assistant
/// said, and nothing for a message without text.
pub open spec fn transcript_line(message: MessageView) -> Seq<char> {
    match speaker(message.role) {
        Some(mark) if joined_text(message.blocks).len() > 0 => mark + joined_text(message.blocks)
            + seq!['\n'],
        _ => Seq::empty(),
    }
}

/// The lines of messages, in order.
pub open spec fn transcript_lines(messages: Seq<MessageView>) -> Seq<char>
    decreases messages.len(),
{
    if messages.len() == 0 {
        Seq::empty()
    } else {
        transcript_lines(messages.drop_last()) + transcript_line(messages.last())
    }
}

/// The transcript of turns, in order.
pub open spec fn transcript_of(entries: Seq<L1EntryView>) -> Seq<char>
    decreases entries.len(),
{
    if entries.len() == 0 {
        Seq::empty()
    } else {
        transcript_of(entries.drop_last()) + transcript_lines(entries.last().messages)
    }
}

/// Appends what messages add to a transcript.
fn append_lines(transcript: &mut String, messages: &Vec<Message>)
    ensures
        final(transcript)@ == old(transcript)@ + transcript_lines(messages.deep_view()),
{
    let ghost before = transcript@;
    let ghost lines = messages.deep_view();
    let mut i: usize = 0;
    assert(lines.take(0) =~= Seq::empty());
    assert(before + Seq::<char>::empty() =~= before);
    while i < messages.len()
        invariant
            i <= messages@.len(),
            lines == messages.deep_view(),
            transcript@ == before + transcript_lines(lines.take(i as int)),
        decreases messages@.len() - i,
    {
        let ghost so_far = transcript@;
        let message = &messages[i];
        assert(lines.take(i as int + 1).drop_last() =~= lines.take(i as int));
        assert(lines.take(i as int + 1).last() == message.deep_view());
        let mark: Option<&str> = match message.role {
            Role::User => Some("User: "),
            Role::Assistant => Some("Assistant: "),
            _ => None,
        };
        if let Some(mark) = mark {
            if let Some(text) = message_text(message) {
                transcript.append(mark);
                transcript.append(text.as_str());
                transcript.push('\n');
            }
        }
        assert(transcript@ =~= so_far + transcript_line(message.deep_view()));
        assert(transcript@ =~= before + transcript_lines(lines.take(i as int + 1)));
        i += 1;
    }
    assert(lines.take(lines.len() as int) =~= lines);
}

/// The transcript of demoted turns.
pub fn transcript(entries: &Vec<L1Entry>) -> (text: String)
    ensures
        text@ == transcript_of(entries.deep_view()),
{
    let ghost turns = entries.deep_view();
    let mut text = String::new();
    let mut i: usize = 0;
    assert(turns.take(0) =~= Seq::empty());
    while i < entries.len()
        invariant
            i <= entries@.len(),
            turns == entries.deep_view(),
            text@ == transcript_of(turns.take(i as int)),
        decreases entries@.len() - i,
    {
        assert(turns.take(i as int + 1).drop_last() =~= turns.take(i as int));
        append_lines(&mut text, &entries[i].messages);
        i += 1;
    }
    assert(turns.take(turns.len() as int) =~= turns);
    text
}

/// What the model is asked when turns are summarized.
pub const SUMMARY_PROMPT: &'static str =
    "Summarize the following conversation turns into one short paragraph, preserving key facts, decisions, and preferences:\n\n";

/// How long a summary may be, in tokens.
pub const SUMMARY_MAX_TOKENS: u32 = 256;

/// The request that summarizes a transcript.
pub open spec fn summary_request_view(transcript: Seq<char>) -> ModelRequestView {
    ModelRequestView {
        messages: seq![text_message_view(Role::User, SUMMARY_PROMPT@ + transcript)],
        tools: Seq::empty(),
        params: ModelParams { max_tokens: Some(SUMMARY_MAX_TOKENS) },
    }
}

/// The request that summarizes a transcript: one user message, no tools.
pub fn summary_request(transcript: &str) -> (request: ModelRequest)
    ensures
        request.deep_view() == summary_request_view(transcript@),
{
    let mut messages: Vec<Message> = Vec::new();
    messages.push(Message::user(concat(SUMMARY_PROMPT, transcript)));
    let tools: Vec<ToolSpec> = Vec::new();
    assert(messages.deep_view() =~= summary_request_view(transcript@).messages);
    assert(tools.deep_view() =~= Seq::empty());
    ModelRequest::new(
        messages,
        tools,
        ModelParams::default().with_max_tokens(SUMMARY_MAX_TOKENS),
    )
}

/// The summary a model call leaves: the response's text, or the transcript
/// itself when the call failed.
pub open spec fn summary_of(completed: CompletionView, transcript: Seq<char>) -> Seq<char> {
    match completed {
        CompletionView::Answer { message, .. } => joined_text(message.blocks),
        CompletionView::Failure { .. } => transcript,
    }
}

/// What a finished summary call narrates: its response, when it has one.
pub open spec fn summary_event(completed: CompletionView) -> Option<TurnEventView> {
    match completed {
        CompletionView::Answer { message, usage } => Some(
            TurnEventView::Model(ModelEventView::Responded { message, usage, round: None }),
        ),
        CompletionView::Failure { .. } => None,
    }
}

/// Settles a summary call: the summary, so that nothing demoted is lost, and
/// what is narrated.
pub fn settle_summary(
    completed: Result<(Message, TokenUsage), ModelError>,
    transcript: String,
) -> (settled: (String, Option<TurnEvent>))
    ensures
        settled.0@ == summary_of(completion_view(completed), transcript@),
        settled.1.deep_view() == summary_event(completion_view(completed)),
{
    match completed {
        Ok((message, usage)) => {
            let summary = match message_text(&message) {
                Some(text) => text,
                None => String::new(),
            };
            assert(summary@ =~= joined_text(message.deep_view().blocks));
            (summary, Some(TurnEvent::Model(ModelEvent::Responded { message, usage, round: None })))
        },
        Err(_) => (transcript, None),
    }
}

/// Which rule demotes turns into L2.
#[derive(Debug, Clone, Copy, PartialEq, Eq, Structural)]
pub enum Demotion {
    /// The topic shifted, and the policy flushes.
    TopicShift,
    /// The L1 window overflowed.
    TurnCount,
}

/// Where a post-turn flow stands.
#[derive(Debug)]
enum FlowPhase {
    Appending,
    CountingTurns(Demotion),
    PoppingTurns(Demotion),
    Summarizing(Demotion, String),
    Storing(Demotion),
    CountingBlocks,
    PoppingBlocks,
    Distilling(Vec<SummaryBlock>),
    Finished,
}

/// What a flow's phase holds.
pub ghost enum FlowPhaseView {
    Appending,
    CountingTurns(Demotion),
    PoppingTurns(Demotion),
    Summarizing(Demotion, Seq<char>),
    Storing(Demotion),
    CountingBlocks,
    PoppingBlocks,
    Distilling(Seq<SummaryBlockView>),
    Finished,
}

impl DeepView for FlowPhase {
    type V = FlowPhaseView;

    closed spec fn deep_view(&self) -> FlowPhaseView {
        match self {
            FlowPhase::Appending => FlowPhaseView::Appending,
            FlowPhase::CountingTurns(demotion) => FlowPhaseView::CountingTurns(*demotion),
            FlowPhase::PoppingTurns(demotion) => FlowPhaseView::PoppingTurns(*demotion),
            FlowPhase::Summarizing(demotion, transcript) => FlowPhaseView::Summarizing(
                *demotion,
                transcript@,
            ),
            FlowPhase::Storing(demotion) => FlowPhaseView::Storing(*demotion),
            FlowPhase::CountingBlocks => FlowPhaseView::CountingBlocks,
            FlowPhase::PoppingBlocks => FlowPhaseView::PoppingBlocks,
            FlowPhase::Distilling(blocks) => FlowPhaseView::Distilling(blocks.deep_view()),
            FlowPhase::Finished => FlowPhaseView::Finished,
        }
    }
}

/// What the driver of a flow is to do next, on the layers of the
/// conversation the flow is for.
#[derive(Debug)]
pub enum FlowAction {
    /// Append a turn to L1, tagged with the topic.
    L1Append {
        /// The topic.
        topic: String,
        /// The turn's messages.
        messages: Vec<Message>,
    },
    /// Count the turns in L1.
    L1Len,
    /// Take the oldest turns out of L1.
    L1PopOldest(usize),
    /// Complete a model request.
    Summarize(ModelRequest),
    /// Append a summary block to L2.
    L2Append(SummaryBlock),
    /// Count the blocks in L2.
    L2Len,
    /// Take the oldest blocks out of L2.
    L2PopOldest(usize),
    /// Keep a piece of knowledge in L3.
    L3Upsert(KnowledgeFragment),
    /// Nothing: the flow is over.
    Done,
}

/// What a [`FlowAction`] holds.
pub ghost enum FlowActionView {
    L1Append { topic: Seq<char>, messages: Seq<MessageView> },
    L1Len,
    L1PopOldest(usize),
    Summarize(ModelRequestView),
    L2Append(SummaryBlockView),
    L2Len,
    L2PopOldest(usize),
    L3Upsert(KnowledgeFragmentView),
    Done,
}

impl DeepView for FlowAction {
    type V = FlowActionView;

    open spec fn deep_view(&self) -> FlowActionView {
        match self {
            FlowAction::L1Append { topic, messages } => FlowActionView::L1Append {
                topic: topic@,
                messages: messages.deep_view(),
            },
            FlowAction::L1Len => FlowActionView::L1Len,
            FlowAction::L1PopOldest(count) => FlowActionView::L1PopOldest(*count),
            FlowAction::Summarize(request) => FlowActionView::Summarize(request.deep_view()),
            FlowAction::L2Append(block) => FlowActionView::L2Append(block.deep_view()),
            FlowAction::L2Len => FlowActionView::L2Len,
            FlowAction::L2PopOldest(count) => FlowActionView::L2PopOldest(*count),
            FlowAction::L3Upsert(fragment) => FlowActionView::L3Upsert(fragment.deep_view()),
            FlowAction::Done => FlowActionView::Done,
        }
    }
}

/// What a flow decides at one step.
#[derive(Debug)]
pub struct FlowStep {
    /// What is narrated first.
    pub event: Option<TurnEvent>,
    /// What is done then.
    pub action: FlowAction,
}

/// What a [`FlowStep`] holds.
pub ghost struct FlowStepView {
    pub event: Option<TurnEventView>,
    pub action: FlowActionView,
}

impl DeepView for FlowStep {
    type V = FlowStepView;

    open spec fn deep_view(&self) -> FlowStepView {
        FlowStepView { event: self.event.deep_view(), action: self.action.deep_view() }
    }
}

/// What came of a [`FlowAction`].
#[derive(Debug)]
pub enum FlowInput {
    /// An append or an upsert.
    Written(Result<(), MemoryStoreError>),
    /// A length.
    Counted(Result<usize, MemoryStoreError>),
    /// The turns taken out.
    Turns(Result<Vec<L1Entry>, MemoryStoreError>),
    /// The model call.
    Summarized(Result<(Message, TokenUsage), ModelError>),
    /// The blocks taken out.
    Blocks(Result<Vec<SummaryBlock>, MemoryStoreError>),
}

/// What a [`FlowInput`] holds.
pub ghost enum FlowInputView {
    Written(Result<(), MemoryStoreErrorView>),
    Counted(Result<usize, MemoryStoreErrorView>),
    Turns(Result<Seq<L1EntryView>, MemoryStoreErrorView>),
    Summarized(CompletionView),
    Blocks(Result<Seq<SummaryBlockView>, MemoryStoreErrorView>),
}

impl DeepView for FlowInput {
    type V = FlowInputView;

    open spec fn deep_view(&self) -> FlowInputView {
        match self {
            FlowInput::Written(Ok(())) => FlowInputView::Written(Ok(())),
            FlowInput::Written(Err(error)) => FlowInputView::Written(Err(error.deep_view())),
            FlowInput::Counted(Ok(count)) => FlowInputView::Counted(Ok(*count)),
            FlowInput::Counted(Err(error)) => FlowInputView::Counted(Err(error.deep_view())),
            FlowInput::Turns(Ok(turns)) => FlowInputView::Turns(Ok(turns.deep_view())),
            FlowInput::Turns(Err(error)) => FlowInputView::Turns(Err(error.deep_view())),
            FlowInput::Summarized(completed) => FlowInputView::Summarized(
                completion_view(*completed),
            ),
            FlowInput::Blocks(Ok(blocks)) => FlowInputView::Blocks(Ok(blocks.deep_view())),
            FlowInput::Blocks(Err(error)) => FlowInputView::Blocks(Err(error.deep_view())),
        }
    }
}

/// The post-turn memory flow of one conversation: L1 write, topic shift
/// flush, resource floors.
///
/// Failures of the flow are not fatal (memory is auxiliary): they are
/// collected as soft errors, and the flow goes on.
#[derive(Debug)]
pub struct PostTurnFlow {
    subject: String,
    conversation_id: String,
    l1_window: usize,
    l2_cap: usize,
    topic: String,
    flush: bool,
    errors: Vec<String>,
    phase: FlowPhase,
}

/// What a [`PostTurnFlow`] holds.
#[verifier::ext_equal]
pub ghost struct FlowView {
    /// The owning subject, in text form.
    pub subject: Seq<char>,
    /// The conversation.
    pub conversation_id: Seq<char>,
    /// The L1 floor.
    pub l1_window: usize,
    /// The L2 floor.
    pub l2_cap: usize,
    /// The turn's topic.
    pub topic: Seq<char>,
    /// Whether pre-shift turns are flushed.
    pub flush: bool,
    /// The soft errors so far.
    pub errors: Seq<Seq<char>>,
    /// Where the flow stands.
    pub phase: FlowPhaseView,
}

impl DeepView for PostTurnFlow {
    type V = FlowView;

    closed spec fn deep_view(&self) -> FlowView {
        FlowView {
            subject: self.subject@,
            conversation_id: self.conversation_id@,
            l1_window: self.l1_window,
            l2_cap: self.l2_cap,
            topic: self.topic@,
            flush: self.flush,
            errors: self.errors.deep_view(),
            phase: self.phase.deep_view(),
        }
    }
}

/// A step that narrates nothing.
pub open spec fn quiet(action: FlowActionView) -> FlowStepView {
    FlowStepView { event: None, action }
}

/// What a write leaves of soft errors: its failure, marked with where it
/// happened.
pub open spec fn with_error(
    errors: Seq<Seq<char>>,
    mark: Seq<char>,
    written: Result<(), MemoryStoreErrorView>,
) -> Seq<Seq<char>> {
    match written {
        Ok(()) => errors,
        Err(error) => errors.push(mark + memory_error_text(error)),
    }
}

/// How the failed L2 append of a demotion is marked.
pub open spec fn demotion_mark(demotion: Demotion) -> Seq<char> {
    match demotion {
        Demotion::TopicShift => "l2 append (topic shift): "@,
        Demotion::TurnCount => "l2 append (turn count): "@,
    }
}

/// A new flow: the turn is written to L1 under its topic.
pub open spec fn flow_begun(
    subject: Seq<char>,
    conversation_id: Seq<char>,
    policies: MemoryPolicies,
    topic: Seq<char>,
    shifted: bool,
) -> FlowView {
    FlowView {
        subject,
        conversation_id,
        l1_window: policies.l1_window,
        l2_cap: policies.l2_cap,
        topic,
        flush: shifted && policies.extra@.contains(EventPolicy::TopicShift),
        errors: Seq::empty(),
        phase: FlowPhaseView::Appending,
    }
}

/// Turns are counted for a demotion.
pub open spec fn count_turns(s: FlowView, demotion: Demotion) -> (FlowView, FlowStepView) {
    (
        FlowView { phase: FlowPhaseView::CountingTurns(demotion), ..s },
        quiet(FlowActionView::L1Len),
    )
}

/// Blocks are counted for the L2 floor.
pub open spec fn count_blocks(s: FlowView) -> (FlowView, FlowStepView) {
    (FlowView { phase: FlowPhaseView::CountingBlocks, ..s }, quiet(FlowActionView::L2Len))
}

/// What comes after a demotion: the flush is followed by the window, the
/// window by the cap.
pub open spec fn after_demotion(s: FlowView, demotion: Demotion) -> (FlowView, FlowStepView) {
    match demotion {
        Demotion::TopicShift => count_turns(s, Demotion::TurnCount),
        Demotion::TurnCount => count_blocks(s),
    }
}

/// How many turns a demotion takes out of so many: at a topic shift those
/// before the current one, which is the first of the new topic; at the
/// window the overflow.
pub open spec fn demoted_turns(s: FlowView, demotion: Demotion, count: usize) -> int {
    match demotion {
        Demotion::TopicShift => if count > 0 {
            count - 1
        } else {
            0
        },
        Demotion::TurnCount => if count > s.l1_window {
            count - s.l1_window
        } else {
            0
        },
    }
}

/// A summary is stored in L2.
pub open spec fn store_summary(s: FlowView, demotion: Demotion, content: Seq<char>) -> (
    FlowView,
    FlowStepView,
) {
    (
        FlowView { phase: FlowPhaseView::Storing(demotion), ..s },
        quiet(
            FlowActionView::L2Append(
                SummaryBlockView { conversation_id: s.conversation_id, content, index: 0 },
            ),
        ),
    )
}

/// The next block is distilled into L3; after the last one the flow is
/// over.
pub open spec fn distill_next(s: FlowView, blocks: Seq<SummaryBlockView>, now: u64) -> (
    FlowView,
    FlowStepView,
) {
    if blocks.len() == 0 {
        (FlowView { phase: FlowPhaseView::Finished, ..s }, quiet(FlowActionView::Done))
    } else {
        (
            FlowView { phase: FlowPhaseView::Distilling(blocks.drop_first()), ..s },
            quiet(FlowActionView::L3Upsert(distilled(s.subject, s.topic, blocks[0], now))),
        )
    }
}

/// One step of the flow at the time `now` (epoch seconds).
pub open spec fn flow_step(s: FlowView, input: FlowInputView, now: u64) -> (
    FlowView,
    FlowStepView,
) {
    match (s.phase, input) {
        (FlowPhaseView::Appending, FlowInputView::Written(written)) => {
            let s1 = FlowView { errors: with_error(s.errors, "l1 append: "@, written), ..s };
            if s.flush {
                count_turns(s1, Demotion::TopicShift)
            } else {
                count_turns(s1, Demotion::TurnCount)
            }
        },
        (FlowPhaseView::CountingTurns(demotion), FlowInputView::Counted(counted)) => {
            let count = match counted {
                Ok(count) => count,
                Err(_) => 0,
            };
            if demoted_turns(s, demotion, count) > 0 {
                (
                    FlowView { phase: FlowPhaseView::PoppingTurns(demotion), ..s },
                    quiet(
                        FlowActionView::L1PopOldest(demoted_turns(s, demotion, count) as usize),
                    ),
                )
            } else {
                after_demotion(s, demotion)
            }
        },
        (FlowPhaseView::PoppingTurns(demotion), FlowInputView::Turns(popped)) => match popped {
            Ok(turns) if turns.len() > 0 => (
                FlowView {
                    phase: FlowPhaseView::Summarizing(demotion, transcript_of(turns)),
                    ..s
                },
                FlowStepView {
                    event: Some(
                        TurnEventView::Model(
                            ModelEventView::Requested {
                                purpose: CallPurpose::ContextManagement,
                                messages: summary_request_view(transcript_of(turns)).messages,
                                round: None,
                            },
                        ),
                    ),
                    action: FlowActionView::Summarize(summary_request_view(transcript_of(turns))),
                },
            ),
            _ => store_summary(s, demotion, Seq::empty()),
        },
        (
            FlowPhaseView::Summarizing(demotion, transcript),
            FlowInputView::Summarized(completed),
        ) => {
            let (s1, step) = store_summary(s, demotion, summary_of(completed, transcript));
            (s1, FlowStepView { event: summary_event(completed), ..step })
        },
        (FlowPhaseView::Storing(demotion), FlowInputView::Written(written)) => after_demotion(
            FlowView { errors: with_error(s.errors, demotion_mark(demotion), written), ..s },
            demotion,
        ),
        (FlowPhaseView::CountingBlocks, FlowInputView::Counted(counted)) => match counted {
            Ok(count) if count > s.l2_cap => (
                FlowView { phase: FlowPhaseView::PoppingBlocks, ..s },
                quiet(FlowActionView::L2PopOldest((count - s.l2_cap) as usize)),
            ),
            _ => distill_next(s, Seq::empty(), now),
        },
        (FlowPhaseView::PoppingBlocks, FlowInputView::Blocks(popped)) => match popped {
            Ok(blocks) => distill_next(s, blocks, now),
            Err(_) => distill_next(s, Seq::empty(), now),
        },
        (FlowPhaseView::Distilling(blocks), FlowInputView::Written(written)) => distill_next(
            FlowView { errors: with_error(s.errors, "l3 upsert: "@, written), ..s },
            blocks,
            now,
        ),
        _ => (s, quiet(FlowActionView::Done)),
    }
}

/// What the flow waits for.
pub open spec fn flow_expects(s: FlowView, input: FlowInputView) -> bool {
    match s.phase {
        FlowPhaseView::Appending => input is Written,
        FlowPhaseView::CountingTurns(_) => input is Counted,
        FlowPhaseView::PoppingTurns(_) => input is Turns,
        FlowPhaseView::Summarizing(..) => input is Summarized,
        FlowPhaseView::Storing(_) => input is Written,
        FlowPhaseView::CountingBlocks => input is Counted,
        FlowPhaseView::PoppingBlocks => input is Blocks,
        FlowPhaseView::Distilling(_) => input is Written,
        FlowPhaseView::Finished => false,
    }
}

impl PostTurnFlow {
    /// Begins the flow of a completed turn with what the detector decided:
    /// the topic is set, and the turn is written to L1.
    pub fn begin(
        conversation: &mut Conversation,
        policies: &MemoryPolicies,
        decision: TopicDecision,
        messages: Vec<Message>,
    ) -> (begun: (Self, FlowStep))
        ensures
            final(conversation).deep_view() == (ConversationView {
                topic: Some(decision.topic@),
                ..old(conversation).deep_view()
            }),
            begun.0.deep_view() == flow_begun(
                subject_text(old(conversation).deep_view().subject),
                old(conversation).deep_view().id,
                *policies,
                decision.topic@,
                decision.shifted,
            ),
            begun.1.deep_view() == quiet(
                FlowActionView::L1Append {
                    topic: decision.topic@,
                    messages: messages.deep_view(),
                },
            ),
    {
        conversation.set_topic(decision.topic.as_str());
        let errors: Vec<String> = Vec::new();
        assert(errors.deep_view() =~= Seq::<Seq<char>>::empty());
        let flow = PostTurnFlow {
            subject: conversation.subject().to_string(),
            conversation_id: conversation.id().to_owned(),
            l1_window: policies.l1_window,
            l2_cap: policies.l2_cap,
            topic: decision.topic.clone(),
            flush: decision.shifted && policies.stacks(EventPolicy::TopicShift),
            errors,
            phase: FlowPhase::Appending,
        };
        (
            flow,
            FlowStep {
                event: None,
                action: FlowAction::L1Append { topic: decision.topic, messages },
            },
        )
    }

    /// Begins the flow of a completed turn: asks the detector for the topic,
    /// given the current one.
    pub fn start<D: TopicDetector>(
        detector: &D,
        conversation: &mut Conversation,
        policies: &MemoryPolicies,
        input: &str,
        messages: Vec<Message>,
    ) -> (begun: (Self, FlowStep))
        ensures
            exists|current: Option<&str>, decision: TopicDecision|
                #![trigger call_ensures(D::detect, (detector, input, current), decision)]
                {
                    &&& current.deep_view() == old(conversation).deep_view().topic
                    &&& call_ensures(D::detect, (detector, input, current), decision)
                    &&& final(conversation).deep_view() == (ConversationView {
                        topic: Some(decision.topic@),
                        ..old(conversation).deep_view()
                    })
                    &&& begun.0.deep_view() == flow_begun(
                        subject_text(old(conversation).deep_view().subject),
                        old(conversation).deep_view().id,
                        *policies,
                        decision.topic@,
                        decision.shifted,
                    )
                    &&& begun.1.deep_view() == quiet(
                        FlowActionView::L1Append {
                            topic: decision.topic@,
                            messages: messages.deep_view(),
                        },
                    )
                },
    {
        let decision = {
            let current = conversation.topic();
            detector.detect(input, current)
        };
        Self::begin(conversation, policies, decision, messages)
    }

    fn note(&mut self, mark: &str, written: Result<(), MemoryStoreError>)
        ensures
            final(self).deep_view() == (FlowView {
                errors: with_error(
                    old(self).deep_view().errors,
                    mark@,
                    (match written {
                        Ok(()) => Ok(()),
                        Err(error) => Err(error.deep_view()),
                    }),
                ),
                ..old(self).deep_view()
            }),
    {
        if let Err(error) = written {
            let text = error.to_string();
            self.errors.push(concat(mark, text.as_str()));
            assert(self.errors.deep_view() =~= old(self).errors.deep_view().push(
                mark@ + memory_error_text(error.deep_view()),
            ));
        }
    }

    fn count_turns(&mut self, demotion: Demotion) -> (step: FlowStep)
        ensures
            (final(self).deep_view(), step.deep_view()) == count_turns(
                old(self).deep_view(),
                demotion,
            ),
    {
        self.phase = FlowPhase::CountingTurns(demotion);
        FlowStep { event: None, action: FlowAction::L1Len }
    }

    fn after_demotion(&mut self, demotion: Demotion) -> (step: FlowStep)
        ensures
            (final(self).deep_view(), step.deep_view()) == after_demotion(
                old(self).deep_view(),
                demotion,
            ),
    {
        match demotion {
            Demotion::TopicShift => self.count_turns(Demotion::TurnCount),
            Demotion::TurnCount => {
                self.phase = FlowPhase::CountingBlocks;
                FlowStep { event: None, action: FlowAction::L2Len }
            },
        }
    }

    fn turns_counted(
        &mut self,
        demotion: Demotion,
        counted: Result<usize, MemoryStoreError>,
    ) -> (step: FlowStep)
        requires
            old(self).deep_view().phase == FlowPhaseView::CountingTurns(demotion),
        ensures
            (final(self).deep_view(), step.deep_view()) == flow_step(
                old(self).deep_view(),
                FlowInput::Counted(counted).deep_view(),
                0,
            ),
    {
        let count: usize = match counted {
            Ok(count) => count,
            Err(_) => 0,
        };
        let overflow: usize = match demotion {
            Demotion::TopicShift => if count > 0 {
                count - 1
            } else {
                0
            },
            Demotion::TurnCount => if count > self.l1_window {
                count - self.l1_window
            } else {
                0
            },
        };
        if overflow > 0 {
            self.phase = FlowPhase::PoppingTurns(demotion);
            FlowStep { event: None, action: FlowAction::L1PopOldest(overflow) }
        } else {
            self.after_demotion(demotion)
        }
    }

    fn store_summary(&mut self, demotion: Demotion, content: String) -> (step: FlowStep)
        ensures
            (final(self).deep_view(), step.deep_view()) == store_summary(
                old(self).deep_view(),
                demotion,
                content@,
            ),
    {
        self.phase = FlowPhase::Storing(demotion);
        FlowStep {
            event: None,
            action: FlowAction::L2Append(
                SummaryBlock { conversation_id: self.conversation_id.clone(), content, index: 0 },
            ),
        }
    }

    fn turns_popped(
        &mut self,
        demotion: Demotion,
        popped: Result<Vec<L1Entry>, MemoryStoreError>,
    ) -> (step: FlowStep)
        requires
            old(self).deep_view().phase == FlowPhaseView::PoppingTurns(demotion),
        ensures
            (final(self).deep_view(), step.deep_view()) == flow_step(
                old(self).deep_view(),
                FlowInput::Turns(popped).deep_view(),
                0,
            ),
    {
        if let Ok(turns) = popped {
            if turns.len() > 0 {
                let text = transcript(&turns);
                let request = summary_request(text.as_str());
                let event = narrate_request(&request);
                self.phase = FlowPhase::Summarizing(demotion, text);
                return FlowStep { event: Some(event), action: FlowAction::Summarize(request) };
            }
        }
        let nothing = String::new();
        assert(nothing@ =~= Seq::<char>::empty());
        self.store_summary(demotion, nothing)
    }

    fn distill_next(&mut self, blocks: Vec<SummaryBlock>, now: u64) -> (step: FlowStep)
        ensures
            (final(self).deep_view(), step.deep_view()) == distill_next(
                old(self).deep_view(),
                blocks.deep_view(),
                now,
            ),
    {
        if blocks.len() == 0 {
            self.phase = FlowPhase::Finished;
            FlowStep { event: None, action: FlowAction::Done }
        } else {
            let mut rest = blocks;
            let block = rest.remove(0);
            assert(rest.deep_view() =~= blocks.deep_view().drop_first());
            self.phase = FlowPhase::Distilling(rest);
            let fragment = distill(self.subject.clone(), self.topic.clone(), block, now);
            FlowStep { event: None, action: FlowAction::L3Upsert(fragment) }
        }
    }

    /// Takes what came of the last action, at the time `now` (epoch
    /// seconds), and names the next one.
    pub fn step(&mut self, input: FlowInput, now: u64) -> (step: FlowStep)
        requires
            flow_expects(old(self).deep_view(), input.deep_view()),
        ensures
            (final(self).deep_view(), step.deep_view()) == flow_step(
                old(self).deep_view(),
                input.deep_view(),
                now,
            ),
    {
        let mut phase = FlowPhase::Finished;
        core::mem::swap(&mut phase, &mut self.phase);
        match (phase, input) {
            (FlowPhase::Appending, FlowInput::Written(written)) => {
                self.note("l1 append: ", written);
                if self.flush {
                    self.count_turns(Demotion::TopicShift)
                } else {
                    self.count_turns(Demotion::TurnCount)
                }
            },
            (FlowPhase::CountingTurns(demotion), FlowInput::Counted(counted)) => {
                self.phase = FlowPhase::CountingTurns(demotion);
                self.turns_counted(demotion, counted)
            },
            (FlowPhase::PoppingTurns(demotion), FlowInput::Turns(popped)) => {
                self.phase = FlowPhase::PoppingTurns(demotion);
                self.turns_popped(demotion, popped)
            },
            (FlowPhase::Summarizing(demotion, transcript), FlowInput::Summarized(completed)) => {
                let (summary, event) = settle_summary(completed, transcript);
                let mut step = self.store_summary(demotion, summary);
                step.event = event;
                step
            },
            (FlowPhase::Storing(demotion), FlowInput::Written(written)) => {
                let mark = match demotion {
                    Demotion::TopicShift => "l2 append (topic shift): ",
                    Demotion::TurnCount => "l2 append (turn count): ",
                };
                self.note(mark, written);
                self.after_demotion(demotion)
            },
            (FlowPhase::CountingBlocks, FlowInput::Counted(counted)) => {
                if let Ok(count) = counted {
                    if count > self.l2_cap {
                        let overflow: usize = count - self.l2_cap;
                        self.phase = FlowPhase::PoppingBlocks;
                        return FlowStep {
                            event: None,
                            action: FlowAction::L2PopOldest(overflow),
                        };
                    }
                }
                let none: Vec<SummaryBlock> = Vec::new();
                assert(none.deep_view() =~= Seq::<SummaryBlockView>::empty());
                self.distill_next(none, now)
            },
            (FlowPhase::PoppingBlocks, FlowInput::Blocks(popped)) => match popped {
                Ok(blocks) => self.distill_next(blocks, now),
                Err(_) => {
                    let none: Vec<SummaryBlock> = Vec::new();
                    assert(none.deep_view() =~= Seq::<SummaryBlockView>::empty());
                    self.distill_next(none, now)
                },
            },
            (FlowPhase::Distilling(blocks), FlowInput::Written(written)) => {
                self.note("l3 upsert: ", written);
                self.distill_next(blocks, now)
            },
            _ => FlowStep { event: None, action: FlowAction::Done },
        }
    }

    /// What the flow leaves: the current topic and the soft errors.
    pub fn into_outcome(self) -> (outcome: (String, Vec<String>))
        ensures
            outcome.0@ == self.deep_view().topic,
            outcome.1.deep_view() == self.deep_view().errors,
    {
        (self.topic, self.errors)
    }
}

/// The layers of one conversation.
#[verifier::ext_equal]
pub ghost struct LayersView {
    pub l1: Seq<L1EntryView>,
    pub l2: Seq<SummaryBlockView>,
    pub l3: Seq<KnowledgeFragmentView>,
}

/// What a working store makes of an action: appends arrive at the end, the
/// oldest leave from the front, and every answer tells what is there. The
/// model may answer anything.
pub open spec fn store_works(
    before: LayersView,
    action: FlowActionView,
    input: FlowInputView,
    after: LayersView,
) -> bool {
    match action {
        FlowActionView::L1Append { topic, messages } => input == FlowInputView::Written(Ok(()))
            && after == (LayersView {
            l1: before.l1.push(L1EntryView { topic, messages }),
            ..before
        }),
        FlowActionView::L1Len => before.l1.len() <= usize::MAX && input == FlowInputView::Counted(
            Ok(before.l1.len() as usize),
        ) && after == before,
        FlowActionView::L1PopOldest(count) => {
            let n = at_most(count, before.l1.len());
            input == FlowInputView::Turns(Ok(before.l1.take(n))) && after == (LayersView {
                l1: before.l1.skip(n),
                ..before
            })
        },
        FlowActionView::Summarize(_) => input is Summarized && after == before,
        FlowActionView::L2Append(block) => input == FlowInputView::Written(Ok(())) && after == (
        LayersView { l2: before.l2.push(block), ..before }),
        FlowActionView::L2Len => before.l2.len() <= usize::MAX && input == FlowInputView::Counted(
            Ok(before.l2.len() as usize),
        ) && after == before,
        FlowActionView::L2PopOldest(count) => {
            let n = at_most(count, before.l2.len());
            input == FlowInputView::Blocks(Ok(before.l2.take(n))) && after == (LayersView {
                l2: before.l2.skip(n),
                ..before
            })
        },
        FlowActionView::L3Upsert(fragment) => input == FlowInputView::Written(Ok(())) && after == (
        LayersView { l3: before.l3.push(fragment), ..before }),
        FlowActionView::Done => false,
    }
}

/// A flow on its way: where it stands, what is to be done, and the layers.
pub ghost struct FlowMoment {
    pub flow: FlowView,
    pub action: FlowActionView,
    pub layers: LayersView,
}

/// Whether one moment follows another.
pub open spec fn flow_follows(
    before: FlowMoment,
    input: FlowInputView,
    now: u64,
    after: FlowMoment,
) -> bool {
    &&& store_works(before.layers, before.action, input, after.layers)
    &&& (after.flow, after.action) == (
        flow_step(before.flow, input, now).0,
        flow_step(before.flow, input, now).1.action,
    )
}

/// Whether one moment leads to another, whatever the model answers.
pub open spec fn flow_leads(before: FlowMoment, after: FlowMoment) -> bool {
    exists|input: FlowInputView, now: u64| flow_follows(before, input, now, after)
}

/// A flow's course on a working store, from its beginning.
pub open spec fn flow_run(moments: Seq<FlowMoment>) -> bool {
    &&& moments.len() > 0
    &&& moments[0].flow.phase is Appending
    &&& moments[0].action is L1Append
    &&& forall|i: int|
        #![trigger moments[i]]
        0 < i < moments.len() ==> flow_leads(moments[i - 1], moments[i])
}

/// The blocks that a flow has appended to L2 so far, in order.
pub open spec fn blocks_written(moments: Seq<FlowMoment>) -> Seq<SummaryBlockView>
    decreases moments.len(),
{
    if moments.len() <= 1 {
        Seq::empty()
    } else {
        let earlier = moments.drop_last();
        match earlier.last().action {
            FlowActionView::L2Append(block) => blocks_written(earlier).push(block),
            _ => blocks_written(earlier),
        }
    }
}

/// The turns of L1 at a flow's beginning and, behind them, the current one.
pub open spec fn turns_with(first: FlowMoment) -> Seq<L1EntryView> {
    first.layers.l1.push(
        L1EntryView {
            topic: first.action->L1Append_topic,
            messages: first.action->L1Append_messages,
        },
    )
}

/// The newest of a sequence.
pub open spec fn newest<T>(all: Seq<T>, count: int) -> Seq<T> {
    all.skip(all.len() - count)
}

/// How many of so many turns a flow leaves in L1: the flush leaves the
/// current one, and the window bounds what is left.
pub open spec fn kept_turns(s: FlowView, turns: nat) -> int {
    at_most(
        s.l1_window,
        if s.flush {
            1
        } else {
            turns
        },
    )
}

/// Whether a fragment is a block's knowledge under a topic, whenever it was
/// made.
pub open spec fn knows(
    fragment: KnowledgeFragmentView,
    subject: Seq<char>,
    topic: Seq<char>,
    block: SummaryBlockView,
) -> bool {
    fragment == distilled(subject, topic, block, fragment.created_at)
}

/// Whether L3 has gained the knowledge of the first of the given blocks,
/// in order and behind what it held.
pub open spec fn gained(
    before: Seq<KnowledgeFragmentView>,
    after: Seq<KnowledgeFragmentView>,
    subject: Seq<char>,
    topic: Seq<char>,
    blocks: Seq<SummaryBlockView>,
    count: int,
) -> bool {
    &&& 0 <= count <= blocks.len()
    &&& after.len() == before.len() + count
    &&& after.take(before.len() as int) == before
    &&& forall|i: int|
        0 <= i < count ==> knows(#[trigger] after[before.len() + i], subject, topic, blocks[i])
}

/// What holds of the turns at every moment of a run on a working store.
spec fn turns_kept(first: FlowMoment, m: FlowMoment) -> bool {
    let turns = turns_with(first);
    let unflushed = if first.flow.flush {
        newest(turns, 1)
    } else {
        turns
    };
    let kept = newest(turns, kept_turns(first.flow, turns.len()));
    match m.flow.phase {
        FlowPhaseView::Appending => m == first,
        FlowPhaseView::CountingTurns(Demotion::TopicShift) => m.action is L1Len && m.layers.l1
            == turns && first.flow.flush,
        FlowPhaseView::PoppingTurns(Demotion::TopicShift) => turns.len() <= usize::MAX && m.action
            == FlowActionView::L1PopOldest((turns.len() - 1) as usize) && m.layers.l1 == turns
            && first.flow.flush,
        FlowPhaseView::Summarizing(Demotion::TopicShift, _) => m.action is Summarize && m.layers.l1
            == unflushed && first.flow.flush,
        FlowPhaseView::Storing(Demotion::TopicShift) => m.action is L2Append && m.layers.l1
            == unflushed && first.flow.flush,
        FlowPhaseView::CountingTurns(Demotion::TurnCount) => m.action is L1Len && m.layers.l1
            == unflushed,
        FlowPhaseView::PoppingTurns(Demotion::TurnCount) => m.layers.l1 == unflushed
            && unflushed.len() <= usize::MAX && unflushed.len() > first.flow.l1_window && m.action
            == FlowActionView::L1PopOldest((unflushed.len() - first.flow.l1_window) as usize),
        FlowPhaseView::Summarizing(Demotion::TurnCount, _) => m.action is Summarize && m.layers.l1
            == kept,
        FlowPhaseView::Storing(Demotion::TurnCount) => m.action is L2Append && m.layers.l1 == kept,
        FlowPhaseView::CountingBlocks => m.action is L2Len && m.layers.l1 == kept,
        FlowPhaseView::PoppingBlocks => m.action is L2PopOldest && m.layers.l1 == kept,
        FlowPhaseView::Distilling(_) => m.action is L3Upsert && m.layers.l1 == kept,
        FlowPhaseView::Finished => m.action is Done && m.layers.l1 == kept,
    }
}

/// What holds of the blocks at every moment of a run on a working store.
spec fn blocks_kept(first: FlowMoment, written: Seq<SummaryBlockView>, m: FlowMoment) -> bool {
    let all = first.layers.l2 + written;
    let cap = first.flow.l2_cap;
    match m.flow.phase {
        FlowPhaseView::PoppingBlocks => m.layers.l2 == all && m.layers.l3 == first.layers.l3
            && all.len() > cap && all.len() <= usize::MAX && m.action
            == FlowActionView::L2PopOldest((all.len() - cap) as usize),
        FlowPhaseView::Distilling(blocks) => {
            let done = m.layers.l3.len() - first.layers.l3.len();
            &&& m.layers.l2 == newest(all, cap as int)
            &&& done + 1 + blocks.len() == all.len() - cap
            &&& gained(
                first.layers.l3,
                m.layers.l3,
                first.flow.subject,
                first.flow.topic,
                all,
                done,
            )
            &&& blocks == all.subrange(done + 1, all.len() - cap)
            &&& m.action matches FlowActionView::L3Upsert(fragment)
            &&& knows(fragment, first.flow.subject, first.flow.topic, all[done])
        },
        FlowPhaseView::Finished => m.layers.l2 == newest(all, at_most(cap, all.len())) && gained(
            first.layers.l3,
            m.layers.l3,
            first.flow.subject,
            first.flow.topic,
            all,
            all.len() - at_most(cap, all.len()),
        ),
        _ => m.layers.l2 == all && m.layers.l3 == first.layers.l3,
    }
}

/// How many summaries a flow writes for so many turns: one when its flush
/// takes turns out, and one when what is left exceeds the window.
pub open spec fn summaries(s: FlowView, turns: nat) -> int {
    let flushed = if s.flush && turns > 1 {
        1int
    } else {
        0
    };
    let left = if s.flush {
        1
    } else {
        turns
    };
    if left > s.l1_window {
        flushed + 1
    } else {
        flushed
    }
}

/// What holds of the number of blocks written at every moment of a run on a
/// working store.
spec fn written_kept(first: FlowMoment, written: nat, m: FlowMoment) -> bool {
    let turns = turns_with(first).len();
    let flushed = if first.flow.flush && turns > 1 {
        1int
    } else {
        0
    };
    match m.flow.phase {
        FlowPhaseView::Appending => written == 0,
        FlowPhaseView::CountingTurns(Demotion::TopicShift) => written == 0,
        FlowPhaseView::PoppingTurns(Demotion::TopicShift) => written == 0 && flushed == 1,
        FlowPhaseView::Summarizing(Demotion::TopicShift, _) => written == 0 && flushed == 1,
        FlowPhaseView::Storing(Demotion::TopicShift) => written == 0 && flushed == 1,
        FlowPhaseView::CountingTurns(Demotion::TurnCount) => written == flushed,
        FlowPhaseView::PoppingTurns(Demotion::TurnCount) => written + 1 == summaries(
            first.flow,
            turns,
        ),
        FlowPhaseView::Summarizing(Demotion::TurnCount, _) => written + 1 == summaries(
            first.flow,
            turns,
        ),
        FlowPhaseView::Storing(Demotion::TurnCount) => written + 1 == summaries(first.flow, turns),
        _ => written == summaries(first.flow, turns),
    }
}

/// What a flow never changes of itself.
spec fn flow_fixed(first: FlowView, s: FlowView) -> bool {
    &&& s.subject == first.subject
    &&& s.conversation_id == first.conversation_id
    &&& s.l1_window == first.l1_window
    &&& s.l2_cap == first.l2_cap
    &&& s.topic == first.topic
    &&& s.flush == first.flush
}

proof fn turns_step_keeps(
    first: FlowMoment,
    before: FlowMoment,
    input: FlowInputView,
    now: u64,
    after: FlowMoment,
)
    requires
        first.flow.phase is Appending,
        first.action is L1Append,
        flow_fixed(first.flow, before.flow),
        turns_kept(first, before),
        flow_follows(before, input, now, after),
    ensures
        flow_fixed(first.flow, after.flow),
        turns_kept(first, after),
{
    let turns = turns_with(first);
    let unflushed = if first.flow.flush {
        newest(turns, 1)
    } else {
        turns
    };
    let kept = newest(turns, kept_turns(first.flow, turns.len()));
    match before.flow.phase {
        FlowPhaseView::CountingTurns(Demotion::TopicShift) => {
            assert(turns.len() == 1 ==> unflushed =~= turns);
        },
        FlowPhaseView::PoppingTurns(Demotion::TopicShift) => {
            assert(turns.skip(turns.len() - 1) =~= unflushed);
        },
        FlowPhaseView::CountingTurns(Demotion::TurnCount) => {
            assert(unflushed.len() <= first.flow.l1_window ==> unflushed =~= kept);
        },
        FlowPhaseView::PoppingTurns(Demotion::TurnCount) => {
            assert(unflushed.skip(unflushed.len() - first.flow.l1_window) =~= kept);
        },
        _ => {},
    }
}

proof fn blocks_step_keeps(
    first: FlowMoment,
    written: Seq<SummaryBlockView>,
    before: FlowMoment,
    input: FlowInputView,
    now: u64,
    after: FlowMoment,
)
    requires
        first.flow.phase is Appending,
        first.action is L1Append,
        flow_fixed(first.flow, before.flow),
        turns_kept(first, before),
        blocks_kept(first, written, before),
        flow_follows(before, input, now, after),
    ensures
        blocks_kept(
            first,
            match before.action {
                FlowActionView::L2Append(block) => written.push(block),
                _ => written,
            },
            after,
        ),
{
    let all = first.layers.l2 + written;
    let cap = first.flow.l2_cap;
    match before.action {
        FlowActionView::L2Append(block) => {
            assert(all.push(block) =~= first.layers.l2 + written.push(block));
        },
        _ => {},
    }
    match before.flow.phase {
        FlowPhaseView::CountingBlocks => {
            assert(newest(all, all.len() as int) =~= all);
            assert(first.layers.l3.take(first.layers.l3.len() as int) =~= first.layers.l3);
        },
        FlowPhaseView::PoppingBlocks => {
            let gone = all.take(all.len() - cap);
            assert(first.layers.l3.take(first.layers.l3.len() as int) =~= first.layers.l3);
            assert(gone.drop_first() =~= all.subrange(1, all.len() - cap));
        },
        FlowPhaseView::Distilling(blocks) => {
            let old3 = before.layers.l3;
            let new3 = after.layers.l3;
            let done = old3.len() - first.layers.l3.len();
            assert(new3.take(first.layers.l3.len() as int) =~= old3.take(
                first.layers.l3.len() as int,
            ));
            assert forall|i: int| 0 <= i < done + 1 implies knows(
                #[trigger] new3[first.layers.l3.len() + i],
                first.flow.subject,
                first.flow.topic,
                all[i],
            ) by {
                if i < done {
                    assert(new3[first.layers.l3.len() + i] == old3[first.layers.l3.len() + i]);
                }
            }
            if blocks.len() > 0 {
                assert(blocks.drop_first() =~= all.subrange(done + 2, all.len() - cap));
            }
        },
        _ => {},
    }
}

proof fn written_step_keeps(
    first: FlowMoment,
    written: nat,
    before: FlowMoment,
    input: FlowInputView,
    now: u64,
    after: FlowMoment,
)
    requires
        first.flow.phase is Appending,
        first.action is L1Append,
        flow_fixed(first.flow, before.flow),
        turns_kept(first, before),
        written_kept(first, written, before),
        flow_follows(before, input, now, after),
    ensures
        written_kept(
            first,
            match before.action {
                FlowActionView::L2Append(_) => written + 1,
                _ => written,
            },
            after,
        ),
{
}

proof fn flow_run_keeps(moments: Seq<FlowMoment>)
    requires
        flow_run(moments),
    ensures
        written_kept(moments[0], blocks_written(moments).len(), moments.last()),
        flow_fixed(moments[0].flow, moments.last().flow),
        turns_kept(moments[0], moments.last()),
        blocks_kept(moments[0], blocks_written(moments), moments.last()),
    decreases moments.len(),
{
    let first = moments[0];
    if moments.len() == 1 {
        assert(first.layers.l2 + blocks_written(moments) =~= first.layers.l2);
    } else {
        let earlier = moments.drop_last();
        assert forall|i: int|
            #![trigger earlier[i]]
            0 < i < earlier.len() implies flow_leads(earlier[i - 1], earlier[i]) by {
            assert(moments[i] == earlier[i]);
        }
        flow_run_keeps(earlier);
        let before = earlier.last();
        let after = moments.last();
        assert(after == moments[moments.len() - 1]);
        let (input, now) = choose|input: FlowInputView, now: u64|
            flow_follows(before, input, now, after);
        turns_step_keeps(first, before, input, now, after);
        blocks_step_keeps(first, blocks_written(earlier), before, input, now, after);
        written_step_keeps(first, blocks_written(earlier).len(), before, input, now, after);
    }
}

/// The resource floors are mandatory: when the flow is over, on a working
/// store, L1 is within its window and L2 within its cap, whatever the
/// policies, the topic, and the model's answers. What they keep is the
/// newest, in order: of the turns, the current one among them, and of the
/// blocks, those that the flow itself appended among them.
pub proof fn the_floors_hold(moments: Seq<FlowMoment>)
    requires
        flow_run(moments),
        moments.last().flow.phase is Finished,
    ensures
        ({
            let turns = turns_with(moments[0]);
            let blocks = moments[0].layers.l2 + blocks_written(moments);
            let left = moments.last().layers;
            &&& left.l1.len() <= moments[0].flow.l1_window
            &&& left.l1 == newest(turns, kept_turns(moments[0].flow, turns.len()))
            &&& left.l2.len() <= moments[0].flow.l2_cap
            &&& left.l2 == newest(blocks, at_most(moments[0].flow.l2_cap, blocks.len()))
        }),
{
    flow_run_keeps(moments);
}

/// No summary block is lost on the way: on a working store each block that
/// left L2 is in L3, as knowledge under the current topic, in order and
/// behind what L3 held before.
pub proof fn no_block_is_lost(moments: Seq<FlowMoment>)
    requires
        flow_run(moments),
        moments.last().flow.phase is Finished,
    ensures
        ({
            let blocks = moments[0].layers.l2 + blocks_written(moments);
            let left = moments.last().layers;
            &&& left.l2.len() <= blocks.len()
            &&& left.l2 == newest(blocks, left.l2.len() as int)
            &&& gained(
                moments[0].layers.l3,
                left.l3,
                moments[0].flow.subject,
                moments[0].flow.topic,
                blocks,
                blocks.len() - left.l2.len(),
            )
        }),
{
    flow_run_keeps(moments);
}

/// Demoted turns become one block: on a working store a flow writes one
/// summary for the turns its flush takes out, one for those beyond the
/// window, and no other.
pub proof fn each_demotion_writes_one_block(moments: Seq<FlowMoment>)
    requires
        flow_run(moments),
        moments.last().flow.phase is Finished,
    ensures
        blocks_written(moments).len() == summaries(
            moments[0].flow,
            turns_with(moments[0]).len(),
        ),
{
    flow_run_keeps(moments);
}

/// A topic shift flushes the turns before it and no more: with the policy
/// stacked, on a working store, L1 ends with the current turn alone, the
/// first of the new topic, and the turns before it have become one block.
pub proof fn a_shift_keeps_the_current_turn(moments: Seq<FlowMoment>)
    requires
        flow_run(moments),
        moments.last().flow.phase is Finished,
        moments[0].flow.flush,
        moments[0].flow.l1_window >= 1,
    ensures
        moments.last().layers.l1 == seq![turns_with(moments[0]).last()],
        blocks_written(moments).len() == (if moments[0].layers.l1.len() > 0 {
            1int
        } else {
            0
        }),
{
    flow_run_keeps(moments);
    assert(newest(turns_with(moments[0]), 1) =~= seq![turns_with(moments[0]).last()]);
}

/// A failing summary call loses nothing: the transcript itself is stored.
pub proof fn a_failing_summary_keeps_the_transcript(
    s: FlowView,
    demotion: Demotion,
    transcript: Seq<char>,
    completed: CompletionView,
    now: u64,
)
    requires
        s.phase == FlowPhaseView::Summarizing(demotion, transcript),
        completed is Failure,
    ensures
        flow_step(s, FlowInputView::Summarized(completed), now).1 == quiet(
            FlowActionView::L2Append(
                SummaryBlockView {
                    conversation_id: s.conversation_id,
                    content: transcript,
                    index: 0,
                },
            ),
        ),
{
}

/// Failures of the flow are soft: whatever an append, a count, or an upsert
/// came to, the flow goes on as it would have, and only a failed write is
/// told.
pub proof fn flow_failures_are_soft(s: FlowView, error: MemoryStoreErrorView, now: u64)
    requires
        flow_expects(s, FlowInputView::Written(Ok(()))),
    ensures
        ({
            let (failed, failed_step) = flow_step(s, FlowInputView::Written(Err(error)), now);
            let (done, step) = flow_step(s, FlowInputView::Written(Ok(())), now);
            &&& failed_step == step
            &&& failed == (FlowView { errors: failed.errors, ..done })
            &&& failed.errors.len() == s.errors.len() + 1
            &&& done.errors == s.errors
        }),
{
}

/// Where a conversation-end flow stands.
#[derive(Debug)]
enum EndPhase {
    Counting,
    Popping,
    Distilling(Vec<SummaryBlock>),
    Finished,
}

/// What a conversation-end flow's phase holds.
pub ghost enum EndPhaseView {
    Counting,
    Popping,
    Distilling(Seq<SummaryBlockView>),
    Finished,
}

impl DeepView for EndPhase {
    type V = EndPhaseView;

    closed spec fn deep_view(&self) -> EndPhaseView {
        match self {
            EndPhase::Counting => EndPhaseView::Counting,
            EndPhase::Popping => EndPhaseView::Popping,
            EndPhase::Distilling(blocks) => EndPhaseView::Distilling(blocks.deep_view()),
            EndPhase::Finished => EndPhaseView::Finished,
        }
    }
}

/// The conversation-end flow: mechanical promotion of all L2 blocks into L3,
/// when the policy is stacked. No model call is required.
#[derive(Debug)]
pub struct EndFlow {
    subject: String,
    topic: String,
    errors: Vec<String>,
    phase: EndPhase,
}

/// What an [`EndFlow`] holds.
#[verifier::ext_equal]
pub ghost struct EndFlowView {
    /// The owning subject, in text form.
    pub subject: Seq<char>,
    /// The conversation's topic.
    pub topic: Seq<char>,
    /// The soft errors so far.
    pub errors: Seq<Seq<char>>,
    /// Where the flow stands.
    pub phase: EndPhaseView,
}

impl DeepView for EndFlow {
    type V = EndFlowView;

    closed spec fn deep_view(&self) -> EndFlowView {
        EndFlowView {
            subject: self.subject@,
            topic: self.topic@,
            errors: self.errors.deep_view(),
            phase: self.phase.deep_view(),
        }
    }
}

/// The next block is promoted; after the last one the flow is over.
pub open spec fn end_distill_next(s: EndFlowView, blocks: Seq<SummaryBlockView>, now: u64) -> (
    EndFlowView,
    FlowActionView,
) {
    if blocks.len() == 0 {
        (EndFlowView { phase: EndPhaseView::Finished, ..s }, FlowActionView::Done)
    } else {
        (
            EndFlowView { phase: EndPhaseView::Distilling(blocks.drop_first()), ..s },
            FlowActionView::L3Upsert(distilled(s.subject, s.topic, blocks[0], now)),
        )
    }
}

/// One step of the conversation-end flow at the time `now`: every block
/// there is leaves L2, and each becomes knowledge.
pub open spec fn end_flow_step(s: EndFlowView, input: FlowInputView, now: u64) -> (
    EndFlowView,
    FlowActionView,
) {
    match (s.phase, input) {
        (EndPhaseView::Counting, FlowInputView::Counted(counted)) => (
            EndFlowView { phase: EndPhaseView::Popping, ..s },
            FlowActionView::L2PopOldest(
                match counted {
                    Ok(count) => count,
                    Err(_) => 0,
                },
            ),
        ),
        (EndPhaseView::Popping, FlowInputView::Blocks(popped)) => match popped {
            Ok(blocks) => end_distill_next(s, blocks, now),
            Err(_) => end_distill_next(s, Seq::empty(), now),
        },
        (EndPhaseView::Distilling(blocks), FlowInputView::Written(written)) => end_distill_next(
            EndFlowView { errors: with_error(s.errors, "l3 upsert (end): "@, written), ..s },
            blocks,
            now,
        ),
        _ => (s, FlowActionView::Done),
    }
}

/// What the conversation-end flow waits for.
pub open spec fn end_flow_expects(s: EndFlowView, input: FlowInputView) -> bool {
    match s.phase {
        EndPhaseView::Counting => input is Counted,
        EndPhaseView::Popping => input is Blocks,
        EndPhaseView::Distilling(_) => input is Written,
        EndPhaseView::Finished => false,
    }
}

impl EndFlow {
    /// Begins the flow of an ending conversation: without the policy it is
    /// over at once.
    pub fn begin(conversation: &Conversation, policies: &MemoryPolicies) -> (begun: (
        Self,
        FlowAction,
    ))
        ensures
            begun.0.deep_view() == (EndFlowView {
                subject: subject_text(conversation.deep_view().subject),
                topic: topic_or_empty(conversation.deep_view().topic),
                errors: Seq::empty(),
                phase: if policies.extra@.contains(EventPolicy::ConversationEnd) {
                    EndPhaseView::Counting
                } else {
                    EndPhaseView::Finished
                },
            }),
            begun.1.deep_view() == (if policies.extra@.contains(EventPolicy::ConversationEnd) {
                FlowActionView::L2Len
            } else {
                FlowActionView::Done
            }),
    {
        let topic = match conversation.topic() {
            Some(topic) => topic.to_owned(),
            None => String::new(),
        };
        assert(topic@ =~= topic_or_empty(conversation.deep_view().topic));
        let errors: Vec<String> = Vec::new();
        assert(errors.deep_view() =~= Seq::<Seq<char>>::empty());
        let stacked = policies.stacks(EventPolicy::ConversationEnd);
        let flow = EndFlow {
            subject: conversation.subject().to_string(),
            topic,
            errors,
            phase: if stacked {
                EndPhase::Counting
            } else {
                EndPhase::Finished
            },
        };
        (
            flow,
            if stacked {
                FlowAction::L2Len
            } else {
                FlowAction::Done
            },
        )
    }

    fn distill_next(&mut self, blocks: Vec<SummaryBlock>, now: u64) -> (action: FlowAction)
        ensures
            (final(self).deep_view(), action.deep_view()) == end_distill_next(
                old(self).deep_view(),
                blocks.deep_view(),
                now,
            ),
    {
        if blocks.len() == 0 {
            self.phase = EndPhase::Finished;
            FlowAction::Done
        } else {
            let mut rest = blocks;
            let block = rest.remove(0);
            assert(rest.deep_view() =~= blocks.deep_view().drop_first());
            self.phase = EndPhase::Distilling(rest);
            FlowAction::L3Upsert(distill(self.subject.clone(), self.topic.clone(), block, now))
        }
    }

    /// Takes what came of the last action, at the time `now` (epoch
    /// seconds), and names the next one.
    pub fn step(&mut self, input: FlowInput, now: u64) -> (action: FlowAction)
        requires
            end_flow_expects(old(self).deep_view(), input.deep_view()),
        ensures
            (final(self).deep_view(), action.deep_view()) == end_flow_step(
                old(self).deep_view(),
                input.deep_view(),
                now,
            ),
    {
        let mut phase = EndPhase::Finished;
        core::mem::swap(&mut phase, &mut self.phase);
        match (phase, input) {
            (EndPhase::Counting, FlowInput::Counted(counted)) => {
                self.phase = EndPhase::Popping;
                match counted {
                    Ok(count) => FlowAction::L2PopOldest(count),
                    Err(_) => FlowAction::L2PopOldest(0),
                }
            },
            (EndPhase::Popping, FlowInput::Blocks(popped)) => {
                let blocks: Vec<SummaryBlock> = match popped {
                    Ok(blocks) => blocks,
                    Err(_) => Vec::new(),
                };
                assert(popped is Err ==> blocks.deep_view() =~= Seq::<SummaryBlockView>::empty());
                self.distill_next(blocks, now)
            },
            (EndPhase::Distilling(blocks), FlowInput::Written(written)) => {
                if let Err(error) = written {
                    let text = error.to_string();
                    self.errors.push(concat("l3 upsert (end): ", text.as_str()));
                    assert(self.errors.deep_view() =~= old(self).errors.deep_view().push(
                        "l3 upsert (end): "@ + memory_error_text(error.deep_view()),
                    ));
                }
                self.distill_next(blocks, now)
            },
            _ => FlowAction::Done,
        }
    }

    /// What the flow leaves: the soft errors.
    pub fn into_errors(self) -> (errors: Vec<String>)
        ensures
            errors.deep_view() == self.deep_view().errors,
    {
        self.errors
    }
}

/// A conversation-end flow on its way.
pub ghost struct EndMoment {
    pub flow: EndFlowView,
    pub action: FlowActionView,
    pub layers: LayersView,
}

/// Whether one moment leads to another on a working store.
pub open spec fn end_leads(before: EndMoment, now: u64, after: EndMoment) -> bool {
    exists|input: FlowInputView| #[trigger]
        store_works(before.layers, before.action, input, after.layers) && (
        after.flow,
        after.action,
    ) == end_flow_step(before.flow, input, now)
}

/// A conversation-end flow's course on a working store at the time `now`,
/// from its beginning.
pub open spec fn end_run(moments: Seq<EndMoment>, now: u64) -> bool {
    &&& moments.len() > 0
    &&& moments[0].flow.phase is Counting
    &&& moments[0].action is L2Len
    &&& forall|i: int|
        #![trigger moments[i]]
        0 < i < moments.len() ==> end_leads(moments[i - 1], now, moments[i])
}

/// Every block as knowledge, in order.
pub open spec fn all_distilled(
    subject: Seq<char>,
    topic: Seq<char>,
    blocks: Seq<SummaryBlockView>,
    now: u64,
) -> Seq<KnowledgeFragmentView> {
    blocks.map_values(|block: SummaryBlockView| distilled(subject, topic, block, now))
}

/// What holds at every moment of a run that began with these layers.
spec fn end_keeps(first: EndMoment, m: EndMoment, now: u64) -> bool {
    let all = first.layers.l3 + all_distilled(
        first.flow.subject,
        first.flow.topic,
        first.layers.l2,
        now,
    );
    &&& m.flow.subject == first.flow.subject
    &&& m.flow.topic == first.flow.topic
    &&& m.layers.l1 == first.layers.l1
    &&& match m.flow.phase {
        EndPhaseView::Counting => m.action is L2Len && m.layers == first.layers,
        EndPhaseView::Popping => m.layers == first.layers && first.layers.l2.len() <= usize::MAX
            && m.action == FlowActionView::L2PopOldest(first.layers.l2.len() as usize),
        EndPhaseView::Distilling(blocks) => {
            &&& m.layers.l2.len() == 0
            &&& m.action matches FlowActionView::L3Upsert(fragment)
            &&& m.layers.l3.push(fragment) + all_distilled(
                first.flow.subject,
                first.flow.topic,
                blocks,
                now,
            ) == all
        },
        EndPhaseView::Finished => m.action is Done && m.layers.l2.len() == 0 && m.layers.l3 == all,
    }
}

proof fn end_step_keeps(first: EndMoment, before: EndMoment, now: u64, after: EndMoment)
    requires
        end_keeps(first, before, now),
        end_leads(before, now, after),
    ensures
        end_keeps(first, after, now),
{
    let subject = first.flow.subject;
    let topic = first.flow.topic;
    let all = first.layers.l3 + all_distilled(subject, topic, first.layers.l2, now);
    let input = choose|input: FlowInputView| #[trigger]
        store_works(before.layers, before.action, input, after.layers) && (
        after.flow,
        after.action,
    ) == end_flow_step(before.flow, input, now);
    match before.flow.phase {
        EndPhaseView::Popping => {
            let blocks = first.layers.l2;
            assert(blocks.take(blocks.len() as int) =~= blocks);
            assert(blocks.skip(blocks.len() as int) =~= Seq::empty());
            if blocks.len() == 0 {
                assert(all =~= first.layers.l3);
            } else {
                assert(first.layers.l3.push(distilled(subject, topic, blocks[0], now))
                    + all_distilled(subject, topic, blocks.drop_first(), now) =~= all);
            }
        },
        EndPhaseView::Distilling(blocks) => {
            let stored = after.layers.l3;
            if blocks.len() == 0 {
                assert(stored + all_distilled(subject, topic, blocks, now) =~= stored);
            } else {
                assert(stored.push(distilled(subject, topic, blocks[0], now)) + all_distilled(
                    subject,
                    topic,
                    blocks.drop_first(),
                    now,
                ) =~= stored + all_distilled(subject, topic, blocks, now));
            }
        },
        _ => {},
    }
}

/// Promotion at the end is complete: on a working store every L2 block has
/// become L3 knowledge under the conversation's topic, in order, and L2 is
/// empty.
pub proof fn every_block_is_promoted(moments: Seq<EndMoment>, now: u64)
    requires
        end_run(moments, now),
        moments.last().flow.phase is Finished,
    ensures
        moments.last().layers.l2.len() == 0,
        moments.last().layers.l3 == moments[0].layers.l3 + all_distilled(
            moments[0].flow.subject,
            moments[0].flow.topic,
            moments[0].layers.l2,
            now,
        ),
{
    end_run_keeps(moments, now);
}

proof fn end_run_keeps(moments: Seq<EndMoment>, now: u64)
    requires
        end_run(moments, now),
    ensures
        end_keeps(moments[0], moments.last(), now),
    decreases moments.len(),
{
    if moments.len() > 1 {
        let earlier = moments.drop_last();
        assert forall|i: int|
            #![trigger earlier[i]]
            0 < i < earlier.len() implies end_leads(earlier[i - 1], now, earlier[i]) by {
            assert(moments[i] == earlier[i]);
        }
        end_run_keeps(earlier, now);
        assert(moments.last() == moments[moments.len() - 1]);
        end_step_keeps(moments[0], earlier.last(), now, moments.last());
    }
}

/// The text of blocks in a row is the text of the first ones, then that of
/// the others; a text block gives its text and any other block nothing.
pub proof fn block_texts_join(
    blocks: Seq<ContentBlockView>,
    more: Seq<ContentBlockView>,
    block: ContentBlockView,
)
    ensures
        joined_text(blocks + more) == joined_text(blocks) + joined_text(more),
        joined_text(seq![block]) == (match block {
            ContentBlockView::Text { text } => text,
            _ => Seq::empty(),
        }),
    decreases more.len(),
{
    reveal_with_fuel(joined_text, 2);
    assert(seq![block].drop_last() =~= Seq::<ContentBlockView>::empty());
    if more.len() == 0 {
        assert(blocks + more =~= blocks);
        assert(joined_text(blocks) + joined_text(more) =~= joined_text(blocks));
    } else {
        block_texts_join(blocks, more.drop_last(), block);
        assert((blocks + more).drop_last() =~= blocks + more.drop_last());
        assert((blocks + more).last() == more.last());
        assert(joined_text(blocks + more) =~= joined_text(blocks) + joined_text(more));
    }
}

/// The lines of messages in a row are the lines of the first ones, then
/// those of the others. A message of the user or the assistant that says
/// something gives one line, with who said it and all of what was said; any
/// other message gives none.
pub proof fn lines_join(messages: Seq<MessageView>, more: Seq<MessageView>, message: MessageView)
    ensures
        transcript_lines(messages + more) == transcript_lines(messages) + transcript_lines(more),
        joined_text(message.blocks).len() > 0 && message.role == Role::User ==> transcript_lines(
            seq![message],
        ) == "User: "@ + joined_text(message.blocks) + seq!['\n'],
        joined_text(message.blocks).len() > 0 && message.role == Role::Assistant
            ==> transcript_lines(seq![message]) == "Assistant: "@ + joined_text(message.blocks)
            + seq!['\n'],
        joined_text(message.blocks).len() == 0 || (message.role != Role::User && message.role
            != Role::Assistant) ==> transcript_lines(seq![message]) == Seq::<char>::empty(),
    decreases more.len(),
{
    reveal_with_fuel(transcript_lines, 2);
    assert(seq![message].drop_last() =~= Seq::<MessageView>::empty());
    assert(transcript_lines(seq![message]) =~= transcript_line(message));
    if more.len() == 0 {
        assert(messages + more =~= messages);
        assert(transcript_lines(messages) + transcript_lines(more) =~= transcript_lines(messages));
    } else {
        lines_join(messages, more.drop_last(), message);
        assert((messages + more).drop_last() =~= messages + more.drop_last());
        assert((messages + more).last() == more.last());
        assert(transcript_lines(messages + more) =~= transcript_lines(messages)
            + transcript_lines(more));
    }
}

/// The transcript of turns in a row is the transcript of the first ones,
/// then that of the others, and a turn gives the lines of its messages: no
/// demoted turn is left out of what is summarized, or of what is kept when
/// the summary fails.
pub proof fn transcripts_join(
    entries: Seq<L1EntryView>,
    more: Seq<L1EntryView>,
    entry: L1EntryView,
)
    ensures
        transcript_of(entries + more) == transcript_of(entries) + transcript_of(more),
        transcript_of(seq![entry]) == transcript_lines(entry.messages),
    decreases more.len(),
{
    reveal_with_fuel(transcript_of, 2);
    assert(seq![entry].drop_last() =~= Seq::<L1EntryView>::empty());
    assert(transcript_of(seq![entry]) =~= transcript_lines(entry.messages));
    if more.len() == 0 {
        assert(entries + more =~= entries);
        assert(transcript_of(entries) + transcript_of(more) =~= transcript_of(entries));
    } else {
        transcripts_join(entries, more.drop_last(), entry);
        assert((entries + more).drop_last() =~= entries + more.drop_last());
        assert((entries + more).last() == more.last());
        assert(transcript_of(entries + more) =~= transcript_of(entries) + transcript_of(more));
    }
}

/// Each turn's lines stand in the transcript in one piece and in order, and
/// so stand in the request that asks for the summary.
pub proof fn every_turn_is_summarized(entries: Seq<L1EntryView>, i: int)
    requires
        0 <= i < entries.len(),
    ensures
        transcript_of(entries) == transcript_of(entries.take(i)) + transcript_lines(
            entries[i].messages,
        ) + transcript_of(entries.skip(i + 1)),
        summary_request_view(transcript_of(entries)).messages == seq![
            text_message_view(Role::User, SUMMARY_PROMPT@ + transcript_of(entries)),
        ],
{
    transcripts_join(entries.take(i), seq![entries[i]], entries[i]);
    transcripts_join(entries.take(i) + seq![entries[i]], entries.skip(i + 1), entries[i]);
    assert(entries.take(i) + seq![entries[i]] + entries.skip(i + 1) =~= entries);
}

/// The turns a demotion takes out become one block of this conversation. The
/// model is asked once, as the user, to summarize the transcript of all of
/// them, without tools and within the token limit, and is told to be asked
/// so; the block holds the text of its answer, or the transcript itself when
/// it gives none.
pub proof fn demoted_turns_become_a_block(
    s: FlowView,
    turns: Seq<L1EntryView>,
    completed: CompletionView,
    now: u64,
    later: u64,
)
    requires
        s.phase is PoppingTurns,
        turns.len() > 0,
    ensures
        ({
            let (asking, step) = flow_step(s, FlowInputView::Turns(Ok(turns)), now);
            let (_, stored) = flow_step(asking, FlowInputView::Summarized(completed), later);
            let asked = seq![
                MessageView {
                    role: Role::User,
                    blocks: seq![
                        ContentBlockView::Text { text: SUMMARY_PROMPT@ + transcript_of(turns) },
                    ],
                },
            ];
            &&& step.action == FlowActionView::Summarize(
                ModelRequestView {
                    messages: asked,
                    tools: Seq::empty(),
                    params: ModelParams { max_tokens: Some(SUMMARY_MAX_TOKENS) },
                },
            )
            &&& step.event == Some(
                TurnEventView::Model(
                    ModelEventView::Requested {
                        purpose: CallPurpose::ContextManagement,
                        messages: asked,
                        round: None,
                    },
                ),
            )
            &&& stored.action == FlowActionView::L2Append(
                SummaryBlockView {
                    conversation_id: s.conversation_id,
                    content: match completed {
                        CompletionView::Answer { message, .. } => joined_text(message.blocks),
                        CompletionView::Failure { .. } => transcript_of(turns),
                    },
                    index: 0,
                },
            )
            &&& stored.event == (match completed {
                CompletionView::Answer { message, usage } => Some(
                    TurnEventView::Model(ModelEventView::Responded { message, usage, round: None }),
                ),
                CompletionView::Failure { .. } => None,
            })
        }),
{
}

/// A store that cannot count or hand out is taken to hold nothing, and a
/// write that fails is told with where it happened and why.
pub proof fn failing_stores_are_empty(s: FlowView, error: MemoryStoreErrorView, now: u64)
    ensures
        s.phase is CountingTurns || s.phase is CountingBlocks ==> flow_step(
            s,
            FlowInputView::Counted(Err(error)),
            now,
        ) == flow_step(s, FlowInputView::Counted(Ok(0)), now),
        s.phase is PoppingTurns ==> flow_step(s, FlowInputView::Turns(Err(error)), now)
            == flow_step(s, FlowInputView::Turns(Ok(Seq::empty())), now),
        s.phase is PoppingBlocks ==> flow_step(s, FlowInputView::Blocks(Err(error)), now)
            == flow_step(s, FlowInputView::Blocks(Ok(Seq::empty())), now),
        s.phase is Appending ==> flow_step(
            s,
            FlowInputView::Written(Err(error)),
            now,
        ).0.errors == s.errors.push("l1 append: "@ + memory_error_text(error)),
        s.phase == FlowPhaseView::Storing(Demotion::TopicShift) ==> flow_step(
            s,
            FlowInputView::Written(Err(error)),
            now,
        ).0.errors == s.errors.push("l2 append (topic shift): "@ + memory_error_text(error)),
        s.phase == FlowPhaseView::Storing(Demotion::TurnCount) ==> flow_step(
            s,
            FlowInputView::Written(Err(error)),
            now,
        ).0.errors == s.errors.push("l2 append (turn count): "@ + memory_error_text(error)),
        s.phase is Distilling ==> flow_step(
            s,
            FlowInputView::Written(Err(error)),
            now,
        ).0.errors == s.errors.push("l3 upsert: "@ + memory_error_text(error)),
{
}

/// A flow takes its floors from the policies, and flushes exactly when the
/// topic shifted and the policies say so: neither alone does.
pub proof fn flushing_takes_a_shift_and_the_policy(
    subject: Seq<char>,
    conversation_id: Seq<char>,
    policies: MemoryPolicies,
    topic: Seq<char>,
    shifted: bool,
)
    ensures
        ({
            let begun = flow_begun(subject, conversation_id, policies, topic, shifted);
            &&& begun.flush <==> shifted && exists|i: int|
                0 <= i < policies.extra@.len() && policies.extra@[i] == EventPolicy::TopicShift
            &&& begun.l1_window == policies.l1_window
            &&& begun.l2_cap == policies.l2_cap
            &&& begun.subject == subject
            &&& begun.conversation_id == conversation_id
            &&& begun.topic == topic
            &&& begun.errors.len() == 0
            &&& begun.phase is Appending
        }),
{
}

/// How far a flow's phase is from its end.
pub open spec fn stages_left(phase: FlowPhaseView) -> int {
    match phase {
        FlowPhaseView::Appending => 11,
        FlowPhaseView::CountingTurns(Demotion::TopicShift) => 10,
        FlowPhaseView::PoppingTurns(Demotion::TopicShift) => 9,
        FlowPhaseView::Summarizing(Demotion::TopicShift, _) => 8,
        FlowPhaseView::Storing(Demotion::TopicShift) => 7,
        FlowPhaseView::CountingTurns(Demotion::TurnCount) => 6,
        FlowPhaseView::PoppingTurns(Demotion::TurnCount) => 5,
        FlowPhaseView::Summarizing(Demotion::TurnCount, _) => 4,
        FlowPhaseView::Storing(Demotion::TurnCount) => 3,
        FlowPhaseView::CountingBlocks => 2,
        FlowPhaseView::PoppingBlocks | FlowPhaseView::Distilling(_) => 1,
        FlowPhaseView::Finished => 0,
    }
}

/// A flow comes to its end whatever the stores and the model answer: each
/// step brings it nearer, or distills one block less; it is done exactly
/// when it is over, and what it asks for is what it waits for.
pub proof fn flows_come_to_an_end(s: FlowView, input: FlowInputView, now: u64)
    requires
        flow_expects(s, input),
    ensures
        ({
            let (next, step) = flow_step(s, input, now);
            &&& stages_left(next.phase) < stages_left(s.phase) || (next.phase
                matches FlowPhaseView::Distilling(rest) && (s.phase
                matches FlowPhaseView::Distilling(blocks) ==> rest.len() < blocks.len()))
            &&& step.action is Done <==> next.phase is Finished
            &&& next.phase is CountingTurns ==> step.action is L1Len
            &&& next.phase is PoppingTurns ==> step.action is L1PopOldest
            &&& next.phase is Summarizing ==> step.action is Summarize
            &&& next.phase is Storing ==> step.action is L2Append
            &&& next.phase is CountingBlocks ==> step.action is L2Len
            &&& next.phase is PoppingBlocks ==> step.action is L2PopOldest
            &&& next.phase is Distilling ==> step.action is L3Upsert
        }),
{
}

/// Every block becomes a piece of knowledge of its own, in order, with all
/// of its content.
pub proof fn all_blocks_are_distilled(
    subject: Seq<char>,
    topic: Seq<char>,
    blocks: Seq<SummaryBlockView>,
    now: u64,
    i: int,
)
    ensures
        all_distilled(subject, topic, blocks, now).len() == blocks.len(),
        0 <= i < blocks.len() ==> {
            let fragment = all_distilled(subject, topic, blocks, now)[i];
            &&& fragment.content == blocks[i].content
            &&& fragment.identity.conversation_id == blocks[i].conversation_id
            &&& fragment.identity.subject_id == subject
            &&& fragment.identity.topic == topic
            &&& fragment.created_at == now
        },
{
}

/// The conversation-end flow asks for all blocks there are and distills
/// each; a store that fails is taken to hold nothing, a failed write is told
/// and holds nothing up, and the flow comes to its end.
pub proof fn the_end_flow_goes_through(
    s: EndFlowView,
    count: usize,
    blocks: Seq<SummaryBlockView>,
    error: MemoryStoreErrorView,
    now: u64,
)
    ensures
        s.phase is Counting ==> {
            &&& end_flow_step(s, FlowInputView::Counted(Ok(count)), now) == (
                EndFlowView { phase: EndPhaseView::Popping, ..s },
                FlowActionView::L2PopOldest(count),
            )
            &&& end_flow_step(s, FlowInputView::Counted(Err(error)), now) == end_flow_step(
                s,
                FlowInputView::Counted(Ok(0)),
                now,
            )
        },
        s.phase is Popping ==> {
            &&& blocks.len() > 0 ==> end_flow_step(s, FlowInputView::Blocks(Ok(blocks)), now) == (
                EndFlowView { phase: EndPhaseView::Distilling(blocks.skip(1)), ..s },
                FlowActionView::L3Upsert(distilled(s.subject, s.topic, blocks[0], now)),
            )
            &&& end_flow_step(s, FlowInputView::Blocks(Ok(Seq::empty())), now).1 is Done
            &&& end_flow_step(s, FlowInputView::Blocks(Err(error)), now).1 is Done
        },
        s.phase == EndPhaseView::Distilling(blocks) ==> {
            let (done, action) = end_flow_step(s, FlowInputView::Written(Ok(())), now);
            let (failed, same) = end_flow_step(s, FlowInputView::Written(Err(error)), now);
            &&& action == same
            &&& failed == (EndFlowView {
                errors: s.errors.push("l3 upsert (end): "@ + memory_error_text(error)),
                ..done
            })
            &&& done.errors == s.errors
            &&& blocks.len() > 0 ==> done.phase == EndPhaseView::Distilling(blocks.skip(1))
                && action == FlowActionView::L3Upsert(
                distilled(s.subject, s.topic, blocks[0], now),
            )
            &&& blocks.len() == 0 ==> action is Done && done.phase is Finished
        },
{
    assert(blocks.len() > 0 ==> blocks.drop_first() =~= blocks.skip(1));
}

/// A used-up window demotes the overflow and no more, and a shift all turns
/// but the current one; when nothing is to be demoted nothing is taken out.
pub proof fn demotions_take_the_overflow(s: FlowView, count: usize, now: u64)
    ensures
        s.phase == FlowPhaseView::CountingTurns(Demotion::TurnCount) ==> {
            let action = flow_step(s, FlowInputView::Counted(Ok(count)), now).1.action;
            &&& count > s.l1_window ==> (action matches FlowActionView::L1PopOldest(n) && n
                + s.l1_window == count)
            &&& count <= s.l1_window ==> action is L2Len
        },
        s.phase == FlowPhaseView::CountingTurns(Demotion::TopicShift) ==> {
            let action = flow_step(s, FlowInputView::Counted(Ok(count)), now).1.action;
            &&& count > 1 ==> (action matches FlowActionView::L1PopOldest(n) && n + 1 == count)
            &&& count <= 1 ==> action is L1Len
        },
        s.phase is CountingBlocks ==> {
            let action = flow_step(s, FlowInputView::Counted(Ok(count)), now).1.action;
            &&& count > s.l2_cap ==> (action matches FlowActionView::L2PopOldest(n) && n
                + s.l2_cap == count)
            &&& count <= s.l2_cap ==> action is Done
        },
{
}

/// What [`transcript`] returns for turns in a row is what it returns for the
/// first ones, then what it returns for the others; and for one turn it is
/// the lines of its messages.
pub proof fn transcripts_of_turns_join(
    entries: Vec<L1Entry>,
    more: Vec<L1Entry>,
    all: Vec<L1Entry>,
    first: String,
    second: String,
    whole: String,
)
    requires
        all.deep_view() == entries.deep_view() + more.deep_view(),
        call_ensures(transcript, (&entries,), first),
        call_ensures(transcript, (&more,), second),
        call_ensures(transcript, (&all,), whole),
    ensures
        whole@ == first@ + second@,
        entries.deep_view().len() == 1 ==> first@ == transcript_lines(
            entries.deep_view()[0].messages,
        ),
{
    let turns = entries.deep_view();
    transcripts_join(turns, more.deep_view(), turns[0]);
    if turns.len() == 1 {
        assert(turns =~= seq![turns[0]]);
    }
}

/// A topic made of an input is its first words, four at most, with one space
/// between them.
pub proof fn segments_are_the_first_words(input: Seq<char>)
    ensures
        ({
            let words = leading_words(input, blanks_of(input), input.len() + 4);
            first_segment(input) == spaced(
                if words.len() <= 4 {
                    words
                } else {
                    words.take(4)
                },
            )
        }),
{
    fewer_words_are_the_first(input, blanks_of(input), 4, input.len() + 4);
}

} // verus!
