//! The conversation entity: a multi-turn dialogue with identity.

use vstd::prelude::*;

use crate::bus::{execution_ids_differ, later_id, one_more};
use crate::error::{AgentError, AgentErrorView};
use crate::event::CancelReason;
use crate::io::{AgentInput, AgentInputView, AgentOutput, AgentOutputView};
use crate::message::{Message, MessageView};
use crate::subject::{subject_text, Subject, SubjectView};
use crate::text::{
    concat, dash_split_is_unique, hex, hex_has_no_dash, hex_is_injective, hex_text, Text,
};

verus! {

/// Conversation persistence failures.
#[derive(Debug, PartialEq)]
pub enum ConversationStoreError {
    /// No conversation exists under this id (for this subject).
    NotFound(String),
    /// The backing storage failed.
    Storage(String),
}

/// What a [`ConversationStoreError`] holds.
pub ghost enum ConversationStoreErrorView {
    NotFound(Seq<char>),
    Storage(Seq<char>),
}

impl DeepView for ConversationStoreError {
    type V = ConversationStoreErrorView;

    open spec fn deep_view(&self) -> ConversationStoreErrorView {
        match self {
            ConversationStoreError::NotFound(id) => ConversationStoreErrorView::NotFound(id@),
            ConversationStoreError::Storage(detail) => ConversationStoreErrorView::Storage(
                detail@,
            ),
        }
    }
}

/// What a store error reads as.
pub open spec fn store_error_text(error: ConversationStoreErrorView) -> Seq<char> {
    match error {
        ConversationStoreErrorView::NotFound(id) => "conversation not found: "@ + id,
        ConversationStoreErrorView::Storage(detail) => "conversation storage failure: "@ + detail,
    }
}

impl ConversationStoreError {
    /// The error as a sentence.
    pub fn to_string(&self) -> (text: String)
        ensures
            text@ == store_error_text(self.deep_view()),
    {
        match self {
            ConversationStoreError::NotFound(id) => concat(
                "conversation not found: ",
                id.as_str(),
            ),
            ConversationStoreError::Storage(detail) => concat(
                "conversation storage failure: ",
                detail.as_str(),
            ),
        }
    }
}

/// How a turn ended. Every turn enters the history, marked with its outcome:
/// failures and cancellations are as much a part of the record as successes.
#[derive(Debug, PartialEq)]
pub enum TurnOutcome {
    /// The run completed; carries the final output snapshot.
    Completed(AgentOutput),
    /// The run failed; carries the error.
    Failed(AgentError),
    /// The run was cancelled; carries the reason.
    Cancelled(CancelReason),
}

/// What a [`TurnOutcome`] holds.
pub ghost enum TurnOutcomeView {
    Completed(AgentOutputView),
    Failed(AgentErrorView),
    Cancelled(CancelReason),
}

impl DeepView for TurnOutcome {
    type V = TurnOutcomeView;

    open spec fn deep_view(&self) -> TurnOutcomeView {
        match self {
            TurnOutcome::Completed(output) => TurnOutcomeView::Completed(output.deep_view()),
            TurnOutcome::Failed(error) => TurnOutcomeView::Failed(error.deep_view()),
            TurnOutcome::Cancelled(reason) => TurnOutcomeView::Cancelled(*reason),
        }
    }
}

impl Clone for TurnOutcome {
    fn clone(&self) -> (copy: Self)
        ensures
            copy.deep_view() == self.deep_view(),
    {
        match self {
            TurnOutcome::Completed(output) => TurnOutcome::Completed(output.clone()),
            TurnOutcome::Failed(error) => TurnOutcome::Failed(error.clone()),
            TurnOutcome::Cancelled(reason) => TurnOutcome::Cancelled(*reason),
        }
    }
}

/// One question-answer turn of a conversation.
#[derive(Debug)]
pub struct Turn {
    /// The user input that started this turn.
    pub input: AgentInput,
    /// All canonical messages of this turn's run: the frame the run started
    /// from, the model's responses, and the tool round-trips.
    pub messages: Vec<Message>,
    /// How the turn ended.
    pub outcome: TurnOutcome,
}

/// What a [`Turn`] holds.
#[verifier::ext_equal]
pub ghost struct TurnView {
    pub input: AgentInputView,
    pub messages: Seq<MessageView>,
    pub outcome: TurnOutcomeView,
}

impl DeepView for Turn {
    type V = TurnView;

    open spec fn deep_view(&self) -> TurnView {
        TurnView {
            input: self.input.deep_view(),
            messages: self.messages.deep_view(),
            outcome: self.outcome.deep_view(),
        }
    }
}

impl Clone for Turn {
    fn clone(&self) -> (copy: Self)
        ensures
            copy.deep_view() == self.deep_view(),
    {
        let messages = self.messages.clone();
        assert(messages.deep_view() =~= self.messages.deep_view());
        Turn { input: self.input.clone(), messages, outcome: self.outcome.clone() }
    }
}

impl Turn {
    /// Records a completed turn with its final output.
    pub fn completed(input: AgentInput, messages: Vec<Message>, output: AgentOutput) -> (turn: Self)
        ensures
            turn.deep_view() == (TurnView {
                input: input.deep_view(),
                messages: messages.deep_view(),
                outcome: TurnOutcomeView::Completed(output.deep_view()),
            }),
    {
        Turn { input, messages, outcome: TurnOutcome::Completed(output) }
    }

    /// Records a failed turn (the messages built up to the failure are the
    /// audit trail).
    pub fn failed(input: AgentInput, messages: Vec<Message>, error: AgentError) -> (turn: Self)
        ensures
            turn.deep_view() == (TurnView {
                input: input.deep_view(),
                messages: messages.deep_view(),
                outcome: TurnOutcomeView::Failed(error.deep_view()),
            }),
    {
        Turn { input, messages, outcome: TurnOutcome::Failed(error) }
    }

    /// Records a cancelled turn.
    pub fn cancelled(input: AgentInput, messages: Vec<Message>, reason: CancelReason) -> (turn:
        Self)
        ensures
            turn.deep_view() == (TurnView {
                input: input.deep_view(),
                messages: messages.deep_view(),
                outcome: TurnOutcomeView::Cancelled(reason),
            }),
    {
        Turn { input, messages, outcome: TurnOutcome::Cancelled(reason) }
    }

    /// The final output snapshot (completed turns only).
    pub fn output(&self) -> (output: Option<&AgentOutput>)
        ensures
            match output {
                Some(output) => self.outcome == TurnOutcome::Completed(*output),
                None => !(self.outcome is Completed),
            },
    {
        match &self.outcome {
            TurnOutcome::Completed(output) => Some(output),
            _ => None,
        }
    }
}

/// The serializable state of a conversation (what stores persist).
#[derive(Debug)]
pub struct ConversationState {
    /// The owning subject, in text form.
    pub subject_id: String,
    /// The conversation id.
    pub id: String,
    /// The recorded turns, in order.
    pub turns: Vec<Turn>,
    /// The current topic.
    pub topic: Option<String>,
    /// Epoch seconds of the last activity; zero when never stamped.
    pub last_active: u64,
    /// Whether the conversation has ended.
    pub ended: bool,
}

/// What a [`ConversationState`] holds.
#[verifier::ext_equal]
pub ghost struct ConversationStateView {
    pub subject_id: Seq<char>,
    pub id: Seq<char>,
    pub turns: Seq<TurnView>,
    pub topic: Option<Seq<char>>,
    pub last_active: u64,
    pub ended: bool,
}

impl DeepView for ConversationState {
    type V = ConversationStateView;

    open spec fn deep_view(&self) -> ConversationStateView {
        ConversationStateView {
            subject_id: self.subject_id@,
            id: self.id@,
            turns: self.turns.deep_view(),
            topic: self.topic.deep_view(),
            last_active: self.last_active,
            ended: self.ended,
        }
    }
}

impl Clone for ConversationState {
    fn clone(&self) -> (copy: Self)
        ensures
            copy.deep_view() == self.deep_view(),
    {
        let turns = self.turns.clone();
        assert(turns.deep_view() =~= self.turns.deep_view());
        ConversationState {
            subject_id: self.subject_id.clone(),
            id: self.id.clone(),
            turns,
            topic: self.topic.clone(),
            last_active: self.last_active,
            ended: self.ended,
        }
    }
}

/// One ordering position of a conversation listing.
///
/// The listing order is `last_active` descending, `id` ascending; a cursor
/// resumes strictly after that position. Being a value (not an offset), it
/// stays correct when conversations are removed between pages.
#[derive(Debug, PartialEq, Eq)]
pub struct ConversationCursor {
    /// The conversation's last activity.
    pub last_active: u64,
    /// The conversation's id (the ascending tiebreak).
    pub id: String,
}

/// What a [`ConversationCursor`] holds.
pub ghost struct CursorView {
    pub last_active: u64,
    pub id: Seq<char>,
}

impl DeepView for ConversationCursor {
    type V = CursorView;

    open spec fn deep_view(&self) -> CursorView {
        CursorView { last_active: self.last_active, id: self.id@ }
    }
}

impl ConversationCursor {
    /// Creates a cursor at the given position.
    pub fn new(last_active: u64, id: impl Text) -> (cursor: Self)
        ensures
            cursor.deep_view() == (CursorView { last_active, id: id.text() }),
    {
        ConversationCursor { last_active, id: id.into_text() }
    }
}

/// What a listing shows of a conversation.
#[derive(Debug, PartialEq)]
pub struct ConversationSummary {
    /// The conversation id.
    pub id: String,
    /// The owning subject, in text form.
    pub subject_id: String,
    /// The current topic.
    pub topic: Option<String>,
    /// Epoch seconds of the last activity.
    pub last_active: u64,
    /// Whether the conversation has ended.
    pub ended: bool,
}

/// What a [`ConversationSummary`] holds.
pub ghost struct SummaryView {
    pub id: Seq<char>,
    pub subject_id: Seq<char>,
    pub topic: Option<Seq<char>>,
    pub last_active: u64,
    pub ended: bool,
}

impl DeepView for ConversationSummary {
    type V = SummaryView;

    open spec fn deep_view(&self) -> SummaryView {
        SummaryView {
            id: self.id@,
            subject_id: self.subject_id@,
            topic: self.topic.deep_view(),
            last_active: self.last_active,
            ended: self.ended,
        }
    }
}

impl Clone for ConversationSummary {
    fn clone(&self) -> (copy: Self)
        ensures
            copy.deep_view() == self.deep_view(),
    {
        ConversationSummary {
            id: self.id.clone(),
            subject_id: self.subject_id.clone(),
            topic: self.topic.clone(),
            last_active: self.last_active,
            ended: self.ended,
        }
    }
}

impl ConversationSummary {
    /// Creates a summary from its parts.
    pub fn new(
        id: impl Text,
        subject_id: impl Text,
        topic: Option<String>,
        last_active: u64,
        ended: bool,
    ) -> (summary: Self)
        ensures
            summary.deep_view() == (SummaryView {
                id: id.text(),
                subject_id: subject_id.text(),
                topic: topic.deep_view(),
                last_active,
                ended,
            }),
    {
        ConversationSummary {
            id: id.into_text(),
            subject_id: subject_id.into_text(),
            topic,
            last_active,
            ended,
        }
    }
}

/// One page of a conversation listing.
#[derive(Debug, PartialEq)]
pub struct ConversationPage {
    /// The page's items, in listing order (up to the requested limit).
    pub items: Vec<ConversationSummary>,
    /// The cursor to resume from when more conversations match; `None` when
    /// the page is the last.
    pub next: Option<ConversationCursor>,
}

/// What a [`ConversationPage`] holds.
#[verifier::ext_equal]
pub ghost struct PageView {
    pub items: Seq<SummaryView>,
    pub next: Option<CursorView>,
}

impl DeepView for ConversationPage {
    type V = PageView;

    open spec fn deep_view(&self) -> PageView {
        PageView { items: self.items.deep_view(), next: self.next.deep_view() }
    }
}

impl ConversationPage {
    /// Creates a page.
    pub fn new(items: Vec<ConversationSummary>, next: Option<ConversationCursor>) -> (page: Self)
        ensures
            page.items == items,
            page.next == next,
    {
        ConversationPage { items, next }
    }
}

/// A listing query: a metadata keyword and keyset pagination.
#[derive(Debug, PartialEq)]
pub struct ConversationQuery {
    /// Case-insensitive substring over id, subject, or topic; `None` matches
    /// all.
    pub keyword: Option<String>,
    /// Resume strictly after this position; `None` starts from the top.
    pub after: Option<ConversationCursor>,
    /// The maximum number of items to return; `0` yields an empty last page.
    pub limit: usize,
}

impl ConversationQuery {
    /// Creates a query returning up to `limit` items.
    pub fn new(limit: usize) -> (query: Self)
        ensures
            query == (ConversationQuery { keyword: None, after: None, limit }),
    {
        ConversationQuery { keyword: None, after: None, limit }
    }

    /// Filters by a metadata keyword.
    pub fn with_keyword(self, keyword: impl Text) -> (query: Self)
        ensures
            query.keyword.deep_view() == Some(keyword.text()),
            query == (ConversationQuery { keyword: query.keyword, ..self }),
    {
        let mut query = self;
        query.keyword = Some(keyword.into_text());
        query
    }

    /// Resumes after a cursor (a previous page's `next`).
    pub fn with_after(self, cursor: ConversationCursor) -> (query: Self)
        ensures
            query == (ConversationQuery { after: Some(cursor), ..self }),
    {
        let mut query = self;
        query.after = Some(cursor);
        query
    }
}

/// A multi-turn dialogue: a pure data entity, identity plus recorded turns
/// plus topic and lifecycle state. It carries no environment.
#[derive(Debug)]
pub struct Conversation {
    id: String,
    subject: Subject,
    turns: Vec<Turn>,
    topic: Option<String>,
    ended: bool,
}

/// What a [`Conversation`] holds.
#[verifier::ext_equal]
pub ghost struct ConversationView {
    pub id: Seq<char>,
    pub subject: SubjectView,
    pub turns: Seq<TurnView>,
    pub topic: Option<Seq<char>>,
    pub ended: bool,
}

impl DeepView for Conversation {
    type V = ConversationView;

    closed spec fn deep_view(&self) -> ConversationView {
        ConversationView {
            id: self.id@,
            subject: self.subject.deep_view(),
            turns: self.turns.deep_view(),
            topic: self.topic.deep_view(),
            ended: self.ended,
        }
    }
}

/// A conversation without turns.
pub open spec fn fresh_conversation(subject: SubjectView, id: Seq<char>) -> ConversationView {
    ConversationView { id, subject, turns: Seq::empty(), topic: None, ended: false }
}

/// The state a store persists of a conversation at the given time.
pub open spec fn state_of(conversation: ConversationView, now: u64) -> ConversationStateView {
    ConversationStateView {
        subject_id: subject_text(conversation.subject),
        id: conversation.id,
        turns: conversation.turns,
        topic: conversation.topic,
        last_active: now,
        ended: conversation.ended,
    }
}

/// The conversation a state restores to, for its subject.
pub open spec fn restored(subject: SubjectView, state: ConversationStateView) -> ConversationView {
    ConversationView {
        id: state.id,
        subject,
        turns: state.turns,
        topic: state.topic,
        ended: state.ended,
    }
}

/// All messages of the given turns, in order.
pub open spec fn flattened(turns: Seq<TurnView>) -> Seq<MessageView>
    decreases turns.len(),
{
    if turns.len() == 0 {
        Seq::empty()
    } else {
        flattened(turns.drop_last()) + turns.last().messages
    }
}

/// The completed ones among the given turns, in order.
pub open spec fn completed_turns(turns: Seq<TurnView>) -> Seq<TurnView>
    decreases turns.len(),
{
    if turns.len() == 0 {
        Seq::empty()
    } else {
        let earlier = completed_turns(turns.drop_last());
        if turns.last().outcome is Completed {
            earlier.push(turns.last())
        } else {
            earlier
        }
    }
}

/// The messages of the last `count` completed turns, oldest first.
pub open spec fn recent_history(turns: Seq<TurnView>, count: nat) -> Seq<MessageView> {
    let done = completed_turns(turns);
    if done.len() <= count {
        flattened(done)
    } else {
        flattened(done.skip(done.len() - count))
    }
}

impl Conversation {
    /// Builds the entity, without turns.
    pub fn fresh(subject: &Subject, id: impl Text) -> (conversation: Self)
        ensures
            conversation.deep_view() == fresh_conversation(subject.deep_view(), id.text()),
    {
        let conversation = Conversation {
            id: id.into_text(),
            subject: subject.clone(),
            turns: Vec::new(),
            topic: None,
            ended: false,
        };
        assert(conversation.deep_view() =~= fresh_conversation(subject.deep_view(), id.text()));
        conversation
    }

    /// Rebuilds the entity from a stored state. The lifecycle state is
    /// restored with the turns.
    pub fn restore(subject: &Subject, state: ConversationState) -> (conversation: Self)
        ensures
            conversation.deep_view() == restored(subject.deep_view(), state.deep_view()),
    {
        Conversation {
            id: state.id,
            subject: subject.clone(),
            turns: state.turns,
            topic: state.topic,
            ended: state.ended,
        }
    }

    /// Whether the conversation has ended.
    pub fn is_ended(&self) -> (ended: bool)
        ensures
            ended == self.deep_view().ended,
    {
        self.ended
    }

    /// The conversation's owning subject.
    pub fn subject(&self) -> (subject: &Subject)
        ensures
            subject.deep_view() == self.deep_view().subject,
    {
        &self.subject
    }

    /// The current topic, if any.
    pub fn topic(&self) -> (topic: Option<&str>)
        ensures
            topic.deep_view() == self.deep_view().topic,
    {
        match &self.topic {
            Some(topic) => Some(topic.as_str()),
            None => None,
        }
    }

    /// Updates the current topic.
    pub fn set_topic(&mut self, topic: &str)
        ensures
            final(self).deep_view() == (ConversationView {
                topic: Some(topic@),
                ..old(self).deep_view()
            }),
    {
        self.topic = Some(topic.to_owned());
    }

    /// Marks the conversation as ended: the first call wins. Returns whether
    /// this call is the one that ends it.
    pub fn mark_ended(&mut self) -> (first: bool)
        ensures
            first == !old(self).deep_view().ended,
            final(self).deep_view() == (ConversationView { ended: true, ..old(self).deep_view() }),
    {
        let first = !self.ended;
        self.ended = true;
        first
    }

    /// The conversation's identity.
    pub fn id(&self) -> (id: &str)
        ensures
            id@ == self.deep_view().id,
    {
        self.id.as_str()
    }

    /// The full flattened message history: all turns' messages in order.
    pub fn messages(&self) -> (messages: Vec<Message>)
        ensures
            messages.deep_view() == flattened(self.deep_view().turns),
    {
        let ghost turns = self.deep_view().turns;
        let mut messages: Vec<Message> = Vec::new();
        let mut i: usize = 0;
        assert(messages.deep_view() =~= flattened(turns.take(0)));
        while i < self.turns.len()
            invariant
                i <= self.turns@.len(),
                turns == self.turns.deep_view(),
                messages.deep_view() == flattened(turns.take(i as int)),
            decreases self.turns@.len() - i,
        {
            let ghost before = messages.deep_view();
            let mut more = self.turns[i].messages.clone();
            assert(more.deep_view() =~= turns[i as int].messages);
            messages.append(&mut more);
            assert(messages.deep_view() =~= before + turns[i as int].messages);
            assert(turns.take(i + 1).drop_last() =~= turns.take(i as int));
            i += 1;
        }
        assert(turns.take(i as int) =~= turns);
        messages
    }

    /// The messages of the last `count` completed turns, oldest first.
    pub fn history(&self, count: usize) -> (messages: Vec<Message>)
        ensures
            messages.deep_view() == recent_history(self.deep_view().turns, count as nat),
    {
        let ghost turns = self.deep_view().turns;
        let mut done: Vec<usize> = Vec::new();
        let mut i: usize = 0;
        assert(completed_turns(turns.take(0)) =~= Seq::empty());
        while i < self.turns.len()
            invariant
                i <= self.turns@.len(),
                turns == self.turns.deep_view(),
                completed_turns(turns.take(i as int)).len() == done@.len(),
                forall|k: int|
                    0 <= k < done@.len() ==> (#[trigger] done@[k]) < i && completed_turns(
                        turns.take(i as int),
                    )[k] == turns[done@[k] as int],
            decreases self.turns@.len() - i,
        {
            assert(turns.take(i + 1).drop_last() =~= turns.take(i as int));
            assert(turns.take(i + 1).last() == turns[i as int]);
            if self.turns[i].output().is_some() {
                done.push(i);
            }
            i += 1;
        }
        assert(turns.take(i as int) =~= turns);
        let ghost all = completed_turns(turns);
        let start: usize = if done.len() <= count {
            0
        } else {
            done.len() - count
        };
        let ghost window = all.skip(start as int);
        assert(start == 0 ==> window =~= all);
        let mut messages: Vec<Message> = Vec::new();
        let mut k: usize = start;
        assert(messages.deep_view() =~= flattened(window.take(0)));
        while k < done.len()
            invariant
                start <= k <= done@.len(),
                turns == self.turns.deep_view(),
                all == completed_turns(turns),
                all.len() == done@.len(),
                window == all.skip(start as int),
                forall|j: int|
                    0 <= j < done@.len() ==> (#[trigger] done@[j]) < self.turns@.len() && all[j]
                        == turns[done@[j] as int],
                messages.deep_view() == flattened(window.take(k - start)),
            decreases done@.len() - k,
        {
            let ghost before = messages.deep_view();
            let at: usize = done[k];
            let mut more = self.turns[at].messages.clone();
            assert(more.deep_view() =~= turns[at as int].messages);
            messages.append(&mut more);
            assert(messages.deep_view() =~= before + turns[at as int].messages);
            assert(window.take(k - start + 1).drop_last() =~= window.take(k - start));
            assert(window.take(k - start + 1).last() == window[k - start]);
            k += 1;
        }
        assert(window.take(k - start) =~= window);
        messages
    }

    /// The recorded turns, in order.
    pub fn turns(&self) -> (turns: &Vec<Turn>)
        ensures
            turns.deep_view() == self.deep_view().turns,
    {
        &self.turns
    }

    /// How many turns are recorded.
    pub fn len(&self) -> (len: usize)
        ensures
            len == self.deep_view().turns.len(),
    {
        self.turns.len()
    }

    /// Whether the conversation has no turns yet.
    pub fn is_empty(&self) -> (empty: bool)
        ensures
            empty == (self.deep_view().turns.len() == 0),
    {
        self.turns.len() == 0
    }

    /// Records a turn: the only write path, for completed, failed, and
    /// cancelled turns alike.
    pub fn push_turn(&mut self, turn: Turn)
        ensures
            final(self).deep_view() == (ConversationView {
                turns: old(self).deep_view().turns.push(turn.deep_view()),
                ..old(self).deep_view()
            }),
    {
        let ghost before = self.turns.deep_view();
        self.turns.push(turn);
        assert(self.turns.deep_view() =~= before.push(turn.deep_view()));
    }

    /// The current state snapshot at the given time (epoch seconds): what a
    /// store saves and what [`Conversation::restore`] takes.
    pub fn state(&self, now: u64) -> (state: ConversationState)
        ensures
            state.deep_view() == state_of(self.deep_view(), now),
    {
        let turns = self.turns.clone();
        assert(turns.deep_view() =~= self.turns.deep_view());
        ConversationState {
            subject_id: self.subject.to_string(),
            id: self.id.clone(),
            turns,
            topic: self.topic.clone(),
            last_active: now,
            ended: self.ended,
        }
    }

    /// What an application stores of the conversation itself: the truth
    /// record at the given time (epoch seconds). The topic is the memory's
    /// own and does not travel with it.
    pub fn export(&self, now: u64) -> (record: ConversationState)
        ensures
            record.deep_view() == (ConversationStateView {
                topic: None,
                ..state_of(self.deep_view(), now)
            }),
    {
        let mut record = self.state(now);
        record.topic = None;
        record
    }

    /// Builds the input object for the next turn, borrowing the conversation
    /// for the turn's duration.
    pub fn turn_input<'a>(&'a mut self, text: impl Text) -> (turn: TurnInput<'a>)
        ensures
            turn.asks() == text.text(),
            turn.conversation() == old(self).deep_view(),
            final(self).deep_view() == old(self).deep_view(),
    {
        TurnInput { input: AgentInput::new(text), conv: self }
    }
}

/// The per-turn input object: the question plus the conversation it belongs
/// to. Constructed only by [`Conversation::turn_input`]: there is no
/// conversation-less execution.
pub struct TurnInput<'a> {
    input: AgentInput,
    conv: &'a Conversation,
}

impl<'a> TurnInput<'a> {
    /// The question.
    pub closed spec fn asks(&self) -> Seq<char> {
        self.input.text@
    }

    /// The conversation the question belongs to.
    pub closed spec fn conversation(&self) -> ConversationView {
        self.conv.deep_view()
    }

    /// Takes the input object apart.
    pub fn into_parts(self) -> (parts: (AgentInput, &'a Conversation))
        ensures
            parts.0.deep_view().text == self.asks(),
            parts.1.deep_view() == self.conversation(),
    {
        (self.input, self.conv)
    }
}

/// A conversation restored from its own state is the conversation, whatever
/// the time it was saved at.
pub proof fn restoring_undoes_saving(conversation: ConversationView, now: u64)
    ensures
        restored(conversation.subject, state_of(conversation, now)) == conversation,
{
}

/// The generated id of a conversation: when it was created, and its serial
/// number within the process.
pub open spec fn generated_id(nanos: u128, serial: u64) -> Seq<char> {
    "conv"@ + seq!['-'] + (hex(nanos as nat) + seq!['-'] + hex(serial as nat))
}

/// Generates the id of a conversation from the time of its creation
/// (nanoseconds since the epoch) and a serial number.
pub fn generate_id(nanos: u128, serial: u64) -> (id: String)
    ensures
        id@ == generated_id(nanos, serial),
{
    let time = hex_text(nanos);
    let count = hex_text(serial as u128);
    let mut id = "conv".to_owned();
    id.push('-');
    id.append(time.as_str());
    id.push('-');
    id.append(count.as_str());
    assert(id@ =~= generated_id(nanos, serial));
    id
}

/// The source of the serial numbers of generated ids. A process keeps one
/// such source, which all its runtimes draw from.
#[derive(Debug)]
pub struct ConversationIds {
    next: u64,
}

impl ConversationIds {
    /// The serial number given out next.
    pub closed spec fn upcoming(&self) -> u64 {
        self.next
    }

    /// Starts at zero.
    pub fn new() -> (ids: Self)
        ensures
            ids.upcoming() == 0,
    {
        ConversationIds { next: 0 }
    }

    /// Generates the id of a conversation created at a time (nanoseconds
    /// since the epoch).
    pub fn next_id(&mut self, nanos: u128) -> (id: String)
        ensures
            id@ == generated_id(nanos, old(self).upcoming()),
            final(self).upcoming() == one_more(old(self).upcoming()),
    {
        let serial: u64 = self.next;
        self.next = self.next.wrapping_add(1);
        generate_id(nanos, serial)
    }
}

/// Generated ids are unique in a process: those of any two conversations
/// drawn from one source differ, whatever the clock read and whichever
/// runtimes they were created on, until the serial numbers come around.
pub proof fn generated_ids_are_unique(
    first: u64,
    earlier: nat,
    later: nat,
    nanos: u128,
    later_nanos: u128,
)
    requires
        earlier < later <= earlier + u64::MAX,
    ensures
        generated_id(nanos, later_id(first, earlier)) != generated_id(
            later_nanos,
            later_id(first, later),
        ),
{
    execution_ids_differ(first, earlier, later);
    if generated_id(nanos, later_id(first, earlier)) == generated_id(
        later_nanos,
        later_id(first, later),
    ) {
        generated_ids_differ(
            nanos,
            later_id(first, earlier),
            later_nanos,
            later_id(first, later),
        );
    }
}

/// Generated ids are as unique as their serial numbers.
pub proof fn generated_ids_differ(nanos: u128, serial: u64, other_nanos: u128, other_serial: u64)
    requires
        generated_id(nanos, serial) == generated_id(other_nanos, other_serial),
    ensures
        nanos == other_nanos,
        serial == other_serial,
{
    reveal_strlit("conv");
    let a = hex(nanos as nat) + seq!['-'] + hex(serial as nat);
    let b = hex(other_nanos as nat) + seq!['-'] + hex(other_serial as nat);
    dash_split_is_unique("conv"@, a, "conv"@, b);
    hex_has_no_dash(nanos as nat);
    hex_has_no_dash(other_nanos as nat);
    dash_split_is_unique(
        hex(nanos as nat),
        hex(serial as nat),
        hex(other_nanos as nat),
        hex(other_serial as nat),
    );
    hex_is_injective(nanos as nat, other_nanos as nat);
    hex_is_injective(serial as nat, other_serial as nat);
}

/// The full history holds every turn, completed, failed and cancelled
/// alike: recording a turn adds its messages at the end, whatever its
/// outcome, and changes nothing before them.
pub proof fn every_turn_joins_the_history(turns: Seq<TurnView>, turn: TurnView)
    ensures
        flattened(Seq::<TurnView>::empty()) == Seq::<MessageView>::empty(),
        flattened(turns.push(turn)) == flattened(turns) + turn.messages,
        flattened(turns.push(turn)).len() == flattened(turns).len() + turn.messages.len(),
{
    assert(turns.push(turn).drop_last() =~= turns);
}

/// The history of turns in a row is the history of the first ones, then that
/// of the others.
pub proof fn histories_join(turns: Seq<TurnView>, more: Seq<TurnView>)
    ensures
        flattened(turns + more) == flattened(turns) + flattened(more),
    decreases more.len(),
{
    if more.len() == 0 {
        assert(turns + more =~= turns);
        assert(flattened(turns) + Seq::<MessageView>::empty() =~= flattened(turns));
    } else {
        histories_join(turns, more.drop_last());
        assert((turns + more).drop_last() =~= turns + more.drop_last());
        assert((turns + more).last() == more.last());
        assert(flattened(turns) + flattened(more) =~= flattened(turns) + flattened(
            more.drop_last(),
        ) + more.last().messages);
    }
}

/// Each turn's messages stand in the history in one piece, behind those of
/// the turns before it and ahead of those after it.
pub proof fn turns_stand_in_the_history(turns: Seq<TurnView>, i: int)
    requires
        0 <= i < turns.len(),
    ensures
        flattened(turns) == flattened(turns.take(i)) + turns[i].messages + flattened(
            turns.skip(i + 1),
        ),
{
    every_turn_joins_the_history(turns.take(i), turns[i]);
    assert(turns.take(i).push(turns[i]) =~= turns.take(i + 1));
    histories_join(turns.take(i + 1), turns.skip(i + 1));
    assert(turns.take(i + 1) + turns.skip(i + 1) =~= turns);
}

/// The recent history counts completed turns only: a failed or cancelled
/// turn leaves it as it is; a completed one joins it as its newest and, when
/// the count is used up, pushes the oldest out.
pub proof fn the_recent_history_slides(turns: Seq<TurnView>, turn: TurnView, count: nat)
    ensures
        recent_history(Seq::<TurnView>::empty(), count) == Seq::<MessageView>::empty(),
        recent_history(turns, 0) == Seq::<MessageView>::empty(),
        !(turn.outcome is Completed) ==> recent_history(turns.push(turn), count)
            == recent_history(turns, count),
        turn.outcome is Completed ==> recent_history(turns.push(turn), count + 1)
            == recent_history(turns, count) + turn.messages,
{
    let done = completed_turns(turns);
    assert(turns.push(turn).drop_last() =~= turns);
    assert(done.skip(done.len() as int) =~= Seq::<TurnView>::empty());
    if turn.outcome is Completed {
        let now = completed_turns(turns.push(turn));
        assert(now =~= done.push(turn));
        if done.len() <= count {
            every_turn_joins_the_history(done, turn);
        } else {
            let window = done.skip(done.len() - count);
            assert(now.skip(now.len() - (count + 1)) =~= window.push(turn));
            every_turn_joins_the_history(window, turn);
        }
    }
}

/// A sentence about a store error says what kind of error it is and all that
/// is known of it.
pub proof fn store_errors_say_what_happened(detail: Seq<char>)
    ensures
        store_error_text(ConversationStoreErrorView::NotFound(detail))
            == "conversation not found: "@ + detail,
        store_error_text(ConversationStoreErrorView::Storage(detail))
            == "conversation storage failure: "@ + detail,
{
}

/// What is saved of a conversation is all of it, for its subject and at the
/// time of the save; a fresh one has no turns, no topic, and no end.
pub proof fn states_hold_the_conversation(
    conversation: ConversationView,
    subject: SubjectView,
    id: Seq<char>,
    now: u64,
)
    ensures
        state_of(conversation, now).id == conversation.id,
        state_of(conversation, now).subject_id == subject_text(conversation.subject),
        state_of(conversation, now).turns == conversation.turns,
        state_of(conversation, now).topic == conversation.topic,
        state_of(conversation, now).ended == conversation.ended,
        state_of(conversation, now).last_active == now,
        fresh_conversation(subject, id).id == id,
        fresh_conversation(subject, id).subject == subject,
        fresh_conversation(subject, id).turns.len() == 0,
        fresh_conversation(subject, id).topic is None,
        !fresh_conversation(subject, id).ended,
{
}

/// Recording a turn adds its messages to what [`Conversation::messages`]
/// returns, at the end and whatever the turn's outcome, and changes nothing
/// before them; a conversation without turns has no messages.
pub proof fn recording_adds_to_the_messages(
    before: Conversation,
    now: Conversation,
    turn: TurnView,
    earlier: Vec<Message>,
    later: Vec<Message>,
)
    requires
        now.deep_view().turns == before.deep_view().turns.push(turn),
        call_ensures(Conversation::messages, (&before,), earlier),
        call_ensures(Conversation::messages, (&now,), later),
    ensures
        later.deep_view() == earlier.deep_view() + turn.messages,
        before.deep_view().turns.len() == 0 ==> earlier.deep_view().len() == 0,
{
    every_turn_joins_the_history(before.deep_view().turns, turn);
}

/// What [`Conversation::history`] returns is not touched by a turn that
/// failed or was cancelled; a completed turn joins it at the end, and asking
/// for one turn more gives it behind what there was.
pub proof fn completed_turns_join_the_history(
    before: Conversation,
    now: Conversation,
    turn: TurnView,
    count: usize,
    earlier: Vec<Message>,
    same: Vec<Message>,
    later: Vec<Message>,
)
    requires
        count < usize::MAX,
        now.deep_view().turns == before.deep_view().turns.push(turn),
        call_ensures(Conversation::history, (&before, count), earlier),
        call_ensures(Conversation::history, (&now, count), same),
        call_ensures(Conversation::history, (&now, (count + 1) as usize), later),
    ensures
        !(turn.outcome is Completed) ==> same.deep_view() == earlier.deep_view(),
        turn.outcome is Completed ==> later.deep_view() == earlier.deep_view() + turn.messages,
        count == 0 ==> earlier.deep_view().len() == 0,
        before.deep_view().turns.len() == 0 ==> earlier.deep_view().len() == 0,
{
    the_recent_history_slides(before.deep_view().turns, turn, count as nat);
    if before.deep_view().turns.len() == 0 {
        assert(before.deep_view().turns =~= Seq::<TurnView>::empty());
    }
}

} // verus!
