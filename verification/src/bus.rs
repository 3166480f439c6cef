//! The event bus: its vocabulary, its bounded queue, and its dispatcher.

use tokio::sync::mpsc::{Receiver, Sender};
use vstd::prelude::*;

use crate::event::{MemoryFlowStage, TurnEvent, TurnEventView};
use crate::memory::MemoryScope;

verus! {

/// Why a conversation ended.
#[derive(Debug, Clone, Copy, PartialEq, Eq, Hash, Structural)]
pub enum ConversationEndReason {
    /// The initiating side called the explicit end.
    Explicit,
    /// The idle-timeout fallback swept the conversation.
    IdleSwept,
    /// The runtime's shutdown ended the conversation.
    Shutdown,
}

/// The moment a memory-flow failure happened.
#[derive(Debug, Clone, Copy, PartialEq, Eq, Hash, Structural)]
pub enum MemoryFlowFailedMoment {
    /// The post-turn maintenance, synchronous segment.
    AfterTurn,
    /// The conversation-end maintenance.
    AtConversationEnd,
    /// The post-turn maintenance, background segment.
    Background,
    /// The lifecycle entry (the conversation's initial state save).
    Creation,
}

/// The moment a memory failure happened.
pub type MemoryFailedMoment = MemoryFlowFailedMoment;

/// Conversation lifecycle facts.
#[derive(Debug, PartialEq)]
pub enum ConversationEvent {
    /// A conversation was created.
    Created {
        /// The conversation's identity.
        conversation_id: String,
        /// The owning subject's id.
        subject_id: String,
    },
    /// A conversation ended.
    Ended {
        /// The conversation's identity.
        conversation_id: String,
        /// The owning subject's id.
        subject_id: String,
        /// Which end path fired.
        reason: ConversationEndReason,
    },
    /// The conversation topic shifted.
    TopicShifted {
        /// The conversation's identity.
        conversation_id: String,
        /// The topic before the shift.
        from: String,
        /// The topic after the shift.
        to: String,
    },
}

/// What a [`ConversationEvent`] holds.
pub ghost enum ConversationEventView {
    Created { conversation_id: Seq<char>, subject_id: Seq<char> },
    Ended { conversation_id: Seq<char>, subject_id: Seq<char>, reason: ConversationEndReason },
    TopicShifted { conversation_id: Seq<char>, from: Seq<char>, to: Seq<char> },
}

impl DeepView for ConversationEvent {
    type V = ConversationEventView;

    open spec fn deep_view(&self) -> ConversationEventView {
        match self {
            ConversationEvent::Created { conversation_id, subject_id } =>
                ConversationEventView::Created {
                conversation_id: conversation_id@,
                subject_id: subject_id@,
            },
            ConversationEvent::Ended { conversation_id, subject_id, reason } =>
                ConversationEventView::Ended {
                conversation_id: conversation_id@,
                subject_id: subject_id@,
                reason: *reason,
            },
            ConversationEvent::TopicShifted { conversation_id, from, to } =>
                ConversationEventView::TopicShifted {
                conversation_id: conversation_id@,
                from: from@,
                to: to@,
            },
        }
    }
}

/// Memory flow facts: the lifecycle of memory (archive, compaction,
/// distillation, promotion), its management, and its failures.
#[derive(Debug, PartialEq)]
#[allow(inconsistent_fields)]
pub enum MemoryEvent {
    /// A completed turn was archived.
    TurnArchived {
        /// The conversation's identity.
        conversation_id: String,
        /// The owning subject's id.
        subject_id: String,
        /// The topic the turn was archived under.
        topic: String,
    },
    /// Verbatim turns were compacted into a summary.
    Compacted {
        /// The conversation's identity.
        conversation_id: String,
        /// How many entries were compacted.
        count: usize,
    },
    /// Summaries were distilled into knowledge.
    Distilled {
        /// The conversation's identity.
        conversation_id: String,
        /// How many summaries were distilled.
        count: usize,
    },
    /// Summaries were promoted into knowledge at conversation end.
    Promoted {
        /// The conversation's identity.
        conversation_id: String,
        /// How many summaries were promoted.
        count: usize,
    },
    /// A stage of the memory flow failed; it does not abort whatever
    /// emitted it.
    FlowFailed {
        /// Which stage failed.
        stage: MemoryFlowStage,
        /// Human-readable detail of the failure.
        detail: String,
        /// When in the lifecycle the failure happened.
        moment: MemoryFlowFailedMoment,
    },
    /// A memory entry was edited.
    Updated {
        /// The owning subject's id.
        subject_id: String,
        /// The entry's partition.
        scope: MemoryScope,
        /// The entry's id.
        id: String,
    },
    /// Memory entries were removed.
    Removed {
        /// The owning subject's id.
        subject_id: String,
        /// The entries' partition.
        scope: MemoryScope,
        /// The entries' ids.
        ids: Vec<String>,
    },
    /// A memory implementation reported a failure, under a stage name of its
    /// own.
    Failed {
        /// Which stage failed.
        stage: String,
        /// Human-readable detail of the failure.
        detail: String,
        /// When in the lifecycle the failure happened.
        moment: MemoryFailedMoment,
    },
}

/// What a [`MemoryEvent`] holds.
#[verifier::ext_equal]
#[allow(inconsistent_fields)]
pub ghost enum MemoryEventView {
    TurnArchived { conversation_id: Seq<char>, subject_id: Seq<char>, topic: Seq<char> },
    Compacted { conversation_id: Seq<char>, count: usize },
    Distilled { conversation_id: Seq<char>, count: usize },
    Promoted { conversation_id: Seq<char>, count: usize },
    FlowFailed { stage: MemoryFlowStage, detail: Seq<char>, moment: MemoryFlowFailedMoment },
    Updated { subject_id: Seq<char>, scope: Seq<char>, id: Seq<char> },
    Removed { subject_id: Seq<char>, scope: Seq<char>, ids: Seq<Seq<char>> },
    Failed { stage: Seq<char>, detail: Seq<char>, moment: MemoryFlowFailedMoment },
}

impl DeepView for MemoryEvent {
    type V = MemoryEventView;

    open spec fn deep_view(&self) -> MemoryEventView {
        match self {
            MemoryEvent::TurnArchived { conversation_id, subject_id, topic } =>
                MemoryEventView::TurnArchived {
                conversation_id: conversation_id@,
                subject_id: subject_id@,
                topic: topic@,
            },
            MemoryEvent::Compacted { conversation_id, count } => MemoryEventView::Compacted {
                conversation_id: conversation_id@,
                count: *count,
            },
            MemoryEvent::Distilled { conversation_id, count } => MemoryEventView::Distilled {
                conversation_id: conversation_id@,
                count: *count,
            },
            MemoryEvent::Promoted { conversation_id, count } => MemoryEventView::Promoted {
                conversation_id: conversation_id@,
                count: *count,
            },
            MemoryEvent::FlowFailed { stage, detail, moment } => MemoryEventView::FlowFailed {
                stage: *stage,
                detail: detail@,
                moment: *moment,
            },
            MemoryEvent::Updated { subject_id, scope, id } => MemoryEventView::Updated {
                subject_id: subject_id@,
                scope: scope.deep_view(),
                id: id@,
            },
            MemoryEvent::Removed { subject_id, scope, ids } => MemoryEventView::Removed {
                subject_id: subject_id@,
                scope: scope.deep_view(),
                ids: ids.deep_view(),
            },
            MemoryEvent::Failed { stage, detail, moment } => MemoryEventView::Failed {
                stage: stage@,
                detail: detail@,
                moment: *moment,
            },
        }
    }
}

/// The bus vocabulary: the unified event envelope, by entity family.
#[derive(Debug, PartialEq)]
pub enum SynonzEvent {
    /// A run's execution narrative.
    Turn(TurnEvent),
    /// A conversation lifecycle fact.
    Conversation(ConversationEvent),
    /// A memory flow fact.
    Memory(MemoryEvent),
}

/// What a [`SynonzEvent`] holds.
pub ghost enum SynonzEventView {
    Turn(TurnEventView),
    Conversation(ConversationEventView),
    Memory(MemoryEventView),
}

impl DeepView for SynonzEvent {
    type V = SynonzEventView;

    open spec fn deep_view(&self) -> SynonzEventView {
        match self {
            SynonzEvent::Turn(event) => SynonzEventView::Turn(event.deep_view()),
            SynonzEvent::Conversation(event) => SynonzEventView::Conversation(event.deep_view()),
            SynonzEvent::Memory(event) => SynonzEventView::Memory(event.deep_view()),
        }
    }
}

/// The observation queue's capacity (fixed by design: overflow is reported,
/// not tuned away).
pub const OBSERVATION_QUEUE_CAP: usize = 256;

/// The sending half of a bounded queue between tasks.
#[verifier::external_type_specification]
#[verifier::external_body]
#[verifier::reject_recursive_types(T)]
pub struct ExSender<T>(tokio::sync::mpsc::Sender<T>);

/// The receiving half of a bounded queue between tasks. What it holds
/// changes under way and is nothing a value of this type tells.
#[verifier::external_type_specification]
#[verifier::external_body]
#[verifier::reject_recursive_types(T)]
pub struct ExReceiver<T>(tokio::sync::mpsc::Receiver<T>);

/// The answering half of a one-time rendezvous.
#[verifier::external_type_specification]
#[verifier::external_body]
#[verifier::reject_recursive_types(T)]
pub struct ExOneshotSender<T>(tokio::sync::oneshot::Sender<T>);

/// One queued bus item: an event with its execution attribution, or the
/// flush barrier.
pub enum BusItem {
    /// An event.
    Event {
        /// The run it came from, when it came from one.
        execution_id: Option<u64>,
        /// The event.
        event: SynonzEvent,
    },
    /// Acknowledged when everything before it was delivered.
    Barrier(tokio::sync::oneshot::Sender<()>),
}

/// What a [`BusItem`] holds.
pub ghost enum BusItemView {
    Event { execution_id: Option<u64>, event: SynonzEventView },
    Barrier,
}

impl DeepView for BusItem {
    type V = BusItemView;

    open spec fn deep_view(&self) -> BusItemView {
        match self {
            BusItem::Event { execution_id, event } => BusItemView::Event {
                execution_id: *execution_id,
                event: event.deep_view(),
            },
            BusItem::Barrier(_) => BusItemView::Barrier,
        }
    }
}

/// The items the queue has taken from this sending half, in order.
pub uninterp spec fn taken_by(sender: Sender<BusItem>) -> Seq<BusItemView>;

/// The items handed to the queue through this sending half, in order,
/// whether it took them or not.
pub uninterp spec fn offered_to(sender: Sender<BusItem>) -> Seq<BusItemView>;

/// The queue that a sending half puts its items into.
pub uninterp spec fn feeds(sender: Sender<BusItem>) -> int;

/// How many items the queue of a sending half holds at most.
pub uninterp spec fn room_of(sender: Sender<BusItem>) -> nat;

/// The queue that a receiving half gets its items from.
pub uninterp spec fn drains(receiver: Receiver<BusItem>) -> int;

/// `tokio::sync::mpsc::channel`: the two halves of a new queue with room for
/// so many items, to which nothing was handed yet. It panics on a capacity of
/// zero or above `usize::MAX / 8`.
#[verifier::external_body]
fn open_queue(capacity: usize) -> (halves: (Sender<BusItem>, Receiver<BusItem>))
    requires
        0 < capacity <= usize::MAX / 8,
    ensures
        taken_by(halves.0) == Seq::<BusItemView>::empty(),
        offered_to(halves.0) == Seq::<BusItemView>::empty(),
        feeds(halves.0) == drains(halves.1),
        room_of(halves.0) == capacity,
{
    tokio::sync::mpsc::channel(capacity)
}

/// `Sender::try_send`: hands the item to the queue of this half without
/// waiting, and returns whether the queue took it. Whether it does depends on
/// what the receiver has drained by now: nothing is claimed of that.
#[verifier::external_body]
fn offer(sender: &mut Sender<BusItem>, item: BusItem) -> (taken: bool)
    ensures
        taken_by(*final(sender)) == (if taken {
            taken_by(*old(sender)).push(item.deep_view())
        } else {
            taken_by(*old(sender))
        }),
        offered_to(*final(sender)) == offered_to(*old(sender)).push(item.deep_view()),
        feeds(*final(sender)) == feeds(*old(sender)),
        room_of(*final(sender)) == room_of(*old(sender)),
{
    sender.try_send(item).is_ok()
}

/// The emitting side of the bus: a bounded queue and the count of what did
/// not fit.
///
/// Emission never blocks: a full queue counts the drop and moves on.
pub struct EventBus {
    sender: Sender<BusItem>,
    receiver: Option<Receiver<BusItem>>,
    dropped: u64,
}

/// What an [`EventBus`] has seen.
#[verifier::ext_equal]
pub ghost struct EventBusView {
    /// Which queue its events go into.
    pub queue: int,
    /// How many events the queue holds at most.
    pub room: nat,
    /// The events handed to the queue, in order.
    pub offered: Seq<BusItemView>,
    /// The events queued, in order.
    pub queued: Seq<BusItemView>,
    /// How many events were dropped.
    pub dropped: u64,
    /// Whether the dispatcher has been claimed.
    pub claimed: bool,
}

impl View for EventBus {
    type V = EventBusView;

    closed spec fn view(&self) -> EventBusView {
        EventBusView {
            queue: feeds(self.sender),
            room: room_of(self.sender),
            offered: offered_to(self.sender),
            queued: taken_by(self.sender),
            dropped: self.dropped,
            claimed: self.receiver is None,
        }
    }
}

/// The bus after an emission: the event was handed to the queue, and is
/// queued behind the others or counted as dropped.
pub open spec fn emitted(bus: EventBusView, item: BusItemView, taken: bool) -> EventBusView {
    if taken {
        EventBusView { offered: bus.offered.push(item), queued: bus.queued.push(item), ..bus }
    } else {
        EventBusView { offered: bus.offered.push(item), dropped: one_more(bus.dropped), ..bus }
    }
}

impl EventBus {
    /// The receiving half, while it is there, gets what the bus queues.
    pub closed spec fn wf(&self) -> bool {
        self.receiver matches Some(half) ==> drains(half) == feeds(self.sender)
    }

    /// Creates the bus. Events queue up until its dispatcher is claimed.
    pub fn new() -> (bus: Self)
        ensures
            bus.wf(),
            bus@ == (EventBusView {
                queue: bus@.queue,
                room: OBSERVATION_QUEUE_CAP as nat,
                offered: Seq::empty(),
                queued: Seq::empty(),
                dropped: 0,
                claimed: false,
            }),
    {
        let (sender, receiver) = open_queue(OBSERVATION_QUEUE_CAP);
        EventBus { sender, receiver: Some(receiver), dropped: 0 }
    }

    /// Emits a run-scoped fact (the attribution travels to observers), and
    /// returns whether it was queued.
    pub fn emit_for_run(&mut self, execution_id: u64, event: SynonzEvent) -> (taken: bool)
        ensures
            final(self).wf() == old(self).wf(),
            final(self)@ == emitted(
                old(self)@,
                BusItemView::Event {
                    execution_id: Some(execution_id),
                    event: event.deep_view(),
                },
                taken,
            ),
    {
        self.emit_inner(Some(execution_id), event)
    }

    /// Emits a run-external fact (no execution attribution), and returns
    /// whether it was queued.
    pub fn emit(&mut self, event: SynonzEvent) -> (taken: bool)
        ensures
            final(self).wf() == old(self).wf(),
            final(self)@ == emitted(
                old(self)@,
                BusItemView::Event { execution_id: None, event: event.deep_view() },
                taken,
            ),
    {
        self.emit_inner(None, event)
    }

    fn emit_inner(&mut self, execution_id: Option<u64>, event: SynonzEvent) -> (taken: bool)
        ensures
            final(self).wf() == old(self).wf(),
            final(self)@ == emitted(
                old(self)@,
                BusItemView::Event { execution_id, event: event.deep_view() },
                taken,
            ),
    {
        let taken = offer(&mut self.sender, BusItem::Event { execution_id, event });
        self.note_emission(taken);
        taken
    }

    /// Accounts for one emission: an event the queue did not take is
    /// counted.
    pub fn note_emission(&mut self, taken: bool)
        ensures
            final(self).wf() == old(self).wf(),
            final(self)@ == (EventBusView {
                dropped: if taken {
                    old(self)@.dropped
                } else {
                    one_more(old(self)@.dropped)
                },
                ..old(self)@
            }),
    {
        if !taken {
            self.dropped = self.dropped.wrapping_add(1);
        }
    }

    /// How many events were dropped so far.
    pub fn dropped(&self) -> (dropped: u64)
        ensures
            dropped == self@.dropped,
    {
        self.dropped
    }

    /// The sending half of the queue, for a flush barrier.
    pub fn sender(&self) -> (sender: &Sender<BusItem>)
        ensures
            feeds(*sender) == self@.queue,
            room_of(*sender) == self@.room,
            offered_to(*sender) == self@.offered,
            taken_by(*sender) == self@.queued,
    {
        &self.sender
    }

    /// Hands out the receiving half of the bus's queue, once: whoever gets it
    /// runs the dispatcher.
    pub fn claim_dispatcher(&mut self) -> (receiver: Option<Receiver<BusItem>>)
        requires
            old(self).wf(),
        ensures
            final(self).wf(),
            receiver is Some == !old(self)@.claimed,
            receiver matches Some(half) ==> drains(half) == old(self)@.queue,
            final(self)@ == (EventBusView { claimed: true, ..old(self)@ }),
    {
        self.receiver.take()
    }
}

/// The event outlet of one run: every fact carries the run's attribution.
#[derive(Debug, Clone, Copy)]
pub struct EventSink {
    execution_id: u64,
}

impl EventSink {
    /// The run the outlet belongs to.
    pub closed spec fn run(&self) -> u64 {
        self.execution_id
    }

    /// The outlet of a run.
    pub fn new(execution_id: u64) -> (sink: Self)
        ensures
            sink.run() == execution_id,
    {
        EventSink { execution_id }
    }

    /// Emits one narration event to the bus, and hands it back for the
    /// delivery to the consumer: an observer never lags behind the product
    /// delivery.
    pub fn emit_turn(&self, bus: &mut EventBus, event: TurnEvent) -> (emission: (bool, TurnEvent))
        ensures
            final(bus).wf() == old(bus).wf(),
            final(bus)@ == emitted(
                old(bus)@,
                BusItemView::Event {
                    execution_id: Some(self.run()),
                    event: SynonzEventView::Turn(event.deep_view()),
                },
                emission.0,
            ),
            emission.1 == event,
    {
        let taken = bus.emit_for_run(self.execution_id, SynonzEvent::Turn(event.clone()));
        (taken, event)
    }

    /// Emits one memory fact: bus only (never on the product narrative).
    pub fn emit_memory(&self, bus: &mut EventBus, event: MemoryEvent) -> (taken: bool)
        ensures
            final(bus).wf() == old(bus).wf(),
            final(bus)@ == emitted(
                old(bus)@,
                BusItemView::Event {
                    execution_id: Some(self.run()),
                    event: SynonzEventView::Memory(event.deep_view()),
                },
                taken,
            ),
    {
        bus.emit_for_run(self.execution_id, SynonzEvent::Memory(event))
    }

    /// Emits one conversation fact: bus only (never on the product
    /// narrative).
    pub fn emit_conversation(&self, bus: &mut EventBus, event: ConversationEvent) -> (taken: bool)
        ensures
            final(bus).wf() == old(bus).wf(),
            final(bus)@ == emitted(
                old(bus)@,
                BusItemView::Event {
                    execution_id: Some(self.run()),
                    event: SynonzEventView::Conversation(event.deep_view()),
                },
                taken,
            ),
    {
        bus.emit_for_run(self.execution_id, SynonzEvent::Conversation(event))
    }
}

/// Overflow is visible, never silent: an emitted event is handed to the same
/// queue as those before, and is queued behind everything queued before, or
/// the drop count goes up (wrapping around at its end), and never both.
pub proof fn emission_is_never_silent(bus: EventBusView, item: BusItemView, taken: bool)
    ensures
        ({
            let after = emitted(bus, item, taken);
            &&& after.queue == bus.queue
            &&& after.room == bus.room
            &&& after.offered == bus.offered.push(item)
            &&& bus.queued.is_prefix_of(after.queued)
            &&& taken ==> after.queued.last() == item && after.queued.len() == bus.queued.len() + 1
                && after.dropped == bus.dropped
            &&& !taken ==> after.queued == bus.queued && after.dropped != bus.dropped
        }),
{
}

/// The bus after a series of emissions; `taken` tells which of them the
/// queue took.
pub open spec fn all_emitted(bus: EventBusView, items: Seq<BusItemView>, taken: Seq<bool>) -> EventBusView
    decreases items.len(),
{
    if items.len() == 0 {
        bus
    } else {
        emitted(all_emitted(bus, items.drop_last(), taken.drop_last()), items.last(), taken.last())
    }
}

/// The accounting is complete: of a series of emissions every one is handed
/// to the queue, in order, and either queued or counted as dropped, as long
/// as the count does not wrap around.
pub proof fn every_emission_is_accounted_for(
    bus: EventBusView,
    items: Seq<BusItemView>,
    taken: Seq<bool>,
)
    requires
        items.len() == taken.len(),
        bus.dropped + items.len() <= u64::MAX,
    ensures
        all_emitted(bus, items, taken).offered == bus.offered + items,
        all_emitted(bus, items, taken).queued.len() + all_emitted(bus, items, taken).dropped
            == bus.queued.len() + bus.dropped + items.len(),
        bus.queued.is_prefix_of(all_emitted(bus, items, taken).queued),
        all_emitted(bus, items, taken).dropped <= bus.dropped + items.len(),
    decreases items.len(),
{
    if items.len() > 0 {
        let before = all_emitted(bus, items.drop_last(), taken.drop_last());
        every_emission_is_accounted_for(bus, items.drop_last(), taken.drop_last());
        let now = all_emitted(bus, items, taken).queued;
        assert(bus.offered + items =~= (bus.offered + items.drop_last()).push(items.last()));
        assert(bus.queued =~= now.subrange(0, bus.queued.len() as int));
    }
}

/// One more than a count, wrapping around at its end.
pub open spec fn one_more(count: u64) -> u64 {
    if count == u64::MAX {
        0
    } else {
        (count + 1) as u64
    }
}

/// The source of process-unique execution ids, one per run. A process keeps
/// one such source, which all its buses draw from.
#[derive(Debug)]
pub struct ExecutionIds {
    next: u64,
}

impl ExecutionIds {
    /// The id given out next.
    pub closed spec fn upcoming(&self) -> u64 {
        self.next
    }

    /// Starts at zero.
    pub fn new() -> (ids: Self)
        ensures
            ids.upcoming() == 0,
    {
        ExecutionIds { next: 0 }
    }

    /// Allocates an execution id.
    pub fn next_execution_id(&mut self) -> (id: u64)
        ensures
            id == old(self).upcoming(),
            final(self).upcoming() == one_more(old(self).upcoming()),
    {
        let id: u64 = self.next;
        self.next = self.next.wrapping_add(1);
        id
    }
}

/// The id given out after so many others.
pub open spec fn later_id(first: u64, steps: nat) -> u64
    decreases steps,
{
    if steps == 0 {
        first
    } else {
        one_more(later_id(first, (steps - 1) as nat))
    }
}

proof fn later_ids_count_on(first: u64, steps: nat)
    requires
        steps <= u64::MAX,
    ensures
        later_id(first, steps) == (if first + steps <= u64::MAX {
            first + steps
        } else {
            first + steps - u64::MAX - 1
        }),
    decreases steps,
{
    if steps > 0 {
        later_ids_count_on(first, (steps - 1) as nat);
    }
}

proof fn later_ids_compose(first: u64, steps: nat, more: nat)
    ensures
        later_id(first, steps + more) == later_id(later_id(first, steps), more),
    decreases more,
{
    if more > 0 {
        later_ids_compose(first, steps, (more - 1) as nat);
    }
}

/// Runs are told apart: the execution ids of any two runs that draw from one
/// source differ, however many come between, until the ids come around.
pub proof fn execution_ids_differ(first: u64, earlier: nat, later: nat)
    requires
        earlier < later <= earlier + u64::MAX,
    ensures
        later_id(first, earlier) != later_id(first, later),
{
    later_ids_compose(first, earlier, (later - earlier) as nat);
    later_ids_count_on(later_id(first, earlier), (later - earlier) as nat);
}

/// The context handed to an observer with every delivery: which execution
/// the event came from; run-external facts carry `None`.
#[derive(Debug, Clone, Copy, PartialEq, Eq)]
pub struct ObserverContext {
    /// The process-unique id of the run this event came from, when it has
    /// one.
    pub execution_id: Option<u64>,
}

impl ObserverContext {
    /// Creates the context of a delivery.
    pub fn new(execution_id: Option<u64>) -> (context: Self)
        ensures
            context.execution_id == execution_id,
    {
        ObserverContext { execution_id }
    }
}

/// What the driver of a dispatcher is to do next.
#[derive(Debug, Clone, Copy, PartialEq, Eq, Structural)]
pub enum DispatchAction {
    /// Deliver the event to this observer.
    Deliver(usize),
    /// Read how many events were dropped so far.
    ReadDropped,
    /// Tell this observer how many events were dropped so far.
    Report(usize, u64),
    /// Take the next item from the queue.
    Next,
}

/// What came of a [`DispatchAction`].
#[derive(Debug, Clone, Copy, PartialEq, Eq, Structural)]
pub enum DispatchInput {
    /// An event arrived.
    Event,
    /// The observer was called; whether it panicked.
    Called(bool),
    /// How many events were dropped so far.
    Dropped(u64),
}

/// Where the dispatcher stands.
#[derive(Debug, Clone, Copy, PartialEq, Eq, Structural)]
pub enum DispatchPhase {
    /// Waiting for an item.
    Idle,
    /// Delivering the event to this observer.
    Delivering(usize),
    /// Reading the drop count.
    Reading,
    /// Reporting the drop count to this observer.
    Reporting(usize, u64),
}

/// The dispatcher: delivers every event to every enabled observer in order,
/// disables an observer that panics, and reports lag.
#[derive(Debug)]
pub struct Dispatcher {
    disabled: Vec<bool>,
    reported_lag: u64,
    phase: DispatchPhase,
}

/// What a [`Dispatcher`] holds.
#[verifier::ext_equal]
pub ghost struct DispatcherView {
    /// Which observers are disabled.
    pub disabled: Seq<bool>,
    /// The drop count reported last.
    pub reported_lag: u64,
    /// Where the dispatcher stands.
    pub phase: DispatchPhase,
}

impl View for Dispatcher {
    type V = DispatcherView;

    closed spec fn view(&self) -> DispatcherView {
        DispatcherView {
            disabled: self.disabled@,
            reported_lag: self.reported_lag,
            phase: self.phase,
        }
    }
}

/// The first enabled observer from `i` on.
pub open spec fn enabled_from(disabled: Seq<bool>, i: int) -> Option<int>
    decreases disabled.len() - i,
{
    if i < 0 || i >= disabled.len() {
        None
    } else if !disabled[i] {
        Some(i)
    } else {
        enabled_from(disabled, i + 1)
    }
}

/// The event goes to the next enabled observer from `i` on; after the last
/// one the drop count is read.
pub open spec fn deliver_from(s: DispatcherView, i: int) -> (DispatcherView, DispatchAction) {
    match enabled_from(s.disabled, i) {
        Some(observer) => (
            DispatcherView { phase: DispatchPhase::Delivering(observer as usize), ..s },
            DispatchAction::Deliver(observer as usize),
        ),
        None => (
            DispatcherView { phase: DispatchPhase::Reading, ..s },
            DispatchAction::ReadDropped,
        ),
    }
}

/// The drop count goes to the next enabled observer from `i` on; after the
/// last one it counts as reported.
pub open spec fn report_from(s: DispatcherView, i: int, total: u64) -> (
    DispatcherView,
    DispatchAction,
) {
    match enabled_from(s.disabled, i) {
        Some(observer) => (
            DispatcherView { phase: DispatchPhase::Reporting(observer as usize, total), ..s },
            DispatchAction::Report(observer as usize, total),
        ),
        None => (
            DispatcherView { phase: DispatchPhase::Idle, reported_lag: total, ..s },
            DispatchAction::Next,
        ),
    }
}

/// An observer was called: when it panicked it is disabled for good.
pub open spec fn after_call(s: DispatcherView, observer: int, panicked: bool) -> DispatcherView {
    if panicked {
        DispatcherView { disabled: s.disabled.update(observer, true), ..s }
    } else {
        s
    }
}

/// One step of the dispatcher.
pub open spec fn dispatch_step(s: DispatcherView, input: DispatchInput) -> (
    DispatcherView,
    DispatchAction,
) {
    match (s.phase, input) {
        (DispatchPhase::Idle, _) => deliver_from(s, 0),
        (DispatchPhase::Delivering(observer), DispatchInput::Called(panicked)) => deliver_from(
            after_call(s, observer as int, panicked),
            observer + 1,
        ),
        (DispatchPhase::Reading, DispatchInput::Dropped(total)) => if total > s.reported_lag {
            report_from(s, 0, total)
        } else {
            (DispatcherView { phase: DispatchPhase::Idle, ..s }, DispatchAction::Next)
        },
        (DispatchPhase::Reporting(observer, total), DispatchInput::Called(panicked)) => report_from(
            after_call(s, observer as int, panicked),
            observer + 1,
            total,
        ),
        (_, _) => (s, DispatchAction::Next),
    }
}

/// What the dispatcher waits for.
pub open spec fn dispatch_expects(s: DispatcherView, input: DispatchInput) -> bool {
    match s.phase {
        DispatchPhase::Idle => input is Event,
        DispatchPhase::Delivering(_) => input is Called,
        DispatchPhase::Reading => input is Dropped,
        DispatchPhase::Reporting(..) => input is Called,
    }
}

/// What holds of every dispatcher: whoever is being called is an enabled
/// observer.
pub open spec fn dispatcher_valid(s: DispatcherView) -> bool {
    &&& s.disabled.len() <= usize::MAX
    &&& match s.phase {
        DispatchPhase::Delivering(observer) => observer < s.disabled.len()
            && !s.disabled[observer as int],
        DispatchPhase::Reporting(observer, total) => observer < s.disabled.len()
            && !s.disabled[observer as int] && total > s.reported_lag,
        _ => true,
    }
}

proof fn enabled_from_is_first(disabled: Seq<bool>, i: int)
    requires
        0 <= i <= disabled.len(),
    ensures
        match enabled_from(disabled, i) {
            Some(found) => i <= found < disabled.len() && !disabled[found] && forall|k: int|
                i <= k < found ==> disabled[k],
            None => forall|k: int| i <= k < disabled.len() ==> disabled[k],
        },
    decreases disabled.len() - i,
{
    if i < disabled.len() && disabled[i] {
        enabled_from_is_first(disabled, i + 1);
    }
}

impl Dispatcher {
    /// A dispatcher for so many observers, all enabled.
    pub fn new(observers: usize) -> (dispatcher: Self)
        ensures
            dispatcher_valid(dispatcher@),
            dispatcher@.disabled == Seq::new(observers as nat, |i: int| false),
            dispatcher@.reported_lag == 0,
            dispatcher@.phase == DispatchPhase::Idle,
    {
        let mut disabled: Vec<bool> = Vec::new();
        let mut i: usize = 0;
        while i < observers
            invariant
                i <= observers,
                disabled@ =~= Seq::new(i as nat, |k: int| false),
            decreases observers - i,
        {
            disabled.push(false);
            i += 1;
        }
        Dispatcher { disabled, reported_lag: 0, phase: DispatchPhase::Idle }
    }

    fn find_enabled(&self, from: usize) -> (found: Option<usize>)
        requires
            from <= self@.disabled.len(),
        ensures
            match found {
                Some(observer) => enabled_from(self@.disabled, from as int) == Some(
                    observer as int,
                ) && observer < self@.disabled.len() && !self@.disabled[observer as int],
                None => enabled_from(self@.disabled, from as int) is None,
            },
    {
        let ghost disabled = self@.disabled;
        let mut i: usize = from;
        while i < self.disabled.len()
            invariant
                from <= i <= self.disabled@.len(),
                disabled == self.disabled@,
                enabled_from(disabled, from as int) == enabled_from(disabled, i as int),
            decreases self.disabled@.len() - i,
        {
            if !self.disabled[i] {
                return Some(i);
            }
            i += 1;
        }
        None
    }

    fn deliver_from(&mut self, from: usize) -> (action: DispatchAction)
        requires
            from <= old(self)@.disabled.len() <= usize::MAX,
        ensures
            dispatcher_valid(final(self)@),
            (final(self)@, action) == deliver_from(old(self)@, from as int),
    {
        match self.find_enabled(from) {
            Some(observer) => {
                self.phase = DispatchPhase::Delivering(observer);
                DispatchAction::Deliver(observer)
            },
            None => {
                self.phase = DispatchPhase::Reading;
                DispatchAction::ReadDropped
            },
        }
    }

    fn report_from(&mut self, from: usize, total: u64) -> (action: DispatchAction)
        requires
            from <= old(self)@.disabled.len() <= usize::MAX,
            total > old(self)@.reported_lag,
        ensures
            dispatcher_valid(final(self)@),
            (final(self)@, action) == report_from(old(self)@, from as int, total),
    {
        match self.find_enabled(from) {
            Some(observer) => {
                self.phase = DispatchPhase::Reporting(observer, total);
                DispatchAction::Report(observer, total)
            },
            None => {
                self.phase = DispatchPhase::Idle;
                self.reported_lag = total;
                DispatchAction::Next
            },
        }
    }

    /// Takes what came of the last action and names the next one.
    pub fn step(&mut self, input: DispatchInput) -> (action: DispatchAction)
        requires
            dispatcher_valid(old(self)@),
            dispatch_expects(old(self)@, input),
        ensures
            dispatcher_valid(final(self)@),
            (final(self)@, action) == dispatch_step(old(self)@, input),
    {
        match self.phase {
            DispatchPhase::Idle => self.deliver_from(0),
            DispatchPhase::Delivering(observer) => {
                if let DispatchInput::Called(true) = input {
                    self.disabled.set(observer, true);
                }
                self.deliver_from(observer + 1)
            },
            DispatchPhase::Reading => match input {
                DispatchInput::Dropped(total) => if total > self.reported_lag {
                    self.report_from(0, total)
                } else {
                    self.phase = DispatchPhase::Idle;
                    DispatchAction::Next
                },
                _ => DispatchAction::Next,
            },
            DispatchPhase::Reporting(observer, total) => {
                if let DispatchInput::Called(true) = input {
                    self.disabled.set(observer, true);
                }
                self.report_from(observer + 1, total)
            },
        }
    }
}

/// A disabled observer stays disabled, and is never called again.
pub proof fn disabled_observers_stay_disabled(s: DispatcherView, input: DispatchInput, observer: int)
    requires
        dispatcher_valid(s),
        dispatch_expects(s, input),
        0 <= observer < s.disabled.len(),
        s.disabled[observer],
    ensures
        dispatch_step(s, input).0.disabled.len() == s.disabled.len(),
        dispatch_step(s, input).0.disabled[observer],
        dispatch_step(s, input).1 matches DispatchAction::Deliver(called) ==> called != observer,
        dispatch_step(s, input).1 matches DispatchAction::Report(called, _) ==> called != observer,
{
    match (s.phase, input) {
        (DispatchPhase::Idle, _) => {
            enabled_from_is_first(s.disabled, 0);
        },
        (DispatchPhase::Delivering(at), DispatchInput::Called(panicked)) => {
            enabled_from_is_first(after_call(s, at as int, panicked).disabled, at + 1);
        },
        (DispatchPhase::Reading, _) => {
            enabled_from_is_first(s.disabled, 0);
        },
        (DispatchPhase::Reporting(at, _), DispatchInput::Called(panicked)) => {
            enabled_from_is_first(after_call(s, at as int, panicked).disabled, at + 1);
        },
        _ => {},
    }
}

/// The enabled observers from `i` on, in order: who is still to be called.
pub open spec fn to_call(disabled: Seq<bool>, i: int) -> Seq<int>
    decreases disabled.len() - i,
{
    if i < 0 || i >= disabled.len() {
        Seq::empty()
    } else if disabled[i] {
        to_call(disabled, i + 1)
    } else {
        seq![i] + to_call(disabled, i + 1)
    }
}

proof fn to_call_starts_with_the_next(disabled: Seq<bool>, i: int)
    requires
        0 <= i <= disabled.len(),
    ensures
        match enabled_from(disabled, i) {
            Some(found) => to_call(disabled, i) == seq![found] + to_call(disabled, found + 1),
            None => to_call(disabled, i).len() == 0,
        },
    decreases disabled.len() - i,
{
    if i < disabled.len() && disabled[i] {
        to_call_starts_with_the_next(disabled, i + 1);
    }
}

proof fn to_call_ignores_the_past(disabled: Seq<bool>, changed: Seq<bool>, i: int)
    requires
        disabled.len() == changed.len(),
        0 <= i <= disabled.len(),
        forall|k: int| i <= k < disabled.len() ==> disabled[k] == changed[k],
    ensures
        to_call(disabled, i) == to_call(changed, i),
    decreases disabled.len() - i,
{
    if i < disabled.len() {
        to_call_ignores_the_past(disabled, changed, i + 1);
    }
}

/// Every enabled observer gets every event, each once and in order, whoever
/// panics: a new event is due to all enabled observers, each delivery takes
/// the first one off, and the drop count is read when none is left.
pub proof fn every_enabled_observer_is_called(s: DispatcherView, input: DispatchInput)
    requires
        dispatcher_valid(s),
        dispatch_expects(s, input),
        s.phase is Idle || s.phase is Delivering,
    ensures
        ({
            let left = match s.phase {
                DispatchPhase::Delivering(observer) => to_call(s.disabled, observer + 1),
                _ => to_call(s.disabled, 0),
            };
            match dispatch_step(s, input).1 {
                DispatchAction::Deliver(observer) => left.len() > 0 && left[0] == observer
                    && to_call(dispatch_step(s, input).0.disabled, observer + 1)
                    == left.drop_first(),
                action => left.len() == 0 && action == DispatchAction::ReadDropped,
            }
        }),
{
    let (from, now) = match (s.phase, input) {
        (DispatchPhase::Delivering(observer), DispatchInput::Called(panicked)) => (
            observer + 1,
            after_call(s, observer as int, panicked),
        ),
        _ => (0int, s),
    };
    to_call_ignores_the_past(s.disabled, now.disabled, from);
    to_call_starts_with_the_next(now.disabled, from);
    enabled_from_is_first(now.disabled, from);
    if let Some(found) = enabled_from(now.disabled, from) {
        let left = to_call(now.disabled, from);
        assert(left.drop_first() =~= to_call(now.disabled, found + 1));
    }
}

/// Overflow is never silent and never reported twice: a drop count above the
/// one reported last is reported, and from then on it is the one reported
/// last; the reported count never goes back.
pub proof fn lag_is_reported_once(s: DispatcherView, input: DispatchInput)
    requires
        dispatcher_valid(s),
        dispatch_expects(s, input),
    ensures
        dispatch_step(s, input).0.reported_lag >= s.reported_lag,
        s.phase is Reading ==> (input matches DispatchInput::Dropped(total) ==> (total
            > s.reported_lag ==> dispatch_step(s, input).1 is Report || dispatch_step(
            s,
            input,
        ).0.reported_lag == total) && (total <= s.reported_lag ==> dispatch_step(s, input).1
            is Next && dispatch_step(s, input).0.reported_lag == s.reported_lag)),
        s.phase matches DispatchPhase::Reporting(_, total) ==> dispatch_step(s, input).1 is Report
            || dispatch_step(s, input).0.reported_lag == total,
{
}

/// Where a dispatcher stands after the given inputs.
pub open spec fn dispatched(s: DispatcherView, inputs: Seq<DispatchInput>) -> DispatcherView
    decreases inputs.len(),
{
    if inputs.len() == 0 {
        s
    } else {
        dispatch_step(dispatched(s, inputs.drop_last()), inputs.last()).0
    }
}

/// What a dispatcher asked for last, after at least one input.
pub open spec fn asked_last(s: DispatcherView, inputs: Seq<DispatchInput>) -> DispatchAction {
    dispatch_step(dispatched(s, inputs.drop_last()), inputs.last()).1
}

/// Whether each input is one the dispatcher waited for.
pub open spec fn dispatch_runs(s: DispatcherView, inputs: Seq<DispatchInput>) -> bool
    decreases inputs.len(),
{
    inputs.len() == 0 || (dispatch_runs(s, inputs.drop_last()) && dispatch_expects(
        dispatched(s, inputs.drop_last()),
        inputs.last(),
    ))
}

/// How many events arrived.
pub open spec fn events_in(inputs: Seq<DispatchInput>) -> nat
    decreases inputs.len(),
{
    if inputs.len() == 0 {
        0
    } else if inputs.last() is Event {
        events_in(inputs.drop_last()) + 1
    } else {
        events_in(inputs.drop_last())
    }
}

/// The events that were delivered to an observer, in the order of delivery,
/// each by its place in the queue.
pub open spec fn delivered_to(
    s: DispatcherView,
    inputs: Seq<DispatchInput>,
    observer: int,
) -> Seq<int>
    decreases inputs.len(),
{
    if inputs.len() == 0 {
        Seq::empty()
    } else {
        let earlier = delivered_to(s, inputs.drop_last(), observer);
        match asked_last(s, inputs) {
            DispatchAction::Deliver(called) if called == observer => earlier.push(
                events_in(inputs) - 1,
            ),
            _ => earlier,
        }
    }
}

/// The drop counts that an observer was told, in order.
pub open spec fn told_lags(s: DispatcherView, inputs: Seq<DispatchInput>, observer: int) -> Seq<u64>
    decreases inputs.len(),
{
    if inputs.len() == 0 {
        Seq::empty()
    } else {
        let earlier = told_lags(s, inputs.drop_last(), observer);
        match asked_last(s, inputs) {
            DispatchAction::Report(called, total) if called == observer => earlier.push(total),
            _ => earlier,
        }
    }
}

/// The drop counts read that were above every one read before, in order.
pub open spec fn new_lags(s: DispatcherView, inputs: Seq<DispatchInput>) -> Seq<u64>
    decreases inputs.len(),
{
    if inputs.len() == 0 {
        Seq::empty()
    } else {
        let earlier = new_lags(s, inputs.drop_last());
        match inputs.last() {
            DispatchInput::Dropped(total) if total > dispatched(
                s,
                inputs.drop_last(),
            ).reported_lag => earlier.push(total),
            _ => earlier,
        }
    }
}

/// The first so many places of a queue.
pub open spec fn places(count: nat) -> Seq<int> {
    Seq::new(count, |k: int| k)
}

/// What holds of an observer that is enabled still.
spec fn served(s: DispatcherView, inputs: Seq<DispatchInput>, observer: int) -> bool {
    let now = dispatched(s, inputs);
    let delivered = delivered_to(s, inputs, observer);
    let told = told_lags(s, inputs, observer);
    let lags = new_lags(s, inputs);
    match now.phase {
        DispatchPhase::Delivering(at) => events_in(inputs) > 0 && delivered == (if observer <= at {
            places(events_in(inputs))
        } else {
            places((events_in(inputs) - 1) as nat)
        }) && told == lags,
        DispatchPhase::Reporting(at, total) => delivered == places(events_in(inputs)) && lags.len()
            > 0 && lags.last() == total && told == (if observer <= at {
            lags
        } else {
            lags.drop_last()
        }),
        _ => delivered == places(events_in(inputs)) && told == lags,
    }
}

proof fn dispatching_serves(s: DispatcherView, inputs: Seq<DispatchInput>, observer: int)
    requires
        dispatcher_valid(s),
        s.phase is Idle,
        dispatch_runs(s, inputs),
        0 <= observer < s.disabled.len(),
    ensures
        dispatcher_valid(dispatched(s, inputs)),
        dispatched(s, inputs).disabled.len() == s.disabled.len(),
        !dispatched(s, inputs).disabled[observer] ==> served(s, inputs, observer),
    decreases inputs.len(),
{
    if inputs.len() == 0 {
        assert(places(0) =~= Seq::<int>::empty());
    } else {
        let earlier = inputs.drop_last();
        dispatching_serves(s, earlier, observer);
        let before = dispatched(s, earlier);
        let after = dispatched(s, inputs);
        let count = events_in(inputs);
        if count > 0 {
            assert(places((count - 1) as nat).push(count - 1) =~= places(count));
        }
        let lags = new_lags(s, inputs);
        match (before.phase, inputs.last()) {
            (DispatchPhase::Delivering(at), DispatchInput::Called(panicked)) => {
                enabled_from_is_first(after_call(before, at as int, panicked).disabled, at + 1);
            },
            (DispatchPhase::Reporting(at, _), DispatchInput::Called(panicked)) => {
                enabled_from_is_first(after_call(before, at as int, panicked).disabled, at + 1);
                if lags.len() > 0 {
                    assert(lags.drop_last().push(lags.last()) =~= lags);
                }
            },
            (DispatchPhase::Reading, DispatchInput::Dropped(total)) => {
                enabled_from_is_first(before.disabled, 0);
                assert(new_lags(s, earlier).push(total).drop_last() =~= new_lags(s, earlier));
            },
            _ => {
                enabled_from_is_first(before.disabled, 0);
            },
        }
        if before.disabled[observer] {
            disabled_observers_stay_disabled(before, inputs.last(), observer);
        }
    }
}

/// Over a whole queue an observer that never panicked gets every event, each
/// once and in the order of the queue, and is told every new drop count,
/// whatever the others do.
pub proof fn healthy_observers_get_everything(
    s: DispatcherView,
    inputs: Seq<DispatchInput>,
    observer: int,
)
    requires
        dispatcher_valid(s),
        s.phase is Idle,
        dispatch_runs(s, inputs),
        dispatched(s, inputs).phase is Idle,
        0 <= observer < s.disabled.len(),
        !dispatched(s, inputs).disabled[observer],
    ensures
        delivered_to(s, inputs, observer) == places(events_in(inputs)),
        told_lags(s, inputs, observer) == new_lags(s, inputs),
{
    dispatching_serves(s, inputs, observer);
}

/// Whether counts grow strictly.
pub open spec fn grows(totals: Seq<u64>) -> bool {
    forall|i: int, j: int| 0 <= i < j < totals.len() ==> totals[i] < totals[j]
}

/// Whether no count is above a bound.
spec fn bounded_by(totals: Seq<u64>, bound: u64) -> bool {
    forall|i: int| 0 <= i < totals.len() ==> #[trigger] totals[i] <= bound
}

proof fn reporting_grows(s: DispatcherView, inputs: Seq<DispatchInput>, observer: int)
    requires
        dispatcher_valid(s),
        s.phase is Idle,
        dispatch_runs(s, inputs),
        0 <= observer < s.disabled.len(),
    ensures
        dispatcher_valid(dispatched(s, inputs)),
        dispatched(s, inputs).disabled.len() == s.disabled.len(),
        grows(told_lags(s, inputs, observer)),
        match dispatched(s, inputs).phase {
            DispatchPhase::Reporting(at, total) => bounded_by(
                told_lags(s, inputs, observer),
                if observer <= at {
                    total
                } else {
                    dispatched(s, inputs).reported_lag
                },
            ),
            _ => bounded_by(told_lags(s, inputs, observer), dispatched(s, inputs).reported_lag),
        },
    decreases inputs.len(),
{
    if inputs.len() > 0 {
        let earlier = inputs.drop_last();
        reporting_grows(s, earlier, observer);
        dispatching_serves(s, inputs, observer);
        let before = dispatched(s, earlier);
        match (before.phase, inputs.last()) {
            (DispatchPhase::Delivering(at), DispatchInput::Called(panicked)) => {
                enabled_from_is_first(after_call(before, at as int, panicked).disabled, at + 1);
            },
            (DispatchPhase::Reporting(at, _), DispatchInput::Called(panicked)) => {
                enabled_from_is_first(after_call(before, at as int, panicked).disabled, at + 1);
            },
            _ => {
                enabled_from_is_first(before.disabled, 0);
            },
        }
    }
}

/// The drop counts that an observer is told grow strictly, over a whole
/// queue and whatever the observers do: no count is told twice.
pub proof fn told_lags_grow(s: DispatcherView, inputs: Seq<DispatchInput>, observer: int)
    requires
        dispatcher_valid(s),
        s.phase is Idle,
        dispatch_runs(s, inputs),
        0 <= observer < s.disabled.len(),
    ensures
        grows(told_lags(s, inputs, observer)),
{
    reporting_grows(s, inputs, observer);
}

/// A panicking observer is cut off at once and alone: it is disabled from
/// that call on, and nobody else is; one that returns is not.
pub proof fn only_panics_cut_off(s: DispatcherView, observer: usize, panicked: bool, other: int)
    requires
        dispatcher_valid(s),
        s.phase == DispatchPhase::Delivering(observer) || (s.phase
            matches DispatchPhase::Reporting(at, _) && at == observer),
        0 <= other < s.disabled.len(),
    ensures
        ({
            let after = dispatch_step(s, DispatchInput::Called(panicked)).0;
            &&& after.disabled.len() == s.disabled.len()
            &&& after.disabled[other] == (s.disabled[other] || (panicked && other == observer))
        }),
{
}

/// A new drop count is told to every enabled observer, each once and in
/// order, with the whole count; when all were told it counts as reported.
pub proof fn every_enabled_observer_hears_of_lag(s: DispatcherView, input: DispatchInput)
    requires
        dispatcher_valid(s),
        dispatch_expects(s, input),
        s.phase is Reporting || (s.phase is Reading && (input matches DispatchInput::Dropped(total)
            && total > s.reported_lag)),
    ensures
        ({
            let (left, due) = match (s.phase, input) {
                (DispatchPhase::Reporting(observer, total), _) => (
                    to_call(s.disabled, observer + 1),
                    total,
                ),
                (_, DispatchInput::Dropped(total)) => (to_call(s.disabled, 0), total),
                _ => (Seq::empty(), 0),
            };
            let (after, action) = dispatch_step(s, input);
            match action {
                DispatchAction::Report(observer, total) => left.len() > 0 && left[0] == observer
                    && total == due && to_call(after.disabled, observer + 1) == left.drop_first(),
                action => left.len() == 0 && action == DispatchAction::Next && after.reported_lag
                    == due && after.phase is Idle,
            }
        }),
{
    let (from, now) = match (s.phase, input) {
        (DispatchPhase::Reporting(observer, _), DispatchInput::Called(panicked)) => (
            observer + 1,
            after_call(s, observer as int, panicked),
        ),
        _ => (0int, s),
    };
    to_call_ignores_the_past(s.disabled, now.disabled, from);
    to_call_starts_with_the_next(now.disabled, from);
    enabled_from_is_first(now.disabled, from);
    if let Some(found) = enabled_from(now.disabled, from) {
        let left = to_call(now.disabled, from);
        assert(left.drop_first() =~= to_call(now.disabled, found + 1));
    }
}

/// Counting goes up by one, and around to zero past the end.
pub proof fn counts_go_up_by_one(count: u64)
    ensures
        count < u64::MAX ==> one_more(count) == count + 1,
        one_more(u64::MAX) == 0,
{
}

} // verus!
