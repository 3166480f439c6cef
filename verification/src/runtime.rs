//! The process-level runtime: the conversation lifecycle, the Monitor, and the
//! idle sweep.

use vstd::prelude::*;

use crate::bus::{
    one_more, ConversationEndReason, ConversationEvent, ConversationEventView, MemoryEvent,
    MemoryEventView, MemoryFlowFailedMoment, SynonzEvent, SynonzEventView,
};
use crate::conversation::{
    fresh_conversation, generated_id, restored, state_of, store_error_text,
    Conversation, ConversationIds, ConversationPage, ConversationQuery, ConversationStateView,
    ConversationStoreError, ConversationStoreErrorView, ConversationView, CursorView,
    SummaryView,
};
use crate::context::topic_or_empty;
use crate::event::MemoryFlowStage;
use crate::inprocess::{
    is_stale, load_of, matching, satisfies, InProcessConversationStore, InProcessMemory,
};
use crate::layer_store::{layers_of, no_layers, AllLayersView, InProcessLayers};
use crate::layers::distilled;
use crate::lifecycle::{
    end_valid, memory_facts, ConversationEnd, EndAction, EndActionView, EndInput, EndStageView,
};
use crate::listing::{
    cursor_of, cursors_are_values, in_order, is_listing, listing, listing_is_unique, lists_before,
    lists_before_transitive, page_view, rest_after, rest_in_order, summary_of,
};
use crate::scheduler::{
    infos_of, registered, OverlapPolicy, Schedule, Scheduler, SchedulerView, TaskInfo,
    TaskInfoView, MAX_NANOS,
};
use crate::shelves::shelf;
use crate::subject::{parsed, subject_text, Subject};
use crate::sweep::{
    sweep_items, Sweep, SweepAction, SweepActionView, SweepInput, SweepPhase, SweepView,
};
use crate::teardown::{
    TeardownAction, TeardownActionView, TeardownInput, TeardownPhaseView,
    MAINTENANCE_DRAIN_TIMEOUT,
};
use crate::text::{concat, precedes_irreflexive, Text};
use crate::trigger::{all_distilled, LayersView};

verus! {

/// How many stale conversations one sweep page holds (fixed by design: the
/// sweep pages through the store instead of loading everything).
pub const SWEEP_PAGE_SIZE: usize = 128;

/// The Monitor task's name (shown by the read-only scheduler snapshot).
pub const MONITOR_TASK_NAME: &'static str = "monitor";

/// The shortest Monitor tick, in nanoseconds.
pub const MONITOR_FLOOR: u128 = 100_000_000;

/// The longest Monitor tick, in nanoseconds.
pub const MONITOR_CAP: u128 = 60_000_000_000;

/// A quarter of the idle timeout, clamped between the floor and the cap.
pub open spec fn monitor_period(idle_timeout: u128) -> u128 {
    let quarter = idle_timeout / 4;
    if quarter < MONITOR_FLOOR {
        MONITOR_FLOOR
    } else if quarter > MONITOR_CAP {
        MONITOR_CAP
    } else {
        quarter
    }
}

/// The Monitor's tick: derived from the idle timeout, clamped so cleanup
/// stays prompt for small timeouts and crash recovery stays within a minute
/// for large ones. Both are nanoseconds.
pub fn monitor_tick(idle_timeout: u128) -> (tick: u128)
    ensures
        tick == monitor_period(idle_timeout),
{
    let quarter: u128 = idle_timeout / 4;
    if quarter < MONITOR_FLOOR {
        MONITOR_FLOOR
    } else if quarter > MONITOR_CAP {
        MONITOR_CAP
    } else {
        quarter
    }
}

/// The Monitor's tick lies between a tenth of a second and a minute, and
/// never shrinks with a growing timeout.
pub proof fn the_monitor_tick_is_clamped(shorter: u128, longer: u128)
    requires
        shorter <= longer,
    ensures
        MONITOR_FLOOR <= monitor_period(shorter) <= MONITOR_CAP,
        monitor_period(shorter) <= monitor_period(longer),
{
    assert(shorter / 4 <= longer / 4);
}

/// Nanoseconds in a second.
pub const SECOND: u128 = 1_000_000_000;

/// Since when a conversation is idle: the timeout in whole seconds, at least
/// one, before now (epoch seconds), and not before the epoch.
pub open spec fn idle_since(now: u64, idle_timeout: u128) -> int {
    let seconds = idle_timeout / SECOND;
    let wait = if seconds < 1 {
        1int
    } else {
        seconds as int
    };
    if now > wait {
        now - wait
    } else {
        0
    }
}

/// The sweep's threshold: conversations without activity since then are
/// stale.
pub fn idle_threshold(now: u64, idle_timeout: u128) -> (threshold: u64)
    ensures
        threshold == idle_since(now, idle_timeout),
{
    let seconds: u128 = idle_timeout / SECOND;
    let wait: u128 = if seconds < 1 {
        1
    } else {
        seconds
    };
    if now as u128 > wait {
        (now as u128 - wait) as u64
    } else {
        0
    }
}

/// What a save came to.
pub open spec fn saved_view(saved: Result<(), ConversationStoreError>) -> Result<
    (),
    ConversationStoreErrorView,
> {
    match saved {
        Ok(()) => Ok(()),
        Err(error) => Err(error.deep_view()),
    }
}

/// The fact a failed save leaves.
pub open spec fn save_failures(
    saved: Result<(), ConversationStoreErrorView>,
    mark: Seq<char>,
    moment: MemoryFlowFailedMoment,
) -> Seq<SynonzEventView> {
    match saved {
        Ok(()) => Seq::empty(),
        Err(error) => seq![
            SynonzEventView::Memory(
                MemoryEventView::FlowFailed {
                    stage: MemoryFlowStage::Archive,
                    detail: mark + store_error_text(error),
                    moment,
                },
            ),
        ],
    }
}

/// The facts of a conversation's creation: a failed first save, and then in
/// any case the creation.
pub open spec fn created_facts(
    conversation: ConversationView,
    saved: Result<(), ConversationStoreErrorView>,
) -> Seq<SynonzEventView> {
    save_failures(
        saved,
        "conversation initial save failed: "@,
        MemoryFlowFailedMoment::Creation,
    ).push(
        SynonzEventView::Conversation(
            ConversationEventView::Created {
                conversation_id: conversation.id,
                subject_id: subject_text(conversation.subject),
            },
        ),
    )
}

/// The facts of a conversation's end: a failed last save, and then in any
/// case the end, with its reason.
pub open spec fn ended_facts(
    conversation: ConversationView,
    saved: Result<(), ConversationStoreErrorView>,
    reason: ConversationEndReason,
) -> Seq<SynonzEventView> {
    save_failures(
        saved,
        "conversation end save failed: "@,
        MemoryFlowFailedMoment::AtConversationEnd,
    ).push(
        SynonzEventView::Conversation(
            ConversationEventView::Ended {
                conversation_id: conversation.id,
                subject_id: subject_text(conversation.subject),
                reason,
            },
        ),
    )
}

fn save_facts(
    saved: Result<(), ConversationStoreError>,
    mark: &str,
    moment: MemoryFlowFailedMoment,
) -> (facts: Vec<SynonzEvent>)
    ensures
        facts.deep_view() == save_failures(saved_view(saved), mark@, moment),
{
    let mut facts: Vec<SynonzEvent> = Vec::new();
    assert(facts.deep_view() =~= Seq::<SynonzEventView>::empty());
    if let Err(error) = saved {
        let text = error.to_string();
        facts.push(
            SynonzEvent::Memory(
                MemoryEvent::FlowFailed {
                    stage: MemoryFlowStage::Archive,
                    detail: concat(mark, text.as_str()),
                    moment,
                },
            ),
        );
        assert(facts.deep_view() =~= save_failures(saved_view(Err(error)), mark@, moment));
    }
    facts
}

/// The facts to emit when a conversation was created and its first state
/// saved.
pub fn creation(conversation: &Conversation, saved: Result<(), ConversationStoreError>) -> (facts:
    Vec<SynonzEvent>)
    ensures
        facts.deep_view() == created_facts(conversation.deep_view(), saved_view(saved)),
{
    let mut facts = save_facts(
        saved,
        "conversation initial save failed: ",
        MemoryFlowFailedMoment::Creation,
    );
    let ghost before = facts.deep_view();
    facts.push(
        SynonzEvent::Conversation(
            ConversationEvent::Created {
                conversation_id: conversation.id().to_owned(),
                subject_id: conversation.subject().to_string(),
            },
        ),
    );
    assert(facts.deep_view() =~= before.push(facts.deep_view().last()));
    facts
}

/// The facts to emit when a conversation ended and its last state was saved.
pub fn ending(
    conversation: &Conversation,
    saved: Result<(), ConversationStoreError>,
    reason: ConversationEndReason,
) -> (facts: Vec<SynonzEvent>)
    ensures
        facts.deep_view() == ended_facts(conversation.deep_view(), saved_view(saved), reason),
{
    let mut facts = save_facts(
        saved,
        "conversation end save failed: ",
        MemoryFlowFailedMoment::AtConversationEnd,
    );
    let ghost before = facts.deep_view();
    facts.push(
        SynonzEvent::Conversation(
            ConversationEvent::Ended {
                conversation_id: conversation.id().to_owned(),
                subject_id: conversation.subject().to_string(),
                reason,
            },
        ),
    );
    assert(facts.deep_view() =~= before.push(facts.deep_view().last()));
    facts
}

/// The startup registry: every service has an in-process default;
/// registration replaces it.
#[derive(Debug)]
pub struct RuntimeBuilder {
    conversation_store: Option<InProcessConversationStore>,
    memory_layers: Option<InProcessLayers>,
    conversation_idle_timeout: Option<u128>,
    executor: bool,
}

/// What a [`RuntimeBuilder`] holds.
#[verifier::ext_equal]
pub ghost struct RuntimeBuilderView {
    /// The conversations of the registered store, by id.
    pub conversations: Map<Seq<char>, ConversationStateView>,
    /// The memory layers.
    pub layers: AllLayersView,
    /// The idle timeout, in nanoseconds.
    pub idle_timeout: Option<u128>,
    /// Whether an execution environment is available.
    pub executor: bool,
}

impl View for RuntimeBuilder {
    type V = RuntimeBuilderView;

    closed spec fn view(&self) -> RuntimeBuilderView {
        RuntimeBuilderView {
            conversations: match self.conversation_store {
                Some(store) => store@,
                None => Map::empty(),
            },
            layers: match self.memory_layers {
                Some(layers) => layers@,
                None => no_layers(),
            },
            idle_timeout: self.conversation_idle_timeout,
            executor: self.executor,
        }
    }
}

impl RuntimeBuilder {
    /// What is registered is in order.
    pub closed spec fn wf(&self) -> bool {
        &&& self.conversation_store matches Some(store) ==> store.wf()
        &&& self.memory_layers matches Some(layers) ==> layers.wf()
    }

    /// Starts building a runtime.
    pub fn new() -> (builder: Self)
        ensures
            builder.wf(),
            builder@ == (RuntimeBuilderView {
                conversations: Map::empty(),
                layers: no_layers(),
                idle_timeout: None,
                executor: false,
            }),
    {
        RuntimeBuilder {
            conversation_store: None,
            memory_layers: None,
            conversation_idle_timeout: None,
            executor: false,
        }
    }

    /// Sets the conversation store (default: in-process, empty).
    pub fn conversation_store(self, store: InProcessConversationStore) -> (builder: Self)
        requires
            self.wf(),
            store.wf(),
        ensures
            builder.wf(),
            builder@ == (RuntimeBuilderView { conversations: store@, ..self@ }),
    {
        let mut builder = self;
        builder.conversation_store = Some(store);
        builder
    }

    /// Sets the memory layers (default: in-process, empty).
    pub fn memory_layers(self, layers: InProcessLayers) -> (builder: Self)
        requires
            self.wf(),
            layers.wf(),
        ensures
            builder.wf(),
            builder@ == (RuntimeBuilderView { layers: layers@, ..self@ }),
    {
        let mut builder = self;
        builder.memory_layers = Some(layers);
        builder
    }

    /// Sets the conversation idle timeout, in nanoseconds: the Monitor (a
    /// system scheduler task) ends conversations with no activity for this
    /// long.
    pub fn conversation_idle_timeout(self, timeout: u128) -> (builder: Self)
        requires
            self.wf(),
        ensures
            builder.wf(),
            builder@ == (RuntimeBuilderView { idle_timeout: Some(timeout), ..self@ }),
    {
        let mut builder = self;
        builder.conversation_idle_timeout = Some(timeout);
        builder
    }

    /// States whether an execution environment is available: the system
    /// scheduler submits its executions there.
    pub fn executor(self, available: bool) -> (builder: Self)
        requires
            self.wf(),
        ensures
            builder.wf(),
            builder@ == (RuntimeBuilderView { executor: available, ..self@ }),
    {
        let mut builder = self;
        builder.executor = available;
        builder
    }

    /// Whether the configuration can be built: an idle timeout needs an
    /// execution environment for the Monitor.
    pub fn is_buildable(&self) -> (buildable: bool)
        ensures
            buildable == (self@.idle_timeout is Some ==> self@.executor),
    {
        self.conversation_idle_timeout.is_none() || self.executor
    }

    /// Builds the runtime when the clock reads `clock` (nanoseconds), with
    /// registered or default implementations. The system scheduler is there
    /// when an execution environment is; the Monitor is registered when an
    /// idle timeout is configured, due at once.
    pub fn build(self, clock: u128) -> (runtime: SynonzRuntime)
        requires
            self.wf(),
            self@.idle_timeout is Some ==> self@.executor,
            clock <= MAX_NANOS,
        ensures
            runtime.wf(),
            runtime@ == (RuntimeView {
                conversations: self@.conversations,
                layers: self@.layers,
                idle_timeout: self@.idle_timeout,
                scheduler: match self@.idle_timeout {
                    Some(timeout) => Some(
                        registered(
                            SchedulerView { tasks: Seq::empty(), next_id: 0 },
                            Some(MONITOR_TASK_NAME@),
                            monitor_period(timeout),
                            OverlapPolicy::Skip,
                            clock,
                        ),
                    ),
                    None => if self@.executor {
                        Some(SchedulerView { tasks: Seq::empty(), next_id: 0 })
                    } else {
                        None
                    },
                },
            }),
    {
        let store = match self.conversation_store {
            Some(store) => store,
            None => InProcessConversationStore::new(),
        };
        let layers = match self.memory_layers {
            Some(layers) => layers,
            None => InProcessLayers::new(),
        };
        let scheduler = if self.executor {
            let mut scheduler = Scheduler::new();
            if let Some(timeout) = self.conversation_idle_timeout {
                let tick: u128 = monitor_tick(timeout);
                scheduler.schedule_named(
                    MONITOR_TASK_NAME,
                    Schedule::every(tick),
                    OverlapPolicy::Skip,
                    clock,
                );
            }
            Some(scheduler)
        } else {
            None
        };
        SynonzRuntime {
            store,
            layers,
            idle_timeout: self.conversation_idle_timeout,
            scheduler,
        }
    }
}

/// The process-level environment over in-process services: conversation
/// persistence, the memory layers, the system scheduler, and its first task,
/// the Monitor (the idle sweep).
///
/// It runs no background maintenance of its own; what it reports are the
/// facts to emit on the bus.
#[derive(Debug)]
pub struct SynonzRuntime {
    store: InProcessConversationStore,
    layers: InProcessLayers,
    idle_timeout: Option<u128>,
    scheduler: Option<Scheduler>,
}

/// What a [`SynonzRuntime`] holds.
#[verifier::ext_equal]
pub ghost struct RuntimeView {
    /// The stored conversations, by id.
    pub conversations: Map<Seq<char>, ConversationStateView>,
    /// The memory layers.
    pub layers: AllLayersView,
    /// The idle timeout, in nanoseconds.
    pub idle_timeout: Option<u128>,
    /// The system scheduler.
    pub scheduler: Option<SchedulerView>,
}

impl View for SynonzRuntime {
    type V = RuntimeView;

    closed spec fn view(&self) -> RuntimeView {
        RuntimeView {
            conversations: self.store@,
            layers: self.layers@,
            idle_timeout: self.idle_timeout,
            scheduler: match self.scheduler {
                Some(scheduler) => Some(scheduler.deep_view()),
                None => None,
            },
        }
    }
}

impl SynonzRuntime {
    /// Its services are in order.
    pub closed spec fn wf(&self) -> bool {
        &&& self.store.wf()
        &&& self.layers.wf()
        &&& self.scheduler matches Some(scheduler) ==> scheduler.wf()
    }

    /// Starts building a runtime.
    pub fn builder() -> (builder: RuntimeBuilder)
        ensures
            builder.wf(),
            builder@ == (RuntimeBuilderView {
                conversations: Map::empty(),
                layers: no_layers(),
                idle_timeout: None,
                executor: false,
            }),
    {
        RuntimeBuilder::new()
    }

    /// The memory: the in-process default, which holds no management-grade
    /// entries.
    pub fn memory(&self) -> (memory: InProcessMemory)
        ensures
            memory == InProcessMemory,
    {
        InProcessMemory
    }

    /// The memory layers, for the flows behind a turn.
    pub fn layers(&mut self) -> (layers: &mut InProcessLayers)
        requires
            old(self).wf(),
        ensures
            layers.wf(),
            layers@ == old(self)@.layers,
            final(layers).wf() ==> final(self).wf(),
            final(self)@ == (RuntimeView { layers: final(layers)@, ..old(self)@ }),
    {
        &mut self.layers
    }

    /// A read-only snapshot of the system scheduler's tasks when the clock
    /// reads `clock` (nanoseconds).
    pub fn scheduler_snapshot(&self, clock: u128) -> (tasks: Vec<TaskInfo>)
        requires
            self.wf(),
        ensures
            tasks.deep_view() == (match self@.scheduler {
                Some(scheduler) => infos_of(scheduler.tasks, clock),
                None => Seq::empty(),
            }),
    {
        match &self.scheduler {
            Some(scheduler) => scheduler.tasks(clock),
            None => {
                let none: Vec<TaskInfo> = Vec::new();
                assert(none.deep_view() =~= Seq::<TaskInfoView>::empty());
                none
            },
        }
    }

    /// Lists conversations matching a metadata keyword with keyset
    /// pagination.
    pub fn list_conversations(&self, query: ConversationQuery) -> (page: Result<
        ConversationPage,
        ConversationStoreError,
    >)
        requires
            self.wf(),
        ensures
            page matches Ok(page) && page.deep_view() == page_view(
                listing(
                    matching(
                        self@.conversations,
                        |state: ConversationStateView| satisfies(state, query.keyword.deep_view()),
                    ),
                ),
                query.after.deep_view(),
                query.limit as nat,
            ),
            query.keyword.deep_view() == Some(Seq::<char>::empty()) ==> (page matches Ok(page)
                && page.deep_view() == page_view(
                listing(matching(self@.conversations, |state: ConversationStateView| true)),
                query.after.deep_view(),
                query.limit as nat,
            )),
            is_listing(
                listing(
                    matching(
                        self@.conversations,
                        |state: ConversationStateView| satisfies(state, query.keyword.deep_view()),
                    ),
                ),
                matching(
                    self@.conversations,
                    |state: ConversationStateView| satisfies(state, query.keyword.deep_view()),
                ),
            ),
    {
        self.store.list(query)
    }
}

impl Conversation {
    /// Creates a conversation with a generated identity, drawn from the
    /// process's source of ids: `nanos` is the time since the epoch in
    /// nanoseconds, `now` in seconds. Returns it with the facts to emit.
    pub fn new(
        runtime: &mut SynonzRuntime,
        subject: &Subject,
        ids: &mut ConversationIds,
        nanos: u128,
        now: u64,
    ) -> (created: (Self, Vec<SynonzEvent>))
        requires
            old(runtime).wf(),
        ensures
            final(runtime).wf(),
            created.0.deep_view() == fresh_conversation(
                subject.deep_view(),
                generated_id(nanos, old(ids).upcoming()),
            ),
            final(ids).upcoming() == one_more(old(ids).upcoming()),
            final(runtime)@ == (RuntimeView {
                conversations: old(runtime)@.conversations.insert(
                    created.0.deep_view().id,
                    state_of(created.0.deep_view(), now),
                ),
                ..old(runtime)@
            }),
            created.1.deep_view() == created_facts(created.0.deep_view(), Ok(())),
    {
        Self::with_id(runtime, subject, ids.next_id(nanos), now)
    }

    /// Creates a conversation under an identity of the application, at the
    /// time `now` (epoch seconds): its first state is saved. Returns it with
    /// the facts to emit.
    pub fn with_id(
        runtime: &mut SynonzRuntime,
        subject: &Subject,
        id: impl Text,
        now: u64,
    ) -> (created: (Self, Vec<SynonzEvent>))
        requires
            old(runtime).wf(),
        ensures
            final(runtime).wf(),
            created.0.deep_view() == fresh_conversation(subject.deep_view(), id.text()),
            final(runtime)@ == (RuntimeView {
                conversations: old(runtime)@.conversations.insert(
                    id.text(),
                    state_of(created.0.deep_view(), now),
                ),
                ..old(runtime)@
            }),
            created.1.deep_view() == created_facts(created.0.deep_view(), Ok(())),
    {
        let conversation = Conversation::fresh(subject, id);
        let saved = runtime.store.save(conversation.state(now));
        let facts = creation(&conversation, saved);
        (conversation, facts)
    }

    /// Restores an existing conversation by id: fails with
    /// [`ConversationStoreError::NotFound`] when no conversation exists under
    /// this id for this subject. The lifecycle state is restored too.
    pub fn of(runtime: &SynonzRuntime, subject: &Subject, id: &str) -> (found: Result<
        Self,
        ConversationStoreError,
    >)
        requires
            runtime.wf(),
        ensures
            match load_of(runtime@.conversations, subject.deep_view(), id@) {
                Some(state) => found matches Ok(conversation) && conversation.deep_view()
                    == restored(subject.deep_view(), state),
                None => found matches Err(error) && error.deep_view()
                    == ConversationStoreErrorView::NotFound(id@),
            },
    {
        match runtime.store.load(subject, id) {
            Ok(state) => Ok(Conversation::restore(subject, state)),
            Err(error) => Err(error),
        }
    }

    /// Saves the current state at the time `now` (epoch seconds).
    pub fn save(&self, runtime: &mut SynonzRuntime, now: u64) -> (saved: Result<
        (),
        ConversationStoreError,
    >)
        requires
            old(runtime).wf(),
        ensures
            saved is Ok,
            final(runtime).wf(),
            final(runtime)@ == (RuntimeView {
                conversations: old(runtime)@.conversations.insert(
                    self.deep_view().id,
                    state_of(self.deep_view(), now),
                ),
                ..old(runtime)@
            }),
    {
        runtime.store.save(self.state(now))
    }

    /// Ends the conversation explicitly.
    pub fn end(&mut self, runtime: &mut SynonzRuntime, now: u64) -> (facts: Vec<SynonzEvent>)
        requires
            old(runtime).wf(),
        ensures
            final(runtime).wf(),
            final(self).deep_view() == (ConversationView { ended: true, ..old(self).deep_view() }),
            (final(runtime)@, facts.deep_view()) == ended_with(
                old(runtime)@,
                old(self).deep_view(),
                ConversationEndReason::Explicit,
                now,
            ),
    {
        self.end_with(runtime, ConversationEndReason::Explicit, now)
    }

    /// Ends the conversation at the time `now` (epoch seconds): the first
    /// call wins, promotes the conversation's L2 blocks, and persists the
    /// ended state; later calls do nothing. Returns the facts to emit.
    pub fn end_with(
        &mut self,
        runtime: &mut SynonzRuntime,
        reason: ConversationEndReason,
        now: u64,
    ) -> (facts: Vec<SynonzEvent>)
        requires
            old(runtime).wf(),
        ensures
            final(runtime).wf(),
            final(self).deep_view() == (ConversationView { ended: true, ..old(self).deep_view() }),
            (final(runtime)@, facts.deep_view()) == ended_with(
                old(runtime)@,
                old(self).deep_view(),
                reason,
                now,
            ),
    {
        let ghost first = runtime@;
        let ghost given = self.deep_view();
        let (mut end, step) = ConversationEnd::begin(
            self,
            reason,
            0,
            0,
            MAINTENANCE_DRAIN_TIMEOUT,
            now,
        );
        let ghost ended = self.deep_view();
        let mut facts = step.facts;
        let mut action = step.action;
        proof {
            assert(memory_facts(Seq::empty()) =~= Seq::<SynonzEventView>::empty());
        }
        let mut over = false;
        while !over
            invariant
                runtime.wf(),
                ended == (ConversationView { ended: true, ..given }),
                self.deep_view() == ended,
                end_valid(end.deep_view()),
                end.deep_view().reason == reason,
                ending_at(
                    first,
                    given,
                    reason,
                    now,
                    end.deep_view().stage,
                    action.deep_view(),
                    runtime@,
                    facts.deep_view(),
                ),
                over ==> end.deep_view().stage is Finished,
            decreases
                    end_rank(end.deep_view().stage, over),
                    end_blocks(end.deep_view().stage),
        {
            let ghost told = facts.deep_view();
            let ghost stage = end.deep_view().stage;
            let ghost before = runtime@;
            let ghost key = (subject_text(ended.subject), ended.id);
            let input = match action {
                EndAction::Teardown(TeardownAction::L2Len) => EndInput::Teardown(
                    TeardownInput::Counted(Ok(runtime.layers.l2_len(self.subject(), self.id()))),
                ),
                EndAction::Teardown(TeardownAction::L2PopOldest(count)) => EndInput::Teardown(
                    TeardownInput::Blocks(
                        Ok(runtime.layers.l2_pop_oldest(self.subject(), self.id(), count)),
                    ),
                ),
                EndAction::Teardown(TeardownAction::L3Upsert(fragment)) => {
                    runtime.layers.l3_upsert(self.subject(), self.id(), fragment);
                    EndInput::Teardown(TeardownInput::Written(Ok(())))
                },
                EndAction::Teardown(TeardownAction::Finalize) => EndInput::Teardown(
                    TeardownInput::Finalized(Ok(())),
                ),
                EndAction::Save(state) => EndInput::Saved(runtime.store.save(state)),
                other => {
                    over = true;
                    action = other;
                    continue ;
                },
            };
            proof {
                let blocks = shelf(first.layers.l2, key);
                let topic = topic_or_empty(ended.topic);
                let held = shelf(first.layers.l3, key);
                assert(memory_facts(Seq::empty()) =~= Seq::<SynonzEventView>::empty());
                assert(told + Seq::<SynonzEventView>::empty() =~= told);
                if let EndStageView::TearingDown(teardown) = stage {
                    match teardown.phase {
                        TeardownPhaseView::Popping => {
                            assert(blocks.take(blocks.len() as int) =~= blocks);
                            assert(blocks.skip(blocks.len() as int) =~= Seq::empty());
                            assert(blocks.drop_first() =~= blocks.skip(1));
                        },
                        TeardownPhaseView::Promoting(rest) => {
                            let done = teardown.promoted as int;
                            assert(rest.len() > 0 ==> rest.drop_first() =~= blocks.skip(done + 2));
                            assert(held + all_distilled(key.0, topic, blocks.take(done + 1), now)
                                =~= (held + all_distilled(key.0, topic, blocks.take(done), now)).push(
                                distilled(key.0, topic, blocks[done], now),
                            ));
                            assert(held + all_distilled(key.0, topic, blocks.take(0), now) =~= held);
                            assert(blocks.take(blocks.len() as int) =~= blocks);
                            assert(runtime@.layers.l3 =~= first.layers.l3.insert(
                                key,
                                held + all_distilled(key.0, topic, blocks.take(done + 1), now),
                            ));
                        },
                        _ => {},
                    }
                }
            }
            let mut next = end.step(self, input, 0, now);
            let ghost added = next.deep_view().facts;
            facts.append(&mut next.facts);
            assert(facts.deep_view() =~= told + added);
            action = next.action;
            proof {
                if let EndStageView::TearingDown(teardown) = end.deep_view().stage {
                    if teardown.phase is Finalizing {
                        assert(facts.deep_view() =~= promotion_facts(first.layers, key));
                    }
                }
            }
        }
        facts
    }
}

/// How far an end has come with empty drains and working stores, from the
/// given runtime: what is to be done next, and what the runtime holds and
/// was told so far.
spec fn ending_at(
    first: RuntimeView,
    given: ConversationView,
    reason: ConversationEndReason,
    now: u64,
    stage: EndStageView,
    action: EndActionView,
    runtime: RuntimeView,
    facts: Seq<SynonzEventView>,
) -> bool {
    let ended = ConversationView { ended: true, ..given };
    let key = (subject_text(given.subject), given.id);
    let topic = topic_or_empty(given.topic);
    let blocks = shelf(first.layers.l2, key);
    let held = shelf(first.layers.l3, key);
    match stage {
        EndStageView::TearingDown(teardown) => {
            &&& !given.ended
            &&& teardown.subject == key.0
            &&& teardown.conversation_id == key.1
            &&& teardown.topic == topic
            &&& teardown.timed_out == 0
            &&& match teardown.phase {
                TeardownPhaseView::Counting => action == EndActionView::Teardown(
                    TeardownActionView::L2Len,
                ) && runtime == first && facts.len() == 0 && teardown.promoted == 0,
                TeardownPhaseView::Popping => 0 < blocks.len() <= usize::MAX && action == EndActionView::Teardown(
                    TeardownActionView::L2PopOldest(blocks.len() as usize),
                ) && runtime == first && facts.len() == 0 && teardown.promoted == 0,
                TeardownPhaseView::Promoting(rest) => {
                    let done = teardown.promoted as int;
                    &&& done < blocks.len() <= usize::MAX
                    &&& rest == blocks.skip(done + 1)
                    &&& action == EndActionView::Teardown(
                        TeardownActionView::L3Upsert(
                            distilled(key.0, topic, blocks[done], now),
                        ),
                    )
                    &&& facts.len() == 0
                    &&& runtime == (RuntimeView {
                        layers: AllLayersView {
                            l2: first.layers.l2.insert(key, Seq::empty()),
                            l3: if done == 0 {
                                first.layers.l3
                            } else {
                                first.layers.l3.insert(
                                    key,
                                    held + all_distilled(key.0, topic, blocks.take(done), now),
                                )
                            },
                            ..first.layers
                        },
                        ..first
                    })
                },
                TeardownPhaseView::Finalizing => action == EndActionView::Teardown(
                    TeardownActionView::Finalize,
                ) && runtime == (RuntimeView {
                    layers: promoted(first.layers, given, now),
                    ..first
                }) && facts == promotion_facts(first.layers, key),
                _ => false,
            }
        },
        EndStageView::Saving => {
            &&& !given.ended
            &&& action == EndActionView::Save(state_of(ended, now))
            &&& runtime == (RuntimeView { layers: promoted(first.layers, given, now), ..first })
            &&& facts == promotion_facts(first.layers, key)
        },
        EndStageView::Finished => action is Done && (runtime, facts) == ended_with(
            first,
            given,
            reason,
            now,
        ),
    }
}

/// How many kinds of steps an end has before it.
spec fn end_rank(stage: EndStageView, over: bool) -> int {
    if over {
        0
    } else {
        match stage {
            EndStageView::TearingDown(teardown) => match teardown.phase {
                TeardownPhaseView::Counting => 6,
                TeardownPhaseView::Popping => 5,
                TeardownPhaseView::Promoting(_) => 4,
                _ => 3,
            },
            EndStageView::Saving => 2,
            EndStageView::Finished => 1,
        }
    }
}

/// How many blocks an end has still to promote.
spec fn end_blocks(stage: EndStageView) -> nat {
    match stage {
        EndStageView::TearingDown(teardown) => match teardown.phase {
            TeardownPhaseView::Promoting(rest) => rest.len(),
            _ => 0,
        },
        _ => 0,
    }
}

/// The layers after a conversation's end: its L2 blocks have become L3
/// knowledge under its topic, in order.
pub open spec fn promoted(layers: AllLayersView, conversation: ConversationView, now: u64) -> AllLayersView {
    let key = (subject_text(conversation.subject), conversation.id);
    let blocks = shelf(layers.l2, key);
    if blocks.len() == 0 {
        layers
    } else {
        AllLayersView {
            l2: layers.l2.insert(key, Seq::empty()),
            l3: layers.l3.insert(
                key,
                shelf(layers.l3, key) + all_distilled(
                    key.0,
                    topic_or_empty(conversation.topic),
                    blocks,
                    now,
                ),
            ),
            ..layers
        }
    }
}

/// The fact that blocks were promoted, when there were any.
pub open spec fn promotion_facts(layers: AllLayersView, key: (Seq<char>, Seq<char>)) -> Seq<
    SynonzEventView,
> {
    let count = shelf(layers.l2, key).len();
    if count == 0 {
        Seq::empty()
    } else {
        seq![
            SynonzEventView::Memory(
                MemoryEventView::Promoted { conversation_id: key.1, count: count as usize },
            ),
        ]
    }
}

/// The runtime after a conversation's end, and the facts of it: its blocks
/// are promoted, its last state is saved, and its end is told. Nothing
/// happens to one that has ended before.
pub open spec fn ended_with(
    runtime: RuntimeView,
    conversation: ConversationView,
    reason: ConversationEndReason,
    now: u64,
) -> (RuntimeView, Seq<SynonzEventView>) {
    if conversation.ended {
        (runtime, Seq::empty())
    } else {
        let ended = ConversationView { ended: true, ..conversation };
        (
            RuntimeView {
                conversations: runtime.conversations.insert(ended.id, state_of(ended, now)),
                layers: promoted(runtime.layers, ended, now),
                ..runtime
            },
            promotion_facts(runtime.layers, (subject_text(ended.subject), ended.id))
                + ended_facts(ended, Ok(()), reason),
        )
    }
}

/// Ending is idempotent: a second end changes nothing and tells nothing,
/// whatever its reason.
pub proof fn ending_twice_is_ending_once(
    runtime: RuntimeView,
    conversation: ConversationView,
    reason: ConversationEndReason,
    again: ConversationEndReason,
    now: u64,
    later: u64,
)
    ensures
        ({
            let ended = ConversationView { ended: true, ..conversation };
            let (after, facts) = ended_with(runtime, conversation, reason, now);
            ended_with(after, ended, again, later) == (after, Seq::<SynonzEventView>::empty())
        }),
{
}

/// Ending promotes: a conversation's L2 is empty behind its end, and each of
/// its blocks is L3 knowledge under its topic, in order and behind what L3
/// held. The layers of every other conversation stay as they were.
pub proof fn ending_promotes_every_block(
    runtime: RuntimeView,
    conversation: ConversationView,
    reason: ConversationEndReason,
    now: u64,
    other: (Seq<char>, Seq<char>),
)
    requires
        !conversation.ended,
        other != (subject_text(conversation.subject), conversation.id),
    ensures
        ({
            let key = (subject_text(conversation.subject), conversation.id);
            let before = layers_of(runtime.layers, key);
            let after = ended_with(runtime, conversation, reason, now).0.layers;
            &&& layers_of(after, key) == (LayersView {
                l1: before.l1,
                l2: Seq::empty(),
                l3: before.l3 + all_distilled(
                    key.0,
                    topic_or_empty(conversation.topic),
                    before.l2,
                    now,
                ),
            })
            &&& layers_of(after, other) == layers_of(runtime.layers, other)
        }),
{
    let key = (subject_text(conversation.subject), conversation.id);
    let before = layers_of(runtime.layers, key);
    let all = all_distilled(key.0, topic_or_empty(conversation.topic), before.l2, now);
    assert(before.l2.len() == 0 ==> before.l2 =~= Seq::empty());
    assert(before.l2.len() == 0 ==> before.l3 + all =~= before.l3);
}

/// A created conversation is restored as it was created, and an ended one as
/// ended: [`Conversation::of`] finds what the lifecycle persisted.
pub proof fn the_lifecycle_is_persisted(
    runtime: RuntimeView,
    conversation: ConversationView,
    reason: ConversationEndReason,
    now: u64,
)
    requires
        !conversation.ended,
    ensures
        restored(conversation.subject, state_of(conversation, now)) == conversation,
        ({
            let after = ended_with(runtime, conversation, reason, now).0;
            &&& load_of(
                after.conversations,
                conversation.subject,
                conversation.id,
            ) matches Some(state)
            &&& restored(conversation.subject, state) == (ConversationView {
                ended: true,
                ..conversation
            })
        }),
{
}

/// Whether a sweep ends a conversation: it is stale, and its subject can be
/// read.
pub open spec fn is_swept(state: ConversationStateView, before: u64) -> bool {
    is_stale(state, before) && parsed(state.subject_id) is Some
}

/// A conversation's state after its end at the time `now`.
pub open spec fn closed_state(state: ConversationStateView, now: u64) -> ConversationStateView {
    ConversationStateView { ended: true, last_active: now, ..state }
}

/// The conversations after a sweep.
pub open spec fn all_swept(
    conversations: Map<Seq<char>, ConversationStateView>,
    before: u64,
    now: u64,
) -> Map<Seq<char>, ConversationStateView> {
    conversations.map_values(
        |state: ConversationStateView|
            if is_swept(state, before) {
                closed_state(state, now)
            } else {
                state
            },
    )
}

/// The stale conversations, in listing order.
pub open spec fn stale_listing(
    conversations: Map<Seq<char>, ConversationStateView>,
    before: u64,
) -> Seq<SummaryView> {
    listing(matching(conversations, |state: ConversationStateView| is_stale(state, before)))
}

/// The layers after the ends of the listed conversations, in order; one
/// whose subject cannot be read is passed over.
pub open spec fn swept_layers(
    layers: AllLayersView,
    conversations: Map<Seq<char>, ConversationStateView>,
    items: Seq<SummaryView>,
    now: u64,
) -> AllLayersView
    decreases items.len(),
{
    if items.len() == 0 {
        layers
    } else {
        let earlier = swept_layers(layers, conversations, items.drop_last(), now);
        match parsed(items.last().subject_id) {
            Some(subject) => promoted(
                earlier,
                restored(subject, conversations[items.last().id]),
                now,
            ),
            None => earlier,
        }
    }
}

/// The facts of the ends of the listed conversations, in order; one whose
/// subject cannot be read is passed over.
pub open spec fn sweep_facts(
    layers: AllLayersView,
    conversations: Map<Seq<char>, ConversationStateView>,
    items: Seq<SummaryView>,
    now: u64,
) -> Seq<SynonzEventView>
    decreases items.len(),
{
    if items.len() == 0 {
        Seq::empty()
    } else {
        let earlier = sweep_facts(layers, conversations, items.drop_last(), now);
        if parsed(items.last().subject_id) is Some {
            earlier + promotion_facts(
                swept_layers(layers, conversations, items.drop_last(), now),
                (items.last().subject_id, items.last().id),
            ) + seq![
                SynonzEventView::Conversation(
                    ConversationEventView::Ended {
                        conversation_id: items.last().id,
                        subject_id: items.last().subject_id,
                        reason: ConversationEndReason::IdleSwept,
                    },
                ),
            ]
        } else {
            earlier
        }
    }
}

/// How many of the listed conversations a sweep ends.
pub open spec fn sweep_count(items: Seq<SummaryView>) -> nat
    decreases items.len(),
{
    if items.len() == 0 {
        0
    } else if parsed(items.last().subject_id) is Some {
        sweep_count(items.drop_last()) + 1
    } else {
        sweep_count(items.drop_last())
    }
}

proof fn sweep_count_is_within(items: Seq<SummaryView>)
    ensures
        sweep_count(items) <= items.len(),
    decreases items.len(),
{
    if items.len() > 0 {
        sweep_count_is_within(items.drop_last());
    }
}

/// Whether a conversation stands among the first `k` of a listing.
spec fn among_first(listed: Seq<SummaryView>, k: int, id: Seq<char>) -> bool {
    exists|i: int| 0 <= i < k && i < listed.len() && #[trigger] listed[i].id == id
}

/// The conversations when the first `k` of the stale listing have been gone
/// through.
spec fn swept_up_to(
    conversations: Map<Seq<char>, ConversationStateView>,
    listed: Seq<SummaryView>,
    k: int,
    now: u64,
) -> Map<Seq<char>, ConversationStateView> {
    Map::new(
        |id: Seq<char>| conversations.contains_key(id),
        |id: Seq<char>|
            if among_first(listed, k, id) && parsed(conversations[id].subject_id) is Some {
                closed_state(conversations[id], now)
            } else {
                conversations[id]
            },
    )
}

/// What the proofs about a sweep speak of: the conversations it began with,
/// each under its own id, and the listing of the stale ones.
spec fn sweep_ground(
    conversations: Map<Seq<char>, ConversationStateView>,
    before: u64,
    listed: Seq<SummaryView>,
) -> bool {
    &&& forall|id: Seq<char>| #[trigger]
        conversations.contains_key(id) ==> conversations[id].id == id
    &&& is_listing(
        listed,
        matching(conversations, |state: ConversationStateView| is_stale(state, before)),
    )
}

/// A listed conversation is a stored one that is stale.
proof fn listed_are_stale(
    conversations: Map<Seq<char>, ConversationStateView>,
    before: u64,
    listed: Seq<SummaryView>,
    i: int,
)
    requires
        sweep_ground(conversations, before, listed),
        0 <= i < listed.len(),
    ensures
        conversations.contains_key(listed[i].id),
        is_stale(conversations[listed[i].id], before),
        summary_of(conversations[listed[i].id]) == listed[i],
{
    let all = matching(conversations, |state: ConversationStateView| is_stale(state, before));
    assert(listed.to_set().contains(listed[i]));
    assert(all.contains(listed[i]));
    let id = choose|id: Seq<char>| #[trigger]
        conversations.contains_key(id) && is_stale(conversations[id], before) && summary_of(
            conversations[id],
        ) == listed[i];
    assert(id == listed[i].id);
}

/// A stored conversation that is stale is listed.
proof fn stale_are_listed(
    conversations: Map<Seq<char>, ConversationStateView>,
    before: u64,
    listed: Seq<SummaryView>,
    id: Seq<char>,
) -> (i: int)
    requires
        sweep_ground(conversations, before, listed),
        conversations.contains_key(id),
        is_stale(conversations[id], before),
    ensures
        0 <= i < listed.len(),
        listed[i] == summary_of(conversations[id]),
        listed[i].id == id,
{
    let all = matching(conversations, |state: ConversationStateView| is_stale(state, before));
    assert(all.contains(summary_of(conversations[id])));
    assert(listed.to_set().contains(summary_of(conversations[id])));
    choose|i: int| 0 <= i < listed.len() && listed[i] == summary_of(conversations[id])
}

/// A conversation is listed once.
proof fn listed_once(listed: Seq<SummaryView>, i: int, j: int)
    requires
        in_order(listed),
        0 <= i < listed.len(),
        0 <= j < listed.len(),
        listed[i].id == listed[j].id,
        listed[i].last_active == listed[j].last_active,
    ensures
        i == j,
{
    precedes_irreflexive(listed[i].id);
    if i < j {
        assert(lists_before(listed[i], listed[j]));
    }
    if j < i {
        assert(lists_before(listed[j], listed[i]));
    }
}

/// Behind the place gone through, the stale listing has not changed: ended
/// conversations leave it, and nothing else does.
proof fn the_rest_is_untouched(
    conversations: Map<Seq<char>, ConversationStateView>,
    before: u64,
    now: u64,
    listed: Seq<SummaryView>,
    k: int,
    current: Seq<SummaryView>,
)
    requires
        sweep_ground(conversations, before, listed),
        0 <= k <= listed.len(),
        is_listing(
            current,
            matching(
                swept_up_to(conversations, listed, k, now),
                |state: ConversationStateView| is_stale(state, before),
            ),
        ),
    ensures
        k == 0 ==> current == listed,
        k > 0 ==> rest_after(current, Some(cursor_of(listed[k - 1]))) == listed.skip(k),
{
    let states = swept_up_to(conversations, listed, k, now);
    let keep = |state: ConversationStateView| is_stale(state, before);
    let stale = matching(conversations, keep);
    let left = matching(states, keep);
    // Those left are those not gone through, and those passed over.
    assert forall|x: SummaryView|
        left.contains(x) implies stale.contains(x) && forall|i: int|
        0 <= i < k ==> (#[trigger] listed[i] == x ==> parsed(x.subject_id) is None) by {
        let id = choose|id: Seq<char>| #[trigger]
            states.contains_key(id) && keep(states[id]) && summary_of(states[id]) == x;
        assert(states[id] == conversations[id]);
        assert(conversations.contains_key(id) && keep(conversations[id]));
        assert forall|i: int| 0 <= i < k && #[trigger] listed[i] == x implies parsed(x.subject_id)
            is None by {
            assert(listed[i].id == id);
            assert(among_first(listed, k, id));
        }
    }
    assert forall|x: SummaryView|
        stale.contains(x) && (forall|i: int| 0 <= i < k ==> #[trigger] listed[i] != x)
            implies left.contains(x) by {
        let id = choose|id: Seq<char>| #[trigger]
            conversations.contains_key(id) && keep(conversations[id]) && summary_of(
                conversations[id],
            ) == x;
        if among_first(listed, k, id) {
            let i = choose|i: int| 0 <= i < k && i < listed.len() && #[trigger] listed[i].id == id;
            listed_are_stale(conversations, before, listed, i);
            assert(listed[i] == x);
        }
        assert(states.contains_key(id) && keep(states[id]));
    }
    if k == 0 {
        assert(left =~= stale) by {
            assert forall|x: SummaryView| left.contains(x) == stale.contains(x) by {}
        }
        listing_is_unique(current, listed, stale);
    } else {
        let cursor = cursor_of(listed[k - 1]);
        let rest = rest_after(current, Some(cursor));
        let expected = listed.skip(k);
        rest_in_order(current, cursor);
        assert(in_order(expected)) by {
            assert forall|i: int, j: int| 0 <= i < j < expected.len() implies lists_before(
                expected[i],
                expected[j],
            ) by {
                assert(expected[i] == listed[k + i] && expected[j] == listed[k + j]);
            }
        }
        assert(rest.to_set() =~= expected.to_set()) by {
            assert forall|x: SummaryView| rest.to_set().contains(x) == expected.to_set().contains(
                x,
            ) by {
                cursors_are_values(current, cursor, x);
                if rest.contains(x) {
                    assert(current.to_set().contains(x));
                    assert(listed.to_set().contains(x));
                    let i = choose|i: int| 0 <= i < listed.len() && listed[i] == x;
                    if i < k {
                        if i < k - 1 {
                            assert(lists_before(listed[i], listed[k - 1]));
                            lists_before_transitive(listed[i], listed[k - 1], listed[i]);
                        }
                        precedes_irreflexive(x.id);
                        assert(false);
                    }
                    assert(expected[i - k] == x);
                }
                if expected.contains(x) {
                    let i = choose|i: int| 0 <= i < expected.len() && expected[i] == x;
                    assert(listed[k + i] == x);
                    assert(lists_before(listed[k - 1], listed[k + i]));
                    assert forall|j: int| 0 <= j < k implies #[trigger] listed[j] != x by {
                        if listed[j] == x {
                            listed_once(listed, j, k + i);
                        }
                    }
                    assert(listed.to_set().contains(x));
                    assert(left.contains(x));
                    assert(current.to_set().contains(x));
                }
            }
        }
        listing_is_unique(rest, expected, expected.to_set());
    }
}

/// Passing over conversations whose subject cannot be read changes nothing.
proof fn passing_over_changes_nothing(
    layers: AllLayersView,
    conversations: Map<Seq<char>, ConversationStateView>,
    before: u64,
    now: u64,
    listed: Seq<SummaryView>,
    k: int,
    j: int,
)
    requires
        sweep_ground(conversations, before, listed),
        0 <= k <= j <= listed.len(),
        forall|i: int| k <= i < j ==> parsed((#[trigger] listed[i]).subject_id) is None,
    ensures
        swept_up_to(conversations, listed, k, now) == swept_up_to(conversations, listed, j, now),
        swept_layers(layers, conversations, listed.take(k), now) == swept_layers(
            layers,
            conversations,
            listed.take(j),
            now,
        ),
        sweep_facts(layers, conversations, listed.take(k), now) == sweep_facts(
            layers,
            conversations,
            listed.take(j),
            now,
        ),
        sweep_count(listed.take(k)) == sweep_count(listed.take(j)),
    decreases j - k,
{
    if k < j {
        passing_over_changes_nothing(layers, conversations, before, now, listed, k, j - 1);
        assert(listed.take(j).drop_last() =~= listed.take(j - 1));
        assert(listed.take(j).last() == listed[j - 1]);
        let a = swept_up_to(conversations, listed, j - 1, now);
        let b = swept_up_to(conversations, listed, j, now);
        assert forall|id: Seq<char>| a.contains_key(id) implies a[id] == b[id] by {
            if among_first(listed, j, id) && !among_first(listed, j - 1, id) {
                let i = choose|i: int|
                    0 <= i < j && i < listed.len() && #[trigger] listed[i].id == id;
                assert(i == j - 1);
                listed_are_stale(conversations, before, listed, i);
            }
            if among_first(listed, j - 1, id) {
                let i = choose|i: int|
                    0 <= i < j - 1 && i < listed.len() && #[trigger] listed[i].id == id;
                assert(among_first(listed, j, id));
            }
        }
        assert(a =~= b);
    }
}

/// Ending the conversation at place `k` goes one place on.
proof fn ending_goes_on(
    layers: AllLayersView,
    conversations: Map<Seq<char>, ConversationStateView>,
    before: u64,
    now: u64,
    listed: Seq<SummaryView>,
    k: int,
)
    requires
        sweep_ground(conversations, before, listed),
        0 <= k < listed.len(),
        parsed(listed[k].subject_id) is Some,
    ensures
        swept_up_to(conversations, listed, k, now).contains_key(listed[k].id),
        swept_up_to(conversations, listed, k, now)[listed[k].id] == conversations[listed[k].id],
        swept_up_to(conversations, listed, k + 1, now) == swept_up_to(
            conversations,
            listed,
            k,
            now,
        ).insert(listed[k].id, closed_state(conversations[listed[k].id], now)),
        swept_layers(layers, conversations, listed.take(k + 1), now) == promoted(
            swept_layers(layers, conversations, listed.take(k), now),
            restored(parsed(listed[k].subject_id)->0, conversations[listed[k].id]),
            now,
        ),
        sweep_facts(layers, conversations, listed.take(k + 1), now) == sweep_facts(
            layers,
            conversations,
            listed.take(k),
            now,
        ) + promotion_facts(
            swept_layers(layers, conversations, listed.take(k), now),
            (listed[k].subject_id, listed[k].id),
        ) + seq![
            SynonzEventView::Conversation(
                ConversationEventView::Ended {
                    conversation_id: listed[k].id,
                    subject_id: listed[k].subject_id,
                    reason: ConversationEndReason::IdleSwept,
                },
            ),
        ],
        sweep_count(listed.take(k + 1)) == sweep_count(listed.take(k)) + 1,
{
    let id = listed[k].id;
    listed_are_stale(conversations, before, listed, k);
    assert(!among_first(listed, k, id)) by {
        if among_first(listed, k, id) {
            let i = choose|i: int| 0 <= i < k && i < listed.len() && #[trigger] listed[i].id == id;
            listed_are_stale(conversations, before, listed, i);
            listed_once(listed, i, k);
        }
    }
    assert(listed.take(k + 1).drop_last() =~= listed.take(k));
    assert(listed.take(k + 1).last() == listed[k]);
    let a = swept_up_to(conversations, listed, k, now);
    let b = swept_up_to(conversations, listed, k + 1, now);
    assert(listed[k].id == id);
    assert(among_first(listed, k + 1, id));
    assert forall|x: Seq<char>| x != id && a.contains_key(x) implies a[x] == b[x] by {
        if among_first(listed, k + 1, x) {
            let i = choose|i: int|
                0 <= i < k + 1 && i < listed.len() && #[trigger] listed[i].id == x;
            assert(i != k);
            assert(among_first(listed, k, x));
        }
        if among_first(listed, k, x) {
            let i = choose|i: int| 0 <= i < k && i < listed.len() && #[trigger] listed[i].id == x;
            assert(among_first(listed, k + 1, x));
        }
    }
    assert(b =~= a.insert(id, closed_state(conversations[id], now)));
}

/// When the whole listing has been gone through, the sweep is complete.
proof fn the_sweep_is_complete(
    conversations: Map<Seq<char>, ConversationStateView>,
    before: u64,
    now: u64,
    listed: Seq<SummaryView>,
)
    requires
        sweep_ground(conversations, before, listed),
    ensures
        swept_up_to(conversations, listed, listed.len() as int, now) == all_swept(
            conversations,
            before,
            now,
        ),
{
    let n = listed.len() as int;
    let a = swept_up_to(conversations, listed, n, now);
    let b = all_swept(conversations, before, now);
    assert forall|id: Seq<char>| a.contains_key(id) implies a[id] == b[id] by {
        if is_stale(conversations[id], before) {
            let i = stale_are_listed(conversations, before, listed, id);
            assert(listed[i].id == id);
            assert(among_first(listed, n, id));
        }
        if among_first(listed, n, id) {
            let i = choose|i: int| 0 <= i < n && i < listed.len() && #[trigger] listed[i].id == id;
            listed_are_stale(conversations, before, listed, i);
        }
    }
    assert(a =~= b);
}

/// Where a page of the listing up to `e` resumes.
spec fn resume_at(listed: Seq<SummaryView>, e: int) -> Option<CursorView> {
    if e < listed.len() {
        Some(cursor_of(listed[e - 1]))
    } else {
        None
    }
}

/// Where a sweep gets to from place `k` of a page up to `e`.
spec fn lands_at(listed: Seq<SummaryView>, k: int, e: int) -> int
    decreases e - k,
{
    if k >= e || parsed(listed[k].subject_id) is Some {
        k
    } else {
        lands_at(listed, k + 1, e)
    }
}

proof fn the_sweep_lands(s: SweepView, listed: Seq<SummaryView>, k: int, e: int)
    requires
        0 <= k <= e <= listed.len(),
    ensures
        ({
            let j = lands_at(listed, k, e);
            &&& k <= j <= e
            &&& forall|i: int| k <= i < j ==> parsed((#[trigger] listed[i]).subject_id) is None
            &&& j < e ==> parsed(listed[j].subject_id) is Some && sweep_items(
                s,
                listed.subrange(k, e),
                resume_at(listed, e),
            ) == (
                SweepView {
                    items: listed.subrange(j + 1, e),
                    next: resume_at(listed, e),
                    phase: SweepPhase::Restoring,
                    ..s
                },
                SweepActionView::Restore {
                    subject: parsed(listed[j].subject_id)->0,
                    id: listed[j].id,
                },
            )
            &&& j == e ==> sweep_items(s, listed.subrange(k, e), resume_at(listed, e))
                == sweep_items(s, Seq::empty(), resume_at(listed, e))
        }),
    decreases e - k,
{
    let items = listed.subrange(k, e);
    if k < e {
        assert(items[0] == listed[k]);
        assert(items.drop_first() =~= listed.subrange(k + 1, e));
        if parsed(listed[k].subject_id) is None {
            the_sweep_lands(s, listed, k + 1, e);
        }
    } else {
        assert(items =~= Seq::empty());
    }
}

/// What a sweep came to.
#[derive(Debug)]
pub struct SweepOutcome {
    /// How many conversations were ended.
    pub ended: usize,
    /// The facts to emit, in order.
    pub facts: Vec<SynonzEvent>,
}

impl SynonzRuntime {
    /// The idle sweep, the Monitor's task body, at the time `now` (epoch
    /// seconds). Without an idle timeout nothing is swept.
    pub fn sweep_idle(&mut self, now: u64) -> (outcome: SweepOutcome)
        requires
            old(self).wf(),
        ensures
            final(self).wf(),
            match old(self)@.idle_timeout {
                Some(timeout) => {
                    let before = idle_since(now, timeout) as u64;
                    let listed = stale_listing(old(self)@.conversations, before);
                    &&& final(self)@ == (RuntimeView {
                        conversations: all_swept(old(self)@.conversations, before, now),
                        layers: swept_layers(
                            old(self)@.layers,
                            old(self)@.conversations,
                            listed,
                            now,
                        ),
                        ..old(self)@
                    })
                    &&& outcome.ended == sweep_count(listed)
                    &&& outcome.facts.deep_view() == sweep_facts(
                        old(self)@.layers,
                        old(self)@.conversations,
                        listed,
                        now,
                    )
                },
                None => final(self)@ == old(self)@ && outcome.ended == 0
                    && outcome.facts.deep_view() == Seq::<SynonzEventView>::empty(),
            },
    {
        match self.idle_timeout {
            Some(timeout) => {
                let before: u64 = idle_threshold(now, timeout);
                self.sweep_idle_before(before, now)
            },
            None => {
                let facts: Vec<SynonzEvent> = Vec::new();
                assert(facts.deep_view() =~= Seq::<SynonzEventView>::empty());
                SweepOutcome { ended: 0, facts }
            },
        }
    }

    /// Sweeps the conversations idle since `before`, at the time `now` (both
    /// epoch seconds): every stale one whose subject can be read is ended,
    /// page by page, and all others stay as they are.
    #[verifier::rlimit(60)]
    #[verifier::spinoff_prover]
    pub fn sweep_idle_before(&mut self, before: u64, now: u64) -> (outcome: SweepOutcome)
        requires
            old(self).wf(),
        ensures
            final(self).wf(),
            final(self)@ == (RuntimeView {
                conversations: all_swept(old(self)@.conversations, before, now),
                layers: swept_layers(
                    old(self)@.layers,
                    old(self)@.conversations,
                    stale_listing(old(self)@.conversations, before),
                    now,
                ),
                ..old(self)@
            }),
            outcome.ended == sweep_count(stale_listing(old(self)@.conversations, before)),
            outcome.facts.deep_view() == sweep_facts(
                old(self)@.layers,
                old(self)@.conversations,
                stale_listing(old(self)@.conversations, before),
                now,
            ),
    {
        let ghost first = self@;
        let ghost listed = stale_listing(first.conversations, before);
        let ghost mut k: int = 0;
        let ghost mut e: int = 0;
        let ghost mut started: bool = false;
        let mut facts: Vec<SynonzEvent> = Vec::new();
        let mut current: Option<Conversation> = None;
        let mut over = false;
        let (mut sweep, mut action) = Sweep::begin(before);
        proof {
            assert(listed.take(0) =~= Seq::empty());
            assert(facts.deep_view() =~= Seq::<SynonzEventView>::empty());
        }
        while !over
            invariant
                self.wf(),
                0 <= k <= listed.len(),
                listed == stale_listing(first.conversations, before),
                !started ==> k == 0 && !over && self@ == first && sweep.deep_view().phase
                    == SweepPhase::Listing,
                started ==> sweep_ground(first.conversations, before, listed) && listed.len()
                    <= usize::MAX && self@ == (RuntimeView {
                    conversations: swept_up_to(first.conversations, listed, k, now),
                    layers: swept_layers(first.layers, first.conversations, listed.take(k), now),
                    ..first
                }),
                facts.deep_view() == sweep_facts(
                    first.layers,
                    first.conversations,
                    listed.take(k),
                    now,
                ),
                sweep.deep_view().ended == sweep_count(listed.take(k)),
                sweep.deep_view().before == before,
                sweep.deep_view().phase == SweepPhase::Listing ==> action.deep_view()
                    == (SweepActionView::ListStale {
                    before,
                    after: if k > 0 {
                        Some(cursor_of(listed[k - 1]))
                    } else {
                        None
                    },
                    limit: SWEEP_PAGE_SIZE,
                }) && (started ==> k > 0),
                sweep.deep_view().phase == SweepPhase::Restoring || sweep.deep_view().phase
                    == SweepPhase::Ending ==> started && k < e <= listed.len() && parsed(
                    listed[k].subject_id,
                ) is Some && sweep.deep_view().items == listed.subrange(k + 1, e)
                    && sweep.deep_view().next == resume_at(listed, e),
                sweep.deep_view().phase == SweepPhase::Restoring ==> action.deep_view()
                    == (SweepActionView::Restore {
                    subject: parsed(listed[k].subject_id)->0,
                    id: listed[k].id,
                }),
                sweep.deep_view().phase == SweepPhase::Ending ==> action.deep_view()
                    == SweepActionView::End && current is Some && current->0.deep_view()
                    == restored(
                    parsed(listed[k].subject_id)->0,
                    first.conversations[listed[k].id],
                ),
                sweep.deep_view().phase == SweepPhase::Finished ==> action.deep_view()
                    == SweepActionView::Done && started && k == listed.len(),
                over ==> sweep.deep_view().phase == SweepPhase::Finished,
            decreases
                    (if over {
                        0int
                    } else {
                        1 + 3 * (listed.len() - k) + (match sweep.deep_view().phase {
                            SweepPhase::Listing => 2int,
                            SweepPhase::Restoring => 1,
                            _ => 0,
                        })
                    }),
        {
            let ghost s = sweep.deep_view();
            match action {
                SweepAction::ListStale { before: since, after, limit } => {
                    let page = self.store.list_stale(since, after, limit);
                    proof {
                        let found = stale_listing(self@.conversations, before);
                        if !started {
                            assert forall|id: Seq<char>| #[trigger]
                                first.conversations.contains_key(
                                    id,
                                ) implies first.conversations[id].id == id by {
                                self.store.ids_are_keys(id);
                            }
                            assert(swept_up_to(first.conversations, listed, 0, now)
                                =~= first.conversations);
                            started = true;
                            assert(listed.skip(0) =~= listed);
                        } else {
                            the_rest_is_untouched(
                                first.conversations,
                                before,
                                now,
                                listed,
                                k,
                                found,
                            );
                        }
                        let rest = listed.skip(k);
                        assert(rest_after(found, after.deep_view()) == rest);
                        e = if rest.len() > SWEEP_PAGE_SIZE {
                            k + SWEEP_PAGE_SIZE
                        } else {
                            listed.len() as int
                        };
                        assert(page->Ok_0.deep_view().items =~= listed.subrange(k, e));
                        assert(page->Ok_0.deep_view().next == resume_at(listed, e));
                        the_sweep_lands(s, listed, k, e);
                        if k == e {
                            assert(listed.subrange(k, e) =~= Seq::empty());
                        }
                    }
                    action = sweep.step(SweepInput::Page(page));
                    proof {
                        let j = lands_at(listed, k, e);
                        passing_over_changes_nothing(
                            first.layers,
                            first.conversations,
                            before,
                            now,
                            listed,
                            k,
                            j,
                        );
                        k = j;
                    }
                },
                SweepAction::Restore { subject, id } => {
                    proof {
                        ending_goes_on(first.layers, first.conversations, before, now, listed, k);
                        listed_are_stale(first.conversations, before, listed, k);
                    }
                    match Conversation::of(self, &subject, id.as_str()) {
                        Ok(conversation) => {
                            current = Some(conversation);
                            action = sweep.step(SweepInput::Restored(true));
                        },
                        Err(_) => {
                            assert(false);
                            action = sweep.step(SweepInput::Restored(false));
                        },
                    }
                },
                SweepAction::End => {
                    let ghost earlier = facts.deep_view();
                    if let Some(mut conversation) = current {
                        proof {
                            ending_goes_on(first.layers, first.conversations, before, now, listed, k);
                            listed_are_stale(first.conversations, before, listed, k);
                            sweep_count_is_within(listed.take(k));
                        }
                        let mut told = conversation.end_with(
                            self,
                            ConversationEndReason::IdleSwept,
                            now,
                        );
                        let ghost fact = told.deep_view();
                        facts.append(&mut told);
                        assert(facts.deep_view() =~= earlier + fact);
                        assert(facts.deep_view() =~= sweep_facts(
                            first.layers,
                            first.conversations,
                            listed.take(k + 1),
                            now,
                        ));
                    }
                    current = None;
                    proof {
                        the_sweep_lands(
                            SweepView {
                                items: Seq::empty(),
                                next: None,
                                ended: (s.ended + 1) as usize,
                                ..s
                            },
                            listed,
                            k + 1,
                            e,
                        );
                    }
                    action = sweep.step(SweepInput::Ended);
                    proof {
                        let j = lands_at(listed, k + 1, e);
                        passing_over_changes_nothing(
                            first.layers,
                            first.conversations,
                            before,
                            now,
                            listed,
                            k + 1,
                            j,
                        );
                        k = j;
                    }
                },
                SweepAction::Done => {
                    over = true;
                    action = SweepAction::Done;
                },
            }
        }
        proof {
            the_sweep_is_complete(first.conversations, before, now, listed);
            assert(listed.take(listed.len() as int) =~= listed);
        }
        SweepOutcome { ended: sweep.ended(), facts }
    }
}

/// A sweep leaves nothing to sweep: what is left stale are conversations
/// whose subject cannot be read, and a second sweep changes nothing.
pub proof fn nothing_sweepable_is_left(
    conversations: Map<Seq<char>, ConversationStateView>,
    before: u64,
    now: u64,
    later: u64,
)
    ensures
        forall|id: Seq<char>| #[trigger]
            all_swept(conversations, before, now).contains_key(id) ==> !is_swept(
                all_swept(conversations, before, now)[id],
                before,
            ),
        all_swept(all_swept(conversations, before, now), before, later) == all_swept(
            conversations,
            before,
            now,
        ),
{
    let once = all_swept(conversations, before, now);
    let twice = all_swept(once, before, later);
    assert(twice =~= once);
}

/// Between its bounds the Monitor's tick is a quarter of the idle timeout;
/// below and above it stays at the bound.
pub proof fn the_monitor_tick_is_a_quarter(idle_timeout: u128)
    ensures
        4 * MONITOR_FLOOR <= idle_timeout <= 4 * MONITOR_CAP ==> 4 * monitor_period(idle_timeout)
            <= idle_timeout < 4 * monitor_period(idle_timeout) + 4,
        idle_timeout < 4 * MONITOR_FLOOR ==> monitor_period(idle_timeout) == MONITOR_FLOOR,
        idle_timeout > 4 * MONITOR_CAP ==> monitor_period(idle_timeout) == MONITOR_CAP,
{
}

/// The sweep's threshold lies the whole seconds of the timeout back, never
/// less than one second, and not before the epoch.
pub proof fn the_threshold_lies_a_timeout_back(now: u64, idle_timeout: u128)
    ensures
        0 <= idle_since(now, idle_timeout) <= now,
        now > 0 ==> idle_since(now, idle_timeout) < now,
        idle_timeout >= SECOND && idle_since(now, idle_timeout) > 0 ==> (now - idle_since(
            now,
            idle_timeout,
        )) * SECOND <= idle_timeout < (now - idle_since(now, idle_timeout) + 1) * SECOND,
        idle_timeout < SECOND && now > 0 ==> idle_since(now, idle_timeout) == now - 1,
        idle_since(now, idle_timeout) == 0 && now > 1 ==> now * SECOND <= idle_timeout,
{
    let seconds = idle_timeout / SECOND;
    assert(seconds * SECOND <= idle_timeout < (seconds + 1) * SECOND);
}

/// Creating and ending a conversation are told in any case, last; before
/// them comes what the store said when it could not save, and nothing else.
pub proof fn creation_and_end_are_told(
    conversation: ConversationView,
    error: ConversationStoreErrorView,
    reason: ConversationEndReason,
)
    ensures
        ({
            let created = SynonzEventView::Conversation(
                ConversationEventView::Created {
                    conversation_id: conversation.id,
                    subject_id: subject_text(conversation.subject),
                },
            );
            &&& created_facts(conversation, Ok(())) == seq![created]
            &&& created_facts(conversation, Err(error)) == seq![
                SynonzEventView::Memory(
                    MemoryEventView::FlowFailed {
                        stage: MemoryFlowStage::Archive,
                        detail: "conversation initial save failed: "@ + store_error_text(error),
                        moment: MemoryFlowFailedMoment::Creation,
                    },
                ),
                created,
            ]
        }),
        ({
            let ended = SynonzEventView::Conversation(
                ConversationEventView::Ended {
                    conversation_id: conversation.id,
                    subject_id: subject_text(conversation.subject),
                    reason,
                },
            );
            &&& ended_facts(conversation, Ok(()), reason) == seq![ended]
            &&& ended_facts(conversation, Err(error), reason) == seq![
                SynonzEventView::Memory(
                    MemoryEventView::FlowFailed {
                        stage: MemoryFlowStage::Archive,
                        detail: "conversation end save failed: "@ + store_error_text(error),
                        moment: MemoryFlowFailedMoment::AtConversationEnd,
                    },
                ),
                ended,
            ]
        }),
{
}

/// Ending saves the conversation as ended, at the time of its end and with
/// all its turns, leaves every other conversation as it was, and tells of
/// the promoted blocks, all of them and only if there were any, before it
/// tells of the end.
pub proof fn ending_saves_and_tells(
    runtime: RuntimeView,
    conversation: ConversationView,
    reason: ConversationEndReason,
    now: u64,
    other: Seq<char>,
)
    requires
        !conversation.ended,
        other != conversation.id,
    ensures
        ({
            let (after, facts) = ended_with(runtime, conversation, reason, now);
            let blocks = shelf(
                runtime.layers.l2,
                (subject_text(conversation.subject), conversation.id),
            );
            let saved = after.conversations[conversation.id];
            &&& after.conversations.contains_key(conversation.id)
            &&& saved.ended && saved.last_active == now
            &&& saved.turns == conversation.turns && saved.topic == conversation.topic
            &&& saved.id == conversation.id
            &&& saved.subject_id == subject_text(conversation.subject)
            &&& after.conversations.contains_key(other) == runtime.conversations.contains_key(
                other,
            )
            &&& runtime.conversations.contains_key(other) ==> after.conversations[other]
                == runtime.conversations[other]
            &&& facts.len() == if blocks.len() > 0 {
                2int
            } else {
                1int
            }
            &&& blocks.len() > 0 ==> facts[0] == SynonzEventView::Memory(
                MemoryEventView::Promoted {
                    conversation_id: conversation.id,
                    count: blocks.len() as usize,
                },
            )
            &&& facts.last() == SynonzEventView::Conversation(
                ConversationEventView::Ended {
                    conversation_id: conversation.id,
                    subject_id: subject_text(conversation.subject),
                    reason,
                },
            )
        }),
{
}

/// A sweep ends every idle conversation whose subject can be read, at the
/// time of the sweep, and touches nothing else: neither the other
/// conversations nor what the ended ones hold.
pub proof fn sweeps_end_the_idle_only(
    conversations: Map<Seq<char>, ConversationStateView>,
    before: u64,
    now: u64,
    id: Seq<char>,
)
    ensures
        ({
            let after = all_swept(conversations, before, now);
            &&& after.contains_key(id) == conversations.contains_key(id)
            &&& conversations.contains_key(id) ==> {
                let state = conversations[id];
                let idle = !state.ended && state.last_active > 0 && state.last_active <= before;
                if idle && parsed(state.subject_id) is Some {
                    &&& after[id].ended
                    &&& after[id].last_active == now
                    &&& after[id].turns == state.turns && after[id].topic == state.topic
                    &&& after[id].id == state.id && after[id].subject_id == state.subject_id
                } else {
                    after[id] == state
                }
            }
        }),
{
}

/// A sweep goes through the listed conversations one by one: each whose
/// subject can be read is counted, has its blocks promoted, and is told to
/// have been swept, behind those before it; the others change nothing.
pub proof fn sweeps_go_one_by_one(
    layers: AllLayersView,
    conversations: Map<Seq<char>, ConversationStateView>,
    items: Seq<SummaryView>,
    item: SummaryView,
    now: u64,
)
    ensures
        ({
            let all = items.push(item);
            let left = swept_layers(layers, conversations, items, now);
            let told = sweep_facts(layers, conversations, items, now);
            match parsed(item.subject_id) {
                Some(subject) => {
                    &&& sweep_count(all) == sweep_count(items) + 1
                    &&& swept_layers(layers, conversations, all, now) == promoted(
                        left,
                        restored(subject, conversations[item.id]),
                        now,
                    )
                    &&& sweep_facts(layers, conversations, all, now) == told + promotion_facts(
                        left,
                        (item.subject_id, item.id),
                    ).push(
                        SynonzEventView::Conversation(
                            ConversationEventView::Ended {
                                conversation_id: item.id,
                                subject_id: item.subject_id,
                                reason: ConversationEndReason::IdleSwept,
                            },
                        ),
                    )
                },
                None => {
                    &&& sweep_count(all) == sweep_count(items)
                    &&& swept_layers(layers, conversations, all, now) == left
                    &&& sweep_facts(layers, conversations, all, now) == told
                },
            }
        }),
{
    let all = items.push(item);
    assert(all.drop_last() =~= items);
    assert(all.last() == item);
    if parsed(item.subject_id) is Some {
        let left = swept_layers(layers, conversations, items, now);
        assert(sweep_facts(layers, conversations, all, now) =~= sweep_facts(
            layers,
            conversations,
            items,
            now,
        ) + promotion_facts(left, (item.subject_id, item.id)).push(
            SynonzEventView::Conversation(
                ConversationEventView::Ended {
                    conversation_id: item.id,
                    subject_id: item.subject_id,
                    reason: ConversationEndReason::IdleSwept,
                },
            ),
        ));
    }
}

/// Promoting moves all blocks of one conversation from L2 to L3, in order
/// and behind what L3 held, and leaves the turns, and every other
/// conversation, alone.
pub proof fn promotion_moves_every_block(
    layers: AllLayersView,
    conversation: ConversationView,
    now: u64,
    other: (Seq<char>, Seq<char>),
    i: int,
)
    requires
        other != (subject_text(conversation.subject), conversation.id),
    ensures
        ({
            let key = (subject_text(conversation.subject), conversation.id);
            let after = promoted(layers, conversation, now);
            let blocks = shelf(layers.l2, key);
            let known = shelf(layers.l3, key);
            let topic = match conversation.topic {
                Some(topic) => topic,
                None => Seq::empty(),
            };
            &&& after.l1 == layers.l1
            &&& shelf(after.l2, key).len() == 0
            &&& shelf(after.l3, key).len() == known.len() + blocks.len()
            &&& 0 <= i < known.len() ==> shelf(after.l3, key)[i] == known[i]
            &&& 0 <= i < blocks.len() ==> {
                let fragment = shelf(after.l3, key)[known.len() + i];
                &&& fragment.content == blocks[i].content
                &&& fragment.identity.conversation_id == blocks[i].conversation_id
                &&& fragment.identity.subject_id == key.0
                &&& fragment.identity.topic == topic
                &&& fragment.created_at == now
            }
            &&& shelf(after.l2, other) == shelf(layers.l2, other)
            &&& shelf(after.l3, other) == shelf(layers.l3, other)
        }),
{
}

} // verus!
