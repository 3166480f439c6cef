//! The runtime: the Monitor, the idle sweep, and the conversation-end
//! teardown.

use synonz::bus::{ConversationEndReason, ConversationEvent, MemoryEvent, SynonzEvent};
use synonz::conversation::{
    Conversation, ConversationPage, ConversationQuery, ConversationState, ConversationStoreError,
    ConversationSummary,
};
use synonz::context::MemoryFailure;
use synonz::inprocess::InProcessConversationStore;
use synonz::layer_store::InProcessLayers;
use synonz::layers::{KnowledgeFragment, SummaryBlock};
use synonz::lifecycle::{ConversationEnd, EndAction, EndInput};
use synonz::memory::MemoryStoreError;
use synonz::runtime::{idle_threshold, monitor_tick};
use synonz::scheduler::OverlapPolicy;
use synonz::shelves::Shelves;
use synonz::subject::{Subject, SubjectType};
use synonz::sweep::{Sweep, SweepAction, SweepInput};
use synonz::teardown::{
    Teardown, TeardownAction, TeardownInput, MAINTENANCE_DRAIN_TIMEOUT,
};
use synonz::SynonzRuntime;

const MILLI: u128 = 1_000_000;
const SECOND: u128 = 1_000_000_000;
const NOW: u64 = 1_700_000_000;

fn flow_failures(facts: &[MemoryEvent]) -> Vec<String> {
    facts
        .iter()
        .filter_map(|fact| match fact {
            MemoryEvent::FlowFailed { detail, .. } => Some(detail.clone()),
            _ => None,
        })
        .collect()
}

fn stored(subject_id: &str, id: String, last_active: u64) -> ConversationState {
    ConversationState {
        subject_id: subject_id.to_string(),
        id,
        turns: Vec::new(),
        topic: None,
        last_active,
        ended: false,
    }
}

#[test]
fn finalize_drain_is_bounded_and_visible() {
    let subject = Subject::of(SubjectType::User, "u-drain");
    let mut conversation = Conversation::fresh(&subject, "drain-bounded");
    assert!(conversation.mark_ended());

    // One task that never ends, with a budget of 50 ms.
    let (mut teardown, step) = Teardown::begin(&conversation, 1, 0, 50 * MILLI);
    let TeardownAction::AwaitTask { task, remaining } = step.action else {
        panic!("the task is awaited");
    };
    assert_eq!((task, remaining), (0, 50 * MILLI), "the drain must be bounded");
    let step = teardown.step(TeardownInput::TaskTimedOut, 50 * MILLI, NOW);
    let facts = flow_failures(&step.facts);
    assert!(
        facts.iter().any(|fact| fact.contains("drain timed out")),
        "the timeout must be visible: {facts:?}"
    );
    assert_eq!(
        facts,
        vec!["drain timed out: 1 of 1 maintenance task(s) still running"]
    );
    assert!(matches!(step.action, TeardownAction::L2Len));
    let step = teardown.step(TeardownInput::Counted(Ok(0)), 51 * MILLI, NOW);
    assert!(matches!(step.action, TeardownAction::Finalize));
    assert!(step.facts.is_empty());
    let step = teardown.step(TeardownInput::Finalized(Ok(())), 52 * MILLI, NOW);
    assert!(matches!(step.action, TeardownAction::Done));
    assert!(step.facts.is_empty());
    assert!(conversation.is_ended());
}

/// Ends a conversation with empty layers; its tasks come to what is given,
/// and its finalize hook too. Returns what was done, in order, and the
/// facts.
fn end_over(
    conversation: &mut Conversation,
    tasks: Vec<TeardownInput>,
    finalized: Result<(), MemoryFailure>,
) -> (Vec<&'static str>, Vec<SynonzEvent>) {
    let (mut end, mut step) = ConversationEnd::begin(
        conversation,
        ConversationEndReason::Explicit,
        tasks.len(),
        0,
        MAINTENANCE_DRAIN_TIMEOUT,
        NOW,
    );
    let (mut done, mut facts) = (Vec::new(), Vec::new());
    let mut tasks = tasks.into_iter();
    let mut finalized = Some(finalized);
    loop {
        facts.extend(step.facts);
        let input = match step.action {
            EndAction::Teardown(TeardownAction::AwaitTask { .. }) => {
                done.push("task");
                EndInput::Teardown(tasks.next().unwrap())
            }
            EndAction::Teardown(TeardownAction::L2Len) => {
                done.push("count");
                EndInput::Teardown(TeardownInput::Counted(Ok(0)))
            }
            EndAction::Teardown(TeardownAction::Finalize) => {
                done.push("finalize");
                EndInput::Teardown(TeardownInput::Finalized(finalized.take().unwrap()))
            }
            EndAction::Save(state) => {
                assert!(state.ended);
                done.push("save");
                EndInput::Saved(Ok(()))
            }
            EndAction::Done => return (done, facts),
            other => panic!("empty layers do not ask for {other:?}"),
        };
        step = end.step(conversation, input, MILLI, NOW);
    }
}

fn memory_facts(facts: Vec<SynonzEvent>) -> Vec<MemoryEvent> {
    facts
        .into_iter()
        .filter_map(|fact| match fact {
            SynonzEvent::Memory(fact) => Some(fact),
            _ => None,
        })
        .collect()
}

#[test]
fn finalize_drain_surfaces_task_panics() {
    let subject = Subject::of(SubjectType::User, "u-panic");
    let mut conversation = Conversation::fresh(&subject, "drain-panic");
    let boom = TeardownInput::TaskFailed("task 7 panicked with message \"maintenance boom\"".into());
    let (_, facts) = end_over(&mut conversation, vec![boom], Ok(()));
    assert!(conversation.is_ended());
    let facts = flow_failures(&memory_facts(facts));
    assert!(
        facts
            .iter()
            .any(|fact| fact.contains("maintenance task failed")),
        "the task panic must be visible: {facts:?}"
    );
}

#[test]
fn tasks_behind_the_deadline_are_looked_at_without_waiting() {
    let conversation = Conversation::fresh(&Subject::of(SubjectType::User, "u"), "c");
    let (mut teardown, step) = Teardown::begin(&conversation, 3, 10, 20);
    assert!(matches!(
        step.action,
        TeardownAction::AwaitTask { task: 0, remaining: 20 }
    ));
    let step = teardown.step(TeardownInput::TaskEnded, 25, NOW);
    assert!(matches!(
        step.action,
        TeardownAction::AwaitTask { task: 1, remaining: 5 }
    ));
    let step = teardown.step(TeardownInput::TaskTimedOut, 30, NOW);
    assert!(step.facts.is_empty());
    assert!(matches!(
        step.action,
        TeardownAction::AwaitTask { task: 2, remaining: 0 }
    ));
    // The last one panicked meanwhile: that is told, and only the stuck one
    // counts as still running.
    let step = teardown.step(TeardownInput::TaskFailed("boom".into()), 31, NOW);
    assert_eq!(
        flow_failures(&step.facts),
        vec![
            "maintenance task failed: boom",
            "drain timed out: 1 of 3 maintenance task(s) still running"
        ]
    );
}

#[test]
fn the_finalize_hook_runs_once_behind_the_drain() {
    let mut conversation = Conversation::fresh(&Subject::of(SubjectType::User, "u"), "c");
    let failure = MemoryFailure::new("finalize", "hook down");
    let (done, facts) = end_over(&mut conversation, vec![TeardownInput::TaskEnded], Err(failure));
    assert_eq!(done, vec!["task", "count", "finalize", "save"]);
    assert_eq!(facts.len(), 2);
    assert!(matches!(
        &facts[0],
        SynonzEvent::Memory(MemoryEvent::Failed { stage, detail, .. })
            if stage == "finalize" && detail == "hook down"
    ));
    // The conversation still ends.
    assert!(conversation.is_ended());
    assert!(matches!(
        &facts[1],
        SynonzEvent::Conversation(ConversationEvent::Ended {
            reason: ConversationEndReason::Explicit,
            ..
        })
    ));
}

#[test]
fn finalize_runs_at_conversation_end() {
    let mut conversation = Conversation::fresh(&Subject::of(SubjectType::User, "u"), "c");
    let (done, _) = end_over(&mut conversation, Vec::new(), Ok(()));
    assert!(
        done.iter().any(|&call| call == "finalize"),
        "the finalize hook must run at conversation end"
    );
}

#[test]
fn a_second_end_does_nothing() {
    let mut conversation = Conversation::fresh(&Subject::of(SubjectType::User, "u"), "c");
    assert_eq!(end_over(&mut conversation, Vec::new(), Ok(())).1.len(), 1);
    let (done, facts) = end_over(&mut conversation, Vec::new(), Ok(()));
    assert!(done.is_empty());
    assert!(facts.is_empty());
}

#[test]
fn a_failed_last_save_is_told_before_the_end() {
    let mut conversation = Conversation::fresh(&Subject::of(SubjectType::User, "u"), "c");
    let (mut end, _) =
        ConversationEnd::begin(&mut conversation, ConversationEndReason::IdleSwept, 0, 0, 1, NOW);
    end.step(
        &conversation,
        EndInput::Teardown(TeardownInput::Counted(Ok(0))),
        0,
        NOW,
    );
    let step = end.step(
        &conversation,
        EndInput::Teardown(TeardownInput::Finalized(Ok(()))),
        0,
        NOW,
    );
    assert!(matches!(step.action, EndAction::Save(_)));
    let failure = ConversationStoreError::Storage("disk".to_string());
    let step = end.step(&conversation, EndInput::Saved(Err(failure)), 0, NOW);
    assert!(matches!(step.action, EndAction::Done));
    assert_eq!(step.facts.len(), 2);
    assert_eq!(
        flow_failures(&memory_facts(step.facts)),
        vec!["conversation end save failed: conversation storage failure: disk"]
    );
}

fn block(id: &str, content: &str) -> SummaryBlock {
    SummaryBlock {
        conversation_id: id.into(),
        content: content.into(),
        index: 0,
    }
}

#[test]
fn ending_promotes_the_blocks_of_its_conversation_alone() {
    let subject = Subject::of(SubjectType::User, "u");
    let mut layers = InProcessLayers::new();
    layers.l2_append(&subject, "c", block("c", "one"));
    layers.l2_append(&subject, "c", block("c", "two"));
    layers.l2_append(&subject, "d", block("d", "other"));
    let mut runtime = SynonzRuntime::builder().memory_layers(layers).build(0);
    let (mut conversation, _) = Conversation::with_id(&mut runtime, &subject, "c", NOW);
    conversation.set_topic("billing");

    let facts = conversation.end(&mut runtime, NOW + 1);

    assert_eq!(
        facts,
        vec![
            SynonzEvent::Memory(MemoryEvent::Promoted {
                conversation_id: "c".into(),
                count: 2,
            }),
            SynonzEvent::Conversation(ConversationEvent::Ended {
                conversation_id: "c".into(),
                subject_id: "User:u".into(),
                reason: ConversationEndReason::Explicit,
            }),
        ]
    );
    assert!(conversation.end(&mut runtime, NOW + 2).is_empty());
    let layers = runtime.layers();
    assert_eq!(layers.l2_len(&subject, "c"), 0);
    assert_eq!(layers.l2_len(&subject, "d"), 1);
    let kept: Vec<KnowledgeFragment> = layers.l3_take(&subject, "c");
    let contents: Vec<&str> = kept.iter().map(|fragment| fragment.content.as_str()).collect();
    assert_eq!(contents, vec!["one", "two"]);
    assert_eq!(kept[0].identity.topic, "billing");
    assert_eq!(kept[0].created_at, NOW + 1);
    assert!(layers.l3_take(&subject, "d").is_empty());
}

#[test]
fn the_sweep_promotes_what_it_ends() {
    let subject = Subject::of(SubjectType::User, "u");
    let mut store = InProcessConversationStore::new();
    store.save(stored("User:u", "stale".into(), 5)).unwrap();
    let mut layers = InProcessLayers::new();
    layers.l2_append(&subject, "stale", block("stale", "left"));
    let mut runtime = SynonzRuntime::builder()
        .conversation_store(store)
        .memory_layers(layers)
        .build(0);
    let outcome = runtime.sweep_idle_before(50, 60);
    assert_eq!((outcome.ended, outcome.facts.len()), (1, 2));
    assert!(matches!(
        &outcome.facts[0],
        SynonzEvent::Memory(MemoryEvent::Promoted { count: 1, .. })
    ));
    assert_eq!(runtime.layers().l3_take(&subject, "stale").len(), 1);
}

#[test]
fn a_drained_conversation_leaves_the_tasks_of_others() {
    let mut tasks: Shelves<String, u32> = Shelves::new();
    tasks.push("a".into(), 1);
    tasks.push("b".into(), 2);
    tasks.push("a".into(), 3);
    assert_eq!(tasks.take(&"a".to_string()), vec![1, 3]);
    assert!(tasks.take(&"a".to_string()).is_empty());
    assert_eq!(tasks.len(&"b".to_string()), 1);
    assert_eq!(tasks.pop_oldest("b".into(), 9), vec![2]);
    assert_eq!(tasks.len(&"b".to_string()), 0);
}

#[test]
fn teardown_promotes_what_the_conversation_left() {
    let subject = Subject::of(SubjectType::User, "u");
    let mut conversation = Conversation::fresh(&subject, "c");
    conversation.set_topic("billing");
    let (mut teardown, step) = Teardown::begin(&conversation, 0, 0, 1);
    assert!(matches!(step.action, TeardownAction::L2Len));
    let step = teardown.step(TeardownInput::Counted(Ok(2)), 0, NOW);
    assert!(matches!(step.action, TeardownAction::L2PopOldest(2)));
    let block = |content: &str| SummaryBlock {
        conversation_id: "c".into(),
        content: content.into(),
        index: 0,
    };
    let mut step = teardown.step(
        TeardownInput::Blocks(Ok(vec![block("one"), block("two")])),
        0,
        NOW,
    );
    let mut kept = Vec::new();
    let mut facts = Vec::new();
    while let TeardownAction::L3Upsert(fragment) = step.action {
        kept.push(fragment);
        let written = if kept.len() == 1 {
            Ok(())
        } else {
            Err(MemoryStoreError::Storage("disk".into()))
        };
        step = teardown.step(TeardownInput::Written(written), 0, NOW);
        facts.extend(step.facts);
    }
    assert_eq!(kept.len(), 2);
    assert_eq!(kept[0].content, "one");
    assert_eq!(kept[1].content, "two");
    assert_eq!(kept[1].identity.subject_id, "User:u");
    assert_eq!(kept[1].identity.topic, "billing");
    assert_eq!(kept[1].created_at, NOW);
    assert_eq!(
        flow_failures(&facts),
        vec!["promotion upsert: memory storage failure: disk"]
    );
    assert_eq!(
        facts.last(),
        Some(&MemoryEvent::Promoted {
            conversation_id: "c".into(),
            count: 1,
        })
    );
}

#[test]
fn promotion_failures_end_teardown_and_are_told() {
    let conversation = Conversation::fresh(&Subject::of(SubjectType::User, "u"), "c");
    let failure = || MemoryStoreError::SubjectNotFound("User:u".into());
    let (mut reading, _) = Teardown::begin(&conversation, 0, 0, 0);
    let step = reading.step(TeardownInput::Counted(Err(failure())), 0, NOW);
    assert_eq!(
        flow_failures(&step.facts),
        vec!["promotion read: subject not found: User:u"]
    );
    assert!(matches!(step.action, TeardownAction::Finalize));
    let (mut popping, _) = Teardown::begin(&conversation, 0, 0, 0);
    popping.step(TeardownInput::Counted(Ok(1)), 0, NOW);
    let step = popping.step(TeardownInput::Blocks(Err(failure())), 0, NOW);
    assert_eq!(
        flow_failures(&step.facts),
        vec!["promotion pop: subject not found: User:u"]
    );
    assert!(matches!(step.action, TeardownAction::Finalize));
}

#[test]
fn sweep_pages_through_many_stale_conversations() {
    let subject = Subject::of(SubjectType::User, "u-sweep");
    let mut store = InProcessConversationStore::new();
    let stale_stamp = NOW - 3600;
    let total = 130usize;
    for index in 0..total {
        store
            .save(stored(&subject.to_string(), format!("sweep-{index:03}"), stale_stamp))
            .unwrap();
    }
    let mut runtime = SynonzRuntime::builder().conversation_store(store).build(0);

    let outcome = runtime.sweep_idle_before(NOW, NOW);
    assert_eq!(outcome.ended, total, "the sweep must page past one page size");
    assert_eq!(outcome.facts.len(), total);
    for index in 0..total {
        let id = format!("sweep-{index:03}");
        assert!(Conversation::of(&runtime, &subject, &id).unwrap().is_ended());
    }
    assert_eq!(runtime.sweep_idle_before(NOW, NOW).ended, 0);
}

#[test]
fn the_sweep_passes_over_what_it_cannot_end() {
    let subject = Subject::of(SubjectType::Agent, "a");
    let mut store = InProcessConversationStore::new();
    store.save(stored("nobody", "unreadable".into(), 10)).unwrap();
    store.save(stored(&subject.to_string(), "stale".into(), 5)).unwrap();
    store.save(stored(&subject.to_string(), "fresh".into(), 100)).unwrap();
    let mut runtime = SynonzRuntime::builder().conversation_store(store).build(0);
    let outcome = runtime.sweep_idle_before(50, 60);
    assert_eq!(outcome.ended, 1);
    assert_eq!(
        outcome.facts,
        vec![SynonzEvent::Conversation(ConversationEvent::Ended {
            conversation_id: "stale".into(),
            subject_id: "Agent:a".into(),
            reason: ConversationEndReason::IdleSwept,
        })]
    );
    assert!(!Conversation::of(&runtime, &subject, "fresh").unwrap().is_ended());
    let page = runtime
        .list_conversations(ConversationQuery::new(10).with_keyword("stale"))
        .unwrap();
    assert_eq!((page.items[0].last_active, page.items[0].ended), (60, true));
    assert!(runtime.sweep_idle(60).facts.is_empty(), "no timeout, no sweep");
}

#[test]
fn monitor_ends_idle_conversations_automatically() {
    let mut runtime = SynonzRuntime::builder()
        .conversation_idle_timeout(SECOND)
        .executor(true)
        .build(0);
    let subject = Subject::of(SubjectType::User, "u-monitor");
    let (conversation, _) = Conversation::with_id(&mut runtime, &subject, "idle-auto", NOW);
    assert!(!conversation.is_ended());

    // The tick right after creation finds nothing idle; a later one ends it.
    assert_eq!(runtime.sweep_idle(NOW).ended, 0);
    let outcome = runtime.sweep_idle(NOW + 1);
    assert!(Conversation::of(&runtime, &subject, "idle-auto").unwrap().is_ended());
    let ends: Vec<String> = outcome
        .facts
        .iter()
        .filter_map(|fact| match fact {
            SynonzEvent::Conversation(ConversationEvent::Ended {
                conversation_id,
                reason,
                ..
            }) => Some(format!("{conversation_id}:{reason:?}")),
            _ => None,
        })
        .collect();
    assert!(
        ends.iter().any(|end| end == "idle-auto:IdleSwept"),
        "the automatic sweep must be visible: {ends:?}"
    );
}

#[test]
fn monitor_reconciles_previously_stored_stale_conversations() {
    // A conversation left open by a previous process (a pre-populated store)
    // is reconciled by the immediate first sweep.
    let subject = Subject::of(SubjectType::User, "u-orphan");
    let mut store = InProcessConversationStore::new();
    store
        .save(stored(&subject.to_string(), "orphan".into(), NOW - 3600))
        .unwrap();
    let mut runtime = SynonzRuntime::builder()
        .conversation_store(store)
        .conversation_idle_timeout(SECOND)
        .executor(true)
        .build(0);
    assert_eq!(runtime.scheduler_snapshot(0)[0].next_in, 0, "due at once");
    runtime.sweep_idle(NOW);
    assert!(Conversation::of(&runtime, &subject, "orphan").unwrap().is_ended());
}

#[test]
fn scheduler_snapshot_exposes_the_monitor() {
    let runtime = SynonzRuntime::builder()
        .conversation_idle_timeout(SECOND)
        .executor(true)
        .build(0);
    let snapshot = runtime.scheduler_snapshot(0);
    assert_eq!(snapshot.len(), 1);
    let monitor = &snapshot[0];
    assert_eq!(monitor.name.as_deref(), Some("monitor"));
    assert_eq!(monitor.policy, OverlapPolicy::Skip);
    assert_eq!(monitor.schedule.period(), monitor_tick(SECOND));
}

#[test]
fn scheduler_snapshot_is_empty_without_configuration() {
    let runtime = SynonzRuntime::builder().build(0);
    assert!(runtime.scheduler_snapshot(0).is_empty());
}

#[test]
fn build_panics_when_idle_timeout_has_no_execution_environment() {
    let configured = SynonzRuntime::builder().conversation_idle_timeout(SECOND);
    assert!(
        !configured.is_buildable(),
        "build must reject a configured Monitor without an execution environment"
    );
}

#[test]
fn executor_injection_allows_a_sync_build() {
    let builder = SynonzRuntime::builder()
        .conversation_idle_timeout(60 * SECOND)
        .executor(true);
    assert!(builder.is_buildable());
    let runtime = builder.build(0);
    assert_eq!(runtime.scheduler_snapshot(0).len(), 1);
}

#[test]
fn the_monitor_tick_is_a_clamped_quarter() {
    assert_eq!(monitor_tick(SECOND), 250 * MILLI);
    assert_eq!(monitor_tick(100 * MILLI), 100 * MILLI);
    assert_eq!(monitor_tick(0), 100 * MILLI);
    assert_eq!(monitor_tick(3600 * SECOND), 60 * SECOND);
}

#[test]
fn the_idle_threshold_is_at_least_a_second_back() {
    assert_eq!(idle_threshold(100, 30 * SECOND), 70);
    assert_eq!(idle_threshold(100, 10 * MILLI), 99);
    assert_eq!(idle_threshold(5, 30 * SECOND), 0);
}

#[test]
fn a_conversation_that_cannot_be_restored_is_passed_over() {
    let page = || ConversationPage::new(
        vec![
            ConversationSummary::new("a", "User:u", None, 1, false),
            ConversationSummary::new("b", "User:u", None, 2, false),
        ],
        None,
    );
    let (mut sweep, first) = Sweep::begin(10);
    assert!(matches!(
        first,
        SweepAction::ListStale { before: 10, after: None, limit: 128 }
    ));
    assert!(matches!(
        sweep.step(SweepInput::Page(Ok(page()))),
        SweepAction::Restore { id, .. } if id == "a"
    ));
    assert!(matches!(
        sweep.step(SweepInput::Restored(false)),
        SweepAction::Restore { id, .. } if id == "b"
    ));
    assert!(matches!(sweep.step(SweepInput::Restored(true)), SweepAction::End));
    assert!(matches!(sweep.step(SweepInput::Ended), SweepAction::Done));
    assert_eq!(sweep.ended(), 1);

    let (mut failing, _) = Sweep::begin(10);
    let failure = ConversationStoreError::Storage("disk".to_string());
    assert!(matches!(failing.step(SweepInput::Page(Err(failure))), SweepAction::Done));
    assert_eq!(failing.ended(), 0);
}
