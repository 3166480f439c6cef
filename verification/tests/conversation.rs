//! The conversation entity on the in-process runtime: identity, truth
//! record, and lifecycle.

use synonz::bus::{MemoryEvent, MemoryFlowFailedMoment};
use synonz::conversation::{ConversationIds, ConversationStoreError};
use synonz::event::MemoryFlowStage;
use synonz::runtime::{creation, ending};
use synonz::{
    AgentInput, AgentOutput, Conversation, ConversationEndReason, ConversationEvent, Message, Role,
    Subject, SubjectType, SynonzEvent, SynonzRuntime, TokenUsage, Turn,
};

const NOW: u64 = 1_700_000_000;

fn rt() -> (SynonzRuntime, Subject) {
    (
        SynonzRuntime::builder().build(0),
        Subject::of(SubjectType::User, "u-42"),
    )
}

fn text_turn(input: &str, answer: &str) -> Turn {
    Turn::completed(
        AgentInput::new(input),
        vec![Message::user(input), Message::assistant_text(answer)],
        AgentOutput::new(Message::assistant_text(answer), TokenUsage::new(1, 1)),
    )
}

#[test]
fn new_generates_unique_ids() {
    let (mut runtime, subject) = rt();
    let mut ids = ConversationIds::new();
    let nanos = NOW as u128 * 1_000_000_000;
    let (a, _) = Conversation::new(&mut runtime, &subject, &mut ids, nanos, NOW);
    let (b, _) = Conversation::new(&mut runtime, &subject, &mut ids, nanos, NOW);
    assert_ne!(a.id(), b.id());
    assert!(a.id().starts_with("conv-"));
    assert_eq!(a.subject(), &subject);
}

#[test]
fn generated_ids_are_hexadecimal() {
    let (mut runtime, subject) = rt();
    let mut ids = ConversationIds::new();
    let (first, _) = Conversation::new(&mut runtime, &subject, &mut ids, 0xabc123, NOW);
    let (second, _) = Conversation::new(&mut runtime, &subject, &mut ids, 0x10, NOW);
    assert_eq!(first.id(), "conv-abc123-0");
    assert_eq!(second.id(), "conv-10-1");
}

#[test]
fn two_runtimes_share_the_source_of_ids() {
    let (mut runtime, subject) = rt();
    let (mut other, _) = rt();
    let mut ids = ConversationIds::new();
    let (first, _) = Conversation::new(&mut runtime, &subject, &mut ids, 0x10, NOW);
    let (second, _) = Conversation::new(&mut other, &subject, &mut ids, 0x10, NOW);
    assert_eq!(first.id(), "conv-10-0");
    assert_eq!(second.id(), "conv-10-1");
}

#[test]
fn with_id_preserves_application_identity() {
    let (mut runtime, subject) = rt();
    let (conv, _) = Conversation::with_id(&mut runtime, &subject, "user-42-ticket-7", NOW);
    assert_eq!(conv.id(), "user-42-ticket-7");
}

#[test]
fn push_and_read_roundtrip() {
    let (mut runtime, subject) = rt();
    let mut ids = ConversationIds::new();
    let (mut conv, _) = Conversation::new(&mut runtime, &subject, &mut ids, 1, NOW);
    assert!(conv.is_empty());
    conv.push_turn(text_turn("a", "A"));
    conv.push_turn(text_turn("b", "B"));
    assert_eq!(conv.len(), 2);
    assert_eq!(conv.turns().len(), 2);
    let messages = conv.messages();
    assert_eq!(messages.len(), 4);
    assert_eq!(messages[0].role, Role::User);
    assert_eq!(messages[3].role, Role::Assistant);
}

#[test]
fn of_restores_from_store_after_save() {
    let (mut runtime, subject) = rt();
    let (mut conv, _) = Conversation::with_id(&mut runtime, &subject, "keep-me", NOW);
    conv.push_turn(text_turn("a", "A"));
    conv.push_turn(text_turn("b", "B"));
    conv.save(&mut runtime, NOW).expect("save");
    let restored = Conversation::of(&runtime, &subject, "keep-me").expect("restore");
    assert_eq!(restored.id(), "keep-me");
    assert_eq!(restored.turns().len(), 2);
    assert_eq!(restored.messages(), conv.messages());
}

#[test]
fn of_fails_for_unknown_id() {
    let (runtime, subject) = rt();
    assert!(Conversation::of(&runtime, &subject, "nope").is_err());
}

#[test]
fn of_fails_for_wrong_subject() {
    let (mut runtime, subject) = rt();
    let (mut conv, _) = Conversation::with_id(&mut runtime, &subject, "shared-id", NOW);
    conv.push_turn(text_turn("a", "A"));
    conv.save(&mut runtime, NOW).expect("save");
    let other = Subject::of(SubjectType::User, "u-43");
    assert!(Conversation::of(&runtime, &other, "shared-id").is_err());
}

#[test]
fn turn_input_serializes_by_borrow() {
    let (mut runtime, subject) = rt();
    let mut ids = ConversationIds::new();
    let (mut conv, _) = Conversation::new(&mut runtime, &subject, &mut ids, 1, NOW);
    let _turn = conv.turn_input("first");
    // Compile-time check: a second borrow cannot start while the first
    // turn input is alive.
    assert!(conv.is_empty());
}

#[test]
fn registered_store_replaces_default() {
    let subject = Subject::of(SubjectType::User, "u-42");
    // Two separate runtimes: a conversation persisted on one must not be
    // visible on the other.
    let mut runtime_a = SynonzRuntime::builder().build(0);
    let runtime_b = SynonzRuntime::builder().build(0);
    let (mut conv, _) = Conversation::with_id(&mut runtime_a, &subject, "isolated", NOW);
    conv.push_turn(text_turn("a", "A"));
    conv.save(&mut runtime_a, NOW).expect("save");
    assert!(Conversation::of(&runtime_b, &subject, "isolated").is_err());
    assert!(Conversation::of(&runtime_a, &subject, "isolated").is_ok());
}

fn lifecycle_lines(facts: &[SynonzEvent]) -> Vec<String> {
    facts
        .iter()
        .filter_map(|fact| match fact {
            SynonzEvent::Conversation(ConversationEvent::Created { .. }) => {
                Some("created".to_string())
            }
            SynonzEvent::Conversation(ConversationEvent::Ended { reason, .. }) => {
                Some(format!("ended:{reason:?}"))
            }
            SynonzEvent::Conversation(_) => Some("conversation-other".to_string()),
            _ => None,
        })
        .collect()
}

#[test]
fn creation_persists_the_initial_state_and_notifies() {
    let mut runtime = SynonzRuntime::builder().build(0);
    let subject = Subject::of(SubjectType::User, "lifecycle");

    // The three acts: construct + persist + notify.
    let (conv, facts) = Conversation::with_id(&mut runtime, &subject, "born", NOW);
    let restored = Conversation::of(&runtime, &subject, "born").expect("the state persisted");
    assert_eq!(restored.id(), "born");
    assert!(!conv.is_ended());
    assert_eq!(
        lifecycle_lines(&facts).first(),
        Some(&"created".to_string()),
        "the birth fact rides the bus"
    );
}

#[test]
fn end_is_idempotent_and_notifies_once() {
    let mut runtime = SynonzRuntime::builder().build(0);
    let subject = Subject::of(SubjectType::User, "lifecycle");
    let (mut conv, mut facts) = Conversation::with_id(&mut runtime, &subject, "close-me", NOW);

    facts.extend(conv.end(&mut runtime, NOW));
    assert!(conv.is_ended());
    facts.extend(conv.end(&mut runtime, NOW)); // the second end is a no-op

    let lines = lifecycle_lines(&facts);
    let ends: Vec<&String> = lines.iter().filter(|f| f.starts_with("ended")).collect();
    assert_eq!(ends.len(), 1, "ended notifies exactly once");
    assert_eq!(
        ends[0],
        &format!("ended:{:?}", ConversationEndReason::Explicit)
    );
}

#[test]
fn sweep_ends_idle_conversations_and_skips_ended_ones() {
    let mut runtime = SynonzRuntime::builder()
        .conversation_idle_timeout(1_000_000_000)
        .executor(true)
        .build(0);
    let subject = Subject::of(SubjectType::User, "lifecycle");

    // Two conversations past the idle threshold; one already ended.
    let (_idle, mut facts) = Conversation::with_id(&mut runtime, &subject, "idle-one", NOW);
    let (mut already, created) =
        Conversation::with_id(&mut runtime, &subject, "already-ended", NOW);
    facts.extend(created);
    facts.extend(already.end(&mut runtime, NOW));

    let swept = runtime.sweep_idle(NOW + 2); // past the threshold
    assert_eq!(swept.ended, 1, "only the idle, un-ended conversation swept");
    facts.extend(swept.facts);

    let idle_after = Conversation::of(&runtime, &subject, "idle-one").unwrap();
    assert!(idle_after.is_ended());
    let already_after = Conversation::of(&runtime, &subject, "already-ended").unwrap();
    assert!(already_after.is_ended());

    let lines = lifecycle_lines(&facts);
    let ends: Vec<&String> = lines.iter().filter(|f| f.starts_with("ended:")).collect();
    assert_eq!(ends.len(), 2, "one explicit end + one swept end: {lines:?}");
    assert!(ends.contains(&&format!("ended:{:?}", ConversationEndReason::IdleSwept)));
}

#[test]
fn of_restores_the_ended_state() {
    let mut runtime = SynonzRuntime::builder().build(0);
    let subject = Subject::of(SubjectType::User, "lifecycle");
    let (mut conv, _) = Conversation::with_id(&mut runtime, &subject, "ended-state", NOW);
    assert!(!conv.is_ended());
    conv.end(&mut runtime, NOW);
    assert!(conv.is_ended());

    // The restored conversation carries the lifecycle state.
    let restored = Conversation::of(&runtime, &subject, "ended-state").unwrap();
    assert!(restored.is_ended());
}

#[test]
fn failed_saves_are_told_before_the_lifecycle_fact() {
    let conv = Conversation::fresh(&Subject::of(SubjectType::User, "u"), "c1");
    let failed = || Err(ConversationStoreError::Storage("disk".to_string()));
    let created = creation(&conv, failed());
    assert_eq!(created.len(), 2);
    assert_eq!(
        created[0],
        SynonzEvent::Memory(MemoryEvent::FlowFailed {
            stage: MemoryFlowStage::Archive,
            detail: "conversation initial save failed: conversation storage failure: disk".into(),
            moment: MemoryFlowFailedMoment::Creation,
        })
    );
    assert_eq!(
        created[1],
        SynonzEvent::Conversation(ConversationEvent::Created {
            conversation_id: "c1".into(),
            subject_id: "User:u".into(),
        })
    );
    let ended = ending(&conv, failed(), ConversationEndReason::Shutdown);
    assert_eq!(
        ended,
        vec![
            SynonzEvent::Memory(MemoryEvent::FlowFailed {
                stage: MemoryFlowStage::Archive,
                detail: "conversation end save failed: conversation storage failure: disk".into(),
                moment: MemoryFlowFailedMoment::AtConversationEnd,
            }),
            SynonzEvent::Conversation(ConversationEvent::Ended {
                conversation_id: "c1".into(),
                subject_id: "User:u".into(),
                reason: ConversationEndReason::Shutdown,
            }),
        ]
    );
    assert_eq!(creation(&conv, Ok(())).len(), 1);
}

#[test]
fn history_shows_the_last_completed_turns() {
    let mut conv = Conversation::fresh(&Subject::of(SubjectType::User, "u"), "c1");
    conv.push_turn(text_turn("a", "A"));
    conv.push_turn(Turn::cancelled(
        AgentInput::new("b"),
        vec![Message::user("b")],
        synonz::CancelReason::UserRequested,
    ));
    conv.push_turn(text_turn("c", "C"));
    assert_eq!(
        conv.history(1),
        vec![Message::user("c"), Message::assistant_text("C")]
    );
    assert_eq!(conv.history(5).len(), 4);
    assert!(conv.history(0).is_empty());
}

#[test]
fn export_round_trips_the_truth_record() {
    let mut runtime = SynonzRuntime::builder().build(0);
    let subject = Subject::of(SubjectType::User, "test-user");
    let (mut conv, _) = Conversation::with_id(&mut runtime, &subject, "exported", 1);
    let state = conv.export(2);

    // The export holds the truth record; restoration goes through a store
    // that holds the state. The memory layers do not travel with it, nor
    // does the topic.
    assert_eq!(state.id, "exported");
    assert!(state.turns.is_empty());
    conv.push_turn(text_turn("q", "a"));
    conv.set_topic("billing");
    let state = conv.export(3);
    assert_eq!(state.turns.len(), 1);
    assert_eq!(state.topic, None);
    assert_eq!((state.subject_id.as_str(), state.last_active), ("User:test-user", 3));
    assert!(!state.ended);
}
