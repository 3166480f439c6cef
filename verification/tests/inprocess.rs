//! The in-process services: the conversation store, its listings, and the
//! bundled memory.

use synonz::conversation::{ConversationCursor, ConversationQuery, ConversationState};
use synonz::inprocess::{
    assemble_window, archive_window, InProcessConversationStore, InProcessTurnStore,
    DEFAULT_WINDOW_MESSAGES,
};
use synonz::listing::mentions;
use synonz::memory::{Memory, MemoryQuery};
use synonz::message::{ContentBlock, Message};
use synonz::subject::{Subject, SubjectType};
use synonz::SynonzRuntime;

fn state(
    subject: &Subject,
    id: &str,
    last_active: u64,
    ended: bool,
    topic: Option<&str>,
) -> ConversationState {
    ConversationState {
        subject_id: subject.to_string(),
        id: id.to_string(),
        turns: Vec::new(),
        topic: topic.map(str::to_string),
        last_active,
        ended,
    }
}

#[test]
fn list_stale_filters_and_orders() {
    let mut store = InProcessConversationStore::new();
    let subject = Subject::of(SubjectType::User, "u-1");
    store.save(state(&subject, "old", 100, false, None)).unwrap();
    store.save(state(&subject, "new", 300, false, None)).unwrap();
    store.save(state(&subject, "ended", 50, true, None)).unwrap();
    store.save(state(&subject, "unstamped", 0, false, None)).unwrap();

    let page = store.list_stale(200, None, 10).unwrap();
    let ids: Vec<&str> = page.items.iter().map(|item| item.id.as_str()).collect();
    assert_eq!(ids, vec!["old"], "only not-ended, stamped, <= before");
    assert!(page.next.is_none());
}

#[test]
fn list_stale_paginates_by_cursor() {
    let mut store = InProcessConversationStore::new();
    let subject = Subject::of(SubjectType::User, "u-2");
    for (id, last_active) in [("a", 400u64), ("b", 300), ("c", 200), ("d", 100)] {
        store.save(state(&subject, id, last_active, false, None)).unwrap();
    }

    let first = store.list_stale(1000, None, 2).unwrap();
    let ids: Vec<&str> = first.items.iter().map(|item| item.id.as_str()).collect();
    assert_eq!(ids, vec!["a", "b"]);
    let next = first.next.expect("a second page exists");
    assert_eq!((next.last_active, next.id.as_str()), (300, "b"));

    let second = store.list_stale(1000, Some(next), 2).unwrap();
    let ids: Vec<&str> = second.items.iter().map(|item| item.id.as_str()).collect();
    assert_eq!(ids, vec!["c", "d"]);
    assert!(second.next.is_none());
}

#[test]
fn list_stale_ties_break_by_id_ascending() {
    let mut store = InProcessConversationStore::new();
    let subject = Subject::of(SubjectType::User, "u-3");
    store.save(state(&subject, "b", 500, false, None)).unwrap();
    store.save(state(&subject, "a", 500, false, None)).unwrap();

    let page = store.list_stale(1000, None, 10).unwrap();
    let ids: Vec<&str> = page.items.iter().map(|item| item.id.as_str()).collect();
    assert_eq!(ids, vec!["a", "b"]);
}

#[test]
fn list_matches_metadata_keyword_case_insensitively() {
    let mut store = InProcessConversationStore::new();
    let subject = Subject::of(SubjectType::User, "Alice");
    store.save(state(&subject, "Alpha-1", 10, false, None)).unwrap();
    store.save(state(&subject, "beta-2", 20, false, Some("Billing"))).unwrap();

    let by_id = store
        .list(ConversationQuery::new(10).with_keyword("alpha"))
        .unwrap();
    assert_eq!(by_id.items.len(), 1);
    assert_eq!(by_id.items[0].id, "Alpha-1");

    let by_subject = store
        .list(ConversationQuery::new(10).with_keyword("alice"))
        .unwrap();
    assert_eq!(by_subject.items.len(), 2);

    let by_topic = store
        .list(ConversationQuery::new(10).with_keyword("bill"))
        .unwrap();
    assert_eq!(by_topic.items.len(), 1);
    assert_eq!(by_topic.items[0].id, "beta-2");
}

#[test]
fn an_empty_keyword_lists_everything_and_a_zero_limit_nothing() {
    let mut store = InProcessConversationStore::new();
    let subject = Subject::of(SubjectType::User, "u-4");
    store.save(state(&subject, "a", 10, false, None)).unwrap();
    store.save(state(&subject, "b", 20, true, None)).unwrap();
    let all = store.list(ConversationQuery::new(10).with_keyword("")).unwrap();
    assert_eq!(all.items.len(), 2);
    let none = store.list(ConversationQuery::new(0)).unwrap();
    assert!(none.items.is_empty());
    assert!(none.next.is_none());
}

#[test]
fn cursors_survive_removals_between_pages() {
    let mut store = InProcessConversationStore::new();
    let subject = Subject::of(SubjectType::User, "u-5");
    for (id, last_active) in [("a", 400u64), ("b", 300), ("c", 200)] {
        store.save(state(&subject, id, last_active, false, None)).unwrap();
    }
    let first = store.list_stale(1000, None, 2).unwrap();
    let next = first.next.expect("more");
    // The conversation the cursor came from leaves the listing.
    store.save(state(&subject, "b", 300, true, None)).unwrap();
    let second = store.list_stale(1000, Some(next), 2).unwrap();
    let ids: Vec<&str> = second.items.iter().map(|item| item.id.as_str()).collect();
    assert_eq!(ids, vec!["c"]);
    let past = store
        .list_stale(1000, Some(ConversationCursor::new(1, "z")), 2)
        .unwrap();
    assert!(past.items.is_empty());
}

#[test]
fn saving_replaces_and_loading_checks_the_owner() {
    let mut store = InProcessConversationStore::new();
    let owner = Subject::of(SubjectType::User, "u-6");
    store.save(state(&owner, "c", 10, false, Some("old"))).unwrap();
    store.save(state(&owner, "c", 20, false, Some("new"))).unwrap();
    let loaded = store.load(&owner, "c").unwrap();
    assert_eq!(loaded.topic.as_deref(), Some("new"));
    assert_eq!(loaded.last_active, 20);
    let agent = Subject::of(SubjectType::Agent, "u-6");
    assert!(store.load(&agent, "c").is_err());
}

#[test]
fn the_turn_store_keeps_the_window_bounded() {
    let mut store = InProcessTurnStore::new();
    let subject = Subject::of(SubjectType::User, "u-window");
    for index in 0..(DEFAULT_WINDOW_MESSAGES + 5) {
        store.append(&subject, "c1", vec![Message::user(format!("m{index}"))]);
    }
    let recent = store.recent(&subject, "c1");
    assert_eq!(recent.len(), DEFAULT_WINDOW_MESSAGES);
    assert_eq!(
        recent.first().unwrap().blocks[0],
        ContentBlock::Text {
            text: "m5".to_string()
        }
    );
}

#[test]
fn the_turn_store_is_conversation_scoped() {
    let mut store = InProcessTurnStore::new();
    let subject = Subject::of(SubjectType::User, "u-scope");
    store.append(&subject, "c1", vec![Message::user("one")]);
    store.append(&subject, "c2", vec![Message::user("two")]);
    assert_eq!(store.recent(&subject, "c1").len(), 1);
    assert_eq!(store.recent(&subject, "c2").len(), 1);
}

#[test]
fn the_frame_shows_the_rewritten_input() {
    let mut store = InProcessTurnStore::new();
    let subject = Subject::of(SubjectType::User, "u-frame");
    archive_window(
        &mut store,
        &subject,
        "c1",
        "first question",
        &vec![Message::assistant_text("first answer")],
    );
    let output = assemble_window(&store, &subject, "c1", "second", Some("second, rewritten"));
    assert_eq!(
        output.messages,
        vec![
            Message::user("first question"),
            Message::assistant_text("first answer"),
            Message::user("second, rewritten"),
        ]
    );
    assert!(output.failures.is_empty());
}

#[test]
fn the_bundled_management_face_is_minimal() {
    let runtime = SynonzRuntime::builder().build(0);
    let memory = runtime.memory();
    let subject = Subject::of(SubjectType::User, "u-memory");

    let page = memory.list(&subject, MemoryQuery::new(10)).unwrap();
    assert!(page.items.is_empty());
    assert!(page.next.is_none());
    assert!(memory.get(&subject, "anything").unwrap().is_none());
    assert_eq!(memory.forget(&subject, "anything").unwrap().removed, 0);
    assert_eq!(
        memory
            .forget_matching(&subject, MemoryQuery::new(10))
            .unwrap()
            .removed,
        0
    );
}

#[test]
fn the_reader_is_a_read_only_projection_of_the_memory() {
    let runtime = SynonzRuntime::builder().build(0);
    let subject = Subject::of(SubjectType::User, "u-memory");
    let memory = runtime.memory();

    // The projection derives from the memory itself and exposes the
    // item-level reads only.
    let reader = memory.reader();
    let page = reader.list(&subject, MemoryQuery::new(10)).unwrap();
    assert!(page.items.is_empty());
    assert!(reader.get(&subject, "missing").unwrap().is_none());
}

#[test]
fn a_needle_is_looked_for_letter_for_letter() {
    assert!(mentions("conv-1", "User:alice", Some("weather"), "eath"));
    assert!(mentions("conv-1", "User:alice", None, "alice"));
    assert!(mentions("conv-1", "User:alice", None, ""));
    assert!(!mentions("conv-1", "User:alice", None, "Alice"));
    assert!(!mentions("conv-1", "User:alice", None, "weather"));
}
