//! The plain values: errors, reasons, queries, subjects.

use synonz::conversation::ConversationStoreError;
use synonz::memory::MemoryStoreError;
use synonz::context::MemoryFailure;
use synonz::error::{AgentError, ModelError};
use synonz::event::CancelReason;
use synonz::memory::{MemoryCursor, MemoryListCursor, MemoryQuery, MemoryScope};
use synonz::subject::{Subject, SubjectType};
use synonz::tool::ToolError;
use synonz::AgentInput;

#[test]
fn errors_display_with_context() {
    let err = AgentError::Model(ModelError::Transport {
        message: "connection reset".into(),
    });
    assert_eq!(
        err.to_string(),
        "model call failed: transport error: connection reset"
    );
    assert_eq!(
        AgentError::MaxRoundsExceeded.to_string(),
        "max rounds exceeded"
    );
    assert_eq!(
        AgentError::Cancelled(CancelReason::Timeout).to_string(),
        "run cancelled: timeout"
    );
}

#[test]
fn cancel_reason_displays() {
    assert_eq!(CancelReason::UserRequested.to_string(), "user requested");
    assert_eq!(CancelReason::Timeout.to_string(), "timeout");
}

#[test]
fn scope_is_an_opaque_string_value() {
    let scope = MemoryScope::new("project:abc");
    assert_eq!(scope.as_str(), "project:abc");
    assert_eq!(scope.to_string(), "project:abc");
    let from_string: MemoryScope = "user:u1".to_string().into();
    assert_eq!(from_string.as_str(), "user:u1");
    let json = serde_json::to_string(scope.as_str()).unwrap();
    assert_eq!(json, "\"project:abc\"");
    let back: String = serde_json::from_str(&json).unwrap();
    assert_eq!(MemoryScope::from(back), scope);
    assert_eq!(MemoryScope::from(" Project:abc ").as_str(), " Project:abc ");
}

#[test]
fn texts_become_inputs() {
    let borrowed: AgentInput = "hello".into();
    assert_eq!(borrowed, AgentInput::new("hello"));
    assert_eq!(AgentInput::from("hello".to_string()), borrowed);
}

#[test]
fn query_builders_compose() {
    let query = MemoryQuery::new(5)
        .with_conversation("c1")
        .with_topic("billing")
        .with_scope("project:abc")
        .with_from(10)
        .with_to(20)
        .with_keyword("invoice")
        .with_after(MemoryListCursor::new(MemoryCursor::new(15, "e1")));
    assert_eq!(query.limit, 5);
    assert_eq!(query.conversation_id.as_deref(), Some("c1"));
    assert_eq!(query.topic.as_deref(), Some("billing"));
    assert_eq!(
        query.scope.as_ref().map(MemoryScope::as_str),
        Some("project:abc")
    );
    assert_eq!((query.from, query.to), (Some(10), Some(20)));
    assert_eq!(query.keyword.as_deref(), Some("invoice"));
    assert_eq!(
        query.after.as_ref().and_then(|c| c.position.as_ref()),
        Some(&MemoryCursor::new(15, "e1"))
    );
}

#[test]
fn list_cursor_start_has_no_position() {
    assert!(MemoryListCursor::start().position.is_none());
    assert_eq!(
        MemoryListCursor::new(MemoryCursor::new(1, "a")).position,
        Some(MemoryCursor::new(1, "a"))
    );
}

#[test]
fn identity_is_type_and_id() {
    let user = Subject::of(SubjectType::User, "42");
    let agent = Subject::of(SubjectType::Agent, "42");
    assert_ne!(user, agent, "same id, different type => different subject");
    assert_eq!(user, Subject::of(SubjectType::User, "42"));
}

#[test]
fn accessors() {
    let subject = Subject::of(SubjectType::User, "user-42");
    assert_eq!(subject.subject_type(), SubjectType::User);
    assert_eq!(subject.id(), "user-42");
}

#[test]
fn tool_error_displays() {
    assert_eq!(
        ToolError::InvalidArguments {
            message: "missing city".into()
        }
        .to_string(),
        "invalid arguments: missing city"
    );
}

#[test]
fn memory_scope_is_used_by_the_contracts() {
    let _scope = MemoryScope::new("project:x");
}

#[test]
fn memory_failure_is_constructible_and_plain() {
    let failure = MemoryFailure::new("stage", "detail");
    assert_eq!(failure.stage, "stage");
    assert_eq!(failure.detail, "detail");
}

#[test]
fn every_error_reads_as_a_sentence() {
    assert_eq!(
        ConversationStoreError::NotFound("c1".to_string()).to_string(),
        "conversation not found: c1"
    );
    assert_eq!(
        ConversationStoreError::Storage("disk".to_string()).to_string(),
        "conversation storage failure: disk"
    );
    assert_eq!(
        MemoryStoreError::Storage("disk".to_string()).to_string(),
        "memory storage failure: disk"
    );
    assert_eq!(
        MemoryStoreError::SubjectNotFound("User:u".to_string()).to_string(),
        "subject not found: User:u"
    );
    assert_eq!(
        MemoryStoreError::EntryNotFound("e1".to_string()).to_string(),
        "memory entry not found: e1"
    );
    assert_eq!(
        ToolError::Execution { message: "down".to_string() }.to_string(),
        "tool execution failed: down"
    );
}

#[test]
fn scopes_are_opaque_text() {
    let scope = MemoryScope::new("project:abc");
    assert_eq!(scope.as_str(), "project:abc");
    assert_eq!(scope.to_string(), "project:abc");
    let from_string = MemoryScope::new("user:u1".to_string());
    assert_eq!(from_string.as_str(), "user:u1");
    assert_eq!(MemoryScope::new("project:abc"), scope);
}
