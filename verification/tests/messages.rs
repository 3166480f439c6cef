//! Canonical messages: what a conversation may hold, and how answers are read.

use serde_json::Value;
use synonz::event::TokenUsage;
use synonz::io::AgentOutput;
use synonz::message::{
    validate_conversation, CallId, CanonicalViolation, ContentBlock, Message, Role, ToolCall,
    ToolContent, ToolResult,
};

fn empty_object() -> Value {
    Value::Object(serde_json::Map::new())
}

fn city(name: &str) -> Value {
    let mut fields = serde_json::Map::new();
    fields.insert("city".to_string(), Value::String(name.to_string()));
    Value::Object(fields)
}

fn sample_conversation() -> Vec<Message> {
    vec![
        Message::user("weather in beijing?"),
        Message::new(
            Role::Assistant,
            vec![ContentBlock::ToolCall(ToolCall::new("x1", "weather", city("beijing")))],
        ),
        Message::tool_result(
            "x1",
            ToolResult::Success {
                content: ToolContent::Text {
                    text: "sunny, 28C".into(),
                },
            },
        ),
        Message::assistant_text("beijing is sunny, 28C."),
    ]
}

#[test]
fn valid_conversation_passes() {
    assert_eq!(validate_conversation(&sample_conversation()), Ok(()));
}

#[test]
fn tool_call_outside_assistant_is_rejected() {
    let messages = vec![Message::new(
        Role::User,
        vec![ContentBlock::ToolCall(ToolCall::new("x1", "weather", empty_object()))],
    )];
    assert!(matches!(
        validate_conversation(&messages),
        Err(CanonicalViolation::ToolCallInNonAssistantMessage { .. })
    ));
}

#[test]
fn tool_result_outside_tool_message_is_rejected() {
    let messages = vec![Message::new(
        Role::Assistant,
        vec![ContentBlock::ToolResult {
            call_id: CallId::new("x1"),
            result: ToolResult::Failure {
                message: "boom".into(),
            },
        }],
    )];
    assert!(matches!(
        validate_conversation(&messages),
        Err(CanonicalViolation::ToolResultInNonToolMessage { .. })
    ));
}

#[test]
fn dangling_call_id_is_rejected() {
    let messages = vec![Message::tool_result(
        "nope",
        ToolResult::Failure {
            message: "unknown call".into(),
        },
    )];
    assert!(matches!(
        validate_conversation(&messages),
        Err(CanonicalViolation::UnknownCallId { .. })
    ));
}

#[test]
fn parallel_calls_pair_by_call_id() {
    let messages = vec![
        Message::new(
            Role::Assistant,
            vec![
                ContentBlock::ToolCall(ToolCall::new("a", "t1", empty_object())),
                ContentBlock::ToolCall(ToolCall::new("b", "t2", empty_object())),
            ],
        ),
        Message::new(
            Role::Tool,
            vec![
                ContentBlock::ToolResult {
                    call_id: CallId::new("b"),
                    result: ToolResult::Failure {
                        message: "second".into(),
                    },
                },
                ContentBlock::ToolResult {
                    call_id: CallId::new("a"),
                    result: ToolResult::Failure {
                        message: "first".into(),
                    },
                },
            ],
        ),
    ];
    assert_eq!(validate_conversation(&messages), Ok(()));
}

#[test]
fn a_result_before_its_call_is_dangling() {
    let mut messages = sample_conversation();
    messages.swap(1, 2);
    match validate_conversation(&messages) {
        Err(violation) => assert_eq!(
            violation,
            CanonicalViolation::UnknownCallId {
                call_id: CallId::new("x1")
            }
        ),
        Ok(()) => panic!("the result comes before its call"),
    }
}

#[test]
fn every_prefix_of_a_canonical_conversation_is_canonical() {
    let mut messages = sample_conversation();
    while messages.pop().is_some() {
        assert_eq!(validate_conversation(&messages), Ok(()));
    }
}

#[test]
fn text_returns_first_text_block() {
    let output = AgentOutput {
        message: Message::assistant_text("done."),
        usage: TokenUsage::new(10, 5),
    };
    assert_eq!(output.text(), Some("done."));
}

#[test]
fn text_is_none_without_text_blocks() {
    let output = AgentOutput {
        message: Message::new(Role::Assistant, vec![]),
        usage: TokenUsage::new(0, 0),
    };
    assert_eq!(output.text(), None);
}

#[test]
fn cloned_arguments_are_the_arguments() {
    let call = ToolCall::new("x1", "weather", city("beijing"));
    let copy = call.clone();
    assert_eq!(copy, call);
    assert_eq!(copy.arguments.get("city").and_then(Value::as_str), Some("beijing"));
}

#[test]
fn ids_calls_and_messages_are_copied_from_others() {
    let borrowed: CallId = "x1".into();
    assert_eq!(borrowed, CallId::new("x1"));
    assert_eq!(CallId::from("x1".to_string()).as_str(), "x1");
    assert_eq!(borrowed.to_string(), "x1");
    let call = ToolCall::new("x1", "weather", city("beijing"));
    assert_eq!(ToolCall::from(&call), call);
    for message in &sample_conversation() {
        assert_eq!(&Message::from(message), message);
    }
}

#[test]
fn a_violation_stays_the_one_reported() {
    let misplaced = Message::new(
        Role::User,
        vec![ContentBlock::ToolCall(ToolCall::new("x9", "weather", empty_object()))],
    );
    let violation = || CanonicalViolation::ToolCallInNonAssistantMessage { role: Role::User };
    let mut messages = sample_conversation();
    messages.push(misplaced);
    assert_eq!(validate_conversation(&messages), Err(violation()));
    // Whatever follows, and wherever text stands.
    messages.push(Message::tool_result(
        "nobody",
        ToolResult::Failure {
            message: "late".into(),
        },
    ));
    assert_eq!(validate_conversation(&messages), Err(violation()));
    for at in 0..messages.len() {
        let mut more = messages.clone();
        more.insert(at, Message::assistant_text("text"));
        assert_eq!(validate_conversation(&more), Err(violation()));
    }
}
