//! Canonical message types shared by the agent loop, model adapters, and
//! tool bridges.
//!
//! The canonical conversation form is [`Message`] = [`Role`] + content
//! blocks. Provider adapters translate between this form and their wire
//! formats; the agent loop, the event model, and the tool bridges only ever
//! see the canonical form.
//!
//! A well-formed conversation satisfies:
//!
//! 1. tool call blocks appear only in assistant messages;
//! 2. tool result blocks appear only in tool messages;
//! 3. every tool result references, by call id, a tool call that appears
//!    earlier in the conversation.
//!
//! [`validate_conversation`] checks these invariants; [`canonical`] states
//! them.

use serde_json::Value;
use vstd::prelude::*;

use crate::text::{concat, same_text, Text};

verus! {

/// A JSON value, carried through without being read.
#[verifier::external_type_specification]
#[verifier::external_body]
pub struct ExValue(serde_json::Value);

/// `<serde_json::Value as Clone>::clone`: the derived clone copies the whole
/// value.
pub assume_specification[ <serde_json::Value as Clone>::clone ](value: &serde_json::Value) -> (copy:
    serde_json::Value)
    ensures
        copy == *value,
;

/// Opaque identifier correlating a tool call with its tool result.
#[derive(Debug, PartialEq, Eq, Hash)]
pub struct CallId(pub String);

impl DeepView for CallId {
    type V = Seq<char>;

    open spec fn deep_view(&self) -> Seq<char> {
        self.0@
    }
}

impl Clone for CallId {
    fn clone(&self) -> (copy: Self)
        ensures
            copy == *self,
    {
        CallId(self.0.clone())
    }
}

impl Text for CallId {
    open spec fn text(&self) -> Seq<char> {
        self.0@
    }

    fn into_text(self) -> (owned: String) {
        self.0
    }
}

impl<'a> From<&'a str> for CallId {
    fn from(id: &'a str) -> (call_id: Self)
        ensures
            call_id.deep_view() == id@,
    {
        CallId::new(id)
    }
}

impl<'a> vstd::std_specs::convert::FromSpecImpl<&'a str> for CallId {
    open spec fn obeys_from_spec() -> bool {
        false
    }

    open spec fn from_spec(id: &'a str) -> Self {
        arbitrary()
    }
}

impl From<String> for CallId {
    fn from(id: String) -> (call_id: Self)
        ensures
            call_id.deep_view() == id@,
    {
        CallId(id)
    }
}

impl vstd::std_specs::convert::FromSpecImpl<String> for CallId {
    open spec fn obeys_from_spec() -> bool {
        true
    }

    open spec fn from_spec(id: String) -> Self {
        CallId(id)
    }
}

impl CallId {
    /// Creates a call id from a string.
    pub fn new(id: impl Text) -> (call_id: Self)
        ensures
            call_id.deep_view() == id.text(),
    {
        CallId(id.into_text())
    }

    /// Views the id as a string slice.
    pub fn as_str(&self) -> (id: &str)
        ensures
            id@ == self.deep_view(),
    {
        self.0.as_str()
    }

    /// The id as a string.
    pub fn to_string(&self) -> (id: String)
        ensures
            id@ == self.deep_view(),
    {
        self.0.clone()
    }

    /// Whether two ids are the same.
    pub fn same(&self, other: &CallId) -> (same: bool)
        ensures
            same == (self.deep_view() == other.deep_view()),
    {
        same_text(self.as_str(), other.as_str())
    }
}

/// The role of a [`Message`] in a conversation.
#[derive(Debug, Clone, Copy, PartialEq, Eq, Hash, Structural)]
pub enum Role {
    /// System instructions shaping agent behavior.
    System,
    /// Input from the user or application.
    User,
    /// Output produced by the model.
    Assistant,
    /// Tool execution results fed back to the model.
    Tool,
}

impl DeepView for Role {
    type V = Role;

    open spec fn deep_view(&self) -> Role {
        *self
    }
}

impl Role {
    /// The role's name.
    pub fn name(&self) -> (name: &'static str)
        ensures
            name@ == role_name(*self),
    {
        match self {
            Role::System => "System",
            Role::User => "User",
            Role::Assistant => "Assistant",
            Role::Tool => "Tool",
        }
    }
}

/// The name a role is shown under.
pub open spec fn role_name(role: Role) -> Seq<char> {
    match role {
        Role::System => "System"@,
        Role::User => "User"@,
        Role::Assistant => "Assistant"@,
        Role::Tool => "Tool"@,
    }
}

/// A capability invocation requested by the model.
#[derive(Debug, PartialEq)]
pub struct ToolCall {
    /// Correlation id pairing this call with its result.
    pub call_id: CallId,
    /// Name of the tool to invoke.
    pub name: String,
    /// Tool arguments as a JSON object.
    pub arguments: Value,
}

/// What a [`ToolCall`] holds.
pub ghost struct ToolCallView {
    pub call_id: Seq<char>,
    pub name: Seq<char>,
    pub arguments: Value,
}

impl DeepView for ToolCall {
    type V = ToolCallView;

    open spec fn deep_view(&self) -> ToolCallView {
        ToolCallView {
            call_id: self.call_id.deep_view(),
            name: self.name@,
            arguments: self.arguments,
        }
    }
}

impl Clone for ToolCall {
    fn clone(&self) -> (copy: Self)
        ensures
            copy == *self,
    {
        ToolCall {
            call_id: self.call_id.clone(),
            name: self.name.clone(),
            arguments: self.arguments.clone(),
        }
    }
}

impl<'a> From<&'a ToolCall> for ToolCall {
    fn from(call: &'a ToolCall) -> (copy: Self)
        ensures
            copy == *call,
    {
        call.clone()
    }
}

impl<'a> vstd::std_specs::convert::FromSpecImpl<&'a ToolCall> for ToolCall {
    open spec fn obeys_from_spec() -> bool {
        true
    }

    open spec fn from_spec(call: &'a ToolCall) -> Self {
        *call
    }
}

impl ToolCall {
    /// Creates a tool call.
    pub fn new(call_id: impl Text, name: impl Text, arguments: Value) -> (call: Self)
        ensures
            call.deep_view() == (ToolCallView {
                call_id: call_id.text(),
                name: name.text(),
                arguments,
            }),
    {
        ToolCall { call_id: CallId::new(call_id), name: name.into_text(), arguments }
    }
}

/// Successful content returned by a tool.
#[derive(Debug, PartialEq)]
pub enum ToolContent {
    /// Plain text content.
    Text {
        /// The text payload.
        text: String,
    },
    /// Structured JSON content.
    Json {
        /// The JSON payload.
        value: Value,
    },
}

/// What a [`ToolContent`] holds.
pub ghost enum ToolContentView {
    Text { text: Seq<char> },
    Json { value: Value },
}

impl DeepView for ToolContent {
    type V = ToolContentView;

    open spec fn deep_view(&self) -> ToolContentView {
        match self {
            ToolContent::Text { text } => ToolContentView::Text { text: text@ },
            ToolContent::Json { value } => ToolContentView::Json { value: *value },
        }
    }
}

impl Clone for ToolContent {
    fn clone(&self) -> (copy: Self)
        ensures
            copy == *self,
    {
        match self {
            ToolContent::Text { text } => ToolContent::Text { text: text.clone() },
            ToolContent::Json { value } => ToolContent::Json { value: value.clone() },
        }
    }
}

/// The outcome of a tool invocation.
///
/// `Failure` is soft: the message is fed back to the model, which may
/// retry, adjust, or abandon. Tool failures do not terminate a run.
#[derive(Debug, PartialEq)]
pub enum ToolResult {
    /// Successful execution with content for the model.
    Success {
        /// The content payload.
        content: ToolContent,
    },
    /// Soft failure; `message` is shown to the model.
    Failure {
        /// Human-readable failure description for the model.
        message: String,
    },
}

/// What a [`ToolResult`] holds.
pub ghost enum ToolResultView {
    Success { content: ToolContentView },
    Failure { message: Seq<char> },
}

impl DeepView for ToolResult {
    type V = ToolResultView;

    open spec fn deep_view(&self) -> ToolResultView {
        match self {
            ToolResult::Success { content } => ToolResultView::Success { content: content.deep_view() },
            ToolResult::Failure { message } => ToolResultView::Failure { message: message@ },
        }
    }
}

impl Clone for ToolResult {
    fn clone(&self) -> (copy: Self)
        ensures
            copy == *self,
    {
        match self {
            ToolResult::Success { content } => ToolResult::Success { content: content.clone() },
            ToolResult::Failure { message } => ToolResult::Failure { message: message.clone() },
        }
    }
}

/// One block of content inside a [`Message`].
#[derive(Debug, PartialEq)]
pub enum ContentBlock {
    /// A text block.
    Text {
        /// The text payload.
        text: String,
    },
    /// A tool call requested by the model (assistant messages only).
    ToolCall(ToolCall),
    /// A tool result fed back to the model (tool messages only).
    ToolResult {
        /// Correlation id of the answered tool call.
        call_id: CallId,
        /// The tool outcome.
        result: ToolResult,
    },
}

/// What a [`ContentBlock`] holds.
pub ghost enum ContentBlockView {
    Text { text: Seq<char> },
    ToolCall(ToolCallView),
    ToolResult { call_id: Seq<char>, result: ToolResultView },
}

impl DeepView for ContentBlock {
    type V = ContentBlockView;

    open spec fn deep_view(&self) -> ContentBlockView {
        match self {
            ContentBlock::Text { text } => ContentBlockView::Text { text: text@ },
            ContentBlock::ToolCall(call) => ContentBlockView::ToolCall(call.deep_view()),
            ContentBlock::ToolResult { call_id, result } => ContentBlockView::ToolResult {
                call_id: call_id.deep_view(),
                result: result.deep_view(),
            },
        }
    }
}

impl Clone for ContentBlock {
    fn clone(&self) -> (copy: Self)
        ensures
            copy == *self,
    {
        match self {
            ContentBlock::Text { text } => ContentBlock::Text { text: text.clone() },
            ContentBlock::ToolCall(call) => ContentBlock::ToolCall(call.clone()),
            ContentBlock::ToolResult { call_id, result } => ContentBlock::ToolResult {
                call_id: call_id.clone(),
                result: result.clone(),
            },
        }
    }
}

/// A single canonical conversation message.
#[derive(Debug, PartialEq)]
pub struct Message {
    /// The authoring role of this message.
    pub role: Role,
    /// Ordered content blocks.
    pub blocks: Vec<ContentBlock>,
}

/// What a [`Message`] holds.
#[verifier::ext_equal]
pub ghost struct MessageView {
    pub role: Role,
    pub blocks: Seq<ContentBlockView>,
}

impl DeepView for Message {
    type V = MessageView;

    open spec fn deep_view(&self) -> MessageView {
        MessageView { role: self.role, blocks: self.blocks.deep_view() }
    }
}

impl Clone for Message {
    fn clone(&self) -> (copy: Self)
        ensures
            copy.deep_view() == self.deep_view(),
    {
        let blocks = self.blocks.clone();
        assert(blocks.deep_view() =~= self.blocks.deep_view());
        Message { role: self.role, blocks }
    }
}

impl<'a> From<&'a Message> for Message {
    fn from(message: &'a Message) -> (copy: Self)
        ensures
            copy.deep_view() == message.deep_view(),
    {
        message.clone()
    }
}

impl<'a> vstd::std_specs::convert::FromSpecImpl<&'a Message> for Message {
    open spec fn obeys_from_spec() -> bool {
        false
    }

    open spec fn from_spec(message: &'a Message) -> Self {
        arbitrary()
    }
}

/// A message of one text block.
pub open spec fn text_message_view(role: Role, text: Seq<char>) -> MessageView {
    MessageView { role, blocks: seq![ContentBlockView::Text { text }] }
}

/// A tool message carrying one result.
pub open spec fn tool_result_view(call_id: Seq<char>, result: ToolResultView) -> MessageView {
    MessageView { role: Role::Tool, blocks: seq![ContentBlockView::ToolResult { call_id, result }] }
}

impl Message {
    /// Creates a message from a role and content blocks.
    pub fn new(role: Role, blocks: Vec<ContentBlock>) -> (message: Self)
        ensures
            message.role == role,
            message.blocks == blocks,
    {
        Message { role, blocks }
    }

    /// Creates a system message with a single text block.
    pub fn system(text: impl Text) -> (message: Self)
        ensures
            message.deep_view() == text_message_view(Role::System, text.text()),
    {
        Self::text_message(Role::System, text)
    }

    /// Creates a user message with a single text block.
    pub fn user(text: impl Text) -> (message: Self)
        ensures
            message.deep_view() == text_message_view(Role::User, text.text()),
    {
        Self::text_message(Role::User, text)
    }

    /// Creates an assistant message with a single text block.
    pub fn assistant_text(text: impl Text) -> (message: Self)
        ensures
            message.deep_view() == text_message_view(Role::Assistant, text.text()),
    {
        Self::text_message(Role::Assistant, text)
    }

    /// Creates a tool message carrying one tool result.
    pub fn tool_result(call_id: impl Text, result: ToolResult) -> (message: Self)
        ensures
            message.deep_view() == tool_result_view(call_id.text(), result.deep_view()),
    {
        let message = Message::new(
            Role::Tool,
            vec![ContentBlock::ToolResult { call_id: CallId::new(call_id), result }],
        );
        assert(message.deep_view().blocks =~= seq![
            ContentBlockView::ToolResult { call_id: call_id.text(), result: result.deep_view() },
        ]);
        message
    }

    fn text_message(role: Role, text: impl Text) -> (message: Self)
        ensures
            message.deep_view() == text_message_view(role, text.text()),
    {
        let message = Message::new(role, vec![ContentBlock::Text { text: text.into_text() }]);
        assert(message.deep_view().blocks =~= seq![ContentBlockView::Text { text: text.text() }]);
        message
    }
}

/// A violation of the canonical conversation invariants.
///
/// Produced by [`validate_conversation`].
#[derive(Debug, PartialEq)]
pub enum CanonicalViolation {
    /// A tool call block appeared outside an assistant message.
    ToolCallInNonAssistantMessage {
        /// The offending role.
        role: Role,
    },
    /// A tool result block appeared outside a tool message.
    ToolResultInNonToolMessage {
        /// The offending role.
        role: Role,
    },
    /// A tool result referenced a call id with no earlier matching call.
    UnknownCallId {
        /// The dangling call id.
        call_id: CallId,
    },
}

/// What a [`CanonicalViolation`] holds.
pub ghost enum CanonicalViolationView {
    ToolCallInNonAssistantMessage { role: Role },
    ToolResultInNonToolMessage { role: Role },
    UnknownCallId { call_id: Seq<char> },
}

impl DeepView for CanonicalViolation {
    type V = CanonicalViolationView;

    open spec fn deep_view(&self) -> CanonicalViolationView {
        match self {
            CanonicalViolation::ToolCallInNonAssistantMessage { role } =>
                CanonicalViolationView::ToolCallInNonAssistantMessage { role: *role },
            CanonicalViolation::ToolResultInNonToolMessage { role } =>
                CanonicalViolationView::ToolResultInNonToolMessage { role: *role },
            CanonicalViolation::UnknownCallId { call_id } =>
                CanonicalViolationView::UnknownCallId { call_id: call_id.deep_view() },
        }
    }
}

/// What a violation reads as.
pub open spec fn violation_text(violation: CanonicalViolationView) -> Seq<char> {
    match violation {
        CanonicalViolationView::ToolCallInNonAssistantMessage { role } =>
            "tool call block in non-assistant message (role: "@ + role_name(role) + ")"@,
        CanonicalViolationView::ToolResultInNonToolMessage { role } =>
            "tool result block in non-tool message (role: "@ + role_name(role) + ")"@,
        CanonicalViolationView::UnknownCallId { call_id } =>
            "tool result references unknown call id: "@ + call_id,
    }
}

impl CanonicalViolation {
    /// The violation as a sentence.
    pub fn to_string(&self) -> (text: String)
        ensures
            text@ == violation_text(self.deep_view()),
    {
        match self {
            CanonicalViolation::ToolCallInNonAssistantMessage { role } => {
                let head = concat("tool call block in non-assistant message (role: ", role.name());
                concat(head.as_str(), ")")
            },
            CanonicalViolation::ToolResultInNonToolMessage { role } => {
                let head = concat("tool result block in non-tool message (role: ", role.name());
                concat(head.as_str(), ")")
            },
            CanonicalViolation::UnknownCallId { call_id } => concat(
                "tool result references unknown call id: ",
                call_id.as_str(),
            ),
        }
    }
}

/// Whether block `j` of message `i` exists.
pub open spec fn block_in_range(messages: Seq<MessageView>, i: int, j: int) -> bool {
    0 <= i < messages.len() && 0 <= j < messages[i].blocks.len()
}

/// Reading order: message by message, block by block.
pub open spec fn reads_before(p: int, q: int, i: int, j: int) -> bool {
    p < i || (p == i && q < j)
}

/// Whether the block at `p`, `q` calls a tool under the given id.
pub open spec fn calls_at(messages: Seq<MessageView>, p: int, q: int, call_id: Seq<char>) -> bool {
    messages[p].blocks[q] matches ContentBlockView::ToolCall(call) && call.call_id == call_id
}

/// Whether a tool call with this id stands before block `j` of message `i`.
pub open spec fn called_before(
    messages: Seq<MessageView>,
    i: int,
    j: int,
    call_id: Seq<char>,
) -> bool {
    exists|p: int, q: int|
        block_in_range(messages, p, q) && reads_before(p, q, i, j) && #[trigger] calls_at(
            messages,
            p,
            q,
            call_id,
        )
}

/// The invariant that block `j` of message `i` breaks, if any.
pub open spec fn violation_at(messages: Seq<MessageView>, i: int, j: int) -> Option<
    CanonicalViolationView,
> {
    let role = messages[i].role;
    match messages[i].blocks[j] {
        ContentBlockView::Text { .. } => None,
        ContentBlockView::ToolCall(_) => if role == Role::Assistant {
            None
        } else {
            Some(CanonicalViolationView::ToolCallInNonAssistantMessage { role })
        },
        ContentBlockView::ToolResult { call_id, .. } => if role != Role::Tool {
            Some(CanonicalViolationView::ToolResultInNonToolMessage { role })
        } else if called_before(messages, i, j, call_id) {
            None
        } else {
            Some(CanonicalViolationView::UnknownCallId { call_id })
        },
    }
}

/// A conversation in which no block breaks an invariant.
pub open spec fn canonical(messages: Seq<MessageView>) -> bool {
    forall|i: int, j: int|
        block_in_range(messages, i, j) ==> #[trigger] violation_at(messages, i, j) is None
}

/// Block `j` of message `i` is the first in reading order to break an
/// invariant.
pub open spec fn first_violation(messages: Seq<MessageView>, i: int, j: int) -> bool {
    &&& block_in_range(messages, i, j)
    &&& violation_at(messages, i, j) is Some
    &&& forall|p: int, q: int|
        block_in_range(messages, p, q) && reads_before(p, q, i, j) ==> #[trigger] violation_at(
            messages,
            p,
            q,
        ) is None
}

/// Whether this is the violation of the first block that breaks an
/// invariant.
pub open spec fn reported(messages: Seq<MessageView>, violation: CanonicalViolationView) -> bool {
    exists|i: int, j: int|
        first_violation(messages, i, j) && #[trigger] violation_at(messages, i, j) == Some(
            violation,
        )
}

/// Whether a tool call with this id stands before block `until` of message
/// `at`.
fn has_call_before(messages: &[Message], at: usize, until: usize, call_id: &CallId) -> (found: bool)
    requires
        at < messages@.len(),
        until <= messages@[at as int].blocks@.len(),
    ensures
        found == called_before(
            messages.deep_view(),
            at as int,
            until as int,
            call_id.deep_view(),
        ),
{
    let ghost view = messages.deep_view();
    let ghost id = call_id.deep_view();
    let total: usize = messages.len();
    let mut i: usize = 0;
    while i <= at
        invariant
            at < total == messages@.len(),
            until <= messages@[at as int].blocks@.len(),
            i <= at + 1,
            view == messages.deep_view(),
            id == call_id.deep_view(),
            forall|p: int, q: int|
                block_in_range(view, p, q) && p < i && reads_before(p, q, at as int, until as int)
                    ==> !#[trigger] calls_at(view, p, q, id),
        decreases at + 1 - i,
    {
        let stop: usize = if i == at {
            until
        } else {
            messages[i].blocks.len()
        };
        let mut j: usize = 0;
        while j < stop
            invariant
                i <= at < messages@.len(),
                stop <= messages@[i as int].blocks@.len(),
                i == at ==> stop == until,
                j <= stop,
                view == messages.deep_view(),
                id == call_id.deep_view(),
                forall|q: int| 0 <= q < j ==> !#[trigger] calls_at(view, i as int, q, id),
            decreases stop - j,
        {
            assert(view[i as int].blocks[j as int]
                == messages@[i as int].blocks@[j as int].deep_view());
            if let ContentBlock::ToolCall(call) = &messages[i].blocks[j] {
                if call.call_id.same(call_id) {
                    assert(calls_at(view, i as int, j as int, id));
                    return true;
                }
            }
            j += 1;
        }
        i += 1;
    }
    false
}

/// Validates the canonical invariants of a conversation.
///
/// Checks that tool calls only appear in assistant messages, tool results
/// only in tool messages, and every tool result references an earlier tool
/// call by [`CallId`]. Returns the first violation found.
pub fn validate_conversation(messages: &[Message]) -> (result: Result<(), CanonicalViolation>)
    ensures
        match result {
            Ok(()) => canonical(messages.deep_view()),
            Err(violation) => reported(messages.deep_view(), violation.deep_view()),
        },
{
    let ghost view = messages.deep_view();
    let mut i: usize = 0;
    while i < messages.len()
        invariant
            i <= messages@.len(),
            view == messages.deep_view(),
            forall|p: int, q: int|
                block_in_range(view, p, q) && p < i ==> #[trigger] violation_at(view, p, q) is None,
        decreases messages@.len() - i,
    {
        let role = messages[i].role;
        let mut j: usize = 0;
        while j < messages[i].blocks.len()
            invariant
                i < messages@.len(),
                role == messages@[i as int].role,
                j <= messages@[i as int].blocks@.len(),
                view == messages.deep_view(),
                forall|p: int, q: int|
                    block_in_range(view, p, q) && reads_before(p, q, i as int, j as int)
                        ==> #[trigger] violation_at(view, p, q) is None,
            decreases messages@[i as int].blocks@.len() - j,
        {
            assert(view[i as int].blocks[j as int]
                == messages@[i as int].blocks@[j as int].deep_view());
            match &messages[i].blocks[j] {
                ContentBlock::ToolCall(_) => {
                    if role != Role::Assistant {
                        assert(first_violation(view, i as int, j as int));
                        return Err(CanonicalViolation::ToolCallInNonAssistantMessage { role });
                    }
                },
                ContentBlock::ToolResult { call_id, .. } => {
                    if role != Role::Tool {
                        assert(first_violation(view, i as int, j as int));
                        return Err(CanonicalViolation::ToolResultInNonToolMessage { role });
                    }
                    if !has_call_before(messages, i, j, call_id) {
                        assert(first_violation(view, i as int, j as int));
                        return Err(CanonicalViolation::UnknownCallId { call_id: call_id.clone() });
                    }
                },
                ContentBlock::Text { .. } => {},
            }
            j += 1;
        }
        i += 1;
    }
    Ok(())
}

/// A message that adds no tool result and, unless it is the model's, no tool
/// call.
pub open spec fn plain_addition(message: MessageView) -> bool {
    forall|j: int|
        0 <= j < message.blocks.len() ==> match #[trigger] message.blocks[j] {
            ContentBlockView::Text { .. } => true,
            ContentBlockView::ToolCall(_) => message.role == Role::Assistant,
            ContentBlockView::ToolResult { .. } => false,
        }
}

/// Whether a conversation calls a tool under the given id.
pub open spec fn has_call(messages: Seq<MessageView>, call_id: Seq<char>) -> bool {
    called_before(messages, messages.len() as int, 0, call_id)
}

/// A call that stands before a block still does when messages are appended.
proof fn called_before_extends(
    messages: Seq<MessageView>,
    more: Seq<MessageView>,
    i: int,
    j: int,
    call_id: Seq<char>,
)
    requires
        i <= messages.len(),
        i < messages.len() || j == 0,
    ensures
        called_before(messages + more, i, j, call_id) == called_before(messages, i, j, call_id),
{
    let all = messages + more;
    if called_before(messages, i, j, call_id) {
        let (p, q) = choose|p: int, q: int|
            block_in_range(messages, p, q) && reads_before(p, q, i, j) && #[trigger] calls_at(
                messages,
                p,
                q,
                call_id,
            );
        assert(all[p] == messages[p]);
        assert(calls_at(all, p, q, call_id));
    }
    if called_before(all, i, j, call_id) {
        let (p, q) = choose|p: int, q: int|
            block_in_range(all, p, q) && reads_before(p, q, i, j) && #[trigger] calls_at(
                all,
                p,
                q,
                call_id,
            );
        assert(p < messages.len());
        assert(all[p] == messages[p]);
        assert(calls_at(messages, p, q, call_id));
    }
}

/// A conversation stays canonical when it is cut short.
pub proof fn canonical_prefix(messages: Seq<MessageView>, more: Seq<MessageView>)
    requires
        canonical(messages + more),
    ensures
        canonical(messages),
{
    let all = messages + more;
    assert forall|i: int, j: int| block_in_range(messages, i, j) implies #[trigger] violation_at(
        messages,
        i,
        j,
    ) is None by {
        assert(all[i] == messages[i]);
        assert(block_in_range(all, i, j));
        assert(violation_at(all, i, j) is None);
        if let ContentBlockView::ToolResult { call_id, .. } = messages[i].blocks[j] {
            called_before_extends(messages, more, i, j, call_id);
        }
    }
}

/// Appending text, or the model's own message, keeps a conversation
/// canonical.
pub proof fn canonical_plain_addition(messages: Seq<MessageView>, message: MessageView)
    requires
        canonical(messages),
        plain_addition(message),
    ensures
        canonical(messages.push(message)),
{
    let all = messages.push(message);
    assert(all =~= messages + seq![message]);
    assert forall|i: int, j: int| block_in_range(all, i, j) implies #[trigger] violation_at(
        all,
        i,
        j,
    ) is None by {
        if i < messages.len() {
            assert(all[i] == messages[i]);
            assert(violation_at(messages, i, j) is None);
            if let ContentBlockView::ToolResult { call_id, .. } = messages[i].blocks[j] {
                called_before_extends(messages, seq![message], i, j, call_id);
            }
        }
    }
}

/// Appending the result of a call that was made keeps a conversation
/// canonical, and every call that was made stays made.
pub proof fn canonical_result_addition(
    messages: Seq<MessageView>,
    call_id: Seq<char>,
    result: ToolResultView,
)
    requires
        canonical(messages),
        has_call(messages, call_id),
    ensures
        canonical(messages.push(tool_result_view(call_id, result))),
{
    let message = tool_result_view(call_id, result);
    let all = messages.push(message);
    assert(all =~= messages + seq![message]);
    assert forall|i: int, j: int| block_in_range(all, i, j) implies #[trigger] violation_at(
        all,
        i,
        j,
    ) is None by {
        if i < messages.len() {
            assert(all[i] == messages[i]);
            assert(violation_at(messages, i, j) is None);
            if let ContentBlockView::ToolResult { call_id: id, .. } = messages[i].blocks[j] {
                called_before_extends(messages, seq![message], i, j, id);
            }
        } else {
            assert(i == messages.len() && j == 0);
            called_before_extends(messages, seq![message], i, j, call_id);
        }
    }
}

/// A call that was made stays made, whatever is appended; and the model's
/// message makes the calls it holds.
pub proof fn has_call_addition(messages: Seq<MessageView>, message: MessageView)
    ensures
        forall|call_id: Seq<char>| #[trigger]
            has_call(messages, call_id) ==> has_call(messages.push(message), call_id),
        forall|j: int|
            0 <= j < message.blocks.len() ==> (#[trigger] message.blocks[j] matches
                ContentBlockView::ToolCall(call) ==> has_call(
                messages.push(message),
                call.call_id,
            )),
{
    let all = messages.push(message);
    assert forall|call_id: Seq<char>| #[trigger] has_call(messages, call_id) implies has_call(
        all,
        call_id,
    ) by {
        let (p, q) = choose|p: int, q: int|
            block_in_range(messages, p, q) && reads_before(p, q, messages.len() as int, 0)
                && #[trigger] calls_at(messages, p, q, call_id);
        assert(all[p] == messages[p]);
        assert(calls_at(all, p, q, call_id));
    }
    assert forall|j: int| 0 <= j < message.blocks.len() implies (#[trigger] message.blocks[j]
        matches ContentBlockView::ToolCall(call) ==> has_call(all, call.call_id)) by {
        if let ContentBlockView::ToolCall(call) = message.blocks[j] {
            assert(calls_at(all, messages.len() as int, j, call.call_id));
        }
    }
}

/// Copies the messages from `from` up to `to`.
pub(crate) fn copy_messages(messages: &Vec<Message>, from: usize, to: usize) -> (copies: Vec<
    Message,
>)
    requires
        from <= to <= messages@.len(),
    ensures
        copies.deep_view() == messages.deep_view().subrange(from as int, to as int),
{
    let mut copies: Vec<Message> = Vec::new();
    let mut i: usize = from;
    while i < to
        invariant
            from <= i <= to <= messages@.len(),
            copies.deep_view() == messages.deep_view().subrange(from as int, i as int),
        decreases to - i,
    {
        let ghost before = copies.deep_view();
        copies.push(messages[i].clone());
        assert(copies.deep_view() =~= before.push(messages@[i as int].deep_view()));
        i += 1;
    }
    copies
}

/// A message of text alone.
pub open spec fn text_only(message: MessageView) -> bool {
    forall|j: int| 0 <= j < message.blocks.len() ==> #[trigger] message.blocks[j] is Text
}

/// A conversation is either canonical or has exactly one violation to
/// report.
pub proof fn one_verdict(
    messages: Seq<MessageView>,
    violation: CanonicalViolationView,
    other: CanonicalViolationView,
)
    requires
        reported(messages, violation),
    ensures
        !canonical(messages),
        reported(messages, other) ==> other == violation,
{
    let (i, j) = choose|i: int, j: int|
        first_violation(messages, i, j) && #[trigger] violation_at(messages, i, j) == Some(
            violation,
        );
    if reported(messages, other) {
        let (p, q) = choose|p: int, q: int|
            first_violation(messages, p, q) && #[trigger] violation_at(messages, p, q) == Some(
                other,
            );
        assert(!reads_before(p, q, i, j));
        assert(!reads_before(i, j, p, q));
    }
}

/// A violation stays the one reported, whatever messages follow.
pub proof fn violations_stay_reported(
    messages: Seq<MessageView>,
    more: Seq<MessageView>,
    violation: CanonicalViolationView,
)
    requires
        reported(messages, violation),
    ensures
        reported(messages + more, violation),
{
    let all = messages + more;
    let (i, j) = choose|i: int, j: int|
        first_violation(messages, i, j) && #[trigger] violation_at(messages, i, j) == Some(
            violation,
        );
    assert forall|p: int, q: int| block_in_range(messages, p, q) implies violation_at(messages, p, q)
        == #[trigger] violation_at(all, p, q) by {
        assert(all[p] == messages[p]);
        if let ContentBlockView::ToolResult { call_id, .. } = messages[p].blocks[q] {
            called_before_extends(messages, more, p, q, call_id);
        }
    }
    assert(all[i] == messages[i]);
    assert forall|p: int, q: int|
        block_in_range(all, p, q) && reads_before(p, q, i, j) implies #[trigger] violation_at(
        all,
        p,
        q,
    ) is None by {
        assert(all[p] == messages[p]);
        assert(block_in_range(messages, p, q));
        assert(violation_at(messages, p, q) is None);
    }
    assert(first_violation(all, i, j));
}

/// Where a message stands once another one is inserted at `at`.
spec fn moved(at: int, i: int) -> int {
    if i < at {
        i
    } else {
        i + 1
    }
}

/// Inserted text moves calls and violations, and changes none of them.
proof fn text_moves_blocks(
    before: Seq<MessageView>,
    text: MessageView,
    after: Seq<MessageView>,
    i: int,
    j: int,
)
    requires
        text_only(text),
        0 <= i < (before + after).len(),
    ensures
        (before.push(text) + after)[moved(before.len() as int, i)] == (before + after)[i],
        violation_at(before.push(text) + after, moved(before.len() as int, i), j) == violation_at(
            before + after,
            i,
            j,
        ),
{
    let plain = before + after;
    let all = before.push(text) + after;
    let at = before.len() as int;
    assert(all[moved(at, i)] == plain[i]);
    if let ContentBlockView::ToolResult { call_id, .. } = plain[i].blocks[j] {
        if called_before(plain, i, j, call_id) {
            let (p, q) = choose|p: int, q: int|
                block_in_range(plain, p, q) && reads_before(p, q, i, j) && #[trigger] calls_at(
                    plain,
                    p,
                    q,
                    call_id,
                );
            assert(all[moved(at, p)] == plain[p]);
            assert(calls_at(all, moved(at, p), q, call_id));
        }
        if called_before(all, moved(at, i), j, call_id) {
            let (p, q) = choose|p: int, q: int|
                block_in_range(all, p, q) && reads_before(p, q, moved(at, i), j)
                    && #[trigger] calls_at(all, p, q, call_id);
            if p == at {
                assert(text.blocks[q] is Text);
            } else {
                let origin = if p < at {
                    p
                } else {
                    p - 1
                };
                assert(all[p] == plain[origin]);
                assert(calls_at(plain, origin, q, call_id));
            }
        }
    }
}

/// Text changes nothing: a message of text alone, wherever it stands, makes a
/// conversation neither more nor less canonical, and the violation reported
/// stays the same.
pub proof fn text_changes_no_verdict(
    before: Seq<MessageView>,
    text: MessageView,
    after: Seq<MessageView>,
    violation: CanonicalViolationView,
)
    requires
        text_only(text),
    ensures
        canonical(before.push(text) + after) == canonical(before + after),
        reported(before.push(text) + after, violation) == reported(before + after, violation),
{
    let plain = before + after;
    let all = before.push(text) + after;
    let at = before.len() as int;
    assert forall|i: int, j: int| block_in_range(plain, i, j) implies block_in_range(
        all,
        moved(at, i),
        j,
    ) && #[trigger] violation_at(plain, i, j) == violation_at(all, moved(at, i), j) by {
        text_moves_blocks(before, text, after, i, j);
    }
    assert forall|p: int, q: int| block_in_range(all, p, q) implies {
        let origin = if p < at {
            p
        } else {
            p - 1
        };
        if p == at {
            violation_at(all, p, q) is None
        } else {
            block_in_range(plain, origin, q) && #[trigger] violation_at(all, p, q) == violation_at(
                plain,
                origin,
                q,
            )
        }
    } by {
        if p == at {
            assert(all[p] == text);
            assert(text.blocks[q] is Text);
        } else {
            let origin = if p < at {
                p
            } else {
                p - 1
            };
            assert(moved(at, origin) == p);
            text_moves_blocks(before, text, after, origin, q);
        }
    }
    if canonical(all) {
        assert forall|i: int, j: int| block_in_range(plain, i, j) implies #[trigger] violation_at(
            plain,
            i,
            j,
        ) is None by {
            assert(violation_at(all, moved(at, i), j) is None);
        }
    }
    if reported(plain, violation) {
        let (i, j) = choose|i: int, j: int|
            first_violation(plain, i, j) && #[trigger] violation_at(plain, i, j) == Some(violation);
        let m = moved(at, i);
        assert(violation_at(all, m, j) == Some(violation));
        assert(first_violation(all, m, j));
    }
    if reported(all, violation) {
        let (p, q) = choose|p: int, q: int|
            first_violation(all, p, q) && #[trigger] violation_at(all, p, q) == Some(violation);
        let origin = if p < at {
            p
        } else {
            p - 1
        };
        assert(p != at);
        assert(violation_at(plain, origin, q) == Some(violation));
        assert forall|i: int, j: int|
            block_in_range(plain, i, j) && reads_before(i, j, origin, q) implies #[trigger] violation_at(
            plain,
            i,
            j,
        ) is None by {
            assert(violation_at(all, moved(at, i), j) is None);
        }
        assert(first_violation(plain, origin, q));
    }
}

/// Text put in front of a conversation makes no difference to which of its
/// blocks are in order.
pub proof fn canonical_behind_text(head: MessageView, messages: Seq<MessageView>)
    requires
        text_only(head),
    ensures
        canonical(seq![head] + messages) == canonical(messages),
{
    let none = Seq::<MessageView>::empty();
    assert(none.push(head) =~= seq![head]);
    assert(none + messages =~= messages);
    text_changes_no_verdict(none, head, messages, arbitrary());
}

/// What a canonical conversation is, block by block: tool calls stand in
/// assistant messages only, tool results in tool messages only, and each
/// result stands behind a call with its id.
pub proof fn canonical_block_by_block(messages: Seq<MessageView>)
    ensures
        canonical(messages) <==> forall|i: int, j: int|
            0 <= i < messages.len() && 0 <= j < messages[i].blocks.len() ==> match (
            #[trigger] messages[i].blocks[j]) {
                ContentBlockView::Text { .. } => true,
                ContentBlockView::ToolCall(_) => messages[i].role == Role::Assistant,
                ContentBlockView::ToolResult { call_id, .. } => messages[i].role == Role::Tool
                    && exists|p: int, q: int|
                    0 <= p < messages.len() && 0 <= q < messages[p].blocks.len() && (p < i || (p
                        == i && q < j)) && ((#[trigger] messages[p].blocks[q])
                        matches ContentBlockView::ToolCall(call) && call.call_id == call_id),
            },
{
    let fine = |i: int, j: int|
        match messages[i].blocks[j] {
            ContentBlockView::Text { .. } => true,
            ContentBlockView::ToolCall(_) => messages[i].role == Role::Assistant,
            ContentBlockView::ToolResult { call_id, .. } => messages[i].role == Role::Tool
                && exists|p: int, q: int|
                0 <= p < messages.len() && 0 <= q < messages[p].blocks.len() && (p < i || (p == i
                    && q < j)) && ((#[trigger] messages[p].blocks[q])
                    matches ContentBlockView::ToolCall(call) && call.call_id == call_id),
        };
    assert forall|i: int, j: int|
        block_in_range(messages, i, j) implies (#[trigger] violation_at(messages, i, j) is None)
        == fine(i, j) by {
        if let ContentBlockView::ToolResult { call_id, .. } = messages[i].blocks[j] {
            if called_before(messages, i, j, call_id) {
                let (p, q) = choose|p: int, q: int|
                    block_in_range(messages, p, q) && reads_before(p, q, i, j)
                        && #[trigger] calls_at(messages, p, q, call_id);
                assert(messages[p].blocks[q] is ToolCall);
            }
            if messages[i].role == Role::Tool && fine(i, j) {
                let (p, q) = choose|p: int, q: int|
                    0 <= p < messages.len() && 0 <= q < messages[p].blocks.len() && (p < i || (p
                        == i && q < j)) && ((#[trigger] messages[p].blocks[q])
                        matches ContentBlockView::ToolCall(call) && call.call_id == call_id);
                assert(calls_at(messages, p, q, call_id));
            }
        }
    }
    if canonical(messages) {
        assert forall|i: int, j: int|
            0 <= i < messages.len() && 0 <= j < messages[i].blocks.len() implies match (
        #[trigger] messages[i].blocks[j]) {
            ContentBlockView::Text { .. } => true,
            ContentBlockView::ToolCall(_) => messages[i].role == Role::Assistant,
            ContentBlockView::ToolResult { call_id, .. } => messages[i].role == Role::Tool
                && exists|p: int, q: int|
                0 <= p < messages.len() && 0 <= q < messages[p].blocks.len() && (p < i || (p == i
                    && q < j)) && ((#[trigger] messages[p].blocks[q])
                    matches ContentBlockView::ToolCall(call) && call.call_id == call_id),
        } by {
            assert(block_in_range(messages, i, j));
            assert(violation_at(messages, i, j) is None);
            assert(fine(i, j));
        }
    } else {
        let (i, j) = choose|i: int, j: int|
            block_in_range(messages, i, j) && !(#[trigger] violation_at(messages, i, j) is None);
        assert(!fine(i, j));
        assert(messages[i].blocks[j] == messages[i].blocks[j]);
    }
}

/// A violation names what is wrong with its block: a call outside the
/// assistant's messages or a result outside the tools' with the role it was
/// found under, and a result without a call with the id nothing called.
pub proof fn violations_name_the_fault(messages: Seq<MessageView>, i: int, j: int)
    requires
        0 <= i < messages.len(),
        0 <= j < messages[i].blocks.len(),
    ensures
        violation_at(messages, i, j) matches Some(violation) ==> match violation {
            CanonicalViolationView::ToolCallInNonAssistantMessage { role } => messages[i].blocks[j]
                is ToolCall && role == messages[i].role && role != Role::Assistant,
            CanonicalViolationView::ToolResultInNonToolMessage { role } => messages[i].blocks[j]
                is ToolResult && role == messages[i].role && role != Role::Tool,
            CanonicalViolationView::UnknownCallId { call_id } => messages[i].role == Role::Tool && (
            messages[i].blocks[j] matches ContentBlockView::ToolResult { call_id: id, .. } && id
                == call_id),
        },
{
}

/// Text and results are put into messages as they are: one block, under the
/// role given or the tools' own.
pub proof fn messages_hold_one_block(
    role: Role,
    text: Seq<char>,
    call_id: Seq<char>,
    result: ToolResultView,
)
    ensures
        text_message_view(role, text).role == role,
        text_message_view(role, text).blocks == seq![ContentBlockView::Text { text }],
        tool_result_view(call_id, result).role == Role::Tool,
        tool_result_view(call_id, result).blocks == seq![
            ContentBlockView::ToolResult { call_id, result },
        ],
{
}

/// A sentence about a violation names the role or the id it is about.
pub proof fn violations_read_as_what_they_are(role: Role, call_id: Seq<char>)
    ensures
        role_name(role) == (match role {
            Role::System => "System"@,
            Role::User => "User"@,
            Role::Assistant => "Assistant"@,
            Role::Tool => "Tool"@,
        }),
        violation_text(CanonicalViolationView::ToolCallInNonAssistantMessage { role })
            == "tool call block in non-assistant message (role: "@ + role_name(role) + ")"@,
        violation_text(CanonicalViolationView::ToolResultInNonToolMessage { role })
            == "tool result block in non-tool message (role: "@ + role_name(role) + ")"@,
        violation_text(CanonicalViolationView::UnknownCallId { call_id })
            == "tool result references unknown call id: "@ + call_id,
{
}

/// [`validate_conversation`] accepts a conversation exactly when it is
/// canonical, reports the violation of the first block that breaks an
/// invariant, and reports the same one whatever follows.
pub proof fn validation_finds_the_first_violation(
    messages: &[Message],
    longer: &[Message],
    result: Result<(), CanonicalViolation>,
    again: Result<(), CanonicalViolation>,
)
    requires
        messages.deep_view().is_prefix_of(longer.deep_view()),
        call_ensures(validate_conversation, (messages,), result),
        call_ensures(validate_conversation, (longer,), again),
    ensures
        result is Ok <==> canonical(messages.deep_view()),
        again is Ok ==> result is Ok,
        result matches Err(violation) ==> reported(messages.deep_view(), violation.deep_view())
            && again is Err && again->Err_0.deep_view() == violation.deep_view(),
{
    let first = messages.deep_view();
    let all = longer.deep_view();
    let more = all.skip(first.len() as int);
    assert(all =~= first + more);
    if let Err(violation) = result {
        one_verdict(first, violation.deep_view(), violation.deep_view());
        violations_stay_reported(first, more, violation.deep_view());
        one_verdict(all, violation.deep_view(), violation.deep_view());
        if let Err(other) = again {
            one_verdict(all, violation.deep_view(), other.deep_view());
        }
    }
}

} // verus!
