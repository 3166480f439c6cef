//! The tool contract: capabilities an agent can invoke.
//!
//! Tool failures do not terminate a run. A tool may report failure either by
//! returning [`ToolResult::Failure`] or by returning a [`ToolError`]; both
//! reach the model as a [`ToolResult::Failure`], which may retry, adjust, or
//! abandon.

use serde_json::Value;
use tokio_util::sync::CancellationToken;
use vstd::prelude::*;

use crate::message::{ToolResult, ToolResultView};
use crate::text::{concat, Text};

verus! {

/// The context passed to every tool invocation.
pub struct ToolContext {
    /// The run's cancellation signal. Tools should observe it at their await
    /// points and terminate promptly when it fires.
    pub cancel: CancellationToken,
}

impl ToolContext {
    /// Creates a context with the given cancellation signal.
    pub fn new(cancel: CancellationToken) -> (context: Self)
        ensures
            context.cancel == cancel,
    {
        ToolContext { cancel }
    }
}

/// How a capability unit presents itself to the model.
pub trait Tool {
    /// The tool's name as the model addresses it.
    fn name(&self) -> &str;

    /// What the tool does, shown to the model.
    fn description(&self) -> &str;

    /// A JSON Schema object describing the accepted arguments.
    fn parameters_schema(&self) -> &Value;
}

/// Failure of a tool invocation's machinery.
///
/// Always soft. Distinguishes malformed arguments from execution-time
/// failures so that what the model reads can be specific.
#[derive(Debug, PartialEq)]
pub enum ToolError {
    /// The arguments did not match the tool's expected form.
    InvalidArguments {
        /// What was invalid about the arguments.
        message: String,
    },
    /// The tool failed before producing a result.
    Execution {
        /// What failed during execution.
        message: String,
    },
}

/// What a [`ToolError`] holds.
pub ghost enum ToolErrorView {
    InvalidArguments { message: Seq<char> },
    Execution { message: Seq<char> },
}

impl DeepView for ToolError {
    type V = ToolErrorView;

    open spec fn deep_view(&self) -> ToolErrorView {
        match self {
            ToolError::InvalidArguments { message } => ToolErrorView::InvalidArguments {
                message: message@,
            },
            ToolError::Execution { message } => ToolErrorView::Execution { message: message@ },
        }
    }
}

/// What a tool error reads as.
pub open spec fn tool_error_text(error: ToolErrorView) -> Seq<char> {
    match error {
        ToolErrorView::InvalidArguments { message } => "invalid arguments: "@ + message,
        ToolErrorView::Execution { message } => "tool execution failed: "@ + message,
    }
}

impl ToolError {
    /// The error as a sentence.
    pub fn to_string(&self) -> (text: String)
        ensures
            text@ == tool_error_text(self.deep_view()),
    {
        match self {
            ToolError::InvalidArguments { message } => concat(
                "invalid arguments: ",
                message.as_str(),
            ),
            ToolError::Execution { message } => concat("tool execution failed: ", message.as_str()),
        }
    }
}

/// What the model reads of an invocation: machinery failures become soft
/// ones.
pub open spec fn softened(outcome: Result<ToolResult, ToolError>) -> ToolResultView {
    match outcome {
        Ok(result) => result.deep_view(),
        Err(error) => ToolResultView::Failure { message: tool_error_text(error.deep_view()) },
    }
}

/// Turns an invocation's outcome into what the model reads.
pub fn soften(outcome: Result<ToolResult, ToolError>) -> (result: ToolResult)
    ensures
        result.deep_view() == softened(outcome),
{
    match outcome {
        Ok(result) => result,
        Err(error) => ToolResult::Failure { message: error.to_string() },
    }
}

/// The soft failure a call of an unregistered tool gets.
pub fn unknown_tool(name: &str) -> (result: ToolResult)
    ensures
        result.deep_view() == (ToolResultView::Failure { message: "unknown tool: "@ + name@ }),
{
    ToolResult::Failure { message: concat("unknown tool: ", name) }
}

/// The model-facing description of a tool, as sent with model requests.
#[derive(Debug, PartialEq)]
pub struct ToolSpec {
    /// The tool's name as the model addresses it.
    pub name: String,
    /// What the tool does, shown to the model.
    pub description: String,
    /// JSON Schema object describing the accepted arguments.
    pub parameters_schema: Value,
}

/// What a [`ToolSpec`] holds.
pub ghost struct ToolSpecView {
    pub name: Seq<char>,
    pub description: Seq<char>,
    pub parameters_schema: Value,
}

impl DeepView for ToolSpec {
    type V = ToolSpecView;

    open spec fn deep_view(&self) -> ToolSpecView {
        ToolSpecView {
            name: self.name@,
            description: self.description@,
            parameters_schema: self.parameters_schema,
        }
    }
}

impl Clone for ToolSpec {
    fn clone(&self) -> (copy: Self)
        ensures
            copy == *self,
    {
        ToolSpec {
            name: self.name.clone(),
            description: self.description.clone(),
            parameters_schema: self.parameters_schema.clone(),
        }
    }
}

impl ToolSpec {
    /// Creates a spec from its parts.
    pub fn new(name: impl Text, description: impl Text, parameters_schema: Value) -> (spec: Self)
        ensures
            spec.deep_view() == (ToolSpecView {
                name: name.text(),
                description: description.text(),
                parameters_schema,
            }),
    {
        ToolSpec {
            name: name.into_text(),
            description: description.into_text(),
            parameters_schema,
        }
    }

    /// Collects the spec of a tool: what it presents itself with.
    pub fn for_tool<T: Tool>(tool: &T) -> (spec: Self)
        ensures
            exists|name: &str| #[trigger]
                call_ensures(T::name, (tool,), name) && spec.deep_view().name == name@,
            exists|description: &str| #[trigger]
                call_ensures(T::description, (tool,), description)
                    && spec.deep_view().description == description@,
            exists|schema: &Value| #[trigger]
                call_ensures(T::parameters_schema, (tool,), schema)
                    && spec.deep_view().parameters_schema == *schema,
    {
        let name = tool.name();
        let description = tool.description();
        let schema = tool.parameters_schema();
        ToolSpec {
            name: name.to_owned(),
            description: description.to_owned(),
            parameters_schema: schema.clone(),
        }
    }
}

/// What the model reads of an invocation is its result as it is; what failed
/// around it reads as a failure that says why.
pub proof fn machinery_failures_are_soft(result: ToolResult, message: String)
    ensures
        softened(Ok(result)) == result.deep_view(),
        softened(Err(ToolError::InvalidArguments { message })) == (ToolResultView::Failure {
            message: "invalid arguments: "@ + message@,
        }),
        softened(Err(ToolError::Execution { message })) == (ToolResultView::Failure {
            message: "tool execution failed: "@ + message@,
        }),
{
}

} // verus!
