//! Error types for the agent loop and model calls.

use vstd::prelude::*;

use crate::event::{cancel_reason_text, CancelReason};
use crate::text::concat;

verus! {

/// Failure of a single model call.
#[derive(Debug, PartialEq)]
pub enum ModelError {
    /// The transport failed (connection, timeout, TLS).
    Transport {
        /// What failed.
        message: String,
    },
    /// The provider answered with an error or broke the protocol.
    Api {
        /// What the provider reported.
        message: String,
    },
    /// The provider rejected the call for rate reasons.
    RateLimited {
        /// What the provider reported.
        message: String,
    },
    /// The request itself is invalid.
    InvalidRequest {
        /// What is invalid.
        message: String,
    },
}

/// What a [`ModelError`] holds.
pub ghost enum ModelErrorView {
    Transport { message: Seq<char> },
    Api { message: Seq<char> },
    RateLimited { message: Seq<char> },
    InvalidRequest { message: Seq<char> },
}

impl DeepView for ModelError {
    type V = ModelErrorView;

    open spec fn deep_view(&self) -> ModelErrorView {
        match self {
            ModelError::Transport { message } => ModelErrorView::Transport { message: message@ },
            ModelError::Api { message } => ModelErrorView::Api { message: message@ },
            ModelError::RateLimited { message } => ModelErrorView::RateLimited {
                message: message@,
            },
            ModelError::InvalidRequest { message } => ModelErrorView::InvalidRequest {
                message: message@,
            },
        }
    }
}

impl Clone for ModelError {
    fn clone(&self) -> (copy: Self)
        ensures
            copy == *self,
    {
        match self {
            ModelError::Transport { message } => ModelError::Transport { message: message.clone() },
            ModelError::Api { message } => ModelError::Api { message: message.clone() },
            ModelError::RateLimited { message } => ModelError::RateLimited {
                message: message.clone(),
            },
            ModelError::InvalidRequest { message } => ModelError::InvalidRequest {
                message: message.clone(),
            },
        }
    }
}

/// What a model error reads as.
pub open spec fn model_error_text(error: ModelErrorView) -> Seq<char> {
    match error {
        ModelErrorView::Transport { message } => "transport error: "@ + message,
        ModelErrorView::Api { message } => "api error: "@ + message,
        ModelErrorView::RateLimited { message } => "rate limited: "@ + message,
        ModelErrorView::InvalidRequest { message } => "invalid request: "@ + message,
    }
}

impl ModelError {
    /// The error as a sentence.
    pub fn to_string(&self) -> (text: String)
        ensures
            text@ == model_error_text(self.deep_view()),
    {
        match self {
            ModelError::Transport { message } => concat("transport error: ", message.as_str()),
            ModelError::Api { message } => concat("api error: ", message.as_str()),
            ModelError::RateLimited { message } => concat("rate limited: ", message.as_str()),
            ModelError::InvalidRequest { message } => concat("invalid request: ", message.as_str()),
        }
    }
}

/// Failure of an agent run.
#[derive(Debug, PartialEq)]
pub enum AgentError {
    /// A model call failed.
    Model(ModelError),
    /// The run used up its round budget.
    MaxRoundsExceeded,
    /// The run was cancelled.
    Cancelled(CancelReason),
    /// The agent configuration is invalid.
    InvalidConfiguration {
        /// What is invalid about the configuration.
        message: String,
    },
}

/// What an [`AgentError`] holds.
pub ghost enum AgentErrorView {
    Model(ModelErrorView),
    MaxRoundsExceeded,
    Cancelled(CancelReason),
    InvalidConfiguration { message: Seq<char> },
}

impl DeepView for AgentError {
    type V = AgentErrorView;

    open spec fn deep_view(&self) -> AgentErrorView {
        match self {
            AgentError::Model(error) => AgentErrorView::Model(error.deep_view()),
            AgentError::MaxRoundsExceeded => AgentErrorView::MaxRoundsExceeded,
            AgentError::Cancelled(reason) => AgentErrorView::Cancelled(*reason),
            AgentError::InvalidConfiguration { message } => AgentErrorView::InvalidConfiguration {
                message: message@,
            },
        }
    }
}

impl Clone for AgentError {
    fn clone(&self) -> (copy: Self)
        ensures
            copy == *self,
    {
        match self {
            AgentError::Model(error) => AgentError::Model(error.clone()),
            AgentError::MaxRoundsExceeded => AgentError::MaxRoundsExceeded,
            AgentError::Cancelled(reason) => AgentError::Cancelled(*reason),
            AgentError::InvalidConfiguration { message } => AgentError::InvalidConfiguration {
                message: message.clone(),
            },
        }
    }
}

/// What an agent error reads as.
pub open spec fn agent_error_text(error: AgentErrorView) -> Seq<char> {
    match error {
        AgentErrorView::Model(error) => "model call failed: "@ + model_error_text(error),
        AgentErrorView::MaxRoundsExceeded => "max rounds exceeded"@,
        AgentErrorView::Cancelled(reason) => "run cancelled: "@ + cancel_reason_text(reason),
        AgentErrorView::InvalidConfiguration { message } => "invalid configuration: "@ + message,
    }
}

impl AgentError {
    /// The error as a sentence.
    pub fn to_string(&self) -> (text: String)
        ensures
            text@ == agent_error_text(self.deep_view()),
    {
        match self {
            AgentError::Model(error) => {
                let inner = error.to_string();
                concat("model call failed: ", inner.as_str())
            },
            AgentError::MaxRoundsExceeded => "max rounds exceeded".to_owned(),
            AgentError::Cancelled(reason) => {
                let inner = reason.to_string();
                concat("run cancelled: ", inner.as_str())
            },
            AgentError::InvalidConfiguration { message } => concat(
                "invalid configuration: ",
                message.as_str(),
            ),
        }
    }
}

/// A sentence about an error says what kind of error it is and all that is
/// known of it.
pub proof fn errors_say_what_happened(message: Seq<char>, error: ModelErrorView, reason: CancelReason)
    ensures
        model_error_text(ModelErrorView::Transport { message }) == "transport error: "@ + message,
        model_error_text(ModelErrorView::Api { message }) == "api error: "@ + message,
        model_error_text(ModelErrorView::RateLimited { message }) == "rate limited: "@ + message,
        model_error_text(ModelErrorView::InvalidRequest { message }) == "invalid request: "@
            + message,
        agent_error_text(AgentErrorView::Model(error)) == "model call failed: "@
            + model_error_text(error),
        agent_error_text(AgentErrorView::MaxRoundsExceeded) == "max rounds exceeded"@,
        agent_error_text(AgentErrorView::Cancelled(reason)) == "run cancelled: "@ + (match reason {
            CancelReason::UserRequested => "user requested"@,
            CancelReason::Timeout => "timeout"@,
            CancelReason::Parent => "parent"@,
        }),
        agent_error_text(AgentErrorView::InvalidConfiguration { message })
            == "invalid configuration: "@ + message,
{
}

} // verus!
