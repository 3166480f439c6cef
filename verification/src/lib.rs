//! Synonz core: agent, tool, and model contracts, the event model, canonical
//! messages, and the decisions of the execution loop.

pub mod agent;
pub mod agent_laws;
pub mod agent_loop;
pub mod bus;
pub mod cancel;
pub mod context;
pub mod conversation;
pub mod error;
pub mod event;
pub mod inprocess;
pub mod io;
pub mod layer_store;
pub mod layers;
pub mod lifecycle;
pub mod listing;
pub mod memory;
pub mod message;
pub mod mock;
pub mod model;
pub mod runtime;
pub mod scheduler;
pub mod shelves;
pub mod subject;
pub mod sweep;
pub mod teardown;
pub mod text;
pub mod tool;
pub mod tool_round;
pub mod trigger;

pub use agent::{Agent, AgentBuilder, DEFAULT_MAX_ROUNDS};
pub use bus::{
    ConversationEndReason, ConversationEvent, EventBus, MemoryEvent, MemoryFailedMoment,
    ObserverContext, SynonzEvent,
};
pub use context::{
    MemoryContextAssembleInput, MemoryContextAssembleOutput, MemoryFailure,
    PipelineConversationContext, PipelineTurnContext, RewriteInput, TopicDetectInput,
};
pub use conversation::{
    Conversation, ConversationCursor, ConversationPage, ConversationQuery, ConversationState,
    ConversationStoreError, ConversationSummary, Turn, TurnInput, TurnOutcome,
};
pub use error::{AgentError, ModelError};
pub use event::{
    CallPurpose, CancelReason, ExecutionEvent, LifecycleEvent, ModelDelta, ModelEvent, TokenUsage,
    ToolEvent, TurnEvent,
};
pub use io::{AgentInput, AgentOutput};
pub use memory::{
    Memory, MemoryCursor, MemoryForgetFailure, MemoryForgetResult, MemoryItem, MemoryListCursor,
    MemoryPage, MemoryQuery, MemoryReader, MemoryScope, MemorySource, MemoryStoreError, Topic,
};
pub use message::{
    validate_conversation, CallId, CanonicalViolation, ContentBlock, Message, Role, ToolCall,
    ToolContent, ToolResult,
};
pub use mock::MockModel;
pub use model::{complete, ModelParams, ModelRequest, ModelStreamItem};
pub use runtime::{RuntimeBuilder, SynonzRuntime};
pub use scheduler::{OverlapPolicy, Schedule, Scheduler, TaskHandle, TaskInfo};
pub use subject::{Subject, SubjectType};
pub use tool::{Tool, ToolContext, ToolError, ToolSpec};
