//! The model contract: LLM inference behind one stream of items.
//!
//! A model turns a [`ModelRequest`] into a stream of [`ModelStreamItem`]s:
//! any number of deltas and then exactly one terminal item. Retry policy
//! belongs to the caller: nothing here retries.

use vstd::prelude::*;

use crate::error::{ModelError, ModelErrorView};
use crate::event::{ModelDelta, ModelDeltaView, TokenUsage};
use crate::message::{Message, MessageView};
use crate::tool::{ToolSpec, ToolSpecView};

verus! {

/// Per-request inference parameters (the provider-neutral part that is a
/// whole number).
#[derive(Debug, Clone, Copy, PartialEq, Eq, Structural)]
pub struct ModelParams {
    /// Maximum output tokens, when the backend supports it.
    pub max_tokens: Option<u32>,
}

impl Default for ModelParams {
    fn default() -> (params: Self)
        ensures
            params.max_tokens is None,
    {
        ModelParams { max_tokens: None }
    }
}

impl ModelParams {
    /// Sets the maximum output token budget.
    pub fn with_max_tokens(self, max_tokens: u32) -> (params: Self)
        ensures
            params.max_tokens == Some(max_tokens),
    {
        let mut params = self;
        params.max_tokens = Some(max_tokens);
        params
    }
}

/// A request to a model: the conversation, available tools, and parameters.
#[derive(Debug, PartialEq)]
pub struct ModelRequest {
    /// The canonical conversation so far.
    pub messages: Vec<Message>,
    /// Tools the model may call.
    pub tools: Vec<ToolSpec>,
    /// Per-request parameters.
    pub params: ModelParams,
}

/// What a [`ModelRequest`] holds.
pub ghost struct ModelRequestView {
    pub messages: Seq<MessageView>,
    pub tools: Seq<ToolSpecView>,
    pub params: ModelParams,
}

impl DeepView for ModelRequest {
    type V = ModelRequestView;

    open spec fn deep_view(&self) -> ModelRequestView {
        ModelRequestView {
            messages: self.messages.deep_view(),
            tools: self.tools.deep_view(),
            params: self.params,
        }
    }
}

impl Clone for ModelRequest {
    fn clone(&self) -> (copy: Self)
        ensures
            copy.deep_view() == self.deep_view(),
    {
        let messages = self.messages.clone();
        let tools = self.tools.clone();
        assert(messages.deep_view() =~= self.messages.deep_view());
        assert(tools.deep_view() =~= self.tools.deep_view());
        ModelRequest { messages, tools, params: self.params }
    }
}

impl ModelRequest {
    /// Creates a request from its parts.
    pub fn new(messages: Vec<Message>, tools: Vec<ToolSpec>, params: ModelParams) -> (request: Self)
        ensures
            request.messages == messages,
            request.tools == tools,
            request.params == params,
    {
        ModelRequest { messages, tools, params }
    }
}

/// One item of a model response stream.
#[derive(Debug, PartialEq)]
pub enum ModelStreamItem {
    /// An incremental response fragment.
    Delta(ModelDelta),
    /// The complete response and its token accounting; terminal item.
    Finish {
        /// The complete assistant message.
        message: Message,
        /// Token accounting for this call.
        usage: TokenUsage,
    },
    /// Mid-stream failure; terminal for the call.
    Failed(ModelError),
}

/// What a [`ModelStreamItem`] holds.
pub ghost enum ModelStreamItemView {
    Delta(ModelDeltaView),
    Finish { message: MessageView, usage: TokenUsage },
    Failed(ModelErrorView),
}

impl DeepView for ModelStreamItem {
    type V = ModelStreamItemView;

    open spec fn deep_view(&self) -> ModelStreamItemView {
        match self {
            ModelStreamItem::Delta(delta) => ModelStreamItemView::Delta(delta.deep_view()),
            ModelStreamItem::Finish { message, usage } => ModelStreamItemView::Finish {
                message: message.deep_view(),
                usage: *usage,
            },
            ModelStreamItem::Failed(error) => ModelStreamItemView::Failed(error.deep_view()),
        }
    }
}

impl Clone for ModelStreamItem {
    fn clone(&self) -> (copy: Self)
        ensures
            copy.deep_view() == self.deep_view(),
    {
        match self {
            ModelStreamItem::Delta(delta) => ModelStreamItem::Delta(delta.clone()),
            ModelStreamItem::Finish { message, usage } => ModelStreamItem::Finish {
                message: message.clone(),
                usage: *usage,
            },
            ModelStreamItem::Failed(error) => ModelStreamItem::Failed(error.clone()),
        }
    }
}

/// The outcome of a non-streaming completion.
pub ghost enum CompletionView {
    Answer { message: MessageView, usage: TokenUsage },
    Failure(ModelErrorView),
}

/// What a completion's result holds.
pub open spec fn completion_view(result: Result<(Message, TokenUsage), ModelError>) -> CompletionView {
    match result {
        Ok((message, usage)) => CompletionView::Answer { message: message.deep_view(), usage },
        Err(error) => CompletionView::Failure(error.deep_view()),
    }
}

/// What one polled item settles about a completion: `None` for a delta,
/// which is discarded; an item of `None` is the end of the stream.
pub open spec fn completion_settled(item: Option<ModelStreamItemView>) -> Option<CompletionView> {
    match item {
        Some(ModelStreamItemView::Delta(_)) => None,
        Some(ModelStreamItemView::Failed(error)) => Some(CompletionView::Failure(error)),
        Some(ModelStreamItemView::Finish { message, usage }) => Some(
            CompletionView::Answer { message, usage },
        ),
        None => Some(
            CompletionView::Failure(
                ModelErrorView::Api { message: "stream ended without a finish item"@ },
            ),
        ),
    }
}

/// The outcome of a completion over a whole stream: its first terminal item
/// decides; a stream without one is a protocol failure.
pub open spec fn completion_of(items: Seq<ModelStreamItemView>) -> CompletionView
    decreases items.len(),
{
    if items.len() == 0 {
        completion_settled(None)->0
    } else {
        match completion_settled(Some(items[0])) {
            Some(outcome) => outcome,
            None => completion_of(items.drop_first()),
        }
    }
}

/// One step of a non-streaming completion: takes the polled item and returns
/// the outcome once one is settled, `None` to poll again.
pub fn complete_step(item: Option<ModelStreamItem>) -> (settled: Option<
    Result<(Message, TokenUsage), ModelError>,
>)
    ensures
        match settled {
            Some(result) => completion_settled(item.deep_view()) == Some(completion_view(result)),
            None => completion_settled(item.deep_view()) is None,
        },
{
    match item {
        Some(ModelStreamItem::Delta(_)) => None,
        Some(ModelStreamItem::Failed(error)) => Some(Err(error)),
        Some(ModelStreamItem::Finish { message, usage }) => Some(Ok((message, usage))),
        None => Some(
            Err(ModelError::Api { message: "stream ended without a finish item".to_owned() }),
        ),
    }
}

/// Non-streaming completion of a stream that is already there: folds the
/// items until the terminal one, discarding deltas.
pub fn complete(items: Vec<ModelStreamItem>) -> (result: Result<(Message, TokenUsage), ModelError>)
    ensures
        completion_view(result) == completion_of(items.deep_view()),
{
    let ghost all = items.deep_view();
    let mut i: usize = 0;
    assert(all.skip(0) =~= all);
    while i < items.len()
        invariant
            i <= items@.len(),
            all == items.deep_view(),
            completion_of(all) == completion_of(all.skip(i as int)),
        decreases items@.len() - i,
    {
        let ghost rest = all.skip(i as int);
        assert(rest[0] == items@[i as int].deep_view());
        assert(rest.drop_first() =~= all.skip(i + 1));
        let item = items[i].clone();
        match complete_step(Some(item)) {
            Some(result) => {
                return result;
            },
            None => {},
        }
        i += 1;
    }
    assert(all.skip(i as int).len() == 0);
    complete_step(None).unwrap()
}

/// Whatever a stream yields after its terminal item is not looked at.
pub proof fn completion_ignores_the_rest(
    items: Seq<ModelStreamItemView>,
    more: Seq<ModelStreamItemView>,
)
    requires
        exists|i: int|
            0 <= i < items.len() && #[trigger] completion_settled(Some(items[i])) is Some,
    ensures
        completion_of(items + more) == completion_of(items),
    decreases items.len(),
{
    let all = items + more;
    assert(all[0] == items[0]);
    if completion_settled(Some(items[0])) is None {
        let i = choose|i: int|
            0 <= i < items.len() && #[trigger] completion_settled(Some(items[i])) is Some;
        assert(items.drop_first()[i - 1] == items[i]);
        assert(completion_settled(Some(items.drop_first()[i - 1])) is Some);
        assert(all.drop_first() =~= items.drop_first() + more);
        completion_ignores_the_rest(items.drop_first(), more);
    }
}

/// The first item that is no fragment decides a completion: an answer is its
/// outcome, and so is a failure.
pub proof fn the_first_terminal_decides(items: Seq<ModelStreamItemView>, i: int)
    requires
        0 <= i < items.len(),
        !(items[i] is Delta),
        forall|k: int| 0 <= k < i ==> (#[trigger] items[k]) is Delta,
    ensures
        match items[i] {
            ModelStreamItemView::Finish { message, usage } => completion_of(items)
                == CompletionView::Answer { message, usage },
            ModelStreamItemView::Failed(error) => completion_of(items) == CompletionView::Failure(
                error,
            ),
            ModelStreamItemView::Delta(_) => true,
        },
    decreases items.len(),
{
    if i > 0 {
        let rest = items.drop_first();
        assert(items[0] is Delta);
        assert forall|k: int| 0 <= k < i - 1 implies (#[trigger] rest[k]) is Delta by {
            assert(rest[k] == items[k + 1]);
        }
        the_first_terminal_decides(rest, i - 1);
    }
}

/// A stream of fragments alone is a failure.
pub proof fn fragments_alone_are_no_answer(items: Seq<ModelStreamItemView>)
    requires
        forall|k: int| 0 <= k < items.len() ==> (#[trigger] items[k]) is Delta,
    ensures
        completion_of(items) == CompletionView::Failure(
            ModelErrorView::Api { message: "stream ended without a finish item"@ },
        ),
    decreases items.len(),
{
    if items.len() > 0 {
        let rest = items.drop_first();
        assert(items[0] is Delta);
        assert forall|k: int| 0 <= k < rest.len() implies (#[trigger] rest[k]) is Delta by {
            assert(rest[k] == items[k + 1]);
        }
        fragments_alone_are_no_answer(rest);
    }
}

} // verus!
