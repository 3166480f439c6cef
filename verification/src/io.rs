//! Run boundary types: what goes into a run and what comes out.

use vstd::prelude::*;

use crate::event::TokenUsage;
use crate::message::{ContentBlock, ContentBlockView, Message, MessageView};
use crate::text::Text;

verus! {

/// The input that starts a run.
#[derive(Debug, PartialEq)]
pub struct AgentInput {
    /// The user's text.
    pub text: String,
}

/// What an [`AgentInput`] holds.
pub ghost struct AgentInputView {
    pub text: Seq<char>,
}

impl DeepView for AgentInput {
    type V = AgentInputView;

    open spec fn deep_view(&self) -> AgentInputView {
        AgentInputView { text: self.text@ }
    }
}

impl Clone for AgentInput {
    fn clone(&self) -> (copy: Self)
        ensures
            copy == *self,
    {
        AgentInput { text: self.text.clone() }
    }
}

impl<'a> From<&'a str> for AgentInput {
    fn from(text: &'a str) -> (input: Self)
        ensures
            input.deep_view() == (AgentInputView { text: text@ }),
    {
        AgentInput::new(text)
    }
}

impl<'a> vstd::std_specs::convert::FromSpecImpl<&'a str> for AgentInput {
    open spec fn obeys_from_spec() -> bool {
        false
    }

    open spec fn from_spec(text: &'a str) -> Self {
        arbitrary()
    }
}

impl From<String> for AgentInput {
    fn from(text: String) -> (input: Self)
        ensures
            input.deep_view() == (AgentInputView { text: text@ }),
    {
        AgentInput { text }
    }
}

impl vstd::std_specs::convert::FromSpecImpl<String> for AgentInput {
    open spec fn obeys_from_spec() -> bool {
        true
    }

    open spec fn from_spec(text: String) -> Self {
        AgentInput { text }
    }
}

impl AgentInput {
    /// Creates an input from text.
    pub fn new(text: impl Text) -> (input: Self)
        ensures
            input.deep_view() == (AgentInputView { text: text.text() }),
    {
        AgentInput { text: text.into_text() }
    }
}

/// The final output of a completed run.
#[derive(Debug, PartialEq)]
pub struct AgentOutput {
    /// The final assistant message.
    pub message: Message,
    /// The run's total token usage.
    pub usage: TokenUsage,
}

/// What an [`AgentOutput`] holds.
pub ghost struct AgentOutputView {
    pub message: MessageView,
    pub usage: TokenUsage,
}

impl DeepView for AgentOutput {
    type V = AgentOutputView;

    open spec fn deep_view(&self) -> AgentOutputView {
        AgentOutputView { message: self.message.deep_view(), usage: self.usage }
    }
}

impl Clone for AgentOutput {
    fn clone(&self) -> (copy: Self)
        ensures
            copy.deep_view() == self.deep_view(),
    {
        AgentOutput { message: self.message.clone(), usage: self.usage }
    }
}

/// The text of the first text block, if there is one.
pub open spec fn first_text(blocks: Seq<ContentBlockView>) -> Option<Seq<char>>
    decreases blocks.len(),
{
    if blocks.len() == 0 {
        None
    } else if let ContentBlockView::Text { text } = blocks[0] {
        Some(text)
    } else {
        first_text(blocks.drop_first())
    }
}

impl AgentOutput {
    /// Creates an output from its parts.
    pub fn new(message: Message, usage: TokenUsage) -> (output: Self)
        ensures
            output.message == message,
            output.usage == usage,
    {
        AgentOutput { message, usage }
    }

    /// The text of the message's first text block, if any.
    pub fn text(&self) -> (text: Option<&str>)
        ensures
            text.deep_view() == first_text(self.deep_view().message.blocks),
    {
        let ghost blocks = self.deep_view().message.blocks;
        let mut i: usize = 0;
        assert(blocks.skip(0) =~= blocks);
        while i < self.message.blocks.len()
            invariant
                i <= self.message.blocks@.len(),
                blocks == self.deep_view().message.blocks,
                first_text(blocks) == first_text(blocks.skip(i as int)),
            decreases self.message.blocks@.len() - i,
        {
            assert(blocks.skip(i as int)[0] == self.message.blocks@[i as int].deep_view());
            assert(blocks.skip(i as int).drop_first() =~= blocks.skip(i + 1));
            if let ContentBlock::Text { text } = &self.message.blocks[i] {
                return Some(text.as_str());
            }
            i += 1;
        }
        None
    }
}

/// The text of an output is that of its first text block, whatever stands
/// before it, and there is none exactly when no block is text.
pub proof fn the_first_text_is_shown(blocks: Seq<ContentBlockView>, i: int)
    ensures
        0 <= i < blocks.len() && (forall|k: int|
            0 <= k < i ==> !((#[trigger] blocks[k]) is Text)) ==> (blocks[i]
            matches ContentBlockView::Text { text } ==> first_text(blocks) == Some(text)),
        (forall|k: int| 0 <= k < blocks.len() ==> !((#[trigger] blocks[k]) is Text)) <==> first_text(
            blocks,
        ) is None,
    decreases blocks.len(),
{
    if blocks.len() > 0 {
        let rest = blocks.drop_first();
        the_first_text_is_shown(rest, i - 1);
        assert forall|k: int| 0 <= k < rest.len() implies #[trigger] rest[k] == blocks[k + 1] by {}
        assert forall|k: int| 0 < k < blocks.len() implies #[trigger] blocks[k] == rest[k - 1] by {}
        if !(blocks[0] is Text) {
            if forall|k: int| 0 <= k < rest.len() ==> !((#[trigger] rest[k]) is Text) {
                assert forall|k: int| 0 <= k < blocks.len() implies !((
                #[trigger] blocks[k]) is Text) by {
                    if k > 0 {
                        assert(!(rest[k - 1] is Text));
                    }
                }
            } else {
                let k = choose|k: int| 0 <= k < rest.len() && (#[trigger] rest[k]) is Text;
                assert(blocks[k + 1] is Text);
            }
            if 0 < i < blocks.len() && (forall|k: int|
                0 <= k < i ==> !((#[trigger] blocks[k]) is Text)) {
                assert forall|k: int| 0 <= k < i - 1 implies !((#[trigger] rest[k]) is Text) by {
                    assert(!(blocks[k + 1] is Text));
                }
            }
        } else {
            assert(blocks[0] is Text);
        }
    }
}

} // verus!
