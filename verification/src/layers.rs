//! What the layered memory keeps: recent turns verbatim (L1), summary blocks
//! (L2), and long-term knowledge (L3).

use vstd::prelude::*;

use crate::message::{Message, MessageView};

verus! {

/// One verbatim turn of the working memory (L1).
#[derive(Debug, PartialEq)]
pub struct L1Entry {
    /// The topic the turn was recorded under.
    pub topic: String,
    /// The turn's messages.
    pub messages: Vec<Message>,
}

/// What an [`L1Entry`] holds.
#[verifier::ext_equal]
pub ghost struct L1EntryView {
    pub topic: Seq<char>,
    pub messages: Seq<MessageView>,
}

impl DeepView for L1Entry {
    type V = L1EntryView;

    open spec fn deep_view(&self) -> L1EntryView {
        L1EntryView { topic: self.topic@, messages: self.messages.deep_view() }
    }
}

/// One summary block (L2).
#[derive(Debug, PartialEq)]
pub struct SummaryBlock {
    /// The conversation summarized.
    pub conversation_id: String,
    /// The summary.
    pub content: String,
    /// The block's position; stores assign it.
    pub index: usize,
}

/// What a [`SummaryBlock`] holds.
#[verifier::ext_equal]
pub ghost struct SummaryBlockView {
    pub conversation_id: Seq<char>,
    pub content: Seq<char>,
    pub index: usize,
}

impl DeepView for SummaryBlock {
    type V = SummaryBlockView;

    open spec fn deep_view(&self) -> SummaryBlockView {
        SummaryBlockView {
            conversation_id: self.conversation_id@,
            content: self.content@,
            index: self.index,
        }
    }
}

/// Under what a piece of long-term knowledge is kept.
#[derive(Debug, PartialEq)]
pub struct FragmentIdentity {
    /// The owning subject, in text form.
    pub subject_id: String,
    /// The conversation it came from.
    pub conversation_id: String,
    /// The topic it belongs to.
    pub topic: String,
}

/// What a [`FragmentIdentity`] holds.
#[verifier::ext_equal]
pub ghost struct FragmentIdentityView {
    pub subject_id: Seq<char>,
    pub conversation_id: Seq<char>,
    pub topic: Seq<char>,
}

impl DeepView for FragmentIdentity {
    type V = FragmentIdentityView;

    open spec fn deep_view(&self) -> FragmentIdentityView {
        FragmentIdentityView {
            subject_id: self.subject_id@,
            conversation_id: self.conversation_id@,
            topic: self.topic@,
        }
    }
}

/// One piece of long-term knowledge (L3).
#[derive(Debug, PartialEq)]
pub struct KnowledgeFragment {
    /// Under what it is kept.
    pub identity: FragmentIdentity,
    /// The knowledge.
    pub content: String,
    /// Epoch seconds of its creation.
    pub created_at: u64,
}

/// What a [`KnowledgeFragment`] holds.
#[verifier::ext_equal]
pub ghost struct KnowledgeFragmentView {
    pub identity: FragmentIdentityView,
    pub content: Seq<char>,
    pub created_at: u64,
}

impl DeepView for KnowledgeFragment {
    type V = KnowledgeFragmentView;

    open spec fn deep_view(&self) -> KnowledgeFragmentView {
        KnowledgeFragmentView {
            identity: self.identity.deep_view(),
            content: self.content@,
            created_at: self.created_at,
        }
    }
}

/// A summary block as long-term knowledge under a topic.
pub open spec fn distilled(
    subject: Seq<char>,
    topic: Seq<char>,
    block: SummaryBlockView,
    now: u64,
) -> KnowledgeFragmentView {
    KnowledgeFragmentView {
        identity: FragmentIdentityView {
            subject_id: subject,
            conversation_id: block.conversation_id,
            topic,
        },
        content: block.content,
        created_at: now,
    }
}

/// Mechanical distillation: a summary block becomes long-term knowledge
/// under the conversation's topic. No model is asked.
pub fn distill(subject: String, topic: String, block: SummaryBlock, now: u64) -> (fragment:
    KnowledgeFragment)
    ensures
        fragment.deep_view() == distilled(subject@, topic@, block.deep_view(), now),
{
    KnowledgeFragment {
        identity: FragmentIdentity {
            subject_id: subject,
            conversation_id: block.conversation_id,
            topic,
        },
        content: block.content,
        created_at: now,
    }
}

/// Distilling loses nothing of a block: all of its content is kept, under
/// the conversation it came from, the subject, the topic, and the time given;
/// and blocks that differ in conversation or content stay apart.
pub proof fn distilling_keeps_the_block(
    subject: Seq<char>,
    topic: Seq<char>,
    block: SummaryBlockView,
    other: SummaryBlockView,
    now: u64,
)
    ensures
        ({
            let fragment = distilled(subject, topic, block, now);
            &&& fragment.content == block.content
            &&& fragment.identity.conversation_id == block.conversation_id
            &&& fragment.identity.subject_id == subject
            &&& fragment.identity.topic == topic
            &&& fragment.created_at == now
            &&& fragment == distilled(subject, topic, other, now) ==> block.content == other.content
                && block.conversation_id == other.conversation_id
        }),
{
}

} // verus!
