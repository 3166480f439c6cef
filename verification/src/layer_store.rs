//! The in-process layers: each conversation's recent turns (L1), summary
//! blocks (L2), and knowledge (L3).

use vstd::prelude::*;

use crate::layers::{
    KnowledgeFragment, KnowledgeFragmentView, L1Entry, L1EntryView, SummaryBlock, SummaryBlockView,
};
use crate::shelves::{at_most, shelf, ConversationKey, Shelves};
use crate::subject::{subject_text, Subject};
use crate::trigger::{store_works, FlowAction, FlowActionView, FlowInput, FlowInputView, LayersView};

verus! {

/// What items hold.
pub open spec fn views<T: DeepView>(items: Seq<T>) -> Seq<T::V> {
    Seq::new(items.len(), |i: int| items[i].deep_view())
}

/// What shelves of items hold.
pub open spec fn shelf_views<A, T: DeepView>(shelves: Map<A, Seq<T>>) -> Map<A, Seq<T::V>> {
    shelves.map_values(|items: Seq<T>| views(items))
}

proof fn shelf_of_views<A, T: DeepView>(shelves: Map<A, Seq<T>>, key: A)
    ensures
        shelf(shelf_views(shelves), key) == views(shelf(shelves, key)),
{
    assert(shelf(shelf_views(shelves), key) =~= views(shelf(shelves, key)));
}

proof fn views_of_insert<A, T: DeepView>(shelves: Map<A, Seq<T>>, key: A, items: Seq<T>)
    ensures
        shelf_views(shelves.insert(key, items)) == shelf_views(shelves).insert(key, views(items)),
{
    assert(shelf_views(shelves.insert(key, items)) =~= shelf_views(shelves).insert(
        key,
        views(items),
    ));
}

/// The layers of every conversation, kept in the process.
#[derive(Debug)]
pub struct InProcessLayers {
    l1: Shelves<ConversationKey, L1Entry>,
    l2: Shelves<ConversationKey, SummaryBlock>,
    l3: Shelves<ConversationKey, KnowledgeFragment>,
}

/// What [`InProcessLayers`] hold, by subject (in text form) and conversation
/// id.
#[verifier::ext_equal]
pub ghost struct AllLayersView {
    pub l1: Map<(Seq<char>, Seq<char>), Seq<L1EntryView>>,
    pub l2: Map<(Seq<char>, Seq<char>), Seq<SummaryBlockView>>,
    pub l3: Map<(Seq<char>, Seq<char>), Seq<KnowledgeFragmentView>>,
}

impl View for InProcessLayers {
    type V = AllLayersView;

    closed spec fn view(&self) -> AllLayersView {
        AllLayersView {
            l1: shelf_views(self.l1@),
            l2: shelf_views(self.l2@),
            l3: shelf_views(self.l3@),
        }
    }
}

/// The layers of one conversation.
pub open spec fn layers_of(all: AllLayersView, key: (Seq<char>, Seq<char>)) -> LayersView {
    LayersView { l1: shelf(all.l1, key), l2: shelf(all.l2, key), l3: shelf(all.l3, key) }
}

/// No conversation has anything.
pub open spec fn no_layers() -> AllLayersView {
    AllLayersView { l1: Map::empty(), l2: Map::empty(), l3: Map::empty() }
}

fn key_of(subject: &Subject, conversation_id: &str) -> (key: ConversationKey)
    ensures
        key.deep_view() == (subject_text(subject.deep_view()), conversation_id@),
{
    ConversationKey { subject: subject.to_string(), conversation: conversation_id.to_owned() }
}

impl InProcessLayers {
    /// The layers are in order.
    pub closed spec fn wf(&self) -> bool {
        self.l1.wf() && self.l2.wf() && self.l3.wf()
    }

    /// Empty layers.
    pub fn new() -> (layers: Self)
        ensures
            layers.wf(),
            layers@ == no_layers(),
    {
        let layers = InProcessLayers {
            l1: Shelves::new(),
            l2: Shelves::new(),
            l3: Shelves::new(),
        };
        assert(layers@ =~= no_layers());
        layers
    }

    /// Adds a turn to a conversation's L1.
    pub fn l1_append(&mut self, subject: &Subject, conversation_id: &str, entry: L1Entry)
        requires
            old(self).wf(),
        ensures
            final(self).wf(),
            ({
                let key = (subject_text(subject.deep_view()), conversation_id@);
                final(self)@ == (AllLayersView {
                    l1: old(self)@.l1.insert(
                        key,
                        shelf(old(self)@.l1, key).push(entry.deep_view()),
                    ),
                    ..old(self)@
                })
            }),
    {
        let key = key_of(subject, conversation_id);
        proof {
            let held = shelf(self.l1@, key.deep_view());
            shelf_of_views(self.l1@, key.deep_view());
            views_of_insert(self.l1@, key.deep_view(), held.push(entry));
            assert(views(held.push(entry)) =~= views(held).push(entry.deep_view()));
        }
        self.l1.push(key, entry);
    }

    /// How many turns a conversation's L1 holds.
    pub fn l1_len(&self, subject: &Subject, conversation_id: &str) -> (len: usize)
        requires
            self.wf(),
        ensures
            len == shelf(
                self@.l1,
                (subject_text(subject.deep_view()), conversation_id@),
            ).len(),
    {
        let key = key_of(subject, conversation_id);
        proof {
            shelf_of_views(self.l1@, key.deep_view());
        }
        self.l1.len(&key)
    }

    /// Takes the oldest turns out of a conversation's L1, at most so many.
    pub fn l1_pop_oldest(
        &mut self,
        subject: &Subject,
        conversation_id: &str,
        count: usize,
    ) -> (turns: Vec<L1Entry>)
        requires
            old(self).wf(),
        ensures
            final(self).wf(),
            ({
                let key = (subject_text(subject.deep_view()), conversation_id@);
                let held = shelf(old(self)@.l1, key);
                let n = at_most(count, held.len());
                &&& turns.deep_view() == held.take(n)
                &&& final(self)@ == (AllLayersView {
                    l1: old(self)@.l1.insert(key, held.skip(n)),
                    ..old(self)@
                })
            }),
    {
        let key = key_of(subject, conversation_id);
        let ghost held = shelf(self.l1@, key.deep_view());
        let ghost n = at_most(count, held.len());
        proof {
            shelf_of_views(self.l1@, key.deep_view());
            views_of_insert(self.l1@, key.deep_view(), held.skip(n));
            assert(views(held.skip(n)) =~= views(held).skip(n));
        }
        let turns = self.l1.pop_oldest(key, count);
        assert(turns.deep_view() =~= views(held).take(n));
        turns
    }

    /// Adds a block to a conversation's L2.
    pub fn l2_append(&mut self, subject: &Subject, conversation_id: &str, block: SummaryBlock)
        requires
            old(self).wf(),
        ensures
            final(self).wf(),
            ({
                let key = (subject_text(subject.deep_view()), conversation_id@);
                final(self)@ == (AllLayersView {
                    l2: old(self)@.l2.insert(
                        key,
                        shelf(old(self)@.l2, key).push(block.deep_view()),
                    ),
                    ..old(self)@
                })
            }),
    {
        let key = key_of(subject, conversation_id);
        proof {
            let held = shelf(self.l2@, key.deep_view());
            shelf_of_views(self.l2@, key.deep_view());
            views_of_insert(self.l2@, key.deep_view(), held.push(block));
            assert(views(held.push(block)) =~= views(held).push(block.deep_view()));
        }
        self.l2.push(key, block);
    }

    /// How many blocks a conversation's L2 holds.
    pub fn l2_len(&self, subject: &Subject, conversation_id: &str) -> (len: usize)
        requires
            self.wf(),
        ensures
            len == shelf(
                self@.l2,
                (subject_text(subject.deep_view()), conversation_id@),
            ).len(),
    {
        let key = key_of(subject, conversation_id);
        proof {
            shelf_of_views(self.l2@, key.deep_view());
        }
        self.l2.len(&key)
    }

    /// Takes the oldest blocks out of a conversation's L2, at most so many.
    pub fn l2_pop_oldest(
        &mut self,
        subject: &Subject,
        conversation_id: &str,
        count: usize,
    ) -> (blocks: Vec<SummaryBlock>)
        requires
            old(self).wf(),
        ensures
            final(self).wf(),
            ({
                let key = (subject_text(subject.deep_view()), conversation_id@);
                let held = shelf(old(self)@.l2, key);
                let n = at_most(count, held.len());
                &&& blocks.deep_view() == held.take(n)
                &&& final(self)@ == (AllLayersView {
                    l2: old(self)@.l2.insert(key, held.skip(n)),
                    ..old(self)@
                })
            }),
    {
        let key = key_of(subject, conversation_id);
        let ghost held = shelf(self.l2@, key.deep_view());
        let ghost n = at_most(count, held.len());
        proof {
            shelf_of_views(self.l2@, key.deep_view());
            views_of_insert(self.l2@, key.deep_view(), held.skip(n));
            assert(views(held.skip(n)) =~= views(held).skip(n));
        }
        let blocks = self.l2.pop_oldest(key, count);
        assert(blocks.deep_view() =~= views(held).take(n));
        blocks
    }

    /// Keeps a piece of knowledge in a conversation's L3.
    pub fn l3_upsert(
        &mut self,
        subject: &Subject,
        conversation_id: &str,
        fragment: KnowledgeFragment,
    )
        requires
            old(self).wf(),
        ensures
            final(self).wf(),
            ({
                let key = (subject_text(subject.deep_view()), conversation_id@);
                final(self)@ == (AllLayersView {
                    l3: old(self)@.l3.insert(
                        key,
                        shelf(old(self)@.l3, key).push(fragment.deep_view()),
                    ),
                    ..old(self)@
                })
            }),
    {
        let key = key_of(subject, conversation_id);
        proof {
            let held = shelf(self.l3@, key.deep_view());
            shelf_of_views(self.l3@, key.deep_view());
            views_of_insert(self.l3@, key.deep_view(), held.push(fragment));
            assert(views(held.push(fragment)) =~= views(held).push(fragment.deep_view()));
        }
        self.l3.push(key, fragment);
    }

    /// Takes out what a conversation's L3 holds, oldest first.
    pub fn l3_take(&mut self, subject: &Subject, conversation_id: &str) -> (knowledge: Vec<
        KnowledgeFragment,
    >)
        requires
            old(self).wf(),
        ensures
            final(self).wf(),
            ({
                let key = (subject_text(subject.deep_view()), conversation_id@);
                &&& knowledge.deep_view() == shelf(old(self)@.l3, key)
                &&& final(self)@ == (AllLayersView { l3: old(self)@.l3.remove(key), ..old(self)@ })
            }),
    {
        let key = key_of(subject, conversation_id);
        let ghost held = self.l3@;
        proof {
            shelf_of_views(held, key.deep_view());
            assert(shelf_views(held.remove(key.deep_view())) =~= shelf_views(held).remove(
                key.deep_view(),
            ));
        }
        let knowledge = self.l3.take(&key);
        assert(knowledge.deep_view() =~= views(shelf(held, key.deep_view())));
        knowledge
    }

    /// Does one action of a flow for a conversation: these layers are a
    /// working store.
    pub fn perform(
        &mut self,
        subject: &Subject,
        conversation_id: &str,
        action: FlowAction,
    ) -> (input: FlowInput)
        requires
            old(self).wf(),
            action.deep_view() !is Summarize,
            action.deep_view() !is Done,
        ensures
            final(self).wf(),
            ({
                let key = (subject_text(subject.deep_view()), conversation_id@);
                &&& store_works(
                    layers_of(old(self)@, key),
                    action.deep_view(),
                    input.deep_view(),
                    layers_of(final(self)@, key),
                )
                &&& forall|other: (Seq<char>, Seq<char>)|
                    other != key ==> #[trigger] layers_of(final(self)@, other) == layers_of(
                        old(self)@,
                        other,
                    )
            }),
    {
        match action {
            FlowAction::L1Append { topic, messages } => {
                let entry = L1Entry { topic, messages };
                self.l1_append(subject, conversation_id, entry);
                FlowInput::Written(Ok(()))
            },
            FlowAction::L1Len => FlowInput::Counted(Ok(self.l1_len(subject, conversation_id))),
            FlowAction::L1PopOldest(count) => FlowInput::Turns(
                Ok(self.l1_pop_oldest(subject, conversation_id, count)),
            ),
            FlowAction::L2Append(block) => {
                self.l2_append(subject, conversation_id, block);
                FlowInput::Written(Ok(()))
            },
            FlowAction::L2Len => FlowInput::Counted(Ok(self.l2_len(subject, conversation_id))),
            FlowAction::L2PopOldest(count) => FlowInput::Blocks(
                Ok(self.l2_pop_oldest(subject, conversation_id, count)),
            ),
            FlowAction::L3Upsert(fragment) => {
                self.l3_upsert(subject, conversation_id, fragment);
                FlowInput::Written(Ok(()))
            },
            FlowAction::Summarize(_) | FlowAction::Done => FlowInput::Written(Ok(())),
        }
    }
}

} // verus!
