//! Deterministic test doubles for agent testing.
//!
//! [`MockModel`] plays scripted model responses per call, records the
//! requests it received, and can hang forever (for cancellation tests).

use vstd::prelude::*;

use crate::event::TokenUsage;
use crate::message::{text_message_view, Message, Role};
use crate::model::{ModelRequest, ModelRequestView, ModelStreamItem, ModelStreamItemView};
use crate::text::Text;

verus! {

/// What a call plays.
#[derive(Debug)]
pub enum Script {
    /// Yields the given items, then ends.
    Items(Vec<ModelStreamItem>),
    /// Never yields and never finishes (for cancellation tests).
    Hang,
}

/// What a [`Script`] holds.
pub ghost enum ScriptView {
    Items(Seq<ModelStreamItemView>),
    Hang,
}

impl DeepView for Script {
    type V = ScriptView;

    open spec fn deep_view(&self) -> ScriptView {
        match self {
            Script::Items(items) => ScriptView::Items(items.deep_view()),
            Script::Hang => ScriptView::Hang,
        }
    }
}

/// A scripted model for tests.
///
/// Each call consumes the next script in order. When the scripts are
/// exhausted, the model yields an empty stream (a premature end, which the
/// loop surfaces as an error): tests should script exactly the rounds they
/// expect.
#[derive(Debug)]
pub struct MockModel {
    scripts: Vec<Script>,
    requests: Vec<ModelRequest>,
}

/// What a [`MockModel`] holds.
#[verifier::ext_equal]
pub ghost struct MockModelView {
    /// The scripts still to be played, in order.
    pub scripts: Seq<ScriptView>,
    /// The requests received, in order.
    pub requests: Seq<ModelRequestView>,
}

impl DeepView for MockModel {
    type V = MockModelView;

    closed spec fn deep_view(&self) -> MockModelView {
        MockModelView {
            scripts: self.scripts.deep_view(),
            requests: self.requests.deep_view(),
        }
    }
}

/// A call: what is played, and the model afterwards.
pub open spec fn played(model: MockModelView, request: ModelRequestView) -> (
    MockModelView,
    ScriptView,
) {
    let requests = model.requests.push(request);
    if model.scripts.len() == 0 {
        (MockModelView { requests, ..model }, ScriptView::Items(Seq::empty()))
    } else {
        (MockModelView { requests, scripts: model.scripts.drop_first() }, model.scripts[0])
    }
}

impl MockModel {
    fn playing(scripts: Vec<Script>) -> (model: Self)
        ensures
            model.deep_view() == (MockModelView {
                scripts: scripts.deep_view(),
                requests: Seq::empty(),
            }),
    {
        let requests: Vec<ModelRequest> = Vec::new();
        assert(requests.deep_view() =~= Seq::<ModelRequestView>::empty());
        MockModel { scripts, requests }
    }

    /// Creates a model playing the given scripts, one per call.
    pub fn new(scripts: Vec<Vec<ModelStreamItem>>) -> (model: Self)
        ensures
            model.deep_view() == (MockModelView {
                scripts: scripts.deep_view().map_values(
                    |items: Seq<ModelStreamItemView>| ScriptView::Items(items),
                ),
                requests: Seq::empty(),
            }),
    {
        let ghost given = scripts.deep_view();
        let ghost total = scripts@.len();
        let mut left = scripts;
        let mut all: Vec<Script> = Vec::new();
        while left.len() > 0
            invariant
                given == scripts.deep_view(),
                given.len() == total,
                left@.len() + all@.len() == total,
                left.deep_view() =~= given.skip(all@.len() as int),
                all.deep_view() =~= given.take(all@.len() as int).map_values(
                    |items: Seq<ModelStreamItemView>| ScriptView::Items(items),
                ),
            decreases left@.len(),
        {
            let ghost rest = left.deep_view();
            let ghost done = all.deep_view();
            let items = left.remove(0);
            assert(rest[0] == items.deep_view());
            assert(left.deep_view() =~= rest.drop_first());
            all.push(Script::Items(items));
            assert(all.deep_view() =~= done.push(ScriptView::Items(rest[0])));
        }
        assert(given.take(total as int) =~= given);
        Self::playing(all)
    }

    /// A single-round model that answers with one text message.
    pub fn finishing_with_text(text: impl Text) -> (model: Self)
        ensures
            model.deep_view() == (MockModelView {
                scripts: seq![
                    ScriptView::Items(
                        seq![
                            ModelStreamItemView::Finish {
                                message: text_message_view(Role::Assistant, text.text()),
                                usage: TokenUsage { input_tokens: 1, output_tokens: 1 },
                            },
                        ],
                    ),
                ],
                requests: Seq::empty(),
            }),
    {
        let mut items: Vec<ModelStreamItem> = Vec::new();
        items.push(
            ModelStreamItem::Finish {
                message: Message::assistant_text(text),
                usage: TokenUsage::new(1, 1),
            },
        );
        assert(items.deep_view() =~= seq![
            ModelStreamItemView::Finish {
                message: text_message_view(Role::Assistant, text.text()),
                usage: TokenUsage { input_tokens: 1, output_tokens: 1 },
            },
        ]);
        let mut scripts: Vec<Script> = Vec::new();
        scripts.push(Script::Items(items));
        assert(scripts.deep_view() =~= seq![ScriptView::Items(items.deep_view())]);
        Self::playing(scripts)
    }

    /// A model whose stream never yields and never finishes.
    pub fn hanging() -> (model: Self)
        ensures
            model.deep_view() == (MockModelView {
                scripts: seq![ScriptView::Hang],
                requests: Seq::empty(),
            }),
    {
        let mut scripts: Vec<Script> = Vec::new();
        scripts.push(Script::Hang);
        assert(scripts.deep_view() =~= seq![ScriptView::Hang]);
        Self::playing(scripts)
    }

    /// How many calls this model has received.
    pub fn calls(&self) -> (calls: usize)
        ensures
            calls == self.deep_view().requests.len(),
    {
        self.requests.len()
    }

    /// The requests this model has received, in call order.
    pub fn requests(&self) -> (requests: &Vec<ModelRequest>)
        ensures
            requests.deep_view() == self.deep_view().requests,
    {
        &self.requests
    }

    /// One call: records the request and plays the next script.
    pub fn stream(&mut self, request: ModelRequest) -> (script: Script)
        ensures
            (final(self).deep_view(), script.deep_view()) == played(
                old(self).deep_view(),
                request.deep_view(),
            ),
    {
        let ghost before = self.deep_view();
        self.requests.push(request);
        assert(self.requests.deep_view() =~= before.requests.push(request.deep_view()));
        if self.scripts.len() == 0 {
            let items: Vec<ModelStreamItem> = Vec::new();
            assert(items.deep_view() =~= Seq::<ModelStreamItemView>::empty());
            Script::Items(items)
        } else {
            let script = self.scripts.remove(0);
            assert(self.scripts.deep_view() =~= before.scripts.drop_first());
            script
        }
    }
}

/// Each call plays the next script and leaves the others for later; past the
/// last one the stream is empty. Every request is recorded, in call order.
pub proof fn scripts_are_played_in_order(
    model: MockModelView,
    script: ScriptView,
    request: ModelRequestView,
)
    ensures
        ({
            let (after, given) = played(
                MockModelView { scripts: seq![script] + model.scripts, ..model },
                request,
            );
            &&& given == script
            &&& after.scripts == model.scripts
            &&& after.requests == model.requests.push(request)
        }),
        ({
            let (after, given) = played(
                MockModelView { scripts: Seq::empty(), ..model },
                request,
            );
            &&& given == ScriptView::Items(Seq::empty())
            &&& after.scripts.len() == 0
            &&& after.requests == model.requests.push(request)
        }),
{
    assert((seq![script] + model.scripts).drop_first() =~= model.scripts);
}

} // verus!
