//! One round of parallel tool calls: which results are in, which call a
//! panicked task is put down to, and in what order the model reads them.

use vstd::prelude::*;

use crate::message::{
    tool_result_view, CallId, Message, MessageView, ToolCall, ToolCallView, ToolResult,
    ToolResultView,
};
use crate::text::concat;

verus! {

/// The results of a round by call id: at most one per id.
#[derive(Debug)]
pub struct CallResults {
    entries: Vec<(CallId, ToolResult)>,
}

impl CallResults {
    spec fn key(&self, i: int) -> Seq<char> {
        self.entries@[i].0.deep_view()
    }

    /// No id occurs twice.
    pub closed spec fn wf(&self) -> bool {
        forall|i: int, j: int|
            0 <= i < j < self.entries@.len() ==> #[trigger] self.key(i) != #[trigger] self.key(j)
    }
}

impl View for CallResults {
    type V = Map<Seq<char>, ToolResultView>;

    closed spec fn view(&self) -> Map<Seq<char>, ToolResultView> {
        Map::new(
            |id: Seq<char>| exists|i: int| 0 <= i < self.entries@.len() && #[trigger] self.key(i) == id,
            |id: Seq<char>|
                {
                    let i = choose|i: int|
                        0 <= i < self.entries@.len() && #[trigger] self.key(i) == id;
                    self.entries@[i].1.deep_view()
                },
        )
    }
}

impl CallResults {
    /// No results yet.
    pub fn new() -> (results: Self)
        ensures
            results.wf(),
            results@ == Map::<Seq<char>, ToolResultView>::empty(),
    {
        let results = CallResults { entries: Vec::new() };
        assert(results@ =~= Map::<Seq<char>, ToolResultView>::empty());
        results
    }

    /// The results are as many as there are entries.
    proof fn count(&self)
        requires
            self.wf(),
        ensures
            self@.dom().finite(),
            self@.len() == self.entries@.len(),
    {
        let keys = Seq::new(self.entries@.len(), |i: int| self.key(i));
        assert(keys.no_duplicates());
        assert(self@.dom() =~= keys.to_set()) by {
            assert forall|id: Seq<char>| self@.dom().contains(id) implies keys.to_set().contains(
                id,
            ) by {
                let i = choose|i: int|
                    0 <= i < self.entries@.len() && #[trigger] self.key(i) == id;
                assert(keys[i] == id);
            }
            assert forall|id: Seq<char>| keys.to_set().contains(id) implies self@.dom().contains(
                id,
            ) by {
                let i = choose|i: int| 0 <= i < keys.len() && keys[i] == id;
                assert(self.key(i) == id);
            }
        }
        keys.unique_seq_to_set();
    }

    /// How many calls have a result.
    pub fn len(&self) -> (len: usize)
        requires
            self.wf(),
        ensures
            len == self@.len(),
            self@.dom().finite(),
    {
        proof {
            self.count();
        }
        self.entries.len()
    }

    fn find(&self, call_id: &CallId) -> (found: Option<usize>)
        ensures
            match found {
                Some(i) => i < self.entries@.len() && self.key(i as int) == call_id.deep_view(),
                None => forall|i: int|
                    0 <= i < self.entries@.len() ==> #[trigger] self.key(i) != call_id.deep_view(),
            },
    {
        let mut i: usize = 0;
        while i < self.entries.len()
            invariant
                i <= self.entries@.len(),
                forall|k: int| 0 <= k < i ==> #[trigger] self.key(k) != call_id.deep_view(),
            decreases self.entries@.len() - i,
        {
            if self.entries[i].0.same(call_id) {
                assert(self.key(i as int) == call_id.deep_view());
                return Some(i);
            }
            assert(self.key(i as int) != call_id.deep_view());
            i += 1;
        }
        None
    }

    /// The result of a call, if it is in.
    pub fn get(&self, call_id: &CallId) -> (result: Option<&ToolResult>)
        requires
            self.wf(),
        ensures
            match result {
                Some(result) => self@.contains_key(call_id.deep_view())
                    && self@[call_id.deep_view()] == result.deep_view(),
                None => !self@.contains_key(call_id.deep_view()),
            },
    {
        match self.find(call_id) {
            Some(i) => {
                let ghost id = call_id.deep_view();
                proof {
                    let k = choose|k: int|
                        0 <= k < self.entries@.len() && #[trigger] self.key(k) == id;
                    assert(self.key(i as int) == id);
                    assert(k == i);
                }
                Some(&self.entries[i].1)
            },
            None => None,
        }
    }

    /// Puts in the result of a call, in place of an earlier one.
    pub fn insert(&mut self, call_id: CallId, result: ToolResult)
        requires
            old(self).wf(),
        ensures
            final(self).wf(),
            final(self)@ == old(self)@.insert(call_id.deep_view(), result.deep_view()),
    {
        let ghost before = *self;
        let ghost id = call_id.deep_view();
        let ghost value = result.deep_view();
        let ghost place: int;
        match self.find(&call_id) {
            Some(i) => {
                proof {
                    place = i as int;
                }
                self.entries.set(i, (call_id, result));
                assert forall|k: int| 0 <= k < self.entries@.len() implies #[trigger] self.key(k)
                    == before.key(k) by {}
            },
            None => {
                proof {
                    place = self.entries@.len() as int;
                }
                self.entries.push((call_id, result));
                assert forall|k: int| 0 <= k < before.entries@.len() implies #[trigger] self.key(k)
                    == before.key(k) by {}
            },
        }
        proof {
            assert(self.key(place) == id);
            let after = *self;
            assert forall|x: Seq<char>| after@.contains_key(x) == before@.insert(
                id,
                value,
            ).contains_key(x) by {
                if before@.contains_key(x) {
                    let k = choose|k: int|
                        0 <= k < before.entries@.len() && #[trigger] before.key(k) == x;
                    assert(after.key(k) == x);
                }
                if after@.contains_key(x) {
                    let k = choose|k: int|
                        0 <= k < after.entries@.len() && #[trigger] after.key(k) == x;
                    if k != place {
                        assert(before.key(k) == x);
                    }
                }
            }
            assert forall|x: Seq<char>| after@.contains_key(x) implies after@[x] == before@.insert(
                id,
                value,
            )[x] by {
                let k = choose|k: int| 0 <= k < after.entries@.len() && #[trigger] after.key(k) == x;
                if x == id {
                    assert(after.key(place) == x);
                    assert(k == place);
                } else {
                    assert(k != place);
                    assert(before.key(k) == x);
                    let k2 = choose|k2: int|
                        0 <= k2 < before.entries@.len() && #[trigger] before.key(k2) == x;
                    assert(k2 == k);
                }
            }
            assert(after@ =~= before@.insert(id, value));
        }
    }
}

/// The calls of one round, and the results that are in.
#[derive(Debug)]
pub struct ToolRound {
    calls: Vec<ToolCall>,
    results: CallResults,
}

/// What a [`ToolRound`] holds.
#[verifier::ext_equal]
pub ghost struct ToolRoundView {
    /// The calls, in the order the model made them.
    pub calls: Seq<ToolCallView>,
    /// The results by call id.
    pub results: Map<Seq<char>, ToolResultView>,
}

impl DeepView for ToolRound {
    type V = ToolRoundView;

    closed spec fn deep_view(&self) -> ToolRoundView {
        ToolRoundView { calls: self.calls.deep_view(), results: self.results@ }
    }
}

/// Whether several of the calls have this id.
pub open spec fn is_repeated(calls: Seq<ToolCallView>, call_id: Seq<char>) -> bool {
    exists|i: int, j: int|
        0 <= i < j < calls.len() && #[trigger] calls[i].call_id == call_id
            && #[trigger] calls[j].call_id == call_id
}

impl ToolRoundView {
    /// Whether some call of the round has this id.
    pub open spec fn has(self, call_id: Seq<char>) -> bool {
        exists|i: int| 0 <= i < self.calls.len() && #[trigger] self.calls[i].call_id == call_id
    }

    /// Whether several calls of the round have this id.
    pub open spec fn repeated(self, call_id: Seq<char>) -> bool {
        is_repeated(self.calls, call_id)
    }

    /// Whether a call with this id can still end: it has no result yet, or
    /// it is not the only one with the id.
    pub open spec fn awaits(self, call_id: Seq<char>) -> bool {
        self.has(call_id) && (self.results.contains_key(call_id) ==> self.repeated(call_id))
    }

    /// Only calls of the round have results.
    pub open spec fn valid(self) -> bool {
        &&& self.results.dom().finite()
        &&& forall|id: Seq<char>| #[trigger] self.results.contains_key(id) ==> self.has(id)
    }

    /// Whether every call has its result.
    pub open spec fn complete(self) -> bool {
        forall|i: int|
            0 <= i < self.calls.len() ==> self.results.contains_key(
                (#[trigger] self.calls[i]).call_id,
            )
    }

    /// Whether no further result is waited for: there are as many results as
    /// calls.
    pub open spec fn settled(self) -> bool {
        self.results.len() >= self.calls.len()
    }

    /// The id of the first call from `i` on that has no result.
    pub open spec fn outstanding_from(self, i: int) -> Option<Seq<char>>
        decreases self.calls.len() - i,
    {
        if i < 0 || i >= self.calls.len() {
            None
        } else if !self.results.contains_key(self.calls[i].call_id) {
            Some(self.calls[i].call_id)
        } else {
            self.outstanding_from(i + 1)
        }
    }

    /// What the model reads: one message per call, in the order of the
    /// calls, whatever order they finished in.
    pub open spec fn messages(self) -> Seq<MessageView> {
        Seq::new(
            self.calls.len(),
            |i: int| tool_result_view(self.calls[i].call_id, self.results[self.calls[i].call_id]),
        )
    }
}

/// A round of calls without any result.
pub open spec fn fresh_round(calls: Seq<ToolCallView>) -> ToolRoundView {
    ToolRoundView { calls, results: Map::empty() }
}

/// What a panicked task leaves for the model to read.
pub open spec fn panic_result(detail: Seq<char>) -> ToolResultView {
    ToolResultView::Failure { message: "tool task failed: "@ + detail }
}

/// The result a panicked task leaves.
pub fn panicked(detail: &str) -> (result: ToolResult)
    ensures
        result.deep_view() == panic_result(detail@),
{
    ToolResult::Failure { message: concat("tool task failed: ", detail) }
}

/// Once there are as many results as calls, every call has its result.
pub proof fn settled_is_complete(round: ToolRoundView)
    requires
        round.valid(),
        round.settled(),
    ensures
        round.complete(),
{
    let ids = Seq::new(round.calls.len(), |i: int| round.calls[i].call_id);
    let have = round.results.dom();
    assert forall|id: Seq<char>| have.contains(id) implies ids.to_set().contains(id) by {
        assert(round.has(id));
        let i = choose|i: int| 0 <= i < round.calls.len() && #[trigger] round.calls[i].call_id == id;
        assert(ids[i] == id);
    }
    ids.lemma_cardinality_of_set();
    vstd::seq_lib::seq_to_set_is_finite(ids);
    assert(have.subset_of(ids.to_set()));
    vstd::set_lib::lemma_len_subset(have, ids.to_set());
    vstd::set_lib::lemma_subset_equality(have, ids.to_set());
    assert forall|i: int| 0 <= i < round.calls.len() implies round.results.contains_key(
        (#[trigger] round.calls[i]).call_id,
    ) by {
        assert(ids[i] == round.calls[i].call_id);
        assert(ids.to_set().contains(ids[i]));
    }
}

/// Every call has its result exactly when none is outstanding.
pub proof fn outstanding_means_incomplete(round: ToolRoundView, from: int)
    requires
        0 <= from <= round.calls.len(),
    ensures
        round.outstanding_from(from) is None <==> forall|i: int|
            from <= i < round.calls.len() ==> round.results.contains_key(
                (#[trigger] round.calls[i]).call_id,
            ),
        round.outstanding_from(from) is Some ==> round.has(round.outstanding_from(from)->0)
            && !round.results.contains_key(round.outstanding_from(from)->0),
    decreases round.calls.len() - from,
{
    if from < round.calls.len() {
        outstanding_means_incomplete(round, from + 1);
        assert(round.calls[from].call_id == round.calls[from].call_id);
    }
}

impl ToolRound {
    /// Only calls of the round have results, each at most one.
    pub closed spec fn wf(&self) -> bool {
        &&& self.results.wf()
        &&& self.deep_view().valid()
    }

    /// A round that is in order is valid.
    pub proof fn wf_is_valid(&self)
        requires
            self.wf(),
        ensures
            self.deep_view().valid(),
    {
    }

    /// Starts a round.
    pub fn new(calls: Vec<ToolCall>) -> (round: Self)
        ensures
            round.wf(),
            round.deep_view() == fresh_round(calls.deep_view()),
    {
        ToolRound { calls, results: CallResults::new() }
    }

    /// Whether no further result is waited for.
    pub fn is_settled(&self) -> (settled: bool)
        requires
            self.wf(),
        ensures
            settled == self.deep_view().settled(),
    {
        self.results.len() >= self.calls.len()
    }

    /// Whether every call has its result.
    pub fn is_complete(&self) -> (complete: bool)
        requires
            self.wf(),
        ensures
            complete == self.deep_view().complete(),
    {
        let found = self.outstanding();
        proof {
            outstanding_means_incomplete(self.deep_view(), 0);
        }
        found.is_none()
    }

    /// Whether some call of the round has this id.
    pub fn has(&self, call_id: &CallId) -> (has: bool)
        ensures
            has == self.deep_view().has(call_id.deep_view()),
    {
        let ghost calls = self.deep_view().calls;
        let mut i: usize = 0;
        while i < self.calls.len()
            invariant
                i <= self.calls@.len(),
                calls == self.deep_view().calls,
                forall|k: int|
                    0 <= k < i ==> (#[trigger] calls[k]).call_id != call_id.deep_view(),
            decreases self.calls@.len() - i,
        {
            assert(calls[i as int] == self.calls@[i as int].deep_view());
            if self.calls[i].call_id.same(call_id) {
                assert(self.deep_view().calls[i as int].call_id == call_id.deep_view());
                return true;
            }
            i += 1;
        }
        false
    }

    /// The id of the first call that has no result.
    pub fn outstanding(&self) -> (found: Option<CallId>)
        requires
            self.wf(),
        ensures
            found.deep_view() == self.deep_view().outstanding_from(0),
    {
        let ghost round = self.deep_view();
        let mut i: usize = 0;
        while i < self.calls.len()
            invariant
                i <= self.calls@.len(),
                self.wf(),
                round == self.deep_view(),
                round.outstanding_from(0) == round.outstanding_from(i as int),
            decreases self.calls@.len() - i,
        {
            assert(round.calls[i as int] == self.calls@[i as int].deep_view());
            if self.results.get(&self.calls[i].call_id).is_none() {
                return Some(self.calls[i].call_id.clone());
            }
            i += 1;
        }
        None
    }

    /// Puts in the result of a call of the round.
    pub fn insert(&mut self, call_id: CallId, result: ToolResult)
        requires
            old(self).wf(),
            old(self).deep_view().has(call_id.deep_view()),
        ensures
            final(self).wf(),
            final(self).deep_view() == (ToolRoundView {
                results: old(self).deep_view().results.insert(
                    call_id.deep_view(),
                    result.deep_view(),
                ),
                ..old(self).deep_view()
            }),
    {
        let ghost before = self.deep_view();
        self.results.insert(call_id, result);
        proof {
            let after = self.deep_view();
            assert forall|id: Seq<char>| #[trigger] after.results.contains_key(id) implies after.has(
                id,
            ) by {
                if id != call_id.deep_view() {
                    assert(before.results.contains_key(id));
                    assert(before.has(id));
                }
                let i = choose|i: int|
                    0 <= i < before.calls.len() && #[trigger] before.calls[i].call_id == id;
                assert(after.calls[i].call_id == id);
            }
        }
    }

    /// What the model reads of the round: one message per call, in call
    /// order.
    pub fn result_messages(&self) -> (messages: Vec<Message>)
        requires
            self.wf(),
            self.deep_view().complete(),
        ensures
            messages.deep_view() == self.deep_view().messages(),
    {
        let ghost round = self.deep_view();
        let mut messages: Vec<Message> = Vec::new();
        let mut i: usize = 0;
        while i < self.calls.len()
            invariant
                i <= self.calls@.len(),
                self.wf(),
                round == self.deep_view(),
                round.complete(),
                messages.deep_view() == round.messages().subrange(0, i as int),
            decreases self.calls@.len() - i,
        {
            let ghost before = messages.deep_view();
            assert(round.calls[i as int] == self.calls@[i as int].deep_view());
            let call_id = &self.calls[i].call_id;
            let result = self.results.get(call_id).unwrap();
            let message = Message::tool_result(call_id.clone(), result.clone());
            assert(message.deep_view() == round.messages()[i as int]);
            messages.push(message);
            assert(messages.deep_view() =~= before.push(message.deep_view()));
            assert(messages.deep_view() =~= round.messages().subrange(0, i + 1));
            i += 1;
        }
        assert(round.messages().subrange(0, i as int) =~= round.messages());
        messages
    }

    /// The calls of the round.
    pub fn calls(&self) -> (calls: &Vec<ToolCall>)
        ensures
            calls.deep_view() == self.deep_view().calls,
    {
        &self.calls
    }
}

/// A task whose call is unknown is put down to the first call that has no
/// result: every call before it has one.
pub proof fn the_first_outstanding_is_found(round: ToolRoundView, i: int)
    requires
        0 <= i < round.calls.len(),
        !round.results.contains_key(round.calls[i].call_id),
        forall|k: int|
            0 <= k < i ==> round.results.contains_key((#[trigger] round.calls[k]).call_id),
    ensures
        round.outstanding_from(0) == Some(round.calls[i].call_id),
{
    first_outstanding_from(round, i, 0);
}

proof fn first_outstanding_from(round: ToolRoundView, i: int, from: int)
    requires
        0 <= from <= i < round.calls.len(),
        !round.results.contains_key(round.calls[i].call_id),
        forall|k: int|
            0 <= k < i ==> round.results.contains_key((#[trigger] round.calls[k]).call_id),
    ensures
        round.outstanding_from(from) == Some(round.calls[i].call_id),
    decreases i - from,
{
    if from < i {
        assert(round.results.contains_key(round.calls[from].call_id));
        first_outstanding_from(round, i, from + 1);
    }
}

/// A round waits until each call has a result, and no longer: when the ids
/// differ it is settled exactly when it is complete. A call that has its
/// result is awaited no more.
pub proof fn rounds_settle_when_complete(round: ToolRoundView, i: int)
    requires
        round.valid(),
        forall|a: int, b: int|
            0 <= a < b < round.calls.len() ==> (#[trigger] round.calls[a]).call_id != (
            #[trigger] round.calls[b]).call_id,
        0 <= i < round.calls.len(),
    ensures
        round.settled() <==> round.complete(),
        round.awaits(round.calls[i].call_id) <==> !round.results.contains_key(
            round.calls[i].call_id,
        ),
{
    if round.settled() {
        settled_is_complete(round);
    }
    if round.complete() {
        let ids = Seq::new(round.calls.len(), |k: int| round.calls[k].call_id);
        assert(ids.no_duplicates()) by {
            assert forall|a: int, b: int| 0 <= a < ids.len() && 0 <= b < ids.len() && a != b implies ids[a]
                != ids[b] by {
                assert(ids[a] == round.calls[a].call_id && ids[b] == round.calls[b].call_id);
                if a < b {
                    assert(round.calls[a].call_id != round.calls[b].call_id);
                } else {
                    assert(round.calls[b].call_id != round.calls[a].call_id);
                }
            }
        }
        ids.unique_seq_to_set();
        assert(ids.to_set().subset_of(round.results.dom())) by {
            assert forall|id: Seq<char>| ids.to_set().contains(id) implies round.results.dom().contains(id) by {
                let k = choose|k: int| 0 <= k < ids.len() && ids[k] == id;
                assert(round.results.contains_key(round.calls[k].call_id));
            }
        }
        vstd::set_lib::lemma_len_subset(ids.to_set(), round.results.dom());
    }
    let id = round.calls[i].call_id;
    assert(round.has(id));
    assert(!round.repeated(id));
}

} // verus!
