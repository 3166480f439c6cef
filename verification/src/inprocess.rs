//! The in-process default implementations: conversation persistence and the
//! bundled memory provider.
//!
//! Both are process-local (data does not survive a restart), deterministic,
//! and dependency-free.

use vstd::prelude::*;

use crate::context::{AssembleOutputView, MemoryContextAssembleOutput, MemoryFailureView};
use crate::conversation::{
    restored, state_of, ConversationCursor, ConversationPage, ConversationQuery,
    ConversationState, ConversationStateView, ConversationStoreError, ConversationStoreErrorView,
    ConversationView, SummaryView,
};
use crate::listing::{
    in_order, is_listing, keyword_matches, listing, listing_is_unique, matches_keyword, page_of,
    page_view, summary_of, ListingBuilder,
};
use crate::memory::{
    Memory, MemoryForgetResult, MemoryItem, MemoryListCursor, MemoryPage, MemoryQuery,
    MemoryStoreError, MemoryStoreErrorView,
};
use crate::message::{copy_messages, text_message_view, Message, MessageView, Role};
use crate::subject::{subject_text, subject_text_is_injective, Subject, SubjectView};
use crate::text::{contains_text, lowercase, same_text};

verus! {

/// In-process conversation store (default implementation): the states by
/// conversation id.
#[derive(Debug)]
pub struct InProcessConversationStore {
    states: Vec<ConversationState>,
}

/// The summaries of the states a condition keeps.
pub open spec fn matching(
    states: Map<Seq<char>, ConversationStateView>,
    keep: spec_fn(ConversationStateView) -> bool,
) -> Set<SummaryView> {
    Set::new(
        |summary: SummaryView|
            exists|id: Seq<char>| #[trigger]
                states.contains_key(id) && keep(states[id]) && summary_of(states[id]) == summary,
    )
}

/// The state stored under an id, as far as it belongs to the subject.
pub open spec fn load_of(
    states: Map<Seq<char>, ConversationStateView>,
    subject: SubjectView,
    id: Seq<char>,
) -> Option<ConversationStateView> {
    if states.contains_key(id) && states[id].subject_id == subject_text(subject) {
        Some(states[id])
    } else {
        None
    }
}

/// Whether a conversation is stale: not ended, stamped, and idle since
/// `before` or longer.
pub open spec fn is_stale(state: ConversationStateView, before: u64) -> bool {
    !state.ended && 0 < state.last_active <= before
}

/// The condition of a listing query.
pub open spec fn satisfies(state: ConversationStateView, keyword: Option<Seq<char>>) -> bool {
    match keyword {
        Some(keyword) => keyword_matches(state, keyword),
        None => true,
    }
}

/// Which states a listing keeps.
enum StateFilter<'a> {
    Stale { before: u64 },
    Keyword(Option<&'a str>),
}

impl<'a> StateFilter<'a> {
    spec fn kept(&self, state: ConversationStateView) -> bool {
        match self {
            StateFilter::Stale { before } => is_stale(state, *before),
            StateFilter::Keyword(keyword) => satisfies(state, keyword.deep_view()),
        }
    }

    fn keeps(&self, state: &ConversationState) -> (kept: bool)
        ensures
            kept == self.kept(state.deep_view()),
            self matches StateFilter::Keyword(Some(keyword)) && keyword@.len() == 0 ==> kept,
    {
        match self {
            StateFilter::Stale { before } => !state.ended && state.last_active > 0
                && state.last_active <= *before,
            StateFilter::Keyword(Some(keyword)) => matches_keyword(state, keyword),
            StateFilter::Keyword(None) => true,
        }
    }
}

impl InProcessConversationStore {
    spec fn key(&self, i: int) -> Seq<char> {
        self.states@[i].id@
    }

    /// No conversation id occurs twice.
    pub closed spec fn wf(&self) -> bool {
        forall|i: int, j: int|
            0 <= i < j < self.states@.len() ==> #[trigger] self.key(i) != #[trigger] self.key(j)
    }
}

impl View for InProcessConversationStore {
    type V = Map<Seq<char>, ConversationStateView>;

    closed spec fn view(&self) -> Map<Seq<char>, ConversationStateView> {
        Map::new(
            |id: Seq<char>|
                exists|i: int| 0 <= i < self.states@.len() && #[trigger] self.key(i) == id,
            |id: Seq<char>|
                {
                    let i = choose|i: int|
                        0 <= i < self.states@.len() && #[trigger] self.key(i) == id;
                    self.states@[i].deep_view()
                },
        )
    }
}

impl InProcessConversationStore {
    /// An empty store.
    pub fn new() -> (store: Self)
        ensures
            store.wf(),
            store@ == Map::<Seq<char>, ConversationStateView>::empty(),
    {
        let store = InProcessConversationStore { states: Vec::new() };
        assert(store@ =~= Map::<Seq<char>, ConversationStateView>::empty());
        store
    }

    /// A stored state is found under its own id.
    proof fn at_key(&self, i: int)
        requires
            self.wf(),
            0 <= i < self.states@.len(),
        ensures
            self@.contains_key(self.key(i)),
            self@[self.key(i)] == self.states@[i].deep_view(),
    {
        let id = self.key(i);
        let k = choose|k: int| 0 <= k < self.states@.len() && #[trigger] self.key(k) == id;
        assert(k == i);
    }

    /// Every state is stored under its own id.
    pub proof fn ids_are_keys(&self, id: Seq<char>)
        requires
            self.wf(),
            self@.contains_key(id),
        ensures
            self@[id].id == id,
    {
        let k = choose|k: int| 0 <= k < self.states@.len() && #[trigger] self.key(k) == id;
        self.at_key(k);
    }

    fn find(&self, id: &str) -> (found: Option<usize>)
        ensures
            match found {
                Some(i) => i < self.states@.len() && self.key(i as int) == id@,
                None => forall|i: int|
                    0 <= i < self.states@.len() ==> #[trigger] self.key(i) != id@,
            },
    {
        let mut i: usize = 0;
        while i < self.states.len()
            invariant
                i <= self.states@.len(),
                forall|k: int| 0 <= k < i ==> #[trigger] self.key(k) != id@,
            decreases self.states@.len() - i,
        {
            if same_text(self.states[i].id.as_str(), id) {
                assert(self.key(i as int) == id@);
                return Some(i);
            }
            assert(self.key(i as int) != id@);
            i += 1;
        }
        None
    }

    /// Loads a conversation's state by id, for a subject.
    pub fn load(&self, subject: &Subject, id: &str) -> (loaded: Result<
        ConversationState,
        ConversationStoreError,
    >)
        requires
            self.wf(),
        ensures
            match loaded {
                Ok(state) => load_of(self@, subject.deep_view(), id@) == Some(state.deep_view()),
                Err(error) => load_of(self@, subject.deep_view(), id@) is None
                    && error.deep_view() == ConversationStoreErrorView::NotFound(id@),
            },
    {
        match self.find(id) {
            Some(i) => {
                proof {
                    self.at_key(i as int);
                }
                let owner = subject.to_string();
                if same_text(self.states[i].subject_id.as_str(), owner.as_str()) {
                    Ok(self.states[i].clone())
                } else {
                    Err(ConversationStoreError::NotFound(id.to_owned()))
                }
            },
            None => Err(ConversationStoreError::NotFound(id.to_owned())),
        }
    }

    /// Saves (upserts) a conversation's state.
    pub fn save(&mut self, state: ConversationState) -> (saved: Result<(), ConversationStoreError>)
        requires
            old(self).wf(),
        ensures
            saved is Ok,
            final(self).wf(),
            final(self)@ == old(self)@.insert(state.deep_view().id, state.deep_view()),
    {
        let ghost before = *self;
        let ghost id = state.id@;
        let ghost value = state.deep_view();
        let ghost place: int;
        match self.find(state.id.as_str()) {
            Some(i) => {
                proof {
                    place = i as int;
                }
                self.states.set(i, state);
                assert forall|k: int| 0 <= k < self.states@.len() implies #[trigger] self.key(k)
                    == before.key(k) by {}
            },
            None => {
                proof {
                    place = self.states@.len() as int;
                }
                self.states.push(state);
                assert forall|k: int| 0 <= k < before.states@.len() implies #[trigger] self.key(k)
                    == before.key(k) by {}
            },
        }
        proof {
            let now = *self;
            assert(now.key(place) == id);
            assert forall|x: Seq<char>| now@.contains_key(x) == before@.insert(
                id,
                value,
            ).contains_key(x) by {
                if before@.contains_key(x) {
                    let k = choose|k: int|
                        0 <= k < before.states@.len() && #[trigger] before.key(k) == x;
                    assert(now.key(k) == x);
                }
                if now@.contains_key(x) {
                    let k = choose|k: int|
                        0 <= k < now.states@.len() && #[trigger] now.key(k) == x;
                    if k != place {
                        assert(before.key(k) == x);
                    }
                }
            }
            assert forall|x: Seq<char>| now@.contains_key(x) implies now@[x] == before@.insert(
                id,
                value,
            )[x] by {
                let k = choose|k: int| 0 <= k < now.states@.len() && #[trigger] now.key(k) == x;
                if x == id {
                    assert(now.key(place) == x);
                    assert(k == place);
                } else {
                    assert(k != place);
                    assert(before.key(k) == x);
                    before.at_key(k);
                }
            }
            assert(now@ =~= before@.insert(id, value));
        }
        Ok(())
    }

    /// The listing of the states a filter keeps.
    fn listing_of(&self, filter: &StateFilter) -> (items: Vec<crate::conversation::ConversationSummary>)
        requires
            self.wf(),
        ensures
            is_listing(
                items.deep_view(),
                matching(self@, |state: ConversationStateView| filter.kept(state)),
            ),
            filter matches StateFilter::Keyword(Some(keyword)) && keyword@.len() == 0 ==> matching(
                self@,
                |state: ConversationStateView| filter.kept(state),
            ) == matching(self@, |state: ConversationStateView| true),
    {
        let ghost keep = |state: ConversationStateView| filter.kept(state);
        let mut builder = ListingBuilder::new();
        let mut i: usize = 0;
        while i < self.states.len()
            invariant
                i <= self.states@.len(),
                self.wf(),
                keep == (|state: ConversationStateView| filter.kept(state)),
                in_order(builder.listed()),
                forall|s: SummaryView| #[trigger]
                    builder.listed().to_set().contains(s) <==> exists|k: int|
                        0 <= k < i && keep(#[trigger] self.states@[k].deep_view()) && summary_of(
                            self.states@[k].deep_view(),
                        ) == s,
                filter matches StateFilter::Keyword(Some(keyword)) && keyword@.len() == 0
                    ==> forall|k: int|
                    0 <= k < i ==> keep(#[trigger] self.states@[k].deep_view()),
            decreases self.states@.len() - i,
        {
            let ghost before = builder.listed();
            let ghost now = self.states@[i as int].deep_view();
            if filter.keeps(&self.states[i]) {
                assert forall|p: int| 0 <= p < before.len() implies (#[trigger] before[p]).id
                    != now.id by {
                    assert(before.to_set().contains(before[p]));
                    let k = choose|k: int|
                        0 <= k < i && keep(#[trigger] self.states@[k].deep_view()) && summary_of(
                            self.states@[k].deep_view(),
                        ) == before[p];
                    assert(self.key(k) != self.key(i as int));
                }
                builder.add_state(&self.states[i]);
                assert forall|s: SummaryView| #[trigger]
                    builder.listed().to_set().contains(s) <==> exists|k: int|
                        0 <= k < i + 1 && keep(#[trigger] self.states@[k].deep_view())
                            && summary_of(self.states@[k].deep_view()) == s by {
                    if before.to_set().contains(s) {
                        let k = choose|k: int|
                            0 <= k < i && keep(#[trigger] self.states@[k].deep_view())
                                && summary_of(self.states@[k].deep_view()) == s;
                        assert(keep(self.states@[k].deep_view()));
                    }
                    if s == summary_of(now) {
                        assert(keep(self.states@[i as int].deep_view()));
                    }
                }
            } else {
                assert forall|s: SummaryView| #[trigger]
                    builder.listed().to_set().contains(s) <==> exists|k: int|
                        0 <= k < i + 1 && keep(#[trigger] self.states@[k].deep_view())
                            && summary_of(self.states@[k].deep_view()) == s by {
                    if builder.listed().to_set().contains(s) {
                        let k = choose|k: int|
                            0 <= k < i && keep(#[trigger] self.states@[k].deep_view())
                                && summary_of(self.states@[k].deep_view()) == s;
                        assert(keep(self.states@[k].deep_view()));
                    }
                }
            }
            i += 1;
        }
        proof {
            let listed = builder.listed().to_set();
            assert forall|s: SummaryView| listed.contains(s) == matching(self@, keep).contains(
                s,
            ) by {
                if listed.contains(s) {
                    let k = choose|k: int|
                        0 <= k < self.states@.len() && keep(#[trigger] self.states@[k].deep_view())
                            && summary_of(self.states@[k].deep_view()) == s;
                    self.at_key(k);
                    assert(self@.contains_key(self.key(k)));
                }
                if matching(self@, keep).contains(s) {
                    let id = choose|id: Seq<char>| #[trigger]
                        self@.contains_key(id) && keep(self@[id]) && summary_of(self@[id]) == s;
                    let k = choose|k: int|
                        0 <= k < self.states@.len() && #[trigger] self.key(k) == id;
                    self.at_key(k);
                    assert(keep(self.states@[k].deep_view()));
                }
            }
            assert(listed =~= matching(self@, keep));
            if filter matches StateFilter::Keyword(Some(keyword)) && keyword@.len() == 0 {
                let all = matching(self@, |state: ConversationStateView| true);
                assert forall|s: SummaryView| all.contains(s) implies matching(
                    self@,
                    keep,
                ).contains(s) by {
                    let id = choose|id: Seq<char>| #[trigger]
                        self@.contains_key(id) && summary_of(self@[id]) == s;
                    let k = choose|k: int|
                        0 <= k < self.states@.len() && #[trigger] self.key(k) == id;
                    self.at_key(k);
                    assert(keep(self.states@[k].deep_view()));
                }
                assert forall|s: SummaryView| matching(self@, keep).contains(
                    s,
                ) implies all.contains(s) by {
                    let id = choose|id: Seq<char>| #[trigger]
                        self@.contains_key(id) && keep(self@[id]) && summary_of(self@[id]) == s;
                    assert(self@.contains_key(id));
                }
                assert(all =~= matching(self@, keep));
            }
        }
        builder.items
    }

    /// One page of the stale conversations: not ended, stamped, and idle
    /// since `before` or longer.
    pub fn list_stale(&self, before: u64, after: Option<ConversationCursor>, limit: usize) -> (page:
        Result<ConversationPage, ConversationStoreError>)
        requires
            self.wf(),
        ensures
            page matches Ok(page) && page.deep_view() == page_view(
                listing(
                    matching(self@, |state: ConversationStateView| is_stale(state, before)),
                ),
                after.deep_view(),
                limit as nat,
            ),
            is_listing(
                listing(
                    matching(self@, |state: ConversationStateView| is_stale(state, before)),
                ),
                matching(self@, |state: ConversationStateView| is_stale(state, before)),
            ),
            listing(
                matching(self@, |state: ConversationStateView| is_stale(state, before)),
            ).len() <= usize::MAX,
    {
        let filter = StateFilter::Stale { before };
        let items = self.listing_of(&filter);
        proof {
            let kept = matching(self@, |state: ConversationStateView| filter.kept(state));
            let stale = matching(self@, |state: ConversationStateView| is_stale(state, before));
            assert(kept =~= stale) by {
                assert forall|s: SummaryView| kept.contains(s) == stale.contains(s) by {
                    if kept.contains(s) {
                        let id = choose|id: Seq<char>| #[trigger]
                            self@.contains_key(id) && filter.kept(self@[id]) && summary_of(
                                self@[id],
                            ) == s;
                        assert(self@.contains_key(id) && is_stale(self@[id], before));
                    }
                    if stale.contains(s) {
                        let id = choose|id: Seq<char>| #[trigger]
                            self@.contains_key(id) && is_stale(self@[id], before) && summary_of(
                                self@[id],
                            ) == s;
                        assert(self@.contains_key(id) && filter.kept(self@[id]));
                    }
                }
            }
            listing_is_unique(items.deep_view(), listing(stale), stale);
            assert(items.deep_view().len() == items@.len());
            assert(items@.len() == items.len());
            assert(listing(stale).len() == items@.len());
        }
        Ok(page_of(&items, after, limit))
    }

    /// One page of the conversations matching a query. An empty keyword
    /// matches everything.
    pub fn list(&self, query: ConversationQuery) -> (page: Result<
        ConversationPage,
        ConversationStoreError,
    >)
        requires
            self.wf(),
        ensures
            page matches Ok(page) && page.deep_view() == page_view(
                listing(
                    matching(
                        self@,
                        |state: ConversationStateView| satisfies(state, query.keyword.deep_view()),
                    ),
                ),
                query.after.deep_view(),
                query.limit as nat,
            ),
            query.keyword.deep_view() == Some(Seq::<char>::empty()) ==> (page matches Ok(page)
                && page.deep_view() == page_view(
                listing(matching(self@, |state: ConversationStateView| true)),
                query.after.deep_view(),
                query.limit as nat,
            )),
            is_listing(
                listing(
                    matching(
                        self@,
                        |state: ConversationStateView| satisfies(state, query.keyword.deep_view()),
                    ),
                ),
                matching(
                    self@,
                    |state: ConversationStateView| satisfies(state, query.keyword.deep_view()),
                ),
            ),
    {
        let keyword = match &query.keyword {
            Some(keyword) => Some(keyword.as_str()),
            None => None,
        };
        let filter = StateFilter::Keyword(keyword);
        let items = self.listing_of(&filter);
        proof {
            let word = query.keyword.deep_view();
            let kept = matching(self@, |state: ConversationStateView| filter.kept(state));
            let found = matching(self@, |state: ConversationStateView| satisfies(state, word));
            assert(kept =~= found) by {
                assert forall|s: SummaryView| kept.contains(s) == found.contains(s) by {
                    if kept.contains(s) {
                        let id = choose|id: Seq<char>| #[trigger]
                            self@.contains_key(id) && filter.kept(self@[id]) && summary_of(
                                self@[id],
                            ) == s;
                        assert(self@.contains_key(id) && satisfies(self@[id], word));
                    }
                    if found.contains(s) {
                        let id = choose|id: Seq<char>| #[trigger]
                            self@.contains_key(id) && satisfies(self@[id], word) && summary_of(
                                self@[id],
                            ) == s;
                        assert(self@.contains_key(id) && filter.kept(self@[id]));
                    }
                }
            }
            listing_is_unique(items.deep_view(), listing(found), found);
            assert(items.deep_view().len() == items@.len());
            assert(items@.len() == items.len());
            assert(listing(found).len() == items@.len());
        }
        Ok(page_of(&items, query.after, query.limit))
    }
}

/// What was saved is what is loaded: a saved conversation is restored
/// unchanged for its subject, is not found for any other subject, and leaves
/// the conversations under other ids as they were.
pub proof fn saving_then_loading(
    states: Map<Seq<char>, ConversationStateView>,
    conversation: ConversationView,
    now: u64,
    other_subject: SubjectView,
    other_id: Seq<char>,
)
    requires
        other_subject != conversation.subject,
        other_id != conversation.id,
    ensures
        ({
            let saved = states.insert(conversation.id, state_of(conversation, now));
            &&& load_of(saved, conversation.subject, conversation.id) matches Some(state)
            &&& restored(conversation.subject, state) == conversation
            &&& load_of(saved, other_subject, conversation.id) is None
            &&& load_of(saved, conversation.subject, other_id) == load_of(
                states,
                conversation.subject,
                other_id,
            )
            &&& load_of(saved, other_subject, other_id) == load_of(states, other_subject, other_id)
        }),
{
    if subject_text(other_subject) == subject_text(conversation.subject) {
        subject_text_is_injective(other_subject, conversation.subject);
    }
}

/// How many recent messages the bundled provider replays as the run's
/// conversation window.
pub const DEFAULT_WINDOW_MESSAGES: usize = 40;

/// The last messages that fit the window.
pub open spec fn window(messages: Seq<MessageView>) -> Seq<MessageView> {
    if messages.len() <= DEFAULT_WINDOW_MESSAGES {
        messages
    } else {
        messages.skip(messages.len() - DEFAULT_WINDOW_MESSAGES)
    }
}

/// The recent messages of one conversation.
#[derive(Debug)]
struct TurnEntry {
    subject: String,
    conversation: String,
    messages: Vec<Message>,
}

/// The bundled provider's turn store: the recent messages of each
/// conversation, oldest first.
#[derive(Debug)]
pub struct InProcessTurnStore {
    entries: Vec<TurnEntry>,
}

impl InProcessTurnStore {
    spec fn key(&self, i: int) -> (Seq<char>, Seq<char>) {
        (self.entries@[i].subject@, self.entries@[i].conversation@)
    }

    /// No conversation occurs twice, and each keeps a window of its messages.
    pub closed spec fn wf(&self) -> bool {
        &&& forall|i: int, j: int|
            0 <= i < j < self.entries@.len() ==> #[trigger] self.key(i) != #[trigger] self.key(j)
        &&& forall|i: int|
            0 <= i < self.entries@.len() ==> (#[trigger] self.entries@[i]).messages@.len()
                <= DEFAULT_WINDOW_MESSAGES
    }

    /// The recent messages by subject (in text form) and conversation id.
    pub closed spec fn kept(&self) -> Map<(Seq<char>, Seq<char>), Seq<MessageView>> {
        Map::new(
            |key: (Seq<char>, Seq<char>)|
                exists|i: int| 0 <= i < self.entries@.len() && #[trigger] self.key(i) == key,
            |key: (Seq<char>, Seq<char>)|
                {
                    let i = choose|i: int|
                        0 <= i < self.entries@.len() && #[trigger] self.key(i) == key;
                    self.entries@[i].messages.deep_view()
                },
        )
    }

    /// The recent messages of a conversation; none when it is unknown.
    pub open spec fn replayed(&self, subject: Seq<char>, conversation: Seq<char>) -> Seq<
        MessageView,
    > {
        if self.kept().contains_key((subject, conversation)) {
            self.kept()[(subject, conversation)]
        } else {
            Seq::empty()
        }
    }

    proof fn at_key(&self, i: int)
        requires
            self.wf(),
            0 <= i < self.entries@.len(),
        ensures
            self.kept().contains_key(self.key(i)),
            self.kept()[self.key(i)] == self.entries@[i].messages.deep_view(),
    {
        let key = self.key(i);
        let k = choose|k: int| 0 <= k < self.entries@.len() && #[trigger] self.key(k) == key;
        assert(k == i);
    }

    /// No conversation replays more than the window holds.
    pub proof fn replay_is_bounded(&self, subject: Seq<char>, conversation: Seq<char>)
        requires
            self.wf(),
        ensures
            self.replayed(subject, conversation).len() <= DEFAULT_WINDOW_MESSAGES,
    {
        let key = (subject, conversation);
        if self.kept().contains_key(key) {
            let i = choose|i: int| 0 <= i < self.entries@.len() && #[trigger] self.key(i) == key;
            self.at_key(i);
            assert(self.entries@[i].messages@.len() <= DEFAULT_WINDOW_MESSAGES);
        }
    }

    /// An empty store.
    pub fn new() -> (store: Self)
        ensures
            store.wf(),
            store.kept() == Map::<(Seq<char>, Seq<char>), Seq<MessageView>>::empty(),
    {
        let store = InProcessTurnStore { entries: Vec::new() };
        assert(store.kept() =~= Map::<(Seq<char>, Seq<char>), Seq<MessageView>>::empty());
        store
    }

    fn find(&self, subject: &str, conversation: &str) -> (found: Option<usize>)
        ensures
            match found {
                Some(i) => i < self.entries@.len() && self.key(i as int) == (
                    subject@,
                    conversation@,
                ),
                None => forall|i: int|
                    0 <= i < self.entries@.len() ==> #[trigger] self.key(i) != (
                        subject@,
                        conversation@,
                    ),
            },
    {
        let mut i: usize = 0;
        while i < self.entries.len()
            invariant
                i <= self.entries@.len(),
                forall|k: int|
                    0 <= k < i ==> #[trigger] self.key(k) != (subject@, conversation@),
            decreases self.entries@.len() - i,
        {
            let entry = &self.entries[i];
            if same_text(entry.subject.as_str(), subject) && same_text(
                entry.conversation.as_str(),
                conversation,
            ) {
                assert(self.key(i as int) == (subject@, conversation@));
                return Some(i);
            }
            assert(self.key(i as int) != (subject@, conversation@));
            i += 1;
        }
        None
    }

    /// Appends messages to a conversation's window; the oldest messages
    /// beyond the window are dropped. Appending nothing changes nothing.
    pub fn append(&mut self, subject: &Subject, conversation_id: &str, messages: Vec<Message>)
        requires
            old(self).wf(),
        ensures
            final(self).wf(),
            final(self).kept() == (if messages@.len() == 0 {
                old(self).kept()
            } else {
                old(self).kept().insert(
                    (subject_text(subject.deep_view()), conversation_id@),
                    window(
                        old(self).replayed(subject_text(subject.deep_view()), conversation_id@)
                            + messages.deep_view(),
                    ),
                )
            }),
    {
        if messages.len() == 0 {
            return ;
        }
        let ghost before = *self;
        let owner = subject.to_string();
        let ghost key = (owner@, conversation_id@);
        let ghost earlier = before.replayed(owner@, conversation_id@);
        let ghost given = messages.deep_view();
        let ghost place: int;
        let mut messages = messages;
        match self.find(owner.as_str(), conversation_id) {
            Some(i) => {
                proof {
                    place = i as int;
                    before.at_key(i as int);
                }
                let mut all = copy_messages(
                    &self.entries[i].messages,
                    0,
                    self.entries[i].messages.len(),
                );
                assert(all.deep_view() =~= earlier);
                all.append(&mut messages);
                assert(all.deep_view() =~= earlier + given);
                let kept = Self::bounded(all);
                let entry = TurnEntry {
                    subject: owner,
                    conversation: conversation_id.to_owned(),
                    messages: kept,
                };
                self.entries.set(i, entry);
                assert forall|k: int| 0 <= k < self.entries@.len() implies #[trigger] self.key(k)
                    == before.key(k) by {}
            },
            None => {
                proof {
                    place = self.entries@.len() as int;
                }
                assert(messages.deep_view() =~= earlier + given);
                let kept = Self::bounded(messages);
                self.entries.push(
                    TurnEntry {
                        subject: owner,
                        conversation: conversation_id.to_owned(),
                        messages: kept,
                    },
                );
                assert forall|k: int| 0 <= k < before.entries@.len() implies #[trigger] self.key(k)
                    == before.key(k) by {}
            },
        }
        proof {
            let now = *self;
            let value = window(earlier + given);
            assert(now.key(place) == key);
            assert forall|x: (Seq<char>, Seq<char>)| now.kept().contains_key(x)
                == before.kept().insert(key, value).contains_key(x) by {
                if before.kept().contains_key(x) {
                    let k = choose|k: int|
                        0 <= k < before.entries@.len() && #[trigger] before.key(k) == x;
                    assert(now.key(k) == x);
                }
                if now.kept().contains_key(x) {
                    let k = choose|k: int|
                        0 <= k < now.entries@.len() && #[trigger] now.key(k) == x;
                    if k != place {
                        assert(before.key(k) == x);
                    }
                }
            }
            assert forall|x: (Seq<char>, Seq<char>)| now.kept().contains_key(
                x,
            ) implies now.kept()[x] == before.kept().insert(key, value)[x] by {
                let k = choose|k: int| 0 <= k < now.entries@.len() && #[trigger] now.key(k) == x;
                if x == key {
                    assert(now.key(place) == x);
                    assert(k == place);
                } else {
                    assert(k != place);
                    assert(before.key(k) == x);
                    before.at_key(k);
                }
            }
            assert(now.kept() =~= before.kept().insert(key, value));
        }
    }

    fn bounded(all: Vec<Message>) -> (kept: Vec<Message>)
        ensures
            kept@.len() <= DEFAULT_WINDOW_MESSAGES,
            kept.deep_view() == window(all.deep_view()),
    {
        let ghost given = all.deep_view();
        let mut all = all;
        if all.len() > DEFAULT_WINDOW_MESSAGES {
            let excess: usize = all.len() - DEFAULT_WINDOW_MESSAGES;
            let kept = all.split_off(excess);
            assert(kept.deep_view() =~= given.skip(excess as int));
            kept
        } else {
            all
        }
    }

    /// The recent messages of a conversation, oldest first.
    pub fn recent(&self, subject: &Subject, conversation_id: &str) -> (messages: Vec<Message>)
        requires
            self.wf(),
        ensures
            messages.deep_view() == self.replayed(
                subject_text(subject.deep_view()),
                conversation_id@,
            ),
    {
        let owner = subject.to_string();
        match self.find(owner.as_str(), conversation_id) {
            Some(i) => {
                proof {
                    self.at_key(i as int);
                }
                let messages = self.entries[i].messages.clone();
                assert(messages.deep_view() =~= self.entries@[i as int].messages.deep_view());
                messages
            },
            None => {
                let messages: Vec<Message> = Vec::new();
                assert(messages.deep_view() =~= Seq::<MessageView>::empty());
                messages
            },
        }
    }
}

/// The window never holds more than its bound, and what was appended last is
/// in it.
pub proof fn the_window_is_bounded(messages: Seq<MessageView>)
    ensures
        window(messages).len() <= DEFAULT_WINDOW_MESSAGES,
        messages.len() > 0 ==> window(messages).len() > 0 && window(messages).last()
            == messages.last(),
{
}

/// A short window keeps the windowed messages: cutting early loses nothing
/// that would be kept later.
pub proof fn windows_compose(messages: Seq<MessageView>, more: Seq<MessageView>)
    ensures
        window(window(messages) + more) == window(messages + more),
{
    assert(window(window(messages) + more) =~= window(messages + more));
}

/// The bundled provider's management face: minimal by design (no entries).
#[derive(Debug, Clone, Copy)]
pub struct InProcessMemory;

impl Memory for InProcessMemory {
    fn list(&self, subject: &Subject, query: MemoryQuery) -> (page: Result<
        MemoryPage<MemoryItem, MemoryListCursor>,
        MemoryStoreError,
    >)
        ensures
            page matches Ok(page) && page.items@.len() == 0 && page.next is None,
    {
        Ok(MemoryPage::new(Vec::new(), None))
    }

    fn get(&self, subject: &Subject, id: &str) -> (item: Result<
        Option<MemoryItem>,
        MemoryStoreError,
    >)
        ensures
            item matches Ok(item) && item is None,
    {
        Ok(None)
    }

    fn edit(&self, subject: &Subject, id: &str, content: &str) -> (item: Result<
        MemoryItem,
        MemoryStoreError,
    >)
        ensures
            item matches Err(error) && error.deep_view() == MemoryStoreErrorView::EntryNotFound(id@),
    {
        Err(MemoryStoreError::EntryNotFound(id.to_owned()))
    }

    fn forget(&self, subject: &Subject, id: &str) -> (result: Result<
        MemoryForgetResult,
        MemoryStoreError,
    >)
        ensures
            result matches Ok(result) && result.removed == 0 && result.failures@.len() == 0,
    {
        Ok(MemoryForgetResult::new(0, Vec::new()))
    }

    fn forget_matching(&self, subject: &Subject, query: MemoryQuery) -> (result: Result<
        MemoryForgetResult,
        MemoryStoreError,
    >)
        ensures
            result matches Ok(result) && result.removed == 0 && result.failures@.len() == 0,
    {
        Ok(MemoryForgetResult::new(0, Vec::new()))
    }
}

/// The frame the bundled provider assembles: the conversation's recent
/// messages followed by this turn's model-visible user message.
pub fn assemble_window(
    store: &InProcessTurnStore,
    subject: &Subject,
    conversation_id: &str,
    input: &str,
    rewritten_input: Option<&str>,
) -> (output: MemoryContextAssembleOutput)
    requires
        store.wf(),
    ensures
        output.deep_view() == (AssembleOutputView {
            messages: store.replayed(subject_text(subject.deep_view()), conversation_id@).push(
                text_message_view(
                    Role::User,
                    match rewritten_input {
                        Some(rewritten) => rewritten@,
                        None => input@,
                    },
                ),
            ),
            failures: Seq::<MemoryFailureView>::empty(),
        }),
{
    let mut messages = store.recent(subject, conversation_id);
    let ghost recent = messages.deep_view();
    let shown = match rewritten_input {
        Some(rewritten) => rewritten,
        None => input,
    };
    let message = Message::user(shown);
    messages.push(message);
    assert(messages.deep_view() =~= recent.push(message.deep_view()));
    let output = MemoryContextAssembleOutput::new(messages, Vec::new());
    assert(output.deep_view().failures =~= Seq::<MemoryFailureView>::empty());
    output
}

/// Archives a completed turn into the bundled store: the user input and the
/// messages the turn added.
pub fn archive_window(
    store: &mut InProcessTurnStore,
    subject: &Subject,
    conversation_id: &str,
    input: &str,
    responses: &Vec<Message>,
)
    requires
        old(store).wf(),
    ensures
        final(store).wf(),
        final(store).kept() == old(store).kept().insert(
            (subject_text(subject.deep_view()), conversation_id@),
            window(
                old(store).replayed(subject_text(subject.deep_view()), conversation_id@) + (seq![
                    text_message_view(Role::User, input@),
                ] + responses.deep_view()),
            ),
        ),
{
    let mut messages: Vec<Message> = Vec::new();
    messages.push(Message::user(input));
    let mut added = copy_messages(responses, 0, responses.len());
    assert(added.deep_view() =~= responses.deep_view());
    messages.append(&mut added);
    assert(messages.deep_view() =~= seq![text_message_view(Role::User, input@)]
        + responses.deep_view());
    store.append(subject, conversation_id, messages);
}

/// What was archived is replayed: after a turn is archived, the frame of the
/// next turn shows its input and its responses, as far as the window
/// reaches; other conversations replay what they did before.
pub proof fn archived_turns_are_replayed(
    before: InProcessTurnStore,
    now: InProcessTurnStore,
    key: (Seq<char>, Seq<char>),
    turn: Seq<MessageView>,
    other: (Seq<char>, Seq<char>),
)
    requires
        now.kept() == before.kept().insert(key, window(before.replayed(key.0, key.1) + turn)),
        other != key,
    ensures
        now.replayed(key.0, key.1) == window(before.replayed(key.0, key.1) + turn),
        now.replayed(other.0, other.1) == before.replayed(other.0, other.1),
{
}

/// The window is the newest part of the messages, in order and without a
/// gap, and as long as it can be: only messages older than it are left out,
/// and none while there is room.
pub proof fn the_window_is_the_newest_part(messages: Seq<MessageView>)
    ensures
        window(messages).len() <= messages.len(),
        messages == messages.take(messages.len() - window(messages).len()) + window(messages),
        window(messages).len() < DEFAULT_WINDOW_MESSAGES ==> window(messages) == messages,
{
    assert(messages =~= messages.take(messages.len() - window(messages).len()) + window(messages));
}

/// A conversation is stale once it has been idle for long enough, as long as
/// it has not ended and was ever active, and stays so as time goes on.
pub proof fn idle_conversations_are_stale(state: ConversationStateView, before: u64, later: u64)
    ensures
        is_stale(state, before) <==> !(state.ended || state.last_active == 0 || state.last_active
            > before),
        is_stale(state, before) && before <= later ==> is_stale(state, later),
{
}

/// A listing shows a conversation exactly when the condition keeps it, and
/// shows all of its metadata: no conversation is hidden by another.
pub proof fn listings_show_what_is_kept(
    states: Map<Seq<char>, ConversationStateView>,
    keep: spec_fn(ConversationStateView) -> bool,
    id: Seq<char>,
)
    requires
        forall|key: Seq<char>| #[trigger] states.contains_key(key) ==> states[key].id == key,
        states.contains_key(id),
    ensures
        ({
            let state = states[id];
            matching(states, keep).contains(
                SummaryView {
                    id,
                    subject_id: state.subject_id,
                    topic: state.topic,
                    last_active: state.last_active,
                    ended: state.ended,
                },
            ) <==> keep(state)
        }),
        forall|summary: SummaryView| #[trigger]
            matching(states, keep).contains(summary) ==> states.contains_key(summary.id) && keep(
                states[summary.id],
            ),
{
    let state = states[id];
    let shown = SummaryView {
        id,
        subject_id: state.subject_id,
        topic: state.topic,
        last_active: state.last_active,
        ended: state.ended,
    };
    if matching(states, keep).contains(shown) {
        let key = choose|key: Seq<char>| #[trigger]
            states.contains_key(key) && keep(states[key]) && summary_of(states[key]) == shown;
        assert(key == id);
    }
    if keep(state) {
        assert(states.contains_key(id) && keep(states[id]) && summary_of(states[id]) == shown);
    }
    assert forall|summary: SummaryView| #[trigger]
        matching(states, keep).contains(summary) implies states.contains_key(summary.id) && keep(
        states[summary.id],
    ) by {
        let key = choose|key: Seq<char>| #[trigger]
            states.contains_key(key) && keep(states[key]) && summary_of(states[key]) == summary;
        assert(states[key].id == key);
    }
}

/// A query with a keyword keeps the conversations whose id, subject, or
/// topic has it in it, in whatever case, and a query without one keeps all.
pub proof fn queries_filter_by_keyword(state: ConversationStateView, keyword: Seq<char>)
    ensures
        satisfies(state, None),
        satisfies(state, Some(keyword)) <==> contains_text(
            lowercase(state.id),
            lowercase(keyword),
        ) || contains_text(lowercase(state.subject_id), lowercase(keyword)) || (state.topic is Some
            && contains_text(lowercase(state.topic->0), lowercase(keyword))),
{
}

/// The frame [`assemble_window`] gives is what the conversation replays,
/// unchanged, and behind it the turn's input, as it was rewritten if it was;
/// the assembly itself never fails.
pub proof fn frames_end_with_the_input(
    store: InProcessTurnStore,
    subject: Subject,
    conversation_id: &str,
    input: &str,
    rewritten: Option<&str>,
    output: MemoryContextAssembleOutput,
)
    requires
        store.wf(),
        call_ensures(
            assemble_window,
            (&store, &subject, conversation_id, input, rewritten),
            output,
        ),
    ensures
        ({
            let frame = output.deep_view().messages;
            &&& frame.len() > 0
            &&& frame.drop_last() == store.replayed(
                subject_text(subject.deep_view()),
                conversation_id@,
            )
            &&& frame.last().role == Role::User
            &&& rewritten is None ==> frame.last() == text_message_view(Role::User, input@)
            &&& rewritten matches Some(text) ==> frame.last() == text_message_view(
                Role::User,
                text@,
            )
            &&& frame.len() <= DEFAULT_WINDOW_MESSAGES + 1
            &&& output.deep_view().failures.len() == 0
        }),
{
    store.replay_is_bounded(subject_text(subject.deep_view()), conversation_id@);
    let recent = store.replayed(subject_text(subject.deep_view()), conversation_id@);
    assert(output.deep_view().messages.drop_last() =~= recent);
}

} // verus!
