//! The conversation listing: its order, its keyset pages, and the metadata
//! keyword match.
//!
//! The listing order is `last_active` descending, `id` ascending. A page
//! resumes strictly after a cursor, which is a position in that order and
//! not an offset.

use vstd::prelude::*;

use crate::conversation::{
    ConversationCursor, ConversationPage, ConversationState, ConversationStateView,
    ConversationSummary, CursorView, PageView, SummaryView,
};
use crate::text::{
    contains_text, has_text, lowercase, precedes, precedes_irreflexive, precedes_total,
    precedes_transitive, text_precedes, to_lowercase,
};

verus! {

/// What a listing shows of a state.
pub open spec fn summary_of(state: ConversationStateView) -> SummaryView {
    SummaryView {
        id: state.id,
        subject_id: state.subject_id,
        topic: state.topic,
        last_active: state.last_active,
        ended: state.ended,
    }
}

/// The position of an item in the listing order.
pub open spec fn cursor_of(item: SummaryView) -> CursorView {
    CursorView { last_active: item.last_active, id: item.id }
}

/// Whether `item` sits strictly after the cursor in the listing order.
pub open spec fn is_past(item: SummaryView, cursor: CursorView) -> bool {
    item.last_active < cursor.last_active || (item.last_active == cursor.last_active && precedes(
        cursor.id,
        item.id,
    ))
}

/// Whether `a` is listed before `b`.
pub open spec fn lists_before(a: SummaryView, b: SummaryView) -> bool {
    is_past(b, cursor_of(a))
}

/// Whether the items stand in listing order, none twice.
pub open spec fn in_order(items: Seq<SummaryView>) -> bool {
    forall|i: int, j: int| 0 <= i < j < items.len() ==> lists_before(items[i], items[j])
}

/// Whether a sequence lists exactly the given items.
pub open spec fn is_listing(items: Seq<SummaryView>, of: Set<SummaryView>) -> bool {
    in_order(items) && items.to_set() == of
}

/// The listing of the given items.
pub open spec fn listing(of: Set<SummaryView>) -> Seq<SummaryView> {
    choose|items: Seq<SummaryView>| is_listing(items, of)
}

/// The place of the first item from `i` on that sits past the cursor.
pub open spec fn first_past(items: Seq<SummaryView>, cursor: CursorView, i: int) -> int
    decreases items.len() - i,
{
    if i >= items.len() {
        items.len() as int
    } else if is_past(items[i], cursor) {
        i
    } else {
        first_past(items, cursor, i + 1)
    }
}

/// What is left of a listing after a cursor; all of it without one.
pub open spec fn rest_after(items: Seq<SummaryView>, after: Option<CursorView>) -> Seq<SummaryView> {
    match after {
        Some(cursor) => items.skip(first_past(items, cursor, 0)),
        None => items,
    }
}

/// The page of a listing after a cursor: at most `limit` items, and where to
/// resume if more are left.
pub open spec fn page_view(
    items: Seq<SummaryView>,
    after: Option<CursorView>,
    limit: nat,
) -> PageView {
    let rest = rest_after(items, after);
    if limit == 0 {
        PageView { items: Seq::empty(), next: None }
    } else if rest.len() > limit {
        PageView { items: rest.take(limit as int), next: Some(cursor_of(rest[limit - 1])) }
    } else {
        PageView { items: rest, next: None }
    }
}

/// Nothing is listed before itself.
proof fn lists_before_irreflexive(a: SummaryView)
    ensures
        !lists_before(a, a),
{
    precedes_irreflexive(a.id);
}

/// The listing order is transitive.
pub proof fn lists_before_transitive(a: SummaryView, b: SummaryView, c: SummaryView)
    requires
        lists_before(a, b),
        lists_before(b, c),
    ensures
        lists_before(a, c),
{
    if a.last_active == b.last_active && b.last_active == c.last_active {
        precedes_transitive(a.id, b.id, c.id);
    }
}

/// Of two conversations with different ids one is listed before the other.
pub proof fn lists_before_total(a: SummaryView, b: SummaryView)
    requires
        a.id != b.id,
    ensures
        lists_before(a, b) || lists_before(b, a),
{
    precedes_total(a.id, b.id);
}

/// There is only one listing of given items.
pub proof fn listing_is_unique(a: Seq<SummaryView>, b: Seq<SummaryView>, of: Set<SummaryView>)
    requires
        is_listing(a, of),
        is_listing(b, of),
    ensures
        a == b,
    decreases a.len(),
{
    if a.len() == 0 {
        if b.len() > 0 {
            assert(b.to_set().contains(b[0]));
            assert(a.to_set().contains(b[0]));
        }
        assert(a =~= b);
    } else {
        assert(a.to_set().contains(a[0]));
        assert(b.to_set().contains(a[0]));
        let i = choose|i: int| 0 <= i < b.len() && b[i] == a[0];
        assert(b.to_set().contains(b[0]));
        assert(a.to_set().contains(b[0]));
        let j = choose|j: int| 0 <= j < a.len() && a[j] == b[0];
        if i != 0 {
            assert(lists_before(b[0], b[i]));
            if j != 0 {
                assert(lists_before(a[0], a[j]));
                lists_before_transitive(a[0], b[0], a[0]);
            }
            lists_before_irreflexive(a[0]);
        }
        let a1 = a.drop_first();
        let b1 = b.drop_first();
        let less = of.remove(a[0]);
        rest_is_listing(a, of);
        rest_is_listing(b, of);
        listing_is_unique(a1, b1, less);
        assert(a =~= seq![a[0]] + a1);
        assert(b =~= seq![b[0]] + b1);
    }
}

proof fn rest_is_listing(items: Seq<SummaryView>, of: Set<SummaryView>)
    requires
        is_listing(items, of),
        items.len() > 0,
    ensures
        is_listing(items.drop_first(), of.remove(items[0])),
{
    let rest = items.drop_first();
    assert forall|i: int, j: int| 0 <= i < j < rest.len() implies lists_before(
        rest[i],
        rest[j],
    ) by {
        assert(rest[i] == items[i + 1] && rest[j] == items[j + 1]);
    }
    assert forall|x: SummaryView| rest.to_set().contains(x) == of.remove(items[0]).contains(x) by {
        if rest.to_set().contains(x) {
            let i = choose|i: int| 0 <= i < rest.len() && rest[i] == x;
            assert(items[i + 1] == x);
            assert(items.to_set().contains(x));
            assert(lists_before(items[0], items[i + 1]));
            lists_before_irreflexive(x);
        }
        if of.remove(items[0]).contains(x) {
            assert(items.to_set().contains(x));
            let i = choose|i: int| 0 <= i < items.len() && items[i] == x;
            assert(rest[i - 1] == x);
        }
    }
    assert(rest.to_set() =~= of.remove(items[0]));
}

/// `first_past` finds the first place past the cursor.
proof fn first_past_is_first(items: Seq<SummaryView>, cursor: CursorView, from: int)
    requires
        0 <= from <= items.len(),
    ensures
        from <= first_past(items, cursor, from) <= items.len(),
        forall|k: int|
            from <= k < first_past(items, cursor, from) ==> !is_past(#[trigger] items[k], cursor),
        first_past(items, cursor, from) < items.len() ==> is_past(
            items[first_past(items, cursor, from)],
            cursor,
        ),
    decreases items.len() - from,
{
    if from < items.len() && !is_past(items[from], cursor) {
        first_past_is_first(items, cursor, from + 1);
    }
}

/// After an item's own position the listing goes on with the next item.
proof fn first_past_own_position(items: Seq<SummaryView>, k: int)
    requires
        in_order(items),
        0 <= k < items.len(),
    ensures
        first_past(items, cursor_of(items[k]), 0) == k + 1,
{
    let cursor = cursor_of(items[k]);
    let found = first_past(items, cursor, 0);
    first_past_is_first(items, cursor, 0);
    if found <= k {
        if found < k {
            assert(lists_before(items[found], items[k]));
            lists_before_transitive(items[found], items[k], items[found]);
        }
        lists_before_irreflexive(items[found]);
        assert(false);
    }
    if k + 1 < found {
        assert(lists_before(items[k], items[k + 1]));
        assert(!is_past(items[k + 1], cursor));
    }
}

/// Pages partition the listing: what is left after a cursor is the page and
/// what is left after the page's own cursor. Following `next` until there is
/// none walks the whole listing, each item once.
pub proof fn pages_partition_the_listing(
    items: Seq<SummaryView>,
    after: Option<CursorView>,
    limit: nat,
)
    requires
        in_order(items),
        limit > 0,
    ensures
        match page_view(items, after, limit).next {
            Some(cursor) => rest_after(items, after) == page_view(items, after, limit).items
                + rest_after(items, Some(cursor)),
            None => rest_after(items, after) == page_view(items, after, limit).items,
        },
        page_view(items, after, limit).items.len() <= limit,
        page_view(items, after, limit).next is Some ==> page_view(items, after, limit).items.len()
            == limit,
{
    let rest = rest_after(items, after);
    if let Some(cursor) = after {
        first_past_is_first(items, cursor, 0);
    }
    if rest.len() > limit {
        let start = items.len() - rest.len();
        let last = start + limit - 1;
        assert(rest[limit - 1] == items[last]);
        first_past_own_position(items, last);
        assert(rest =~= rest.take(limit as int) + items.skip(last + 1));
    }
}

/// A cursor is a value: what is left after it is what the listing holds past
/// it, whatever else was listed or removed before.
pub proof fn cursors_are_values(items: Seq<SummaryView>, cursor: CursorView, item: SummaryView)
    requires
        in_order(items),
    ensures
        rest_after(items, Some(cursor)).contains(item) == (items.contains(item) && is_past(
            item,
            cursor,
        )),
{
    let start = first_past(items, cursor, 0);
    first_past_is_first(items, cursor, 0);
    let rest = rest_after(items, Some(cursor));
    if rest.contains(item) {
        let i = choose|i: int| 0 <= i < rest.len() && rest[i] == item;
        assert(items[start + i] == item);
        if i > 0 {
            assert(lists_before(items[start], items[start + i]));
            past_is_upward(items[start], item, cursor);
        }
    }
    if items.contains(item) && is_past(item, cursor) {
        let i = choose|i: int| 0 <= i < items.len() && items[i] == item;
        assert(start <= i);
        assert(rest[i - start] == item);
    }
}

proof fn past_is_upward(a: SummaryView, b: SummaryView, cursor: CursorView)
    requires
        is_past(a, cursor),
        lists_before(a, b),
    ensures
        is_past(b, cursor),
{
    if a.last_active == cursor.last_active && b.last_active == a.last_active {
        precedes_transitive(cursor.id, a.id, b.id);
    }
}

/// What is left of a listing after a cursor stands in listing order.
pub proof fn rest_in_order(items: Seq<SummaryView>, cursor: CursorView)
    requires
        in_order(items),
    ensures
        in_order(rest_after(items, Some(cursor))),
{
    let start = first_past(items, cursor, 0);
    first_past_is_first(items, cursor, 0);
    let rest = rest_after(items, Some(cursor));
    assert forall|i: int, j: int| 0 <= i < j < rest.len() implies lists_before(
        rest[i],
        rest[j],
    ) by {
        assert(rest[i] == items[start + i] && rest[j] == items[start + j]);
    }
}

/// Whether `item` sits strictly after the cursor in the listing order.
pub fn is_after(item: &ConversationSummary, cursor: &ConversationCursor) -> (after: bool)
    ensures
        after == is_past(item.deep_view(), cursor.deep_view()),
{
    item.last_active < cursor.last_active || (item.last_active == cursor.last_active
        && text_precedes(cursor.id.as_str(), item.id.as_str()))
}

fn is_listed_before(a: &ConversationSummary, b: &ConversationSummary) -> (before: bool)
    ensures
        before == lists_before(a.deep_view(), b.deep_view()),
{
    b.last_active < a.last_active || (b.last_active == a.last_active && text_precedes(
        a.id.as_str(),
        b.id.as_str(),
    ))
}

/// Puts a summary into its place in a listing that does not have its id.
fn insert_in_order(items: &mut Vec<ConversationSummary>, summary: ConversationSummary)
    requires
        in_order(old(items).deep_view()),
        forall|i: int|
            0 <= i < old(items)@.len() ==> (#[trigger] old(items).deep_view()[i]).id
                != summary.deep_view().id,
    ensures
        in_order(final(items).deep_view()),
        final(items).deep_view().to_set() == old(items).deep_view().to_set().insert(
            summary.deep_view(),
        ),
{
    let ghost before = items.deep_view();
    let ghost x = summary.deep_view();
    let mut at: usize = 0;
    while at < items.len() && !is_listed_before(&summary, &items[at])
        invariant
            at <= items@.len(),
            before == items.deep_view(),
            x == summary.deep_view(),
            forall|i: int| 0 <= i < before.len() ==> (#[trigger] before[i]).id != x.id,
            forall|i: int| 0 <= i < at ==> lists_before(#[trigger] before[i], x),
        decreases items@.len() - at,
    {
        proof {
            assert(before[at as int] == items@[at as int].deep_view());
            lists_before_total(before[at as int], x);
        }
        at += 1;
    }
    items.insert(at, summary);
    proof {
        let now = items.deep_view();
        assert(now =~= before.insert(at as int, x));
        assert forall|i: int, j: int| 0 <= i < j < now.len() implies lists_before(now[i], now[j]) by {
            if i == at {
                if j > at + 1 {
                    assert(lists_before(before[at as int], before[j - 1]));
                    lists_before_transitive(x, before[at as int], before[j - 1]);
                }
            } else if j == at {
                assert(now[i] == before[i]);
            } else {
                let p = if i < at {
                    i
                } else {
                    i - 1
                };
                let q = if j < at {
                    j
                } else {
                    j - 1
                };
                assert(now[i] == before[p] && now[j] == before[q]);
            }
        }
        assert forall|y: SummaryView| now.to_set().contains(y) == before.to_set().insert(
            x,
        ).contains(y) by {
            if now.to_set().contains(y) {
                let i = choose|i: int| 0 <= i < now.len() && now[i] == y;
                if i < at {
                    assert(before[i] == y);
                } else if i > at {
                    assert(before[i - 1] == y);
                }
            }
            if before.to_set().contains(y) {
                let i = choose|i: int| 0 <= i < before.len() && before[i] == y;
                if i < at {
                    assert(now[i] == y);
                } else {
                    assert(now[i + 1] == y);
                }
            }
            assert(now[at as int] == x);
        }
        assert(now.to_set() =~= before.to_set().insert(x));
    }
}

/// Cuts one page out of a listing.
pub(crate) fn page_of(
    items: &Vec<ConversationSummary>,
    after: Option<ConversationCursor>,
    limit: usize,
) -> (page: ConversationPage)
    requires
        in_order(items.deep_view()),
    ensures
        page.deep_view() == page_view(items.deep_view(), after.deep_view(), limit as nat),
{
    let ghost all = items.deep_view();
    if limit == 0 {
        let none: Vec<ConversationSummary> = Vec::new();
        assert(none.deep_view() =~= Seq::<SummaryView>::empty());
        return ConversationPage::new(none, None);
    }
    let total: usize = items.len();
    let mut start: usize = 0;
    if let Some(cursor) = &after {
        while start < total && !is_after(&items[start], cursor)
            invariant
                start <= total == items@.len(),
                all == items.deep_view(),
                first_past(all, cursor.deep_view(), 0) == first_past(
                    all,
                    cursor.deep_view(),
                    start as int,
                ),
            decreases total - start,
        {
            assert(all[start as int] == items@[start as int].deep_view());
            start += 1;
        }
        assert(start < total ==> all[start as int] == items@[start as int].deep_view());
    }
    let ghost rest = rest_after(all, after.deep_view());
    assert(rest =~= all.skip(start as int));
    let remaining: usize = total - start;
    let take: usize = if remaining < limit {
        remaining
    } else {
        limit
    };
    let mut page_items: Vec<ConversationSummary> = Vec::new();
    let mut i: usize = 0;
    while i < take
        invariant
            i <= take <= total - start,
            start <= total == items@.len(),
            all == items.deep_view(),
            rest == all.skip(start as int),
            page_items.deep_view() == rest.take(i as int),
        decreases take - i,
    {
        let ghost before = page_items.deep_view();
        page_items.push(items[start + i].clone());
        assert(page_items.deep_view() =~= before.push(rest[i as int]));
        assert(page_items.deep_view() =~= rest.take(i + 1));
        i += 1;
    }
    let next = if remaining > take {
        let last = &items[start + take - 1];
        assert(rest[take - 1] == last.deep_view());
        Some(ConversationCursor::new(last.last_active, last.id.clone()))
    } else {
        assert(rest.take(take as int) =~= rest);
        None
    };
    ConversationPage::new(page_items, next)
}

/// Whether a needle stands in one of the texts a conversation goes by.
pub open spec fn is_mentioned(
    id: Seq<char>,
    subject_id: Seq<char>,
    topic: Option<Seq<char>>,
    needle: Seq<char>,
) -> bool {
    ||| contains_text(id, needle)
    ||| contains_text(subject_id, needle)
    ||| (topic matches Some(topic) && contains_text(topic, needle))
}

/// Whether a needle stands in an id, a subject, or a topic, letter for
/// letter.
pub fn mentions(id: &str, subject_id: &str, topic: Option<&str>, needle: &str) -> (mentioned: bool)
    ensures
        mentioned == is_mentioned(id@, subject_id@, topic.deep_view(), needle@),
        needle@.len() == 0 ==> mentioned,
{
    proof {
        if needle@.len() == 0 {
            assert(id@.subrange(0, 0int + needle@.len()) =~= needle@);
            assert(contains_text(id@, needle@));
        }
    }
    has_text(id, needle) || has_text(subject_id, needle) || match topic {
        Some(topic) => has_text(topic, needle),
        None => false,
    }
}

/// The metadata keyword match: a case-insensitive substring over id,
/// subject, or topic.
pub open spec fn keyword_matches(state: ConversationStateView, keyword: Seq<char>) -> bool {
    is_mentioned(
        lowercase(state.id),
        lowercase(state.subject_id),
        match state.topic {
            Some(topic) => Some(lowercase(topic)),
            None => None,
        },
        lowercase(keyword),
    )
}

/// Whether a state matches a metadata keyword. An empty keyword matches
/// everything.
pub fn matches_keyword(state: &ConversationState, keyword: &str) -> (matched: bool)
    ensures
        matched == keyword_matches(state.deep_view(), keyword@),
        keyword@.len() == 0 ==> matched,
{
    let needle = to_lowercase(keyword);
    let id = to_lowercase(state.id.as_str());
    let subject_id = to_lowercase(state.subject_id.as_str());
    match &state.topic {
        Some(topic) => {
            let topic = to_lowercase(topic.as_str());
            mentions(id.as_str(), subject_id.as_str(), Some(topic.as_str()), needle.as_str())
        },
        None => mentions(id.as_str(), subject_id.as_str(), None, needle.as_str()),
    }
}

/// The listing of the states that are kept: collects their summaries in
/// order.
pub(crate) struct ListingBuilder {
    pub(crate) items: Vec<ConversationSummary>,
}

impl ListingBuilder {
    pub(crate) open spec fn listed(&self) -> Seq<SummaryView> {
        self.items.deep_view()
    }

    pub(crate) fn new() -> (builder: Self)
        ensures
            is_listing(builder.listed(), Set::empty()),
    {
        let builder = ListingBuilder { items: Vec::new() };
        assert(builder.listed().to_set() =~= Set::empty());
        builder
    }

    pub(crate) fn add_state(&mut self, state: &ConversationState)
        requires
            in_order(old(self).listed()),
            forall|i: int|
                0 <= i < old(self).listed().len() ==> (#[trigger] old(self).listed()[i]).id
                    != state.deep_view().id,
        ensures
            is_listing(
                final(self).listed(),
                old(self).listed().to_set().insert(summary_of(state.deep_view())),
            ),
    {
        let summary = ConversationSummary::new(
            state.id.clone(),
            state.subject_id.clone(),
            state.topic.clone(),
            state.last_active,
            state.ended,
        );
        insert_in_order(&mut self.items, summary);
    }
}

/// The keyword search looks into the id, the subject, and the topic of a
/// conversation, ignoring case: a keyword is found exactly when it stands in
/// one of them, and the others never matter then.
pub proof fn keywords_are_found_anywhere(state: ConversationStateView, keyword: Seq<char>)
    ensures
        contains_text(lowercase(state.id), lowercase(keyword)) ==> keyword_matches(state, keyword),
        contains_text(lowercase(state.subject_id), lowercase(keyword)) ==> keyword_matches(
            state,
            keyword,
        ),
        state.topic matches Some(topic) ==> (contains_text(lowercase(topic), lowercase(keyword))
            ==> keyword_matches(state, keyword)),
        keyword_matches(state, keyword) ==> contains_text(lowercase(state.id), lowercase(keyword))
            || contains_text(lowercase(state.subject_id), lowercase(keyword)) || (
        state.topic is Some && contains_text(lowercase(state.topic->0), lowercase(keyword))),
{
}

/// Setting a topic never takes a match away from a conversation without one,
/// and nothing but id, subject, and topic decides.
pub proof fn topics_only_add_matches(
    state: ConversationStateView,
    other: ConversationStateView,
    keyword: Seq<char>,
)
    requires
        state.id == other.id,
        state.subject_id == other.subject_id,
        state.topic is None || state.topic == other.topic,
    ensures
        keyword_matches(state, keyword) ==> keyword_matches(other, keyword),
{
}

/// A page resumes strictly past its cursor and goes on from the beginning
/// without one. It is as long as it can be; it names a place to resume
/// exactly when something is left, and that is the place of its last item.
pub proof fn pages_are_full(items: Seq<SummaryView>, after: Option<CursorView>, limit: nat)
    requires
        in_order(items),
    ensures
        rest_after(items, None) == items,
        ({
            let page = page_view(items, after, limit);
            let rest = rest_after(items, after);
            &&& page.items.is_prefix_of(rest)
            &&& page.items.len() == if rest.len() < limit {
                rest.len()
            } else {
                limit
            }
            &&& page.next is Some <==> 0 < limit < rest.len()
            &&& page.next matches Some(cursor) ==> {
                &&& cursor.id == page.items.last().id
                &&& cursor.last_active == page.items.last().last_active
                &&& rest_after(items, Some(cursor)).len() > 0
            }
        }),
{
    let rest = rest_after(items, after);
    let page = page_view(items, after, limit);
    assert(page.items =~= rest.subrange(0, page.items.len() as int));
    if limit > 0 {
        pages_partition_the_listing(items, after, limit);
    }
}

/// The listing order is the latest activity first and, among equally recent
/// ones, the id: it looks at nothing else.
pub proof fn the_latest_comes_first(a: SummaryView, b: SummaryView)
    ensures
        a.last_active > b.last_active ==> lists_before(a, b) && !lists_before(b, a),
        a.last_active == b.last_active ==> (lists_before(a, b) <==> precedes(a.id, b.id)),
{
}

/// A listing shows a conversation as it is stored.
pub proof fn summaries_show_the_state(state: ConversationStateView)
    ensures
        summary_of(state).id == state.id,
        summary_of(state).subject_id == state.subject_id,
        summary_of(state).topic == state.topic,
        summary_of(state).last_active == state.last_active,
        summary_of(state).ended == state.ended,
{
}

/// [`matches_keyword`] finds a keyword exactly when it stands in the id, the
/// subject, or the topic, in whatever case.
pub proof fn matching_looks_everywhere(
    state: ConversationState,
    keyword: &str,
    matched: bool,
)
    requires
        call_ensures(matches_keyword, (&state, keyword), matched),
    ensures
        ({
            let view = state.deep_view();
            let needle = lowercase(keyword@);
            matched <==> contains_text(lowercase(view.id), needle) || contains_text(
                lowercase(view.subject_id),
                needle,
            ) || (view.topic is Some && contains_text(lowercase(view.topic->0), needle))
        }),
{
}

} // verus!
