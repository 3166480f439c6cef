//! The idle sweep: pages through the stale conversations and ends them.
//!
//! The cursor advances past failed entries (retried on the next sweep), so
//! one bad conversation never blocks the rest.

use vstd::prelude::*;

use crate::conversation::{
    ConversationCursor, ConversationPage, ConversationStoreError, ConversationStoreErrorView,
    ConversationSummary, CursorView, PageView, SummaryView,
};
use crate::runtime::SWEEP_PAGE_SIZE;
use crate::subject::{parsed, Subject, SubjectView};

verus! {

/// What a sweep is to do next.
#[derive(Debug)]
pub enum SweepAction {
    /// List a page of the conversations idle since then.
    ListStale {
        /// Idle since (epoch seconds).
        before: u64,
        /// Where to resume.
        after: Option<ConversationCursor>,
        /// How many at most.
        limit: usize,
    },
    /// Restore a conversation.
    Restore {
        /// Its subject.
        subject: Subject,
        /// Its id.
        id: String,
    },
    /// End the conversation just restored.
    End,
    /// Nothing: the sweep is over.
    Done,
}

/// What a [`SweepAction`] holds.
pub ghost enum SweepActionView {
    ListStale { before: u64, after: Option<CursorView>, limit: usize },
    Restore { subject: SubjectView, id: Seq<char> },
    End,
    Done,
}

impl DeepView for SweepAction {
    type V = SweepActionView;

    open spec fn deep_view(&self) -> SweepActionView {
        match self {
            SweepAction::ListStale { before, after, limit } => SweepActionView::ListStale {
                before: *before,
                after: after.deep_view(),
                limit: *limit,
            },
            SweepAction::Restore { subject, id } => SweepActionView::Restore {
                subject: subject.deep_view(),
                id: id@,
            },
            SweepAction::End => SweepActionView::End,
            SweepAction::Done => SweepActionView::Done,
        }
    }
}

/// What came of a [`SweepAction`].
#[derive(Debug)]
pub enum SweepInput {
    /// A page.
    Page(Result<ConversationPage, ConversationStoreError>),
    /// Whether the conversation was restored.
    Restored(bool),
    /// The conversation was ended.
    Ended,
}

/// What a [`SweepInput`] holds.
pub ghost enum SweepInputView {
    Page(Result<PageView, ConversationStoreErrorView>),
    Restored(bool),
    Ended,
}

impl DeepView for SweepInput {
    type V = SweepInputView;

    open spec fn deep_view(&self) -> SweepInputView {
        match self {
            SweepInput::Page(Ok(page)) => SweepInputView::Page(Ok(page.deep_view())),
            SweepInput::Page(Err(error)) => SweepInputView::Page(Err(error.deep_view())),
            SweepInput::Restored(restored) => SweepInputView::Restored(*restored),
            SweepInput::Ended => SweepInputView::Ended,
        }
    }
}

/// Where a sweep stands.
#[derive(Debug, Clone, Copy, PartialEq, Eq, Structural)]
pub enum SweepPhase {
    /// Waiting for a page.
    Listing,
    /// Restoring a conversation.
    Restoring,
    /// Ending a conversation.
    Ending,
    /// Over.
    Finished,
}

/// A sweep of the conversations idle since `before`.
#[derive(Debug)]
pub struct Sweep {
    before: u64,
    items: Vec<ConversationSummary>,
    next: Option<ConversationCursor>,
    ended: usize,
    phase: SweepPhase,
}

/// What a [`Sweep`] holds.
#[verifier::ext_equal]
pub ghost struct SweepView {
    /// Idle since (epoch seconds).
    pub before: u64,
    /// What is left of the page.
    pub items: Seq<SummaryView>,
    /// Where the next page resumes, if there is one.
    pub next: Option<CursorView>,
    /// How many conversations were ended.
    pub ended: usize,
    /// Where the sweep stands.
    pub phase: SweepPhase,
}

impl DeepView for Sweep {
    type V = SweepView;

    closed spec fn deep_view(&self) -> SweepView {
        SweepView {
            before: self.before,
            items: self.items.deep_view(),
            next: self.next.deep_view(),
            ended: self.ended,
            phase: self.phase,
        }
    }
}

/// A page is asked for.
pub open spec fn ask_page(s: SweepView, after: Option<CursorView>) -> (SweepView, SweepActionView) {
    (
        SweepView { items: Seq::empty(), next: None, phase: SweepPhase::Listing, ..s },
        SweepActionView::ListStale { before: s.before, after, limit: SWEEP_PAGE_SIZE },
    )
}

/// The next conversation of a page is restored; one whose subject cannot be
/// read is passed over. Behind the last one comes the next page, and behind
/// the last page the sweep is over.
pub open spec fn sweep_items(s: SweepView, items: Seq<SummaryView>, next: Option<CursorView>) -> (
    SweepView,
    SweepActionView,
)
    decreases items.len(),
{
    if items.len() == 0 {
        match next {
            Some(cursor) => ask_page(s, Some(cursor)),
            None => (
                SweepView { items: Seq::empty(), next: None, phase: SweepPhase::Finished, ..s },
                SweepActionView::Done,
            ),
        }
    } else {
        match parsed(items[0].subject_id) {
            Some(subject) => (
                SweepView { items: items.drop_first(), next, phase: SweepPhase::Restoring, ..s },
                SweepActionView::Restore { subject, id: items[0].id },
            ),
            None => sweep_items(s, items.drop_first(), next),
        }
    }
}

/// One step of a sweep.
pub open spec fn sweep_step(s: SweepView, input: SweepInputView) -> (SweepView, SweepActionView) {
    match (s.phase, input) {
        (SweepPhase::Listing, SweepInputView::Page(Ok(page))) => if page.items.len() == 0 {
            sweep_items(s, Seq::empty(), None)
        } else {
            sweep_items(s, page.items, page.next)
        },
        (SweepPhase::Listing, SweepInputView::Page(Err(_))) => sweep_items(s, Seq::empty(), None),
        (SweepPhase::Restoring, SweepInputView::Restored(true)) => (
            SweepView { phase: SweepPhase::Ending, ..s },
            SweepActionView::End,
        ),
        (SweepPhase::Restoring, SweepInputView::Restored(false)) => sweep_items(
            SweepView { items: Seq::empty(), next: None, ..s },
            s.items,
            s.next,
        ),
        (SweepPhase::Ending, SweepInputView::Ended) => sweep_items(
            SweepView { items: Seq::empty(), next: None, ended: (s.ended + 1) as usize, ..s },
            s.items,
            s.next,
        ),
        _ => (s, SweepActionView::Done),
    }
}

/// What a sweep waits for. One more end can be counted.
pub open spec fn sweep_expects(s: SweepView, input: SweepInputView) -> bool {
    match s.phase {
        SweepPhase::Listing => input is Page,
        SweepPhase::Restoring => input is Restored,
        SweepPhase::Ending => input is Ended && s.ended < usize::MAX,
        SweepPhase::Finished => false,
    }
}

impl Sweep {
    /// Begins a sweep of the conversations idle since `before` (epoch
    /// seconds).
    pub fn begin(before: u64) -> (begun: (Self, SweepAction))
        ensures
            (begun.0.deep_view(), begun.1.deep_view()) == ask_page(
                SweepView {
                    before,
                    items: Seq::empty(),
                    next: None,
                    ended: 0,
                    phase: SweepPhase::Listing,
                },
                None,
            ),
    {
        let sweep = Sweep {
            before,
            items: Vec::new(),
            next: None,
            ended: 0,
            phase: SweepPhase::Listing,
        };
        assert(sweep.items.deep_view() =~= Seq::<SummaryView>::empty());
        (sweep, SweepAction::ListStale { before, after: None, limit: SWEEP_PAGE_SIZE })
    }

    fn sweep_items(
        &mut self,
        items: Vec<ConversationSummary>,
        next: Option<ConversationCursor>,
    ) -> (action: SweepAction)
        ensures
            (final(self).deep_view(), action.deep_view()) == sweep_items(
                old(self).deep_view(),
                items.deep_view(),
                next.deep_view(),
            ),
    {
        let ghost s = self.deep_view();
        let ghost all = items.deep_view();
        let mut rest = items;
        while rest.len() > 0
            invariant
                s == old(self).deep_view(),
                all == items.deep_view(),
                self.deep_view() == s,
                sweep_items(s, all, next.deep_view()) == sweep_items(
                    s,
                    rest.deep_view(),
                    next.deep_view(),
                ),
            decreases rest@.len(),
        {
            let ghost listed = rest.deep_view();
            let item = rest.remove(0);
            assert(rest.deep_view() =~= listed.drop_first());
            assert(listed[0] == item.deep_view());
            if let Some(subject) = Subject::parse(item.subject_id.as_str()) {
                self.items = rest;
                self.next = next;
                self.phase = SweepPhase::Restoring;
                return SweepAction::Restore { subject, id: item.id };
            }
        }
        assert(rest.deep_view() =~= Seq::<SummaryView>::empty());
        self.items = rest;
        self.next = None;
        match next {
            Some(cursor) => {
                self.phase = SweepPhase::Listing;
                SweepAction::ListStale {
                    before: self.before,
                    after: Some(cursor),
                    limit: SWEEP_PAGE_SIZE,
                }
            },
            None => {
                self.phase = SweepPhase::Finished;
                SweepAction::Done
            },
        }
    }

    /// Takes what came of the last action and names the next one.
    pub fn step(&mut self, input: SweepInput) -> (action: SweepAction)
        requires
            sweep_expects(old(self).deep_view(), input.deep_view()),
        ensures
            (final(self).deep_view(), action.deep_view()) == sweep_step(
                old(self).deep_view(),
                input.deep_view(),
            ),
    {
        match input {
            SweepInput::Page(Ok(page)) => {
                if page.items.len() == 0 {
                    assert(page.items.deep_view() =~= Seq::<SummaryView>::empty());
                    self.sweep_items(page.items, None)
                } else {
                    self.sweep_items(page.items, page.next)
                }
            },
            SweepInput::Page(Err(_)) => {
                let none: Vec<ConversationSummary> = Vec::new();
                assert(none.deep_view() =~= Seq::<SummaryView>::empty());
                self.sweep_items(none, None)
            },
            SweepInput::Restored(true) => {
                self.phase = SweepPhase::Ending;
                SweepAction::End
            },
            SweepInput::Restored(false) => {
                let (items, next) = self.take_page();
                self.sweep_items(items, next)
            },
            SweepInput::Ended => {
                let (items, next) = self.take_page();
                self.ended = self.ended + 1;
                self.sweep_items(items, next)
            },
        }
    }

    fn take_page(&mut self) -> (page: (Vec<ConversationSummary>, Option<ConversationCursor>))
        ensures
            page.0.deep_view() == old(self).deep_view().items,
            page.1.deep_view() == old(self).deep_view().next,
            final(self).deep_view() == (SweepView {
                items: Seq::empty(),
                next: None,
                ..old(self).deep_view()
            }),
    {
        let mut items: Vec<ConversationSummary> = Vec::new();
        core::mem::swap(&mut items, &mut self.items);
        assert(self.items.deep_view() =~= Seq::<SummaryView>::empty());
        let next = self.next.take();
        (items, next)
    }

    /// How many conversations were ended.
    pub fn ended(&self) -> (ended: usize)
        ensures
            ended == self.deep_view().ended,
    {
        self.ended
    }
}

/// Where a sweep goes on does not depend on how many conversations it ended.
proof fn going_on_ignores_the_count(
    a: SweepView,
    b: SweepView,
    items: Seq<SummaryView>,
    next: Option<CursorView>,
)
    requires
        a.before == b.before,
    ensures
        sweep_items(a, items, next).1 == sweep_items(b, items, next).1,
        sweep_items(a, items, next).0 == (SweepView {
            ended: a.ended,
            ..sweep_items(b, items, next).0
        }),
    decreases items.len(),
{
    if items.len() > 0 {
        going_on_ignores_the_count(a, b, items.drop_first(), next);
    }
}

/// One bad conversation never blocks the rest: a conversation that cannot be
/// restored leads on to the same conversation or page as one that was ended,
/// and is only not counted.
pub proof fn bad_conversations_block_nothing(s: SweepView)
    requires
        s.phase == SweepPhase::Restoring,
        s.ended < usize::MAX,
    ensures
        ({
            let (passed, action) = sweep_step(s, SweepInputView::Restored(false));
            let ending = sweep_step(s, SweepInputView::Restored(true)).0;
            let (ended, same) = sweep_step(ending, SweepInputView::Ended);
            &&& action == same
            &&& passed == (SweepView { ended: s.ended, ..ended })
            &&& passed.ended == s.ended
            &&& ended.ended == s.ended + 1
        }),
{
    let passed = SweepView { items: Seq::empty(), next: None, ..s };
    let ending = sweep_step(s, SweepInputView::Restored(true)).0;
    let ended = SweepView {
        items: Seq::empty(),
        next: None,
        ended: (s.ended + 1) as usize,
        ..ending
    };
    going_on_ignores_the_count(passed, ended, s.items, s.next);
    going_on_ignores_the_count(ended, passed, s.items, s.next);
}

/// A sweep goes on with the first conversation of the page whose subject can
/// be read, and keeps the ones behind it for later.
pub proof fn the_first_readable_comes_next(
    s: SweepView,
    items: Seq<SummaryView>,
    next: Option<CursorView>,
    i: int,
)
    requires
        0 <= i < items.len(),
        parsed(items[i].subject_id) is Some,
        forall|k: int| 0 <= k < i ==> parsed((#[trigger] items[k]).subject_id) is None,
    ensures
        sweep_items(s, items, next) == (
            SweepView {
                items: items.skip(i + 1),
                next,
                phase: SweepPhase::Restoring,
                before: s.before,
                ended: s.ended,
            },
            SweepActionView::Restore {
                subject: parsed(items[i].subject_id)->0,
                id: items[i].id,
            },
        ),
    decreases items.len(),
{
    if i == 0 {
        assert(items.drop_first() =~= items.skip(1));
    } else {
        let rest = items.drop_first();
        assert(parsed(items[0].subject_id) is None);
        assert forall|k: int| 0 <= k < i - 1 implies parsed((#[trigger] rest[k]).subject_id) is None by {
            assert(rest[k] == items[k + 1]);
        }
        the_first_readable_comes_next(s, rest, next, i - 1);
        assert(rest.skip(i) =~= items.skip(i + 1));
    }
}

/// Behind the last readable conversation of a page comes the next page,
/// where the page said it resumes, with the same threshold; behind the last
/// page the sweep is over.
pub proof fn pages_follow_each_other(
    s: SweepView,
    items: Seq<SummaryView>,
    next: Option<CursorView>,
)
    requires
        forall|k: int| 0 <= k < items.len() ==> parsed((#[trigger] items[k]).subject_id) is None,
    ensures
        ({
            let (after, action) = sweep_items(s, items, next);
            &&& after.before == s.before && after.ended == s.ended && after.items.len() == 0
            &&& next matches Some(cursor) ==> after.phase == SweepPhase::Listing && action == (
            SweepActionView::ListStale {
                before: s.before,
                after: Some(cursor),
                limit: SWEEP_PAGE_SIZE,
            })
            &&& next is None ==> after.phase == SweepPhase::Finished && action
                == SweepActionView::Done
        }),
    decreases items.len(),
{
    if items.len() > 0 {
        let rest = items.drop_first();
        assert(parsed(items[0].subject_id) is None);
        assert forall|k: int| 0 <= k < rest.len() implies parsed((#[trigger] rest[k]).subject_id) is None by {
            assert(rest[k] == items[k + 1]);
        }
        pages_follow_each_other(s, rest, next);
    }
}

/// A page that holds something is gone through from its beginning; an empty
/// one, and a store that fails to list, end the sweep. A conversation that
/// was restored is ended, and counted when it was.
pub proof fn sweeps_follow_the_store(s: SweepView, page: PageView, error: ConversationStoreErrorView)
    ensures
        s.phase == SweepPhase::Listing ==> {
            &&& page.items.len() > 0 ==> sweep_step(s, SweepInputView::Page(Ok(page)))
                == sweep_items(s, page.items, page.next)
            &&& page.items.len() == 0 ==> sweep_step(s, SweepInputView::Page(Ok(page))).1
                == SweepActionView::Done
            &&& sweep_step(s, SweepInputView::Page(Err(error))).1 == SweepActionView::Done
        },
        s.phase == SweepPhase::Restoring ==> sweep_step(s, SweepInputView::Restored(true)) == (
            SweepView { phase: SweepPhase::Ending, ..s },
            SweepActionView::End,
        ),
{
}

} // verus!
