//! The memory management contract: entries, views, and the item-level
//! abstraction.

use vstd::prelude::*;

use crate::subject::Subject;
use crate::text::{concat, Text};

verus! {

/// An opaque memory partition identifier.
///
/// The value is opaque: it groups and filters by equality and is never
/// interpreted.
#[derive(Debug, PartialEq, Eq, Hash)]
pub struct MemoryScope(String);

impl DeepView for MemoryScope {
    type V = Seq<char>;

    closed spec fn deep_view(&self) -> Seq<char> {
        self.0@
    }
}

impl Clone for MemoryScope {
    fn clone(&self) -> (copy: Self)
        ensures
            copy == *self,
    {
        MemoryScope(self.0.clone())
    }
}

impl Text for MemoryScope {
    closed spec fn text(&self) -> Seq<char> {
        self.0@
    }

    fn into_text(self) -> (owned: String) {
        self.0
    }
}

impl From<String> for MemoryScope {
    fn from(value: String) -> (scope: Self)
        ensures
            scope.deep_view() == value@,
    {
        MemoryScope(value)
    }
}

impl vstd::std_specs::convert::FromSpecImpl<String> for MemoryScope {
    open spec fn obeys_from_spec() -> bool {
        true
    }

    closed spec fn from_spec(value: String) -> Self {
        MemoryScope(value)
    }
}

impl<'a> From<&'a str> for MemoryScope {
    fn from(value: &'a str) -> (scope: Self)
        ensures
            scope.deep_view() == value@,
    {
        MemoryScope::new(value)
    }
}

impl<'a> vstd::std_specs::convert::FromSpecImpl<&'a str> for MemoryScope {
    open spec fn obeys_from_spec() -> bool {
        false
    }

    open spec fn from_spec(value: &'a str) -> Self {
        arbitrary()
    }
}

impl MemoryScope {
    /// Creates a scope from its opaque value.
    pub fn new(value: impl Text) -> (scope: Self)
        ensures
            scope.deep_view() == value.text(),
    {
        MemoryScope(value.into_text())
    }

    /// Views the scope's opaque value.
    pub fn as_str(&self) -> (value: &str)
        ensures
            value@ == self.deep_view(),
    {
        self.0.as_str()
    }

    /// The scope's opaque value as a string.
    pub fn to_string(&self) -> (value: String)
        ensures
            value@ == self.deep_view(),
    {
        self.0.clone()
    }
}

/// A memory entry's topic tag.
pub type Topic = String;

/// Memory-store failures.
#[derive(Debug, PartialEq)]
pub enum MemoryStoreError {
    /// The backing storage failed.
    Storage(String),
    /// The requested subject was not found.
    SubjectNotFound(String),
    /// The requested entry id does not exist.
    EntryNotFound(String),
}

/// What a [`MemoryStoreError`] holds.
pub ghost enum MemoryStoreErrorView {
    Storage(Seq<char>),
    SubjectNotFound(Seq<char>),
    EntryNotFound(Seq<char>),
}

impl DeepView for MemoryStoreError {
    type V = MemoryStoreErrorView;

    open spec fn deep_view(&self) -> MemoryStoreErrorView {
        match self {
            MemoryStoreError::Storage(detail) => MemoryStoreErrorView::Storage(detail@),
            MemoryStoreError::SubjectNotFound(subject) => MemoryStoreErrorView::SubjectNotFound(
                subject@,
            ),
            MemoryStoreError::EntryNotFound(id) => MemoryStoreErrorView::EntryNotFound(id@),
        }
    }
}

/// What a memory-store error reads as.
pub open spec fn memory_error_text(error: MemoryStoreErrorView) -> Seq<char> {
    match error {
        MemoryStoreErrorView::Storage(detail) => "memory storage failure: "@ + detail,
        MemoryStoreErrorView::SubjectNotFound(subject) => "subject not found: "@ + subject,
        MemoryStoreErrorView::EntryNotFound(id) => "memory entry not found: "@ + id,
    }
}

impl MemoryStoreError {
    /// The error as a sentence.
    pub fn to_string(&self) -> (text: String)
        ensures
            text@ == memory_error_text(self.deep_view()),
    {
        match self {
            MemoryStoreError::Storage(detail) => concat("memory storage failure: ", detail.as_str()),
            MemoryStoreError::SubjectNotFound(subject) => concat(
                "subject not found: ",
                subject.as_str(),
            ),
            MemoryStoreError::EntryNotFound(id) => concat("memory entry not found: ", id.as_str()),
        }
    }
}

/// One ordering position of keyset pagination: an entry's freshness stamp
/// plus id.
///
/// The listing order is freshness (`max(updated_at, created_at)`)
/// descending, id ascending; a cursor resumes strictly after that position.
/// Being a value (not an offset), it stays correct when entries are deleted
/// between pages.
#[derive(Debug, PartialEq, Eq)]
pub struct MemoryCursor {
    /// The entry's freshness stamp.
    pub updated_at: u64,
    /// The entry's id (the ascending tiebreak).
    pub id: String,
}

impl Clone for MemoryCursor {
    fn clone(&self) -> (copy: Self)
        ensures
            copy == *self,
    {
        MemoryCursor { updated_at: self.updated_at, id: self.id.clone() }
    }
}

impl MemoryCursor {
    /// Creates a cursor at the given position.
    pub fn new(updated_at: u64, id: impl Text) -> (cursor: Self)
        ensures
            cursor.updated_at == updated_at,
            cursor.id@ == id.text(),
    {
        MemoryCursor { updated_at, id: id.into_text() }
    }
}

/// The application listing cursor: a flat list position.
#[derive(Debug, PartialEq, Eq)]
pub struct MemoryListCursor {
    /// The position inside the listing (`None` = the start).
    pub position: Option<MemoryCursor>,
}

impl MemoryListCursor {
    /// Creates a cursor at a position.
    pub fn new(position: MemoryCursor) -> (cursor: Self)
        ensures
            cursor.position == Some(position),
    {
        MemoryListCursor { position: Some(position) }
    }

    /// Creates a cursor at the start of the listing.
    pub fn start() -> (cursor: Self)
        ensures
            cursor.position is None,
    {
        MemoryListCursor { position: None }
    }
}

/// One page of a memory listing.
#[derive(Debug, PartialEq)]
pub struct MemoryPage<T, C = MemoryCursor> {
    /// The page's items, in listing order (up to the requested limit).
    pub items: Vec<T>,
    /// The cursor to resume from when at least one more entry matches;
    /// `None` when the page is the last.
    pub next: Option<C>,
}

impl<T, C> MemoryPage<T, C> {
    /// Creates a page.
    pub fn new(items: Vec<T>, next: Option<C>) -> (page: Self)
        ensures
            page.items == items,
            page.next == next,
    {
        MemoryPage { items, next }
    }
}

/// The listing/search query: filters + keyset pagination.
///
/// `scope: None` lists every partition merged; `topic: None` does not filter
/// by topic.
#[derive(Debug, PartialEq)]
pub struct MemoryQuery {
    /// Restrict to one conversation (`None` matches all).
    pub conversation_id: Option<String>,
    /// Restrict to one topic (`None` matches all).
    pub topic: Option<Topic>,
    /// Restrict to one partition (`None` = all partitions merged).
    pub scope: Option<MemoryScope>,
    /// Restrict by freshness `>= from` (`None` = unbounded).
    pub from: Option<u64>,
    /// Restrict by freshness `< to` (`None` = unbounded).
    pub to: Option<u64>,
    /// Case-insensitive substring over the content; `None` matches all.
    pub keyword: Option<String>,
    /// Resume strictly after this position; `None` starts from the top.
    pub after: Option<MemoryListCursor>,
    /// The maximum number of items to return or entries to remove; `0`
    /// yields an empty last page or no removals.
    pub limit: usize,
}

impl MemoryQuery {
    /// Creates a query returning up to `limit` items.
    pub fn new(limit: usize) -> (query: Self)
        ensures
            query == (MemoryQuery {
                conversation_id: None,
                topic: None,
                scope: None,
                from: None,
                to: None,
                keyword: None,
                after: None,
                limit,
            }),
    {
        MemoryQuery {
            conversation_id: None,
            topic: None,
            scope: None,
            from: None,
            to: None,
            keyword: None,
            after: None,
            limit,
        }
    }

    /// Restricts to one conversation.
    pub fn with_conversation(self, conversation_id: impl Text) -> (query: Self)
        ensures
            query.conversation_id matches Some(id) && id@ == conversation_id.text(),
            query == (MemoryQuery { conversation_id: query.conversation_id, ..self }),
    {
        let mut query = self;
        query.conversation_id = Some(conversation_id.into_text());
        query
    }

    /// Restricts to one topic.
    pub fn with_topic(self, topic: impl Text) -> (query: Self)
        ensures
            query.topic matches Some(kept) && kept@ == topic.text(),
            query == (MemoryQuery { topic: query.topic, ..self }),
    {
        let mut query = self;
        query.topic = Some(topic.into_text());
        query
    }

    /// Restricts to one partition.
    pub fn with_scope(self, scope: impl Text) -> (query: Self)
        ensures
            query.scope matches Some(kept) && kept.deep_view() == scope.text(),
            query == (MemoryQuery { scope: query.scope, ..self }),
    {
        let mut query = self;
        query.scope = Some(MemoryScope::new(scope));
        query
    }

    /// Filters by freshness (lower bound, inclusive).
    pub fn with_from(self, from: u64) -> (query: Self)
        ensures
            query == (MemoryQuery { from: Some(from), ..self }),
    {
        let mut query = self;
        query.from = Some(from);
        query
    }

    /// Filters by freshness (upper bound, exclusive).
    pub fn with_to(self, to: u64) -> (query: Self)
        ensures
            query == (MemoryQuery { to: Some(to), ..self }),
    {
        let mut query = self;
        query.to = Some(to);
        query
    }

    /// Filters by a case-insensitive content substring.
    pub fn with_keyword(self, keyword: impl Text) -> (query: Self)
        ensures
            query.keyword matches Some(kept) && kept@ == keyword.text(),
            query == (MemoryQuery { keyword: query.keyword, ..self }),
    {
        let mut query = self;
        query.keyword = Some(keyword.into_text());
        query
    }

    /// Resumes after a cursor (a previous page's `next`).
    pub fn with_after(self, cursor: MemoryListCursor) -> (query: Self)
        ensures
            query == (MemoryQuery { after: Some(cursor), ..self }),
    {
        let mut query = self;
        query.after = Some(cursor);
        query
    }
}

/// Where one memory item came from (its most recent write).
#[derive(Debug, PartialEq)]
pub struct MemorySource {
    /// The conversation that produced the item.
    pub conversation_id: String,
    /// The topic carried at that time (may be empty).
    pub topic: Topic,
}

impl MemorySource {
    /// Creates a source record.
    pub fn new(conversation_id: impl Text, topic: impl Text) -> (source: Self)
        ensures
            source.conversation_id@ == conversation_id.text(),
            source.topic@ == topic.text(),
    {
        MemorySource { conversation_id: conversation_id.into_text(), topic: topic.into_text() }
    }
}

/// One memory item as the application sees it: layer-agnostic, with a stable
/// id, its partition, and freshness stamps.
#[derive(Debug, PartialEq)]
pub struct MemoryItem {
    /// The opaque id (stable across edits).
    pub id: String,
    /// The item's content.
    pub content: String,
    /// Where the item came from.
    pub source: MemorySource,
    /// The partition the item belongs to.
    pub scope: MemoryScope,
    /// Epoch seconds at which the item was created.
    pub created_at: u64,
    /// Epoch seconds at which the item was last written.
    pub updated_at: u64,
}

impl MemoryItem {
    /// Creates an item view.
    pub fn new(
        id: impl Text,
        content: impl Text,
        source: MemorySource,
        scope: MemoryScope,
        created_at: u64,
        updated_at: u64,
    ) -> (item: Self)
        ensures
            item.id@ == id.text(),
            item.content@ == content.text(),
            item.source == source,
            item.scope == scope,
            item.created_at == created_at,
            item.updated_at == updated_at,
    {
        MemoryItem {
            id: id.into_text(),
            content: content.into_text(),
            source,
            scope,
            created_at,
            updated_at,
        }
    }
}

/// One failed forget step: the entry id and the failure reason.
#[derive(Debug, PartialEq)]
pub struct MemoryForgetFailure {
    /// The entry that could not be removed.
    pub id: String,
    /// Why the removal failed.
    pub reason: String,
}

impl MemoryForgetFailure {
    /// Creates a failure record.
    pub fn new(id: impl Text, reason: impl Text) -> (failure: Self)
        ensures
            failure.id@ == id.text(),
            failure.reason@ == reason.text(),
    {
        MemoryForgetFailure { id: id.into_text(), reason: reason.into_text() }
    }
}

/// The result of a forget call: how many entries were removed plus per-entry
/// failures.
#[derive(Debug, PartialEq)]
pub struct MemoryForgetResult {
    /// How many entries were removed.
    pub removed: usize,
    /// The entries that could not be removed.
    pub failures: Vec<MemoryForgetFailure>,
}

impl MemoryForgetResult {
    /// Creates a forget result.
    pub fn new(removed: usize, failures: Vec<MemoryForgetFailure>) -> (result: Self)
        ensures
            result.removed == removed,
            result.failures == failures,
    {
        MemoryForgetResult { removed, failures }
    }
}

/// The item-level management abstraction: the application face of a memory
/// implementation.
///
/// The subject is passed per call; entries are addressed by id, and the
/// scope is carried by the entry. An edit keeps the id, source and creation
/// time and refreshes the freshness stamp.
pub trait Memory: Sized {
    /// Lists items matching the query (freshness descending, id ascending;
    /// `scope: None` merges every partition).
    fn list(&self, subject: &Subject, query: MemoryQuery) -> Result<
        MemoryPage<MemoryItem, MemoryListCursor>,
        MemoryStoreError,
    >;

    /// Fetches one item by id (`None` when absent).
    fn get(&self, subject: &Subject, id: &str) -> Result<Option<MemoryItem>, MemoryStoreError>;

    /// Corrects an item in place.
    fn edit(&self, subject: &Subject, id: &str, content: &str) -> Result<
        MemoryItem,
        MemoryStoreError,
    >;

    /// Forgets one item by id (removing an absent id reports `removed: 0`).
    fn forget(&self, subject: &Subject, id: &str) -> Result<MemoryForgetResult, MemoryStoreError>;

    /// Forgets the matching items, best-effort: the query's `limit` caps the
    /// batch; a single failure does not abort the rest.
    fn forget_matching(&self, subject: &Subject, query: MemoryQuery) -> Result<
        MemoryForgetResult,
        MemoryStoreError,
    >;

    /// The read-only projection of this implementation: the item-level
    /// reads without the write verbs.
    fn reader(&self) -> (reader: MemoryReader<'_, Self>)
        ensures
            reader.reads() == *self,
    {
        MemoryReader::new(self)
    }
}

/// A read-only projection of a [`Memory`] implementation: the same
/// item-level reads; the write verbs do not exist here.
pub struct MemoryReader<'a, M> {
    memory: &'a M,
}

impl<'a, M> MemoryReader<'a, M> {
    /// The memory this projection reads.
    pub closed spec fn reads(&self) -> M {
        *self.memory
    }

    /// Builds the projection.
    pub fn new(memory: &'a M) -> (reader: Self)
        ensures
            reader.reads() == *memory,
    {
        MemoryReader { memory }
    }
}

impl<'a, M: Memory> MemoryReader<'a, M> {
    /// Lists items matching the query: what the memory itself lists.
    pub fn list(&self, subject: &Subject, query: MemoryQuery) -> (page: Result<
        MemoryPage<MemoryItem, MemoryListCursor>,
        MemoryStoreError,
    >)
        ensures
            call_ensures(M::list, (&self.reads(), subject, query), page),
    {
        self.memory.list(subject, query)
    }

    /// Fetches one item by id: what the memory itself fetches.
    pub fn get(&self, subject: &Subject, id: &str) -> (item: Result<
        Option<MemoryItem>,
        MemoryStoreError,
    >)
        ensures
            call_ensures(M::get, (&self.reads(), subject, id), item),
    {
        self.memory.get(subject, id)
    }
}

/// A sentence about a memory-store error says what kind of error it is and
/// all that is known of it.
pub proof fn memory_errors_say_what_happened(detail: Seq<char>)
    ensures
        memory_error_text(MemoryStoreErrorView::Storage(detail)) == "memory storage failure: "@
            + detail,
        memory_error_text(MemoryStoreErrorView::SubjectNotFound(detail)) == "subject not found: "@
            + detail,
        memory_error_text(MemoryStoreErrorView::EntryNotFound(detail))
            == "memory entry not found: "@ + detail,
{
}

} // verus!
