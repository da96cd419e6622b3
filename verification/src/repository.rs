//! What the artwork store is asked and answers: queries, errors, search and
//! batch results.

use vstd::prelude::*;
use crate::artwork::Artwork;
use crate::ids::{ArtworkId, uuid_text};
use crate::shared::Timestamp;
use crate::text;

verus! {

/// Why the artwork store refused or failed a request.
#[derive(Debug, Clone)]
pub enum RepositoryError {
    NotFound { id: ArtworkId },
    AlreadyExists { id: ArtworkId },
    ConnectionError { message: String },
    SerializationError { message: String },
    ValidationError { message: String },
    PermissionDenied { id: ArtworkId },
    QuotaExceeded,
    ConcurrentModification,
    InvalidQuery { message: String },
    Internal { message: String },
}

/// The message of a store error.
pub open spec fn repository_error_text(e: RepositoryError) -> Seq<char> {
    match e {
        RepositoryError::NotFound { id } => "Artwork not found: "@ + uuid_text(id.bits()),
        RepositoryError::AlreadyExists { id } => "Artwork already exists: "@ + uuid_text(id.bits()),
        RepositoryError::ConnectionError { message } => "Database connection error: "@ + message@,
        RepositoryError::SerializationError { message } => "Serialization error: "@ + message@,
        RepositoryError::ValidationError { message } => "Validation error: "@ + message@,
        RepositoryError::PermissionDenied { id } => "Permission denied for artwork: "@ + uuid_text(id.bits()),
        RepositoryError::QuotaExceeded => "Storage quota exceeded"@,
        RepositoryError::ConcurrentModification => "Concurrent modification detected"@,
        RepositoryError::InvalidQuery { message } => "Invalid query parameters: "@ + message@,
        RepositoryError::Internal { message } => "Internal error: "@ + message@,
    }
}

impl RepositoryError {
    /// Whether retrying may help: a lost connection, a concurrent change or an
    /// internal failure.
    pub fn is_transient(&self) -> (r: bool)
        ensures
            r == (self is ConnectionError || self is ConcurrentModification || self is Internal),
    {
        match self {
            RepositoryError::ConnectionError { .. } | RepositoryError::ConcurrentModification
            | RepositoryError::Internal { .. } => true,
            _ => false,
        }
    }

    /// Whether the request itself was at fault.
    pub fn is_client_error(&self) -> (r: bool)
        ensures
            r == (self is NotFound || self is AlreadyExists || self is ValidationError || self is PermissionDenied
                || self is InvalidQuery),
    {
        match self {
            RepositoryError::NotFound { .. } | RepositoryError::AlreadyExists { .. }
            | RepositoryError::ValidationError { .. } | RepositoryError::PermissionDenied { .. }
            | RepositoryError::InvalidQuery { .. } => true,
            _ => false,
        }
    }

    /// The message of the error (what `Display` writes); see `repository_error_text`.
    pub fn display_string(&self) -> (s: String)
        ensures
            s@ == repository_error_text(*self),
    {
        match self {
            RepositoryError::NotFound { id } => {
                let mut s = text::owned("Artwork not found: ");
                text::push_str(&mut s, id.as_str().as_str());
                s
            },
            RepositoryError::AlreadyExists { id } => {
                let mut s = text::owned("Artwork already exists: ");
                text::push_str(&mut s, id.as_str().as_str());
                s
            },
            RepositoryError::ConnectionError { message } => {
                let mut s = text::owned("Database connection error: ");
                text::push_str(&mut s, message.as_str());
                s
            },
            RepositoryError::SerializationError { message } => {
                let mut s = text::owned("Serialization error: ");
                text::push_str(&mut s, message.as_str());
                s
            },
            RepositoryError::ValidationError { message } => {
                let mut s = text::owned("Validation error: ");
                text::push_str(&mut s, message.as_str());
                s
            },
            RepositoryError::PermissionDenied { id } => {
                let mut s = text::owned("Permission denied for artwork: ");
                text::push_str(&mut s, id.as_str().as_str());
                s
            },
            RepositoryError::QuotaExceeded => text::owned("Storage quota exceeded"),
            RepositoryError::ConcurrentModification => text::owned("Concurrent modification detected"),
            RepositoryError::InvalidQuery { message } => {
                let mut s = text::owned("Invalid query parameters: ");
                text::push_str(&mut s, message.as_str());
                s
            },
            RepositoryError::Internal { message } => {
                let mut s = text::owned("Internal error: ");
                text::push_str(&mut s, message.as_str());
                s
            },
        }
    }
}

/// What search results are ordered by.
#[derive(Debug, Clone, Copy, PartialEq, Eq, Structural)]
pub enum SortField {
    Name,
    CreatedAt,
    UpdatedAt,
    CompletionRatio,
    ComplexityScore,
    TotalDots,
    FileSize,
}

/// The direction of an ordering.
#[derive(Debug, Clone, Copy, PartialEq, Eq, Structural)]
pub enum SortOrder {
    Ascending,
    Descending,
}

/// How the store connection is doing.
#[derive(Debug, Clone, Copy, PartialEq, Eq, Structural)]
pub enum ConnectionStatus {
    Connected,
    Disconnected,
    Degraded,
    Unknown,
}

/// A search over the stored artworks; every criterion is optional. The
/// completion and complexity bounds are `f64` values, carried here as their
/// bits; the caller compares them.
#[derive(Debug, Clone)]
pub struct ArtworkQuery {
    pub ids: Option<Vec<ArtworkId>>,
    pub name_contains: Option<String>,
    pub tags: Option<Vec<String>>,
    pub author: Option<String>,
    pub created_after: Option<Timestamp>,
    pub created_before: Option<Timestamp>,
    pub updated_after: Option<Timestamp>,
    pub updated_before: Option<Timestamp>,
    pub format: Option<String>,
    pub min_completion_bits: Option<u64>,
    pub max_completion_bits: Option<u64>,
    pub min_complexity_bits: Option<u64>,
    pub max_complexity_bits: Option<u64>,
    pub sort_by: Option<SortField>,
    pub sort_order: Option<SortOrder>,
    pub limit: Option<usize>,
    pub offset: Option<usize>,
}

impl ArtworkQuery {
    /// Whether no criterion, ordering or page is set.
    pub open spec fn is_blank(&self) -> bool {
        &&& self.ids is None
        &&& self.name_contains is None
        &&& self.tags is None
        &&& self.author is None
        &&& self.created_after is None
        &&& self.created_before is None
        &&& self.updated_after is None
        &&& self.updated_before is None
        &&& self.format is None
        &&& self.min_completion_bits is None
        &&& self.max_completion_bits is None
        &&& self.min_complexity_bits is None
        &&& self.max_complexity_bits is None
        &&& self.sort_by is None
        &&& self.sort_order is None
        &&& self.limit is None
        &&& self.offset is None
    }

    /// The query that matches every artwork.
    pub fn new() -> (q: Self)
        ensures
            q.is_blank(),
    {
        ArtworkQuery {
            ids: None,
            name_contains: None,
            tags: None,
            author: None,
            created_after: None,
            created_before: None,
            updated_after: None,
            updated_before: None,
            format: None,
            min_completion_bits: None,
            max_completion_bits: None,
            min_complexity_bits: None,
            max_complexity_bits: None,
            sort_by: None,
            sort_order: None,
            limit: None,
            offset: None,
        }
    }

    /// The artwork with identifier `id`.
    pub fn by_id(id: ArtworkId) -> (q: Self)
        ensures
            q.ids matches Some(v) && v@ == seq![id],
            (ArtworkQuery { ids: None, ..q }).is_blank(),
    {
        let mut v: Vec<ArtworkId> = Vec::new();
        v.push(id);
        ArtworkQuery { ids: Some(v), ..ArtworkQuery::new() }
    }

    /// The artworks with these identifiers.
    pub fn by_ids(ids: Vec<ArtworkId>) -> (q: Self)
        ensures
            q.ids == Some(ids),
            (ArtworkQuery { ids: None, ..q }).is_blank(),
    {
        ArtworkQuery { ids: Some(ids), ..ArtworkQuery::new() }
    }

    /// The artworks whose name contains `name`.
    pub fn by_name_contains(name: String) -> (q: Self)
        ensures
            q.name_contains == Some(name),
            (ArtworkQuery { name_contains: None, ..q }).is_blank(),
    {
        ArtworkQuery { name_contains: Some(name), ..ArtworkQuery::new() }
    }

    /// The artworks with these tags.
    pub fn by_tags(tags: Vec<String>) -> (q: Self)
        ensures
            q.tags == Some(tags),
            (ArtworkQuery { tags: None, ..q }).is_blank(),
    {
        ArtworkQuery { tags: Some(tags), ..ArtworkQuery::new() }
    }

    /// The artworks of `author`.
    pub fn by_author(author: String) -> (q: Self)
        ensures
            q.author == Some(author),
            (ArtworkQuery { author: None, ..q }).is_blank(),
    {
        ArtworkQuery { author: Some(author), ..ArtworkQuery::new() }
    }

    /// The `limit` most recently created artworks, newest first.
    pub fn recent(limit: usize) -> (q: Self)
        ensures
            q.sort_by == Some(SortField::CreatedAt),
            q.sort_order == Some(SortOrder::Descending),
            q.limit == Some(limit),
            (ArtworkQuery { sort_by: None, sort_order: None, limit: None, ..q }).is_blank(),
    {
        ArtworkQuery {
            sort_by: Some(SortField::CreatedAt),
            sort_order: Some(SortOrder::Descending),
            limit: Some(limit),
            ..ArtworkQuery::new()
        }
    }

    /// The query restricted to the page of `limit` results from `offset`.
    pub fn with_pagination(self, limit: usize, offset: usize) -> (q: Self)
        ensures
            q == (ArtworkQuery { limit: Some(limit), offset: Some(offset), ..self }),
    {
        ArtworkQuery { limit: Some(limit), offset: Some(offset), ..self }
    }

    /// The query ordered by `field` in `order`.
    pub fn with_sort(self, field: SortField, order: SortOrder) -> (q: Self)
        ensures
            q == (ArtworkQuery { sort_by: Some(field), sort_order: Some(order), ..self }),
    {
        ArtworkQuery { sort_by: Some(field), sort_order: Some(order), ..self }
    }

    /// The query restricted to artworks created in the given range.
    pub fn with_date_range(self, after: Option<Timestamp>, before: Option<Timestamp>) -> (q: Self)
        ensures
            q == (ArtworkQuery { created_after: after, created_before: before, ..self }),
    {
        ArtworkQuery { created_after: after, created_before: before, ..self }
    }

    /// The first two checks of a query: a page size from 1 to 1000, and a
    /// creation range whose start lies before its end. (The completion bounds,
    /// floats, are checked after these by the caller.)
    pub fn validate_page_and_dates(&self) -> (r: Result<(), RepositoryError>)
        ensures
            match self.limit {
                Some(l) if l == 0 || l > 1000 => r matches Err(RepositoryError::InvalidQuery { message })
                    && message@ == "Limit must be between 1 and 1000"@,
                _ => match (self.created_after, self.created_before) {
                    (Some(a), Some(b)) if a.epoch_millis >= b.epoch_millis =>
                        r matches Err(RepositoryError::InvalidQuery { message })
                        && message@ == "created_after must be before created_before"@,
                    _ => r is Ok,
                },
            },
    {
        if let Some(limit) = self.limit {
            if limit == 0 || limit > 1000 {
                return Err(RepositoryError::InvalidQuery { message: text::owned("Limit must be between 1 and 1000") });
            }
        }
        if let (Some(after), Some(before)) = (self.created_after, self.created_before) {
            if after.epoch_millis >= before.epoch_millis {
                return Err(RepositoryError::InvalidQuery {
                    message: text::owned("created_after must be before created_before"),
                });
            }
        }
        Ok(())
    }
}

impl Default for ArtworkQuery {
    fn default() -> (q: Self)
        ensures
            q.is_blank(),
    {
        ArtworkQuery::new()
    }
}

/// One page of search results.
#[derive(Debug, Clone)]
pub struct SearchResult {
    pub artworks: Vec<Artwork>,
    pub total_count: usize,
    pub has_more: bool,
    pub query_time_ms: u64,
}

impl SearchResult {
    pub fn new(artworks: Vec<Artwork>, total_count: usize, has_more: bool, query_time_ms: u64) -> (r: Self)
        ensures
            r.artworks == artworks,
            r.total_count == total_count,
            r.has_more == has_more,
            r.query_time_ms == query_time_ms,
    {
        SearchResult { artworks, total_count, has_more, query_time_ms }
    }

    /// No results.
    pub fn empty() -> (r: Self)
        ensures
            r.artworks@.len() == 0,
            r.total_count == 0,
            !r.has_more,
            r.query_time_ms == 0,
    {
        SearchResult { artworks: Vec::new(), total_count: 0, has_more: false, query_time_ms: 0 }
    }

    /// Whether the page holds no artwork.
    pub fn is_empty(&self) -> (r: bool)
        ensures
            r == (self.artworks@.len() == 0),
    {
        self.artworks.len() == 0
    }

    /// How many artworks the page holds.
    pub fn len(&self) -> (r: usize)
        ensures
            r == self.artworks@.len(),
    {
        self.artworks.len()
    }
}

/// Whether no two failures name the same artwork.
pub open spec fn failure_ids_unique(s: Seq<(ArtworkId, RepositoryError)>) -> bool {
    forall|i: int, j: int| 0 <= i < j < s.len() ==> s[i].0 != s[j].0
}

/// The failures after recording `error` for `id`: an earlier failure of the
/// same artwork is replaced in place, else the failure is appended.
pub open spec fn with_failure(s: Seq<(ArtworkId, RepositoryError)>, id: ArtworkId, error: RepositoryError) -> Seq<(ArtworkId, RepositoryError)> {
    if exists|i: int| 0 <= i < s.len() && s[i].0 == id {
        let i = choose|i: int| 0 <= i < s.len() && s[i].0 == id;
        s.update(i, (id, error))
    } else {
        s.push((id, error))
    }
}

/// The outcome of doing one thing to many artworks: those that succeeded in
/// order, the failure of each artwork that failed (the last one recorded for
/// it), and how many were handled.
#[derive(Debug, Clone)]
pub struct BatchResult {
    pub successful: Vec<ArtworkId>,
    pub failed: Vec<(ArtworkId, RepositoryError)>,
    pub total_processed: usize,
}

impl BatchResult {
    /// An artwork appears at most once among the failures.
    pub open spec fn wf(&self) -> bool {
        failure_ids_unique(self.failed@)
    }

    /// Nothing handled yet.
    pub fn new() -> (r: Self)
        ensures
            r.wf(),
            r.successful@.len() == 0,
            r.failed@.len() == 0,
            r.total_processed == 0,
    {
        BatchResult { successful: Vec::new(), failed: Vec::new(), total_processed: 0 }
    }

    /// Records that `id` succeeded.
    pub fn add_success(&mut self, id: ArtworkId)
        requires
            old(self).total_processed < usize::MAX,
        ensures
            final(self).successful@ == old(self).successful@.push(id),
            final(self).failed == old(self).failed,
            final(self).total_processed == old(self).total_processed + 1,
    {
        self.successful.push(id);
        self.total_processed = self.total_processed + 1;
    }

    /// Records that `id` failed with `error`, replacing an earlier failure of
    /// the same artwork.
    pub fn add_failure(&mut self, id: ArtworkId, error: RepositoryError)
        requires
            old(self).wf(),
            old(self).total_processed < usize::MAX,
        ensures
            final(self).wf(),
            final(self).successful == old(self).successful,
            final(self).failed@ == with_failure(old(self).failed@, id, error),
            final(self).total_processed == old(self).total_processed + 1,
    {
        let mut i: usize = 0;
        while i < self.failed.len()
            invariant
                i <= self.failed@.len(),
                *self == *old(self),
                old(self).wf(),
                old(self).total_processed < usize::MAX,
                forall|j: int| 0 <= j < i ==> self.failed@[j].0 != id,
            decreases self.failed@.len() - i,
        {
            if self.failed[i].0 == id {
                proof {
                    let s = old(self).failed@;
                    let k = choose|k: int| 0 <= k < s.len() && s[k].0 == id;
                    assert(k == i as int) by {
                        if k < i {
                        } else if k > i {
                            assert(failure_ids_unique(s));
                        }
                    }
                }
                self.failed.set(i, (id, error));
                self.total_processed = self.total_processed + 1;
                return;
            }
            i = i + 1;
        }
        self.failed.push((id, error));
        self.total_processed = self.total_processed + 1;
    }

    /// How many artworks succeeded.
    pub fn success_count(&self) -> (r: usize)
        ensures
            r == self.successful@.len(),
    {
        self.successful.len()
    }

    /// How many artworks failed.
    pub fn failure_count(&self) -> (r: usize)
        ensures
            r == self.failed@.len(),
    {
        self.failed.len()
    }

    /// Whether no artwork failed.
    pub fn is_all_successful(&self) -> (r: bool)
        ensures
            r == (self.failed@.len() == 0),
    {
        self.failed.len() == 0
    }

    /// Whether some artwork failed.
    pub fn has_failures(&self) -> (r: bool)
        ensures
            r == (self.failed@.len() > 0),
    {
        self.failed.len() > 0
    }
}

impl Default for BatchResult {
    fn default() -> (r: Self)
        ensures
            r.wf(),
            r.successful@.len() == 0,
            r.failed@.len() == 0,
            r.total_processed == 0,
    {
        BatchResult::new()
    }
}

/// Recording a failure counts the artwork as failed once: the count grows by
/// one for an artwork that had not failed, and stays for one that had.
pub proof fn lemma_failure_counted_once(s: Seq<(ArtworkId, RepositoryError)>, id: ArtworkId, error: RepositoryError)
    requires
        failure_ids_unique(s),
    ensures
        failure_ids_unique(with_failure(s, id, error)),
        with_failure(s, id, error).len() == s.len() + (if exists|i: int| 0 <= i < s.len() && s[i].0 == id { 0int } else { 1int }),
        exists|i: int| 0 <= i < with_failure(s, id, error).len() && with_failure(s, id, error)[i] == (id, error),
{
    if exists|i: int| 0 <= i < s.len() && s[i].0 == id {
        let i = choose|i: int| 0 <= i < s.len() && s[i].0 == id;
        assert(with_failure(s, id, error)[i] == (id, error));
    } else {
        assert(with_failure(s, id, error)[s.len() as int] == (id, error));
    }
}

} // verus!
