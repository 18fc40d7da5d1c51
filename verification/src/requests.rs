//! The requests of the memory tools and routes, and the limits, windows and
//! answers that are derived from them before the store is asked.

use vstd::prelude::*;

verus! {

/// The number of search results a tool request gets when it names none.
pub const TOOL_DEFAULT_SEARCH_LIMIT: usize = 10;

/// The most search results a tool request or a search route can get.
pub const MAX_SEARCH_LIMIT: usize = 50;

/// The number of memories a listing returns when it names no limit.
pub const DEFAULT_LIST_LIMIT: usize = 50;

/// The most memories one listing returns.
pub const MAX_LIST_LIMIT: usize = 200;

/// The answer given when an update names nothing to change.
pub const NOTHING_TO_UPDATE: &'static str = "Provide at least one field to update: content or importance.";

/// A semantic search through the memory tools.
#[derive(Debug, Clone, PartialEq, Eq)]
pub struct SearchMemoriesRequest {
    pub query: String,
    pub limit: Option<usize>,
}

/// A read of one memory through the memory tools.
#[derive(Debug, Clone, PartialEq, Eq)]
pub struct GetMemoryRequest {
    pub id: String,
}

/// A deletion of one memory through the memory tools.
#[derive(Debug, Clone, PartialEq, Eq)]
pub struct DeleteMemoryRequest {
    pub id: String,
}

/// A listing of recent memories through the memory tools.
#[derive(Debug, Clone, Copy, PartialEq, Eq, Structural)]
pub struct ListMemoriesRequest {
    pub limit: Option<usize>,
    pub offset: Option<usize>,
}

/// The answer to a deletion through the memory tools.
#[derive(Debug, Clone, PartialEq, Eq)]
pub struct DeleteMemoryResponse {
    pub id: String,
    pub deleted: bool,
}

/// The query string of the listing route.
#[derive(Debug, Clone, Copy, PartialEq, Eq, Structural)]
pub struct ListQuery {
    pub limit: Option<usize>,
    pub offset: Option<usize>,
}

/// The query string of the search route.
#[derive(Debug, Clone, PartialEq, Eq)]
pub struct SearchQuery {
    pub q: String,
    pub limit: Option<usize>,
}

/// How many memories a listing returns, and how many it skips first.
#[derive(Debug, Clone, Copy, PartialEq, Eq, Structural)]
pub struct ListWindow {
    pub limit: usize,
    pub offset: usize,
}

impl Default for ListMemoriesRequest {
    fn default() -> (r: Self)
        ensures
            r.limit is None,
            r.offset is None,
    {
        ListMemoriesRequest { limit: None, offset: None }
    }
}

/// A requested limit, or `default` when none was given, raised to at least
/// one and then capped at `max`.
pub open spec fn spec_normalize_limit(limit: Option<usize>, default: usize, max: usize) -> usize {
    let asked = match limit {
        Some(n) => n,
        None => default,
    };
    let raised: usize = if asked < 1 { 1 } else { asked };
    if raised > max { max } else { raised }
}

/// Brings a requested limit into `1..=max` (into `0..=0` when `max` is 0).
pub fn normalize_limit(limit: Option<usize>, default: usize, max: usize) -> (r: usize)
    ensures
        r == spec_normalize_limit(limit, default, max),
        max >= 1 ==> 1 <= r <= max,
        (limit matches Some(n) && 1 <= n <= max) ==> r == limit.unwrap(),
{
    let asked = match limit {
        Some(n) => n,
        None => default,
    };
    let raised = if asked < 1 { 1 } else { asked };
    if raised > max { max } else { raised }
}

/// The window of a listing: the limit (50 when none is given) capped at
/// 200, and the offset (0 when none is given).
pub open spec fn spec_list_window(limit: Option<usize>, offset: Option<usize>) -> ListWindow {
    let asked: usize = match limit {
        Some(n) => n,
        None => DEFAULT_LIST_LIMIT,
    };
    ListWindow {
        limit: if asked > MAX_LIST_LIMIT { MAX_LIST_LIMIT } else { asked },
        offset: match offset {
            Some(o) => o,
            None => 0,
        },
    }
}

/// The window of a listing.
pub fn list_window(limit: Option<usize>, offset: Option<usize>) -> (r: ListWindow)
    ensures
        r == spec_list_window(limit, offset),
        r.limit <= MAX_LIST_LIMIT,
{
    let asked = match limit {
        Some(n) => n,
        None => DEFAULT_LIST_LIMIT,
    };
    ListWindow {
        limit: if asked > MAX_LIST_LIMIT { MAX_LIST_LIMIT } else { asked },
        offset: match offset {
            Some(o) => o,
            None => 0,
        },
    }
}

impl SearchMemoriesRequest {
    /// The number of results a tool search asks the store for: the
    /// requested limit (10 when none is given) brought into `1..=50`.
    pub fn effective_limit(&self) -> (r: usize)
        ensures
            r == spec_normalize_limit(self.limit, TOOL_DEFAULT_SEARCH_LIMIT, MAX_SEARCH_LIMIT),
            1 <= r <= MAX_SEARCH_LIMIT,
    {
        normalize_limit(self.limit, TOOL_DEFAULT_SEARCH_LIMIT, MAX_SEARCH_LIMIT)
    }
}

impl SearchQuery {
    /// The number of results the search route asks the store for: the
    /// requested limit (10 when none is given) capped at 50. A limit of 0
    /// stays 0.
    pub fn effective_limit(&self) -> (r: usize)
        ensures
            r == (match self.limit {
                Some(n) => if n > MAX_SEARCH_LIMIT { MAX_SEARCH_LIMIT } else { n },
                None => TOOL_DEFAULT_SEARCH_LIMIT,
            }),
    {
        match self.limit {
            Some(n) => if n > MAX_SEARCH_LIMIT { MAX_SEARCH_LIMIT } else { n },
            None => TOOL_DEFAULT_SEARCH_LIMIT,
        }
    }
}

impl ListMemoriesRequest {
    /// The window a tool listing is answered with.
    pub fn window(&self) -> (r: ListWindow)
        ensures
            r == spec_list_window(self.limit, self.offset),
    {
        list_window(self.limit, self.offset)
    }
}

impl ListQuery {
    /// The window the listing route is answered with.
    pub fn window(&self) -> (r: ListWindow)
        ensures
            r == spec_list_window(self.limit, self.offset),
    {
        list_window(self.limit, self.offset)
    }
}

impl DeleteMemoryResponse {
    /// The answer to a deletion of the memory `id` that succeeded.
    pub fn deleted(id: String) -> (r: Self)
        ensures
            r.id@ == id@,
            r.deleted,
    {
        DeleteMemoryResponse { id, deleted: true }
    }
}

/// Why an update request was refused before the store was asked.
#[derive(Debug, Clone, Copy, PartialEq, Eq, Structural)]
pub enum UpdateRequestError {
    /// Neither new content nor a new importance was given.
    NothingToUpdate,
}

impl UpdateRequestError {
    /// The text the request is answered with.
    pub fn message(&self) -> (r: &'static str)
        ensures
            r@ == NOTHING_TO_UPDATE@,
    {
        NOTHING_TO_UPDATE
    }
}

/// An update through the memory tools must change the content, the
/// importance, or both.
pub fn check_update_request(has_content: bool, has_importance: bool) -> (r: Result<(), UpdateRequestError>)
    ensures
        r is Ok <==> (has_content || has_importance),
        r is Err ==> r == Err::<(), UpdateRequestError>(UpdateRequestError::NothingToUpdate),
{
    if !has_content && !has_importance {
        Err(UpdateRequestError::NothingToUpdate)
    } else {
        Ok(())
    }
}

/// The content an update writes: none when the new content is empty (the
/// content and its embedding then stay as they are), otherwise the new
/// content, which is then embedded again.
pub fn content_change(content: String) -> (r: Option<String>)
    ensures
        content@.len() == 0 ==> r is None,
        content@.len() > 0 ==> (r matches Some(c) && c@ == content@),
{
    if content.as_str().is_empty() {
        None
    } else {
        Some(content)
    }
}

} // verus!
