//! The entities of the forum and the shapes of paginated answers.
//!
//! Identifiers are 128-bit integers and moments are milliseconds since the
//! Unix epoch, so that every field is a value that contracts can speak of.

use vstd::prelude::*;
use crate::paging::Stamped;
use crate::timing::{representable_millis, utc_accepts_millis};

verus! {

/// The largest page width that a list call serves.
pub const MAX_LIMIT: u32 = 100;

#[derive(Debug, PartialEq, Eq)]
pub struct Board {
    pub id: u128,
    pub name: String,
    pub description: String,
    pub created_at: i64,
}

#[derive(Debug, PartialEq, Eq)]
pub struct CreateBoardRequest {
    pub name: String,
    pub description: String,
}

#[derive(Debug, PartialEq, Eq)]
pub struct Post {
    pub id: u128,
    pub board_id: u128,
    pub title: String,
    pub content: String,
    pub created_at: i64,
    pub updated_at: i64,
    pub author: String,
}

#[derive(Debug, PartialEq, Eq)]
pub struct CreatePostRequest {
    pub board_id: u128,
    pub title: String,
    pub content: String,
    pub author: String,
}

#[derive(Debug, PartialEq, Eq)]
pub struct Comment {
    pub id: u128,
    pub post_id: u128,
    pub content: String,
    pub created_at: i64,
    pub author: String,
}

#[derive(Debug, PartialEq, Eq)]
pub struct CreateCommentRequest {
    pub post_id: u128,
    pub content: String,
    pub author: String,
}

#[derive(Debug, PartialEq, Eq)]
pub struct PaginationParams {
    /// Page number, counted from 1.
    pub page: u32,
    /// Number of items per page.
    pub limit: u32,
}

#[derive(Debug, PartialEq, Eq)]
pub struct PaginationMeta {
    pub page: u32,
    pub limit: u32,
    /// Total number of items, where it is known.
    pub total: Option<u32>,
    /// Total number of pages, where it is known.
    pub total_pages: Option<u32>,
}

#[derive(Debug, PartialEq, Eq)]
pub struct PaginatedResponse<T> {
    pub meta: PaginationMeta,
    pub data: Vec<T>,
}

#[derive(Debug, PartialEq, Eq)]
pub struct HealthResponse {
    pub status: String,
    pub version: String,
    pub timestamp: i64,
}

impl Clone for Board {
    fn clone(&self) -> (r: Self)
        ensures
            r == *self,
    {
        Board {
            id: self.id,
            name: self.name.clone(),
            description: self.description.clone(),
            created_at: self.created_at,
        }
    }
}

impl Clone for Post {
    fn clone(&self) -> (r: Self)
        ensures
            r == *self,
    {
        Post {
            id: self.id,
            board_id: self.board_id,
            title: self.title.clone(),
            content: self.content.clone(),
            created_at: self.created_at,
            updated_at: self.updated_at,
            author: self.author.clone(),
        }
    }
}

impl Clone for Comment {
    fn clone(&self) -> (r: Self)
        ensures
            r == *self,
    {
        Comment {
            id: self.id,
            post_id: self.post_id,
            content: self.content.clone(),
            created_at: self.created_at,
            author: self.author.clone(),
        }
    }
}

impl Stamped for Board {
    open spec fn moment(&self) -> i64 {
        self.created_at
    }

    open spec fn moments_ok(&self) -> bool {
        representable_millis(self.created_at)
    }

    fn created(&self) -> (r: i64) {
        self.created_at
    }

    fn check_moments(&self) -> (ok: bool) {
        utc_accepts_millis(self.created_at)
    }
}

impl Stamped for Post {
    open spec fn moment(&self) -> i64 {
        self.created_at
    }

    open spec fn moments_ok(&self) -> bool {
        representable_millis(self.created_at) && representable_millis(self.updated_at)
    }

    fn created(&self) -> (r: i64) {
        self.created_at
    }

    fn check_moments(&self) -> (ok: bool) {
        utc_accepts_millis(self.created_at) && utc_accepts_millis(self.updated_at)
    }
}

impl Stamped for Comment {
    open spec fn moment(&self) -> i64 {
        self.created_at
    }

    open spec fn moments_ok(&self) -> bool {
        representable_millis(self.created_at)
    }

    fn created(&self) -> (r: i64) {
        self.created_at
    }

    fn check_moments(&self) -> (ok: bool) {
        utc_accepts_millis(self.created_at)
    }
}

/// The page served when a request names none.
pub fn default_page() -> (r: u32)
    ensures
        r == 1,
{
    1
}

/// The page width served when a request names none.
pub fn default_limit() -> (r: u32)
    ensures
        r == 10,
{
    10
}

/// The page that a request for `page` is served: at least 1.
pub open spec fn served_page(page: u32) -> u32 {
    if page < 1 {
        1
    } else {
        page
    }
}

/// The width that a request for `limit` is served: within 1 and `MAX_LIMIT`.
pub open spec fn served_limit(limit: u32) -> u32 {
    if limit < 1 {
        1
    } else if limit > MAX_LIMIT {
        MAX_LIMIT
    } else {
        limit
    }
}

impl Default for PaginationParams {
    fn default() -> (r: Self)
        ensures
            r.page == 1,
            r.limit == 10,
    {
        PaginationParams { page: default_page(), limit: default_limit() }
    }
}

impl PaginationParams {
    /// The page number to serve.
    pub fn page_number(&self) -> (r: u32)
        ensures
            r == served_page(self.page),
            r >= 1,
    {
        if self.page < 1 {
            1
        } else {
            self.page
        }
    }

    /// The page width to serve.
    pub fn page_width(&self) -> (r: u32)
        ensures
            r == served_limit(self.limit),
            1 <= r <= MAX_LIMIT,
    {
        if self.limit < 1 {
            1
        } else if self.limit > MAX_LIMIT {
            MAX_LIMIT
        } else {
            self.limit
        }
    }
}

/// Whether a page of `fetched` items at width `limit` may be followed by
/// another: it may exactly when the page is full.
pub open spec fn may_have_more(fetched: nat, limit: u32) -> bool {
    fetched == limit
}

impl PaginationMeta {
    /// The metadata of page `page` at width `limit` that came back with
    /// `fetched` items. The total count is never known; the number of pages
    /// is known, and is `page`, exactly when the page is not full.
    pub fn for_page(page: u32, limit: u32, fetched: usize) -> (m: Self)
        ensures
            m.page == page,
            m.limit == limit,
            m.total == None::<u32>,
            m.total_pages == (if may_have_more(fetched as nat, limit) {
                None::<u32>
            } else {
                Some(page)
            }),
    {
        let has_more = fetched == limit as usize;
        PaginationMeta {
            page,
            limit,
            total: None,
            total_pages: if has_more { None } else { Some(page) },
        }
    }
}

impl PaginationMeta {
    /// Whether the page may be followed by another: it may where the number
    /// of pages is not known, that is, where the page came back full.
    pub fn has_more(&self) -> (r: bool)
        ensures
            r == (self.total_pages is None),
    {
        self.total_pages.is_none()
    }
}

impl HealthResponse {
    /// The answer of a healthy service of version `version` at moment `now`.
    pub fn healthy(version: String, now: i64) -> (r: Self)
        ensures
            r.status@ == "OK"@,
            r.version == version,
            r.timestamp == now,
    {
        HealthResponse { status: "OK".to_string(), version, timestamp: now }
    }
}

} // verus!
