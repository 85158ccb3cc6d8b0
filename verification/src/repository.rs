//! The repositories of boards, posts and comments.
//!
//! A repository call is a short exchange with the store. Each function here
//! is one decision of such an exchange: it takes what the store answered
//! and says what to ask next or what the call returns. The driver that owns
//! the session carries the questions out and brings the answers back.
//!
//! Where a decision needs a fresh identifier or the present moment, the
//! function that draws them is paired with one, named `.._with`, `.._at` or
//! `.._after`, that takes them as arguments and whose contract is exact.

use vstd::prelude::*;
use std::time::Duration;
use crate::cache::{served, CacheEntry, ResultCache};
use crate::errors::RepoError;
use crate::ident::{is_random_uuid, random_uuid};
use crate::models::{
    served_limit, served_page, Board, Comment, CreateBoardRequest, CreateCommentRequest,
    CreatePostRequest, HealthResponse, PaginatedResponse, PaginationParams, Post,
};
use crate::paging::{
    meta_of, ordered, page_of, sort_by_moment, stably_ordered, PageReader, Stamped,
};
use crate::rows::{Entity, Row};
use crate::statements::Operation;
use crate::timing::{duration_nanos, utc_now_millis};

verus! {

/// How a call to the store went wrong.
#[derive(Debug, PartialEq, Eq)]
pub enum StoreFailure {
    /// The query plan could not be built.
    Prepare(String),
    /// The store failed the call.
    Execute(String),
}

impl StoreFailure {
    /// The failure as the repository reports it.
    pub open spec fn error(self) -> RepoError {
        match self {
            StoreFailure::Prepare(message) => RepoError::Prepare(message),
            StoreFailure::Execute(message) => RepoError::Execute(message),
        }
    }

    pub fn into_error(self) -> (e: RepoError)
        ensures
            e == self.error(),
    {
        match self {
            StoreFailure::Prepare(message) => RepoError::Prepare(message),
            StoreFailure::Execute(message) => RepoError::Execute(message),
        }
    }
}

/// How a point lookup goes on after the cache was consulted.
#[derive(Debug, PartialEq, Eq)]
pub enum Lookup<T> {
    /// The cache holds the value: return it and ask the store for nothing.
    Cached(T),
    /// Ask the store once, with operation `op` bound to `key`.
    Fetch { op: Operation, key: u128 },
}

/// How a lookup of `key` goes on, given the cache's entries and the age of
/// the entry found under `key`, if any.
pub open spec fn lookup_step<T>(
    entries: Map<u128, CacheEntry<T>>,
    op: Operation,
    key: u128,
    age: Duration,
) -> Lookup<T> {
    match served(entries, key, age) {
        Some(value) => Lookup::Cached(value),
        None => Lookup::Fetch { op, key },
    }
}

/// Consults `cache` for `key`, given that the entry found there, if any, has
/// the age `age`.
pub fn lookup_after<T: Entity>(cache: &ResultCache<T>, op: Operation, key: u128, age: &Duration) -> (r:
    Lookup<T>)
    ensures
        r == lookup_step(cache@, op, key, *age),
{
    match cache.get_after(key, age) {
        Some(value) => Lookup::Cached(value.duplicate()),
        None => Lookup::Fetch { op, key },
    }
}

/// Consults `cache` for `key` at the present moment. The clock decides
/// whether an entry still counts: a value that is returned is the one stored
/// under `key`, and a key that was never stored is always fetched.
pub fn lookup<T: Entity>(cache: &ResultCache<T>, op: Operation, key: u128) -> (r: Lookup<T>)
    ensures
        match r {
            Lookup::Cached(value) => cache@.contains_key(key) && value == cache@[key].data(),
            Lookup::Fetch { op: asked, key: bound } => asked == op && bound == key,
        },
        !cache@.contains_key(key) ==> r is Fetch,
{
    match cache.get(key) {
        Some(value) => Lookup::Cached(value.duplicate()),
        None => Lookup::Fetch { op, key },
    }
}

/// The entity that a point lookup read: that of the first row, if there is
/// a row and it holds one.
pub open spec fn fetched<T: Entity>(rows: Seq<Row>, now: i64) -> Option<T> {
    if rows.len() == 0 {
        None
    } else {
        T::decoded(rows[0].columns@, now)
    }
}

/// What a point lookup of `key` returns for the store's answer `reply`,
/// read at moment `now`.
pub open spec fn lookup_outcome<T: Entity>(
    reply: Result<Vec<Row>, StoreFailure>,
    key: u128,
    now: i64,
) -> Result<T, RepoError> {
    match reply {
        Err(failure) => Err(failure.error()),
        Ok(rows) => match fetched::<T>(rows@, now) {
            Some(entity) => Ok(entity),
            None => Err(RepoError::NotFound(key)),
        },
    }
}

/// What a point lookup of `key` that returned `outcome` leaves in the cache:
/// an entity that was found stands under `key` with the cache's time to
/// live, and nothing else has changed.
pub open spec fn cache_follows<T>(
    before: Map<u128, CacheEntry<T>>,
    after: Map<u128, CacheEntry<T>>,
    ttl: Duration,
    key: u128,
    outcome: Result<T, RepoError>,
) -> bool {
    match outcome {
        Ok(entity) => {
            &&& after.dom() == before.dom().insert(key)
            &&& after[key].data() == entity
            &&& after[key].ttl() == ttl
            &&& forall|other: u128|
                other != key && before.contains_key(other) ==> after[other] == before[other]
        },
        Err(_) => after == before,
    }
}

/// Ends a point lookup of `key` with the store's answer `reply`, read at
/// moment `now`. An entity that was found is stored in `cache` under `key`
/// and returned; an empty or unreadable answer is `NotFound` and a failure
/// of the store is passed on, and neither touches the cache.
pub fn fetched_at<T: Entity>(
    cache: &mut ResultCache<T>,
    key: u128,
    reply: Result<Vec<Row>, StoreFailure>,
    now: i64,
) -> (r: Result<T, RepoError>)
    ensures
        r == lookup_outcome::<T>(reply, key, now),
        final(cache).ttl() == old(cache).ttl(),
        cache_follows(old(cache)@, final(cache)@, old(cache).ttl(), key, r),
{
    match reply {
        Err(failure) => Err(failure.into_error()),
        Ok(rows) => {
            if rows.len() == 0 {
                return Err(RepoError::NotFound(key));
            }
            match T::decode(&rows[0], now) {
                Some(entity) => {
                    cache.put(key, entity.duplicate());
                    Ok(entity)
                },
                None => Err(RepoError::NotFound(key)),
            }
        },
    }
}

/// Begins `get_board`: the board from the cache, or the one question to
/// put to the store.
pub fn get_board(cache: &ResultCache<Board>, id: u128) -> (r: Lookup<Board>)
    ensures
        match r {
            Lookup::Cached(board) => cache@.contains_key(id) && board == cache@[id].data(),
            Lookup::Fetch { op, key } => op == Operation::GetBoardById && key == id,
        },
        !cache@.contains_key(id) ==> r is Fetch,
{
    lookup(cache, Operation::GetBoardById, id)
}

/// `get_board` for an entry of age `age`.
pub fn get_board_after(cache: &ResultCache<Board>, id: u128, age: &Duration) -> (r: Lookup<Board>)
    ensures
        r == lookup_step(cache@, Operation::GetBoardById, id, *age),
{
    lookup_after(cache, Operation::GetBoardById, id, age)
}

/// Ends `get_board` with the store's answer, read at the present moment:
/// what is returned and stored is what `fetched_at` gives for some moment.
pub fn board_fetched(
    cache: &mut ResultCache<Board>,
    id: u128,
    reply: Result<Vec<Row>, StoreFailure>,
) -> (r: Result<Board, RepoError>)
    ensures
        exists|now: i64| r == lookup_outcome::<Board>(reply, id, now),
        final(cache).ttl() == old(cache).ttl(),
        cache_follows(old(cache)@, final(cache)@, old(cache).ttl(), id, r),
{
    let now = utc_now_millis();
    fetched_at(cache, id, reply, now)
}

/// Begins `get_post`: the post from the cache, or the one question to put
/// to the store.
pub fn get_post(cache: &ResultCache<Post>, id: u128) -> (r: Lookup<Post>)
    ensures
        match r {
            Lookup::Cached(post) => cache@.contains_key(id) && post == cache@[id].data(),
            Lookup::Fetch { op, key } => op == Operation::GetPostById && key == id,
        },
        !cache@.contains_key(id) ==> r is Fetch,
{
    lookup(cache, Operation::GetPostById, id)
}

/// `get_post` for an entry of age `age`.
pub fn get_post_after(cache: &ResultCache<Post>, id: u128, age: &Duration) -> (r: Lookup<Post>)
    ensures
        r == lookup_step(cache@, Operation::GetPostById, id, *age),
{
    lookup_after(cache, Operation::GetPostById, id, age)
}

/// Ends `get_post` with the store's answer, read at the present moment:
/// what is returned and stored is what `fetched_at` gives for some moment.
pub fn post_fetched(
    cache: &mut ResultCache<Post>,
    id: u128,
    reply: Result<Vec<Row>, StoreFailure>,
) -> (r: Result<Post, RepoError>)
    ensures
        exists|now: i64| r == lookup_outcome::<Post>(reply, id, now),
        final(cache).ttl() == old(cache).ttl(),
        cache_follows(old(cache)@, final(cache)@, old(cache).ttl(), id, r),
{
    let now = utc_now_millis();
    fetched_at(cache, id, reply, now)
}

/// Of two lookups of one key, the first on a cache that does not hold the
/// key and the second within the time to live of what the first stored,
/// only the first asks the store: the second is answered from the cache with
/// the value that the first returned.
pub proof fn lemma_second_lookup_is_cached<T>(
    before: Map<u128, CacheEntry<T>>,
    after: Map<u128, CacheEntry<T>>,
    ttl: Duration,
    op: Operation,
    key: u128,
    value: T,
    first_age: Duration,
    second_age: Duration,
)
    requires
        !before.contains_key(key),
        cache_follows(before, after, ttl, key, Ok(value)),
        duration_nanos(second_age) <= duration_nanos(ttl),
    ensures
        lookup_step(before, op, key, first_age) == (Lookup::<T>::Fetch { op, key }),
        lookup_step(after, op, key, second_age) == Lookup::Cached(value),
{
    assert(after.dom().contains(key));
}

/// A lookup that comes once the time to live of a stored value has passed
/// asks the store again, once, although the lapsed entry is still in the
/// cache.
pub proof fn lemma_lookup_after_expiry_fetches<T>(
    before: Map<u128, CacheEntry<T>>,
    after: Map<u128, CacheEntry<T>>,
    ttl: Duration,
    op: Operation,
    key: u128,
    value: T,
    age: Duration,
)
    requires
        cache_follows(before, after, ttl, key, Ok(value)),
        duration_nanos(age) > duration_nanos(ttl),
    ensures
        after.contains_key(key),
        lookup_step(after, op, key, age) == (Lookup::<T>::Fetch { op, key }),
{
    assert(after.dom().contains(key));
}

/// The board that `request` asks for, under identifier `id`, created at
/// `now`.
pub fn create_board_with(request: &CreateBoardRequest, id: u128, now: i64) -> (board: Board)
    ensures
        board == (Board {
            id,
            name: request.name,
            description: request.description,
            created_at: now,
        }),
{
    Board {
        id,
        name: request.name.clone(),
        description: request.description.clone(),
        created_at: now,
    }
}

/// The board that `request` asks for, under a fresh identifier, created
/// now. It is to be inserted with `Operation::CreateBoard`.
pub fn create_board(request: &CreateBoardRequest) -> (board: Board)
    ensures
        is_random_uuid(board.id),
        board.name == request.name,
        board.description == request.description,
{
    let id = random_uuid();
    let now = utc_now_millis();
    create_board_with(request, id, now)
}

/// The question that decides whether a new entity's parent exists.
#[derive(Debug, Clone, Copy, PartialEq, Eq, Structural)]
pub struct ParentCheck {
    pub op: Operation,
    pub key: u128,
}

/// How the creation of an entity goes on after its parent was looked for.
#[derive(Debug, PartialEq, Eq)]
pub enum CreateStep<E> {
    /// The parent exists: insert `entity` with operation `op`.
    Insert { op: Operation, entity: E },
    /// Nothing is inserted: the call returns this error.
    Refuse(RepoError),
}

/// Begins `create_post`: the board that the post names must exist.
pub fn post_parent(request: &CreatePostRequest) -> (check: ParentCheck)
    ensures
        check == (ParentCheck { op: Operation::BoardExists, key: request.board_id }),
{
    ParentCheck { op: Operation::BoardExists, key: request.board_id }
}

/// What `create_post` does once the store has answered the parent check
/// with `parent`, the number of rows found or a failure.
pub open spec fn post_step(
    request: CreatePostRequest,
    parent: Result<usize, StoreFailure>,
    id: u128,
    now: i64,
) -> CreateStep<Post> {
    match parent {
        Err(failure) => CreateStep::Refuse(failure.error()),
        Ok(found) => if found == 0 {
            CreateStep::Refuse(RepoError::ParentNotFound(request.board_id))
        } else {
            CreateStep::Insert {
                op: Operation::CreatePost,
                entity: Post {
                    id,
                    board_id: request.board_id,
                    title: request.title,
                    content: request.content,
                    created_at: now,
                    updated_at: now,
                    author: request.author,
                },
            }
        },
    }
}

/// Goes on with `create_post` after the parent check, with `id` and `now`
/// for the new post. Where the board is absent the call is refused with
/// `ParentNotFound` and no insert is asked for.
pub fn create_post_with(
    request: &CreatePostRequest,
    parent: Result<usize, StoreFailure>,
    id: u128,
    now: i64,
) -> (step: CreateStep<Post>)
    ensures
        step == post_step(*request, parent, id, now),
        parent == Ok::<usize, StoreFailure>(0) ==> step == CreateStep::<Post>::Refuse(
            RepoError::ParentNotFound(request.board_id),
        ),
{
    match parent {
        Err(failure) => CreateStep::Refuse(failure.into_error()),
        Ok(found) => {
            if found == 0 {
                CreateStep::Refuse(RepoError::ParentNotFound(request.board_id))
            } else {
                CreateStep::Insert {
                    op: Operation::CreatePost,
                    entity: Post {
                        id,
                        board_id: request.board_id,
                        title: request.title.clone(),
                        content: request.content.clone(),
                        created_at: now,
                        updated_at: now,
                        author: request.author.clone(),
                    },
                }
            }
        },
    }
}

/// Goes on with `create_post` after the parent check, with a fresh
/// identifier and the present moment for the new post. Whatever they are,
/// the post is created and updated at one and the same moment, and an absent
/// board or a failed check asks for no insert.
pub fn create_post(request: &CreatePostRequest, parent: Result<usize, StoreFailure>) -> (step:
    CreateStep<Post>)
    ensures
        match parent {
            Err(failure) => step == CreateStep::<Post>::Refuse(failure.error()),
            Ok(found) => if found == 0 {
                step == CreateStep::<Post>::Refuse(RepoError::ParentNotFound(request.board_id))
            } else {
                &&& step is Insert
                &&& step->op == Operation::CreatePost
                &&& is_random_uuid(step->entity.id)
                &&& step->entity.created_at == step->entity.updated_at
                &&& step->entity.board_id == request.board_id
                &&& step->entity.title == request.title
                &&& step->entity.content == request.content
                &&& step->entity.author == request.author
            },
        },
{
    let id = random_uuid();
    let now = utc_now_millis();
    create_post_with(request, parent, id, now)
}

/// Begins `create_comment`: the post that the comment names must exist.
pub fn comment_parent(request: &CreateCommentRequest) -> (check: ParentCheck)
    ensures
        check == (ParentCheck { op: Operation::PostExists, key: request.post_id }),
{
    ParentCheck { op: Operation::PostExists, key: request.post_id }
}

/// What `create_comment` does once the store has answered the parent check
/// with `parent`, the number of rows found or a failure.
pub open spec fn comment_step(
    request: CreateCommentRequest,
    parent: Result<usize, StoreFailure>,
    id: u128,
    now: i64,
) -> CreateStep<Comment> {
    match parent {
        Err(failure) => CreateStep::Refuse(failure.error()),
        Ok(found) => if found == 0 {
            CreateStep::Refuse(RepoError::ParentNotFound(request.post_id))
        } else {
            CreateStep::Insert {
                op: Operation::CreateComment,
                entity: Comment {
                    id,
                    post_id: request.post_id,
                    content: request.content,
                    created_at: now,
                    author: request.author,
                },
            }
        },
    }
}

/// Goes on with `create_comment` after the parent check, with `id` and
/// `now` for the new comment.
pub fn create_comment_with(
    request: &CreateCommentRequest,
    parent: Result<usize, StoreFailure>,
    id: u128,
    now: i64,
) -> (step: CreateStep<Comment>)
    ensures
        step == comment_step(*request, parent, id, now),
{
    match parent {
        Err(failure) => CreateStep::Refuse(failure.into_error()),
        Ok(found) => {
            if found == 0 {
                CreateStep::Refuse(RepoError::ParentNotFound(request.post_id))
            } else {
                CreateStep::Insert {
                    op: Operation::CreateComment,
                    entity: Comment {
                        id,
                        post_id: request.post_id,
                        content: request.content.clone(),
                        created_at: now,
                        author: request.author.clone(),
                    },
                }
            }
        },
    }
}

/// Goes on with `create_comment` after the parent check, with a fresh
/// identifier and the present moment for the new comment.
pub fn create_comment(request: &CreateCommentRequest, parent: Result<usize, StoreFailure>) -> (step:
    CreateStep<Comment>)
    ensures
        match parent {
            Err(failure) => step == CreateStep::<Comment>::Refuse(failure.error()),
            Ok(found) => if found == 0 {
                step == CreateStep::<Comment>::Refuse(RepoError::ParentNotFound(request.post_id))
            } else {
                &&& step is Insert
                &&& step->op == Operation::CreateComment
                &&& is_random_uuid(step->entity.id)
                &&& step->entity.post_id == request.post_id
                &&& step->entity.content == request.content
                &&& step->entity.author == request.author
            },
        },
{
    let id = random_uuid();
    let now = utc_now_millis();
    create_comment_with(request, parent, id, now)
}

/// Ends a creation with the store's answer to the insert: the entity as it
/// was inserted, or the store's failure.
pub fn created<E>(entity: E, reply: Result<(), StoreFailure>) -> (r: Result<E, RepoError>)
    ensures
        r == (match reply {
            Ok(()) => Ok::<E, RepoError>(entity),
            Err(failure) => Err::<E, RepoError>(failure.error()),
        }),
{
    match reply {
        Ok(()) => Ok(entity),
        Err(failure) => Err(failure.into_error()),
    }
}

/// The order in which a page is handed out.
#[derive(Debug, Clone, Copy, PartialEq, Eq, Structural)]
pub enum PageOrder {
    /// As the store yielded the rows.
    AsRead,
    /// By moment of creation, the newest first.
    NewestFirst,
    /// By moment of creation, the oldest first.
    OldestFirst,
}

/// A list call under way: what to ask the store, and the reader that
/// collects the page from the rows that come back.
pub struct ListCall<T> {
    /// The operation whose rows are read.
    pub op: Operation,
    /// The identifier that the operation is bound to, if it takes one.
    pub key: Option<u128>,
    /// The page size that the store's cursor is told to use.
    pub page_size: i32,
    pub order: PageOrder,
    pub reader: PageReader<T>,
}

impl<T> ListCall<T> {
    /// Whether the call is one that was just begun for `params`.
    pub open spec fn begun(&self, params: PaginationParams) -> bool {
        &&& self.page_size == served_limit(params.limit)
        &&& self.reader.wf()
        &&& self.reader.page() == served_page(params.page)
        &&& self.reader.limit() == served_limit(params.limit)
        &&& self.reader.consumed() == Seq::<(T, bool)>::empty()
        &&& self.reader.items() == Seq::<T>::empty()
        &&& self.reader.failure() is None
    }
}

fn begin_list<T>(op: Operation, key: Option<u128>, order: PageOrder, params: &PaginationParams) -> (call:
    ListCall<T>)
    ensures
        call.op == op,
        call.key == key,
        call.order == order,
        call.begun(*params),
{
    let page = params.page_number();
    let limit = params.page_width();
    ListCall { op, key, page_size: limit as i32, order, reader: PageReader::new(page, limit) }
}

/// Begins `get_boards`: boards are handed out as the store yields them.
pub fn get_boards(params: &PaginationParams) -> (call: ListCall<Board>)
    ensures
        call.op == Operation::GetBoards,
        call.key is None,
        call.order == PageOrder::AsRead,
        call.begun(*params),
{
    begin_list(Operation::GetBoards, None, PageOrder::AsRead, params)
}

/// Begins `get_posts_by_board`: the posts of a page are handed out with
/// the newest first.
pub fn get_posts_by_board(board_id: u128, params: &PaginationParams) -> (call: ListCall<Post>)
    ensures
        call.op == Operation::GetPostsByBoard,
        call.key == Some(board_id),
        call.order == PageOrder::NewestFirst,
        call.begun(*params),
{
    begin_list(Operation::GetPostsByBoard, Some(board_id), PageOrder::NewestFirst, params)
}

/// Begins `get_comments_by_post`: the comments of a page are handed out
/// with the oldest first.
pub fn get_comments_by_post(post_id: u128, params: &PaginationParams) -> (call: ListCall<Comment>)
    ensures
        call.op == Operation::GetCommentsByPost,
        call.key == Some(post_id),
        call.order == PageOrder::OldestFirst,
        call.begun(*params),
{
    begin_list(Operation::GetCommentsByPost, Some(post_id), PageOrder::OldestFirst, params)
}

/// Ends a list call: the page of the rows that were read, in the call's
/// order and with its metadata, or the failure that a malformed row caused.
/// Ordering moves items within the page, keeps items of one moment in the
/// order they were read, and neither adds nor loses one.
pub fn finish_list<T: Stamped>(call: ListCall<T>) -> (r: Result<PaginatedResponse<T>, RepoError>)
    requires
        call.reader.wf(),
    ensures
        match r {
            Ok(response) => {
                let page = page_of(
                    call.reader.consumed(),
                    call.reader.page(),
                    call.reader.limit(),
                );
                &&& call.reader.failure() is None
                &&& response.meta == meta_of(call.reader.page(), call.reader.limit(), page.len())
                &&& response.data@.len() == page.len()
                &&& response.data@.len() <= call.reader.limit()
                &&& response.data@.to_multiset() == page.to_multiset()
                &&& call.order == PageOrder::AsRead ==> response.data@ == page
                &&& call.order == PageOrder::NewestFirst ==> ordered(response.data@, true)
                    && exists|from: Seq<int>| stably_ordered(page, response.data@, from, true)
                &&& call.order == PageOrder::OldestFirst ==> ordered(response.data@, false)
                    && exists|from: Seq<int>| stably_ordered(page, response.data@, from, false)
            },
            Err(e) => call.reader.failure() is Some && e == RepoError::RowDecode(
                call.reader.failure()->Some_0,
            ),
        },
{
    let order = call.order;
    match call.reader.finish() {
        Err(e) => Err(e),
        Ok(response) => {
            let data = match order {
                PageOrder::AsRead => response.data,
                PageOrder::NewestFirst => sort_by_moment(response.data, true),
                PageOrder::OldestFirst => sort_by_moment(response.data, false),
            };
            Ok(PaginatedResponse { meta: response.meta, data })
        },
    }
}

/// The answer to a health check of a service of version `version`, stamped
/// with the present moment.
pub fn health_check(version: String) -> (r: HealthResponse)
    ensures
        r.status@ == "OK"@,
        r.version == version,
{
    HealthResponse::healthy(version, utc_now_millis())
}

} // verus!
