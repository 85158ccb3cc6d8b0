use std::time::Duration;

use forum_api::cache::ResultCache;
use forum_api::errors::{is_failure_status, outcome_label, RepoError};
use forum_api::ident::{KIND_MASK, RANDOM_KIND};
use forum_api::models::{
    Board, Comment, CreateBoardRequest, CreateCommentRequest, CreatePostRequest, HealthResponse,
    PaginationParams, Post,
};
use forum_api::paging::Progress;
use forum_api::repository::{
    board_fetched, comment_parent, create_board, create_board_with, create_comment,
    create_comment_with, create_post, create_post_with, created, fetched_at, finish_list,
    get_board, get_board_after, get_post, get_post_after, health_check, get_boards,
    get_comments_by_post, get_posts_by_board, post_fetched, post_parent, CreateStep, Lookup,
    PageOrder, ParentCheck, StoreFailure,
};
use forum_api::rows::{Column, Entity, Row};
use forum_api::statements::Operation;

const NOW: i64 = 1_700_000_000_000;

fn text(s: &str) -> Column {
    Column::Text(String::from(s))
}

fn board_row(id: u128, created: Column) -> Row {
    Row { columns: vec![Column::Uuid(id), text("General"), text("Talk"), created] }
}

fn post_row(id: u128) -> Row {
    Row {
        columns: vec![
            Column::Uuid(id),
            Column::Uuid(77),
            text("Hi"),
            text("hello"),
            text("alice"),
            Column::BigInt(NOW),
            Column::BigInt(NOW + 1),
        ],
    }
}

fn post_request(board_id: u128) -> CreatePostRequest {
    CreatePostRequest {
        board_id,
        title: String::from("Hi"),
        content: String::from("hello"),
        author: String::from("alice"),
    }
}

fn comment_request(post_id: u128) -> CreateCommentRequest {
    CreateCommentRequest { post_id, content: String::from("nice"), author: String::from("bob") }
}

#[test]
fn board_is_read_from_a_row() {
    let row = board_row(5, Column::BigInt(NOW));
    assert_eq!(
        Board::decode(&row, 1),
        Some(Board {
            id: 5,
            name: String::from("General"),
            description: String::from("Talk"),
            created_at: NOW,
        })
    );
}

#[test]
fn board_moment_falls_back_to_the_reading() {
    assert_eq!(Board::decode(&board_row(5, Column::Null), 42).unwrap().created_at, 42);
    assert_eq!(Board::decode(&board_row(5, text("x")), 42).unwrap().created_at, 42);
    assert_eq!(Board::decode(&board_row(5, Column::BigInt(i64::MAX)), 42).unwrap().created_at, 42);
    let short = Row { columns: vec![Column::Uuid(5), text("General"), text("Talk")] };
    assert_eq!(Board::decode(&short, 42).unwrap().created_at, 42);
}

#[test]
fn board_needs_id_and_texts() {
    let no_id = Row { columns: vec![Column::Null, text("a"), text("b"), Column::BigInt(NOW)] };
    assert_eq!(Board::decode(&no_id, 1), None);
    let no_name =
        Row { columns: vec![Column::Uuid(1), Column::BigInt(3), text("b"), Column::BigInt(NOW)] };
    assert_eq!(Board::decode(&no_name, 1), None);
    let no_description =
        Row { columns: vec![Column::Uuid(1), text("a"), Column::Other, Column::BigInt(NOW)] };
    assert_eq!(Board::decode(&no_description, 1), None);
    assert_eq!(Board::decode(&Row { columns: vec![] }, 1), None);
}

#[test]
fn post_is_read_from_a_row() {
    assert_eq!(
        Post::decode(&post_row(9), 1),
        Some(Post {
            id: 9,
            board_id: 77,
            title: String::from("Hi"),
            content: String::from("hello"),
            created_at: NOW,
            updated_at: NOW + 1,
            author: String::from("alice"),
        })
    );
    let mut broken = post_row(9);
    broken.columns[4] = Column::Null;
    assert_eq!(Post::decode(&broken, 1), None);
    let mut undated = post_row(9);
    undated.columns[6] = Column::Null;
    assert_eq!(Post::decode(&undated, 5).unwrap().updated_at, 5);
}

#[test]
fn row_accessors() {
    let row = board_row(5, Column::BigInt(NOW));
    assert_eq!(row.uuid(0), Some(5));
    assert_eq!(row.uuid(1), None);
    assert_eq!(row.uuid(9), None);
    assert_eq!(row.text(1), Some(String::from("General")));
    assert_eq!(row.text(0), None);
    assert_eq!(row.bigint(3), Some(NOW));
    assert_eq!(row.bigint(2), None);
    assert_eq!(row.moment(3, 1), NOW);
    assert_eq!(row.moment(2, 1), 1);
}

#[test]
fn first_get_board_fetches_and_second_is_cached() {
    let mut cache: ResultCache<Board> = ResultCache::with_default_ttl();
    assert_eq!(get_board(&cache, 5), Lookup::Fetch { op: Operation::GetBoardById, key: 5 });
    let board =
        fetched_at(&mut cache, 5, Ok(vec![board_row(5, Column::BigInt(NOW))]), NOW + 1).unwrap();
    assert_eq!(board.id, 5);
    assert_eq!(board.created_at, NOW);
    assert_eq!(get_board(&cache, 5), Lookup::Cached(board.clone()));
    assert_eq!(get_board_after(&cache, 5, &Duration::from_secs(10)), Lookup::Cached(board.clone()));
    assert_eq!(get_board_after(&cache, 5, &Duration::from_secs(300)), Lookup::Cached(board));
    assert_eq!(get_board(&cache, 6), Lookup::Fetch { op: Operation::GetBoardById, key: 6 });
}

#[test]
fn get_board_after_expiry_fetches_again() {
    let mut cache: ResultCache<Board> = ResultCache::with_default_ttl();
    let reply = Ok(vec![board_row(5, Column::BigInt(NOW))]);
    assert!(board_fetched(&mut cache, 5, reply).is_ok());
    assert_eq!(
        get_board_after(&cache, 5, &Duration::from_secs(301)),
        Lookup::Fetch { op: Operation::GetBoardById, key: 5 }
    );
    assert_eq!(cache.len(), 1);
}

#[test]
fn missing_board_is_not_found_and_not_cached() {
    let mut cache: ResultCache<Board> = ResultCache::with_default_ttl();
    assert_eq!(board_fetched(&mut cache, 5, Ok(vec![])), Err(RepoError::NotFound(5)));
    let unreadable = Row { columns: vec![Column::Null] };
    assert_eq!(fetched_at(&mut cache, 5, Ok(vec![unreadable]), NOW), Err(RepoError::NotFound(5)));
    assert_eq!(cache.len(), 0);
    assert_eq!(get_board(&cache, 5), Lookup::Fetch { op: Operation::GetBoardById, key: 5 });
}

#[test]
fn store_failure_is_passed_on() {
    let mut cache: ResultCache<Board> = ResultCache::with_default_ttl();
    assert_eq!(
        board_fetched(&mut cache, 5, Err(StoreFailure::Execute(String::from("timeout")))),
        Err(RepoError::Execute(String::from("timeout")))
    );
    assert_eq!(
        fetched_at(&mut cache, 5, Err(StoreFailure::Prepare(String::from("syntax"))), NOW),
        Err(RepoError::Prepare(String::from("syntax")))
    );
    assert_eq!(cache.len(), 0);
}

#[test]
fn only_the_first_row_counts() {
    let mut cache: ResultCache<Board> = ResultCache::with_default_ttl();
    let rows = vec![board_row(5, Column::BigInt(NOW)), board_row(6, Column::BigInt(NOW))];
    assert_eq!(fetched_at(&mut cache, 5, Ok(rows), NOW).unwrap().id, 5);
}

#[test]
fn get_post_goes_through_the_cache() {
    let mut cache: ResultCache<Post> = ResultCache::with_default_ttl();
    assert_eq!(get_post(&cache, 9), Lookup::Fetch { op: Operation::GetPostById, key: 9 });
    let post = post_fetched(&mut cache, 9, Ok(vec![post_row(9)])).unwrap();
    assert_eq!(post.id, 9);
    assert_eq!(get_post(&cache, 9), Lookup::Cached(post.clone()));
    assert_eq!(get_post_after(&cache, 9, &Duration::from_secs(1)), Lookup::Cached(post));
    assert_eq!(
        get_post_after(&cache, 9, &Duration::from_secs(1000)),
        Lookup::Fetch { op: Operation::GetPostById, key: 9 }
    );
    assert_eq!(post_fetched(&mut cache, 10, Ok(vec![])), Err(RepoError::NotFound(10)));
}

#[test]
fn board_is_built_from_the_request() {
    let request =
        CreateBoardRequest { name: String::from("General"), description: String::from("Talk") };
    assert_eq!(
        create_board_with(&request, 3, NOW),
        Board {
            id: 3,
            name: String::from("General"),
            description: String::from("Talk"),
            created_at: NOW,
        }
    );
    let drawn = create_board(&request);
    assert_eq!(drawn.name, "General");
    assert_eq!(drawn.description, "Talk");
}

#[test]
fn fresh_ids_differ() {
    let request =
        CreateBoardRequest { name: String::from("General"), description: String::from("Talk") };
    let a = create_board(&request);
    let b = create_board(&request);
    assert_ne!(a.id, b.id);
    assert_ne!(a.id, 0);
}

#[test]
fn fresh_ids_are_random_uuids() {
    let request =
        CreateBoardRequest { name: String::from("General"), description: String::from("Talk") };
    for _ in 0..20 {
        let id = create_board(&request).id;
        assert_eq!((id >> 76) & 0xF, 4);
        assert_eq!((id >> 62) & 0x3, 2);
        assert_eq!(id & KIND_MASK, RANDOM_KIND);
    }
}

#[test]
fn post_without_board_is_refused() {
    let request = post_request(77);
    assert_eq!(post_parent(&request), ParentCheck { op: Operation::BoardExists, key: 77 });
    assert_eq!(
        create_post_with(&request, Ok(0), 1, NOW),
        CreateStep::Refuse(RepoError::ParentNotFound(77))
    );
    assert_eq!(create_post(&request, Ok(0)), CreateStep::Refuse(RepoError::ParentNotFound(77)));
}

#[test]
fn post_with_board_is_inserted() {
    let request = post_request(77);
    assert_eq!(
        create_post_with(&request, Ok(1), 9, NOW),
        CreateStep::Insert {
            op: Operation::CreatePost,
            entity: Post {
                id: 9,
                board_id: 77,
                title: String::from("Hi"),
                content: String::from("hello"),
                created_at: NOW,
                updated_at: NOW,
                author: String::from("alice"),
            },
        }
    );
}

#[test]
fn new_post_is_created_and_updated_at_once() {
    let request = post_request(77);
    let first = create_post(&request, Ok(1));
    let second = create_post(&request, Ok(3));
    match (first, second) {
        (
            CreateStep::Insert { op: Operation::CreatePost, entity: a },
            CreateStep::Insert { op: Operation::CreatePost, entity: b },
        ) => {
            assert_eq!(a.created_at, a.updated_at);
            assert_eq!(b.created_at, b.updated_at);
            assert_ne!(a.id, b.id);
            assert_eq!(a.board_id, 77);
            assert_eq!(a.title, "Hi");
            assert!(a.created_at > 1_600_000_000_000);
        }
        _ => panic!("both posts have a board"),
    }
}

#[test]
fn failed_parent_check_is_passed_on() {
    let request = post_request(77);
    assert_eq!(
        create_post(&request, Err(StoreFailure::Prepare(String::from("bad plan")))),
        CreateStep::Refuse(RepoError::Prepare(String::from("bad plan")))
    );
    assert_eq!(
        create_post_with(&request, Err(StoreFailure::Execute(String::from("down"))), 1, NOW),
        CreateStep::Refuse(RepoError::Execute(String::from("down")))
    );
}

#[test]
fn comment_follows_the_same_pattern() {
    let request = comment_request(9);
    assert_eq!(comment_parent(&request), ParentCheck { op: Operation::PostExists, key: 9 });
    assert_eq!(
        create_comment_with(&request, Ok(0), 1, NOW),
        CreateStep::Refuse(RepoError::ParentNotFound(9))
    );
    assert_eq!(
        create_comment_with(&request, Ok(1), 4, NOW),
        CreateStep::Insert {
            op: Operation::CreateComment,
            entity: Comment {
                id: 4,
                post_id: 9,
                content: String::from("nice"),
                created_at: NOW,
                author: String::from("bob"),
            },
        }
    );
    assert_eq!(create_comment(&request, Ok(0)), CreateStep::Refuse(RepoError::ParentNotFound(9)));
    assert!(matches!(
        create_comment(&request, Ok(1)),
        CreateStep::Insert { op: Operation::CreateComment, .. }
    ));
    assert_eq!(
        create_comment(&request, Err(StoreFailure::Execute(String::from("down")))),
        CreateStep::Refuse(RepoError::Execute(String::from("down")))
    );
}

#[test]
fn insert_outcome() {
    assert_eq!(created(7u32, Ok(())), Ok(7));
    assert_eq!(
        created(7u32, Err(StoreFailure::Execute(String::from("full")))),
        Err(RepoError::Execute(String::from("full")))
    );
    assert_eq!(
        created(7u32, Err(StoreFailure::Prepare(String::from("bad")))),
        Err(RepoError::Prepare(String::from("bad")))
    );
}

#[test]
fn list_calls_say_what_to_ask() {
    let params = PaginationParams { page: 0, limit: 1000 };
    let boards = get_boards(&params);
    assert_eq!(boards.op, Operation::GetBoards);
    assert_eq!(boards.key, None);
    assert_eq!(boards.page_size, 100);
    assert_eq!(boards.order, PageOrder::AsRead);
    let posts = get_posts_by_board(77, &PaginationParams { page: 2, limit: 5 });
    assert_eq!(posts.op, Operation::GetPostsByBoard);
    assert_eq!(posts.key, Some(77));
    assert_eq!(posts.page_size, 5);
    assert_eq!(posts.order, PageOrder::NewestFirst);
    let comments = get_comments_by_post(9, &PaginationParams::default());
    assert_eq!(comments.op, Operation::GetCommentsByPost);
    assert_eq!(comments.key, Some(9));
    assert_eq!(comments.page_size, 10);
    assert_eq!(comments.order, PageOrder::OldestFirst);
}

#[test]
fn posts_come_newest_first_within_the_page() {
    let mut call = get_posts_by_board(77, &PaginationParams { page: 2, limit: 3 });
    let moments = [5i64, 1, 9, 4, 8, 6, 7];
    for (i, m) in moments.iter().enumerate() {
        let post = Post {
            id: i as u128,
            board_id: 77,
            title: String::from("t"),
            content: String::from("c"),
            created_at: NOW + m,
            updated_at: NOW + m,
            author: String::from("a"),
        };
        if call.reader.offer(post) != Progress::NeedMore {
            break;
        }
    }
    let response = finish_list(call).unwrap();
    let mut got = Vec::new();
    for p in &response.data {
        got.push((p.id, p.created_at - NOW));
    }
    assert_eq!(got, vec![(4, 8), (5, 6), (3, 4)]);
    assert_eq!(response.meta.page, 2);
    assert_eq!(response.meta.limit, 3);
    assert_eq!(response.meta.total_pages, None);
}

#[test]
fn comments_come_oldest_first_within_the_page() {
    let mut call = get_comments_by_post(9, &PaginationParams { page: 1, limit: 10 });
    for (i, m) in [5i64, 1, 9].iter().enumerate() {
        call.reader.offer(Comment {
            id: i as u128,
            post_id: 9,
            content: String::from("c"),
            created_at: NOW + m,
            author: String::from("a"),
        });
    }
    let response = finish_list(call).unwrap();
    let mut got = Vec::new();
    for c in &response.data {
        got.push(c.id);
    }
    assert_eq!(got, vec![1, 0, 2]);
    assert_eq!(response.meta.total_pages, Some(1));
}

#[test]
fn boards_come_as_read() {
    let mut call = get_boards(&PaginationParams { page: 1, limit: 2 });
    for (i, m) in [5i64, 1, 9].iter().enumerate() {
        call.reader.offer(Board {
            id: i as u128,
            name: String::from("n"),
            description: String::from("d"),
            created_at: NOW + m,
        });
    }
    let response = finish_list(call).unwrap();
    assert_eq!(response.data.len(), 2);
    assert_eq!(response.data[0].id, 0);
    assert_eq!(response.data[1].id, 1);
}

#[test]
fn malformed_row_fails_the_list() {
    let mut call = get_boards(&PaginationParams::default());
    call.reader.feed_malformed(String::from("bad row"));
    assert_eq!(finish_list(call), Err(RepoError::RowDecode(String::from("bad row"))));
}

#[test]
fn errors_map_to_statuses() {
    assert_eq!(RepoError::ParentNotFound(1).http_status(), 400);
    assert_eq!(RepoError::NotFound(1).http_status(), 404);
    assert_eq!(RepoError::Prepare(String::from("x")).http_status(), 500);
    assert_eq!(RepoError::Execute(String::from("x")).http_status(), 500);
    assert_eq!(RepoError::RowDecode(String::from("x")).http_status(), 500);
    assert_eq!(StoreFailure::Prepare(String::from("p")).into_error(), RepoError::Prepare(String::from("p")));
}

#[test]
fn failure_statuses_start_at_400() {
    assert!(!is_failure_status(200));
    assert!(!is_failure_status(399));
    assert!(is_failure_status(400));
    assert!(is_failure_status(500));
    assert_eq!(outcome_label(true), "success");
    assert_eq!(outcome_label(false), "error");
}

#[test]
fn health_is_ok() {
    let h = health_check(String::from("1.2.3"));
    assert_eq!(h.status, "OK");
    assert_eq!(h.version, "1.2.3");
    assert!(h.timestamp > 1_600_000_000_000);
    assert_eq!(
        HealthResponse::healthy(String::from("v"), 5),
        HealthResponse { status: String::from("OK"), version: String::from("v"), timestamp: 5 }
    );
}

#[test]
fn end_to_end() {
    let mut boards: Vec<Board> = Vec::new();
    let mut posts: Vec<Post> = Vec::new();

    // A board is created and stored.
    let request =
        CreateBoardRequest { name: String::from("General"), description: String::from("Talk") };
    let board = create_board(&request);
    boards.push(board.clone());
    let board = created(board, Ok(())).unwrap();
    assert_eq!(board.name, "General");

    // The list of boards includes it.
    let mut call = get_boards(&PaginationParams { page: 1, limit: 10 });
    for row in &boards {
        if call.reader.offer(row.clone()) != Progress::NeedMore {
            break;
        }
    }
    let listed = finish_list(call).unwrap();
    assert!(listed.data.contains(&board));

    // A post on that board is inserted.
    let on_board = post_request(board.id);
    let check = post_parent(&on_board);
    let mut found = 0usize;
    for b in &boards {
        if b.id == check.key {
            found += 1;
        }
    }
    match create_post(&on_board, Ok(found)) {
        CreateStep::Insert { op, entity } => {
            assert_eq!(op, Operation::CreatePost);
            posts.push(entity.clone());
            assert_eq!(created(entity, Ok(())).unwrap().board_id, board.id);
        }
        CreateStep::Refuse(e) => panic!("refused: {:?}", e),
    }

    // A post on a board that does not exist is refused, and nothing is inserted.
    let stray_id = board.id.wrapping_add(1);
    let stray = post_request(stray_id);
    let check = post_parent(&stray);
    let mut found = 0usize;
    for b in &boards {
        if b.id == check.key {
            found += 1;
        }
    }
    match create_post(&stray, Ok(found)) {
        CreateStep::Refuse(e) => {
            assert_eq!(e, RepoError::ParentNotFound(stray_id));
            assert_eq!(e.http_status(), 400);
        }
        CreateStep::Insert { .. } => panic!("inserted without a board"),
    }
    assert_eq!(posts.len(), 1);
}
