use posts_service::db_repository::{get, get_all, insert, NewPostDb, PostStore, PostsFilter};
use posts_service::domain::PostError;
use posts_service::handlers::{create_post, get_post, list_posts, CreatePostRequest};
use posts_service::infra_errors::InfraError;
use posts_service::json_extractor::JsonExtractor;
use posts_service::post_id::PostId;
use posts_service::infra_errors::{adapt_infra_error, InteractError, PoolError, QueryError};

fn new_post(title: &str, body: &str, published: bool) -> NewPostDb {
    NewPostDb {
        title: title.to_string(),
        body: body.to_string(),
        published,
    }
}

fn filter(published: Option<bool>, title_contains: Option<&str>) -> PostsFilter {
    PostsFilter {
        published,
        title_contains: title_contains.map(|s| s.to_string()),
    }
}

#[test]
fn created_post_is_unpublished() {
    let mut store = PostStore::new();
    let req = CreatePostRequest {
        title: "hello".to_string(),
        body: "world".to_string(),
    };
    let pr = create_post(&mut store, JsonExtractor(req)).unwrap();
    assert!(!pr.published);
    assert_eq!(pr.title, "hello");
    assert_eq!(pr.body, "world");
}

#[test]
fn get_absent_id_is_not_found_never_server_fault() {
    let mut store = PostStore::new();
    insert(&mut store, new_post("a", "b", false)).unwrap();
    let absent = PostId { value: 12345 };
    let r = get(&store, absent);
    assert!(matches!(r, Err(InfraError::NotFound)));
    let r2 = get_post(&store, absent);
    match r2 {
        Err(e) => assert_eq!(e, PostError::NotFound(absent)),
        Ok(_) => panic!("expected not-found"),
    }
}

#[test]
fn round_trip_create_then_get() {
    let mut store = PostStore::new();
    let created = insert(&mut store, new_post("my title", "my body", false)).unwrap();
    let fetched = get(&store, created.id).unwrap();
    assert_eq!(fetched.id, created.id);
    assert_eq!(fetched.title, "my title");
    assert_eq!(fetched.body, "my body");
    assert!(!fetched.published);
}

#[test]
fn creates_produce_distinct_ids() {
    let mut store = PostStore::new();
    let mut ids = Vec::new();
    for i in 0..50 {
        let p = insert(&mut store, new_post(&format!("t{}", i), "b", false)).unwrap();
        ids.push(p.id);
    }
    for i in 0..ids.len() {
        for j in 0..i {
            assert_ne!(ids[i], ids[j]);
        }
    }
}

#[test]
fn insert_rejects_duplicate_id() {
    let mut store = PostStore::new();
    let created = insert(&mut store, new_post("a", "b", false)).unwrap();
    let r = posts_service::db_repository::insert_with_id(&mut store, created.id, new_post("c", "d", false));
    assert!(matches!(r, Err(InfraError::InternalServerError)));
    // the store is unchanged: the second title is nowhere
    let all = get_all(&store, filter(None, None)).unwrap();
    assert_eq!(all.len(), 1);
    assert_eq!(all[0].title, "a");
}

#[test]
fn list_no_filters_returns_every_post() {
    let mut store = PostStore::new();
    insert(&mut store, new_post("one", "b", false)).unwrap();
    insert(&mut store, new_post("two", "b", true)).unwrap();
    insert(&mut store, new_post("three", "b", false)).unwrap();
    let all = get_all(&store, filter(None, None)).unwrap();
    assert_eq!(all.len(), 3);
    assert_eq!(all[0].title, "one");
    assert_eq!(all[1].title, "two");
    assert_eq!(all[2].title, "three");
}

#[test]
fn list_published_filter_keeps_only_published() {
    let mut store = PostStore::new();
    insert(&mut store, new_post("one", "b", false)).unwrap();
    insert(&mut store, new_post("two", "b", true)).unwrap();
    insert(&mut store, new_post("three", "b", true)).unwrap();
    let published = get_all(&store, filter(Some(true), None)).unwrap();
    assert_eq!(published.len(), 2);
    assert!(published.iter().all(|p| p.published));
    let unpublished = get_all(&store, filter(Some(false), None)).unwrap();
    assert_eq!(unpublished.len(), 1);
    assert_eq!(unpublished[0].title, "one");
}

#[test]
fn list_title_filter_is_case_insensitive_substring() {
    let mut store = PostStore::new();
    insert(&mut store, new_post("Foo fighters", "b", false)).unwrap();
    insert(&mut store, new_post("untitled", "b", false)).unwrap();
    insert(&mut store, new_post("BARFOOBAZ", "b", true)).unwrap();
    let r = get_all(&store, filter(None, Some("foo"))).unwrap();
    assert_eq!(r.len(), 2);
    assert_eq!(r[0].title, "Foo fighters");
    assert_eq!(r[1].title, "BARFOOBAZ");
}

#[test]
fn list_combined_filters_intersect() {
    let mut store = PostStore::new();
    insert(&mut store, new_post("foo one", "b", false)).unwrap();
    insert(&mut store, new_post("foo two", "b", true)).unwrap();
    insert(&mut store, new_post("bar", "b", true)).unwrap();
    let r = get_all(&store, filter(Some(true), Some("foo"))).unwrap();
    assert_eq!(r.len(), 1);
    assert_eq!(r[0].title, "foo two");
}

#[test]
fn list_posts_wraps_the_posts() {
    let mut store = PostStore::new();
    insert(&mut store, new_post("a", "b", false)).unwrap();
    let lr = list_posts(&store, filter(None, None)).unwrap();
    assert_eq!(lr.posts.len(), 1);
    assert_eq!(lr.posts[0].title, "a");
}

#[test]
fn infra_error_messages() {
    assert_eq!(InfraError::NotFound.message(), "Not found");
    assert_eq!(InfraError::InternalServerError.message(), "Internal server error");
}

#[test]
fn adapt_infra_error_reduces_storage_errors() {
    assert_eq!(adapt_infra_error(QueryError::NotFound), InfraError::NotFound);
    assert_eq!(adapt_infra_error(QueryError::Other), InfraError::InternalServerError);
    assert_eq!(adapt_infra_error(PoolError), InfraError::InternalServerError);
    assert_eq!(adapt_infra_error(InteractError), InfraError::InternalServerError);
    let e = posts_service::errors::internal_error("anything at all");
    assert!(matches!(e, posts_service::errors::AppError::InternalServerError));
}
