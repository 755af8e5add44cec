use posts_service::db_repository::PostStore;
use posts_service::post_id::{format_post_id, parse_post_id, PostId};
use posts_service::response::{render_body, HttpResponse, ResponseBody};
use posts_service::routes::{handle_request, HttpMethod};
use posts_service::db_repository::str_contains_ci;
use posts_service::domain::PostError;
use posts_service::errors::AppError;

fn serve(store: &mut PostStore, method: HttpMethod, path: &str, query: &str, body: &str) -> (u16, String) {
    let HttpResponse { status, body } = handle_request(store, method, path, query, body);
    (status, render_body(&body))
}

#[test]
fn root_reports_liveness() {
    let mut store = PostStore::new();
    let (status, body) = serve(&mut store, HttpMethod::Get, "/", "", "");
    assert_eq!(status, 200);
    assert_eq!(body, "Server is running!");
}

#[test]
fn unmatched_routes_return_the_fixed_not_found() {
    let mut store = PostStore::new();
    for (method, path) in [
        (HttpMethod::Delete, "/v1/posts"),
        (HttpMethod::Get, "/unknown"),
        (HttpMethod::Put, "/"),
        (HttpMethod::Post, "/v1/posts/abc"),
        (HttpMethod::Get, "/v1/posts/a/b"),
    ] {
        let (status, body) = serve(&mut store, method, path, "", "");
        assert_eq!(status, 404);
        assert_eq!(body, "The requested resource was not found");
    }
}

#[test]
fn create_ignores_a_published_field_from_the_client() {
    let mut store = PostStore::new();
    let (status, body) = serve(
        &mut store,
        HttpMethod::Post,
        "/v1/posts",
        "",
        "{\"title\": \"t\", \"body\": \"b\", \"published\": true}",
    );
    assert_eq!(status, 200);
    assert!(body.contains("\"published\":false"));
    let (status, listing) = serve(&mut store, HttpMethod::Get, "/v1/posts", "published=true", "");
    assert_eq!(status, 200);
    assert_eq!(listing, "{\"posts\":[]}");
}

#[test]
fn malformed_body_fails_with_a_describing_400() {
    let mut store = PostStore::new();
    let (status, body) = serve(&mut store, HttpMethod::Post, "/v1/posts", "", "{\"title\": \"t\"");
    assert_eq!(status, 400);
    assert!(body.starts_with("{\"message\":\"Bad request error: "));
}

#[test]
fn missing_fields_fail_with_400() {
    let mut store = PostStore::new();
    let (status, body) = serve(&mut store, HttpMethod::Post, "/v1/posts", "", "{\"title\": \"t\"}");
    assert_eq!(status, 400);
    assert!(body.contains("missing field body"));
    let (status, body) = serve(&mut store, HttpMethod::Post, "/v1/posts", "", "{}");
    assert_eq!(status, 400);
    assert!(body.contains("missing field title"));
    let (status, _) = serve(&mut store, HttpMethod::Post, "/v1/posts", "", "not json");
    assert_eq!(status, 400);
}

#[test]
fn malformed_path_id_fails_with_400_and_leaves_store_alone() {
    let mut store = PostStore::new();
    let (status, body) = serve(&mut store, HttpMethod::Get, "/v1/posts/not-a-uuid", "", "");
    assert_eq!(status, 400);
    assert!(body.starts_with("{\"message\":\"Bad request error: "));
}

#[test]
fn get_by_id_round_trip_over_http() {
    let mut store = PostStore::new();
    let (status, created) = serve(
        &mut store,
        HttpMethod::Post,
        "/v1/posts",
        "",
        "{\"title\":\"round\",\"body\":\"trip\"}",
    );
    assert_eq!(status, 200);
    // the created body carries the id as a 36-character hyphenated string
    let idx = created.find("\"id\":\"").unwrap() + 6;
    let id_str = &created[idx..idx + 36];
    let path = format!("/v1/posts/{}", id_str);
    let (status, fetched) = serve(&mut store, HttpMethod::Get, &path, "", "");
    assert_eq!(status, 200);
    assert_eq!(fetched, created);
    assert!(fetched.contains("\"title\":\"round\""));
    assert!(fetched.contains("\"body\":\"trip\""));
    assert!(fetched.contains("\"published\":false"));
}

#[test]
fn get_by_absent_id_is_404() {
    let mut store = PostStore::new();
    let (status, body) = serve(
        &mut store,
        HttpMethod::Get,
        "/v1/posts/00000000-0000-0000-0000-000000000001",
        "",
        "",
    );
    assert_eq!(status, 404);
    assert!(body.contains("Post not found: 00000000-0000-0000-0000-000000000001"));
}

#[test]
fn list_filters_over_http() {
    let mut store = PostStore::new();
    serve(&mut store, HttpMethod::Post, "/v1/posts", "", "{\"title\":\"Foo One\",\"body\":\"x\"}");
    serve(&mut store, HttpMethod::Post, "/v1/posts", "", "{\"title\":\"bar\",\"body\":\"y\"}");
    let (status, body) = serve(&mut store, HttpMethod::Get, "/v1/posts", "title_contains=foo", "");
    assert_eq!(status, 200);
    assert!(body.contains("Foo One"));
    assert!(!body.contains("bar"));
    // '+' decodes to a space, %58 to 'X'
    let (status, body) = serve(&mut store, HttpMethod::Get, "/v1/posts", "title_contains=foo+one", "");
    assert_eq!(status, 200);
    assert!(body.contains("Foo One"));
    let (status, _) = serve(&mut store, HttpMethod::Get, "/v1/posts", "published=maybe", "");
    assert_eq!(status, 400);
    let (status, body) = serve(&mut store, HttpMethod::Get, "/v1/posts", "other=1&published=false", "");
    assert_eq!(status, 200);
    assert!(body.contains("Foo One") && body.contains("bar"));
}

#[test]
fn post_id_parse_agrees_with_the_uuid_crate() {
    let s = "a1a2a3a4-b1b2-c1c2-d1d2-d3d4d5d6d7d8";
    let ours = parse_post_id(s).unwrap();
    let theirs = uuid::Uuid::parse_str(s).unwrap();
    assert_eq!(ours.value, theirs.as_u128());
    // upper-case digits parse to the same value
    let upper = parse_post_id(&s.to_uppercase()).unwrap();
    assert_eq!(upper.value, ours.value);
    // formatting agrees with the uuid crate's hyphenated form
    assert_eq!(format_post_id(ours), theirs.hyphenated().to_string());
    // round trip through our own functions
    assert_eq!(parse_post_id(&format_post_id(ours)).unwrap(), ours);
}

#[test]
fn post_id_rejects_what_the_format_excludes() {
    for bad in [
        "",
        "a1a2a3a4b1b2c1c2d1d2d3d4d5d6d7d8",
        "a1a2a3a4-b1b2-c1c2-d1d2-d3d4d5d6d7dZ",
        "a1a2a3a4-b1b2-c1c2-d1d2-d3d4d5d6d7d",
        "a1a2a3a4-b1b2-c1c2-d1d2-d3d4d5d6d7d8x",
        "a1a2a3a4+b1b2-c1c2-d1d2-d3d4d5d6d7d8",
    ] {
        assert!(parse_post_id(bad).is_err(), "accepted: {:?}", bad);
    }
}

#[test]
fn message_rendering_matches_serde_json() {
    for msg in ["plain", "with \"quotes\" and \\ slash", "control \n\t\r chars", "unicode ωμέγα"] {
        let ours = render_body(&ResponseBody::Message(msg.to_string()));
        let mut map = serde_json::Map::new();
        map.insert("message".to_string(), serde_json::Value::String(msg.to_string()));
        let theirs = serde_json::Value::Object(map).to_string();
        assert_eq!(ours, theirs);
    }
}

#[test]
fn post_rendering_is_valid_json_with_the_exact_fields() {
    let mut store = PostStore::new();
    let (_, created) = serve(
        &mut store,
        HttpMethod::Post,
        "/v1/posts",
        "",
        "{\"title\":\"a \\\"quoted\\\" title\",\"body\":\"line\\nbreak\"}",
    );
    let v: serde_json::Value = serde_json::from_str(&created).unwrap();
    assert_eq!(v["title"], serde_json::Value::String("a \"quoted\" title".to_string()));
    assert_eq!(v["body"], serde_json::Value::String("line\nbreak".to_string()));
    assert_eq!(v["published"], serde_json::Value::Bool(false));
    let id = v["id"].as_str().unwrap();
    assert!(uuid::Uuid::parse_str(id).is_ok());
}

#[test]
fn body_parsing_agrees_with_serde_json_on_escapes() {
    let mut store = PostStore::new();
    // \u0041 is 'A'; a surrogate pair writes one astral character
    let body = "{\"title\":\"\\u0041B\",\"body\":\"\\uD83D\\uDE00\"}";
    let (status, created) = serve(&mut store, HttpMethod::Post, "/v1/posts", "", body);
    assert_eq!(status, 200);
    let v: serde_json::Value = serde_json::from_str(&created).unwrap();
    assert_eq!(v["title"].as_str().unwrap(), "AB");
    assert_eq!(v["body"].as_str().unwrap(), "\u{1F600}");
    // a lone surrogate is malformed, as serde_json also holds
    let lone = "{\"title\":\"\\uD83D\",\"body\":\"x\"}";
    assert!(serde_json::from_str::<serde_json::Value>(lone).is_err());
    let (status, _) = serve(&mut store, HttpMethod::Post, "/v1/posts", "", lone);
    assert_eq!(status, 400);
    // duplicate fields are malformed, as serde_json also holds for structs
    let dup = "{\"title\":\"a\",\"title\":\"b\",\"body\":\"c\"}";
    let (status, msg) = serve(&mut store, HttpMethod::Post, "/v1/posts", "", dup);
    assert_eq!(status, 400);
    assert!(msg.contains("duplicate field title"));
    // trailing garbage is malformed
    let (status, _) = serve(&mut store, HttpMethod::Post, "/v1/posts", "", "{\"title\":\"a\",\"body\":\"b\"} x");
    assert_eq!(status, 400);
}

#[test]
fn contains_ci_exact_cases() {
    assert!(str_contains_ci("Hello World", "o w"));
    assert!(str_contains_ci("Hello World", ""));
    assert!(str_contains_ci("abc", "ABC"));
    assert!(!str_contains_ci("abc", "abcd"));
    assert!(!str_contains_ci("", "a"));
    assert!(str_contains_ci("", ""));
    // case folding is ASCII-only: a non-ASCII letter matches itself alone
    assert!(str_contains_ci("ŉoño", "ŉoño"));
    assert!(!str_contains_ci("märchen", "MÄRCHEN"));
    assert!(str_contains_ci("märchen", "mäRCHen"));
}

#[test]
fn error_translations_have_the_fixed_statuses() {
    let r = AppError::InternalServerError.into_response();
    assert_eq!(r.status, 500);
    assert_eq!(render_body(&r.body), "{\"message\":\"Internal Server Error\"}");
    let r = AppError::BodyParsingError("oops".to_string()).into_response();
    assert_eq!(r.status, 400);
    assert_eq!(render_body(&r.body), "{\"message\":\"Bad request error: oops\"}");
    let r = PostError::InternalServerError.into_response();
    assert_eq!(r.status, 500);
    let r = PostError::NotFound(PostId { value: 7 }).into_response();
    assert_eq!(r.status, 404);
    assert_eq!(
        render_body(&r.body),
        "{\"message\":\"Post not found: 00000000-0000-0000-0000-000000000007\"}"
    );
}
