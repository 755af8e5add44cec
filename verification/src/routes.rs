use vstd::prelude::*;
use vstd::string::*;
use crate::db_repository::{contains_id, filter_pred, FilterView, PostsFilter, PostStore};
use crate::errors::AppError;
use crate::handlers::{create_post, get_post, list_posts};
use crate::json_extractor::{parse_create_post_request, parse_create_spec, JsonExtractor};
use crate::post_id::{hex_val, is_hex_digit, is_uuid_string, parse_post_id, uuid_value};
use crate::response::{responses_view, HttpResponse, ResponseBody};
use crate::strutil::{char_from_u32, push_char, str_eq, to_chars};

verus! {

/// The HTTP methods the router distinguishes.
#[derive(Clone, Copy, Debug, PartialEq, Eq, Structural)]
pub enum HttpMethod {
    Get,
    Post,
    Put,
    Delete,
    Patch,
    Head,
    Options,
}

/// The first position at or after `i` holding `&`, or the end.
pub open spec fn amp_end(q: Seq<char>, i: int) -> int
    decreases q.len() - i,
{
    if 0 <= i < q.len() && q[i] != '&' {
        amp_end(q, i + 1)
    } else {
        i
    }
}

pub proof fn lemma_amp_end_bounds(q: Seq<char>, i: int)
    requires
        0 <= i <= q.len(),
    ensures
        i <= amp_end(q, i) <= q.len(),
    decreases q.len() - i,
{
    if i < q.len() && q[i] != '&' {
        lemma_amp_end_bounds(q, i + 1);
    }
}

/// The first position in `i..stop` holding `=`, or `stop`.
pub open spec fn eq_end(q: Seq<char>, i: int, stop: int) -> int
    decreases stop - i,
{
    if 0 <= i < stop && i < q.len() && q[i] != '=' {
        eq_end(q, i + 1, stop)
    } else {
        i
    }
}

/// Decodes a query value from `i`: `+` is a space, `%` with two
/// hexadecimal digits the character with that code, anything else itself.
/// A `%` without two hexadecimal digits is malformed.
pub open spec fn percent_decode(v: Seq<char>, i: int) -> Option<Seq<char>>
    decreases v.len() - i,
{
    if i < 0 || i >= v.len() {
        Some(Seq::empty())
    } else if v[i] == '+' {
        match percent_decode(v, i + 1) {
            None => None,
            Some(r) => Some(seq![' '] + r),
        }
    } else if v[i] == '%' {
        if i + 3 <= v.len() && is_hex_digit(v[i + 1]) && is_hex_digit(v[i + 2]) {
            match percent_decode(v, i + 3) {
                None => None,
                Some(r) => Some(
                    seq![(((hex_val(v[i + 1]) * 16 + hex_val(v[i + 2])) as u32) as char)] + r,
                ),
            }
        } else {
            None
        }
    } else {
        match percent_decode(v, i + 1) {
            None => None,
            Some(r) => Some(seq![v[i]] + r),
        }
    }
}

/// Applies one `key=value` pair to the filter: `published` must be
/// exactly `true` or `false`, `title_contains` is decoded, an unknown key
/// changes nothing, and a later pair for a known key wins over an earlier
/// one. A known key without `=`, a bad boolean or a bad escape is
/// malformed.
pub open spec fn apply_pair(
    f: FilterView,
    key: Seq<char>,
    val: Option<Seq<char>>,
) -> Option<FilterView> {
    if key == "published"@ {
        match val {
            Some(v) => if v == "true"@ {
                Some(FilterView { published: Some(true), ..f })
            } else if v == "false"@ {
                Some(FilterView { published: Some(false), ..f })
            } else {
                None
            },
            None => None,
        }
    } else if key == "title_contains"@ {
        match val {
            Some(v) => match percent_decode(v, 0) {
                None => None,
                Some(d) => Some(FilterView { title_contains: Some(d), ..f }),
            },
            None => None,
        }
    } else {
        Some(f)
    }
}

/// Parses the query string from `i` into a filter, starting from `f`.
pub open spec fn parse_query(q: Seq<char>, i: int, f: FilterView) -> Option<FilterView>
    decreases q.len() - i,
        when 0 <= i <= q.len()
    via parse_query_dec
{
    let e = amp_end(q, i);
    let k = eq_end(q, i, e);
    let key = q.subrange(i, k);
    let val = if k < e {
        Some(q.subrange(k + 1, e))
    } else {
        None
    };
    match apply_pair(f, key, val) {
        None => None,
        Some(f2) => if e >= q.len() {
            Some(f2)
        } else {
            parse_query(q, e + 1, f2)
        },
    }
}

#[via_fn]
proof fn parse_query_dec(q: Seq<char>, i: int, f: FilterView) {
    lemma_amp_end_bounds(q, i);
}

/// The filter an empty query imposes: no constraint at all.
pub open spec fn empty_filter() -> FilterView {
    FilterView { published: None, title_contains: None }
}

/// What the whole query string means: a filter, or a malformed query.
/// An empty query imposes no constraint.
pub open spec fn query_filter(q: Seq<char>) -> Option<FilterView> {
    if q.len() == 0 {
        Some(empty_filter())
    } else {
        parse_query(q, 0, empty_filter())
    }
}

fn amp_end_x(v: &Vec<char>, i: usize) -> (r: usize)
    requires
        i <= v@.len(),
    ensures
        r as int == amp_end(v@, i as int),
        i <= r <= v@.len(),
    decreases v@.len() - i,
{
    if i < v.len() && v[i] != '&' {
        amp_end_x(v, i + 1)
    } else {
        i
    }
}

fn eq_end_x(v: &Vec<char>, i: usize, stop: usize) -> (r: usize)
    requires
        i <= stop <= v@.len(),
    ensures
        r as int == eq_end(v@, i as int, stop as int),
        i <= r <= stop,
    decreases stop - i,
{
    if i < stop && v[i] != '=' {
        eq_end_x(v, i + 1, stop)
    } else {
        i
    }
}

fn percent_decode_x(v: &Vec<char>, i: usize) -> (r: Option<String>)
    requires
        i <= v@.len(),
    ensures
        (r is Some) == (percent_decode(v@, i as int) is Some),
        r matches Some(s) ==> percent_decode(v@, i as int) == Some(s@),
    decreases v@.len() - i,
{
    if i >= v.len() {
        return Some(String::new());
    }
    let c = v[i];
    if c == '+' {
        match percent_decode_x(v, i + 1) {
            None => None,
            Some(rest) => {
                let mut out = String::new();
                push_char(&mut out, ' ');
                out.append(rest.as_str());
                proof {
                    assert(out@ =~= seq![' '] + rest@);
                }
                Some(out)
            },
        }
    } else if c == '%' {
        if v.len() - i >= 3 {
            let d1 = crate::post_id::hex_digit_val(v[i + 1]);
            let d2 = crate::post_id::hex_digit_val(v[i + 2]);
            match (d1, d2) {
                (Some(a), Some(b)) => {
                    match percent_decode_x(v, i + 3) {
                        None => None,
                        Some(rest) => {
                            let code: u32 = a as u32 * 16 + b as u32;
                            let dc = match char_from_u32(code) {
                                Some(dc) => dc,
                                None => {
                                    proof {
                                        assert(false);
                                    }
                                    ' '
                                },
                            };
                            proof {
                                vstd::utf8::char_u32_cast(dc, code);
                            }
                            let mut out = String::new();
                            push_char(&mut out, dc);
                            out.append(rest.as_str());
                            proof {
                                assert(out@ =~= seq![dc] + rest@);
                            }
                            Some(out)
                        },
                    }
                },
                _ => None,
            }
        } else {
            None
        }
    } else {
        match percent_decode_x(v, i + 1) {
            None => None,
            Some(rest) => {
                let mut out = String::new();
                push_char(&mut out, c);
                out.append(rest.as_str());
                proof {
                    assert(out@ =~= seq![c] + rest@);
                }
                Some(out)
            },
        }
    }
}

fn sub_string(v: &Vec<char>, from: usize, to: usize) -> (r: String)
    requires
        from <= to <= v@.len(),
    ensures
        r@ == v@.subrange(from as int, to as int),
{
    let mut out = String::new();
    let mut k: usize = from;
    proof {
        assert(out@ =~= v@.subrange(from as int, from as int));
    }
    while k < to
        invariant
            from <= k <= to <= v@.len(),
            out@ == v@.subrange(from as int, k as int),
        decreases to - k,
    {
        push_char(&mut out, v[k]);
        proof {
            assert(out@ =~= v@.subrange(from as int, k + 1));
        }
        k += 1;
    }
    out
}

fn parse_query_x(v: &Vec<char>, i: usize, f: PostsFilter) -> (r: Result<PostsFilter, AppError>)
    requires
        i <= v@.len(),
    ensures
        (r is Ok) == (parse_query(v@, i as int, f@) is Some),
        r matches Ok(f2) ==> parse_query(v@, i as int, f@) == Some(f2@),
        r matches Err(e) ==> e matches AppError::BodyParsingError(_),
    decreases v@.len() - i,
{
    let e = amp_end_x(v, i);
    let k = eq_end_x(v, i, e);
    let key = sub_string(v, i, k);
    let val: Option<String> = if k < e {
        Some(sub_string(v, k + 1, e))
    } else {
        None
    };
    proof {
        reveal_strlit("published");
        reveal_strlit("title_contains");
        assert("published"@.len() == 9);
        assert("title_contains"@.len() == 14);
        assert("published"@ != "title_contains"@);
    }
    let f2: PostsFilter;
    if str_eq(key.as_str(), "published") {
        match val {
            Some(s) => {
                if str_eq(s.as_str(), "true") {
                    f2 = PostsFilter { published: Some(true), title_contains: f.title_contains };
                } else if str_eq(s.as_str(), "false") {
                    f2 = PostsFilter { published: Some(false), title_contains: f.title_contains };
                } else {
                    return Err(
                        AppError::BodyParsingError("invalid boolean in query".to_owned()),
                    );
                }
            },
            None => {
                return Err(AppError::BodyParsingError("missing value in query".to_owned()));
            },
        }
    } else if str_eq(key.as_str(), "title_contains") {
        match val {
            Some(s) => {
                let chars = to_chars(s.as_str());
                match percent_decode_x(&chars, 0) {
                    Some(d) => {
                        f2 = PostsFilter { published: f.published, title_contains: Some(d) };
                    },
                    None => {
                        return Err(
                            AppError::BodyParsingError("malformed escape in query".to_owned()),
                        );
                    },
                }
            },
            None => {
                return Err(AppError::BodyParsingError("missing value in query".to_owned()));
            },
        }
    } else {
        f2 = f;
    }
    if e >= v.len() {
        Ok(f2)
    } else {
        parse_query_x(v, e + 1, f2)
    }
}

/// Extracts the filter a request's query string imposes; a malformed
/// query is rejected with a body-parsing error.
pub fn parse_posts_filter(query: &str) -> (r: Result<PostsFilter, AppError>)
    ensures
        (r is Ok) == (query_filter(query@) is Some),
        r matches Ok(f) ==> query_filter(query@) == Some(f@),
        r matches Err(e) ==> e matches AppError::BodyParsingError(_),
{
    let v = to_chars(query);
    if v.len() == 0 {
        return Ok(PostsFilter { published: None, title_contains: None });
    }
    parse_query_x(&v, 0, PostsFilter { published: None, title_contains: None })
}

/// The id segment of a get-by-id path: what follows `/v1/posts/`, if the
/// path has that prefix and the rest is one non-empty segment.
pub open spec fn get_post_seg(p: Seq<char>) -> Option<Seq<char>> {
    if p.len() >= 11 && p.subrange(0, 10) == "/v1/posts/"@ && (forall|k: int|
        10 <= k < p.len() ==> p[k] != '/') {
        Some(p.subrange(10, p.len() as int))
    } else {
        None
    }
}

/// Whether the route table has an entry for the request.
pub open spec fn route_matched(method: HttpMethod, p: Seq<char>) -> bool {
    ||| (method is Get && p == "/"@)
    ||| (method is Post && p == "/v1/posts"@)
    ||| (method is Get && p == "/v1/posts"@)
    ||| (method is Get && get_post_seg(p) is Some)
}

fn match_get_post_seg(path: &str) -> (r: Option<String>)
    ensures
        (r is Some) == (get_post_seg(path@) is Some),
        r matches Some(s) ==> get_post_seg(path@) == Some(s@),
{
    let n = path.unicode_len();
    if n < 11 {
        return None;
    }
    let prefix = path.substring_char(0, 10);
    if !str_eq(prefix, "/v1/posts/") {
        return None;
    }
    let mut k: usize = 10;
    while k < n
        invariant
            10 <= k <= n,
            n == path@.len(),
            forall|t: int| 10 <= t < k ==> path@[t] != '/',
        decreases n - k,
    {
        if path.get_char(k) == '/' {
            return None;
        }
        k += 1;
    }
    let seg = path.substring_char(10, n);
    Some(seg.to_owned())
}

/// Serves one request: routes it, extracts its inputs, runs the matching
/// handler against the store, and translates the outcome into an HTTP
/// response. An unmatched route is the fixed plain-text 404; a malformed
/// path id or body or query fails with 400 before any handler runs.
pub fn handle_request(
    store: &mut PostStore,
    method: HttpMethod,
    path: &str,
    query: &str,
    body: &str,
) -> (r: HttpResponse)
    requires
        old(store).wf(),
    ensures
        final(store).wf(),
        method is Get && path@ == "/"@ ==> r.status == 200 && (r.body matches ResponseBody::Text(m)
            && m@ == "Server is running!"@) && final(store)@ == old(store)@,
        method is Post && path@ == "/v1/posts"@ ==> match parse_create_spec(body@) {
            None => r.status == 400 && (r.body matches ResponseBody::Message(_)) && final(store)@
                == old(store)@,
            Some(tb) => {
                ||| (r.status == 200 && (r.body matches ResponseBody::Post(pr) && pr@.title == tb.0
                    && pr@.body == tb.1 && pr@.published == false && !contains_id(
                    old(store)@,
                    pr@.id,
                ) && final(store)@ == old(store)@.push(pr@)))
                ||| (r.status == 500 && final(store)@ == old(store)@)
            },
        },
        method is Get && path@ == "/v1/posts"@ ==> final(store)@ == old(store)@ && match
            query_filter(query@) {
            None => r.status == 400 && (r.body matches ResponseBody::Message(_)),
            Some(fv) => r.status == 200 && (r.body matches ResponseBody::Posts(l)
                && responses_view(l.posts@) == old(store)@.filter(filter_pred(fv))),
        },
        method is Get && path@ != "/"@ && path@ != "/v1/posts"@ ==> match get_post_seg(path@) {
            Some(seg) => final(store)@ == old(store)@ && if !is_uuid_string(seg) {
                r.status == 400 && (r.body matches ResponseBody::Message(_))
            } else if contains_id(old(store)@, uuid_value(seg) as u128) {
                r.status == 200 && (r.body matches ResponseBody::Post(pr) && pr@.id == uuid_value(
                    seg,
                ) && old(store)@.contains(pr@))
            } else {
                r.status == 404 && (r.body matches ResponseBody::Message(_))
            },
            None => true,
        },
        !route_matched(method, path@) ==> r.status == 404 && (r.body matches ResponseBody::Text(m)
            && m@ == "The requested resource was not found"@) && final(store)@ == old(store)@,
{
    proof {
        reveal_strlit("/");
        reveal_strlit("/v1/posts");
        reveal_strlit("/v1/posts/");
        assert("/"@.len() == 1);
        assert("/v1/posts"@.len() == 9);
        assert("/v1/posts/"@.len() == 10);
        assert("/"@ != "/v1/posts"@);
    }
    let is_root = str_eq(path, "/");
    let is_posts = str_eq(path, "/v1/posts");
    proof {
        if path@ == "/"@ || path@ == "/v1/posts"@ {
            assert(get_post_seg(path@) is None);
        }
    }
    match method {
        HttpMethod::Get => {
            if is_root {
                return HttpResponse {
                    status: 200,
                    body: ResponseBody::Text("Server is running!".to_owned()),
                };
            }
            if is_posts {
                let filter = match parse_posts_filter(query) {
                    Err(e) => {
                        return e.into_response();
                    },
                    Ok(f) => f,
                };
                match list_posts(store, filter) {
                    Ok(lr) => {
                        return HttpResponse { status: 200, body: ResponseBody::Posts(lr) };
                    },
                    Err(e) => {
                        return e.into_response();
                    },
                }
            }
            match match_get_post_seg(path) {
                Some(seg) => {
                    let id = match parse_post_id(seg.as_str()) {
                        Err(e) => {
                            return e.into_response();
                        },
                        Ok(id) => id,
                    };
                    match get_post(store, id) {
                        Ok(pr) => {
                            return HttpResponse { status: 200, body: ResponseBody::Post(pr) };
                        },
                        Err(e) => {
                            return e.into_response();
                        },
                    }
                },
                None => {
                    return HttpResponse {
                        status: 404,
                        body: ResponseBody::Text(
                            "The requested resource was not found".to_owned(),
                        ),
                    };
                },
            }
        },
        HttpMethod::Post => {
            if is_posts {
                let req = match parse_create_post_request(body) {
                    Err(e) => {
                        return e.into_response();
                    },
                    Ok(req) => req,
                };
                match create_post(store, JsonExtractor(req)) {
                    Ok(pr) => {
                        return HttpResponse { status: 200, body: ResponseBody::Post(pr) };
                    },
                    Err(e) => {
                        return e.into_response();
                    },
                }
            }
            HttpResponse {
                status: 404,
                body: ResponseBody::Text("The requested resource was not found".to_owned()),
            }
        },
        _ => {
            HttpResponse {
                status: 404,
                body: ResponseBody::Text("The requested resource was not found".to_owned()),
            }
        },
    }
}

} // verus!
