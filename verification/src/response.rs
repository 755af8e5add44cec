use vstd::prelude::*;
use vstd::string::*;
use crate::domain::{PostError, PostView};
use crate::errors::AppError;
use crate::post_id::{hex_char, uuid_str_of};
use crate::strutil::push_char;

verus! {

/// A post as a response carries it.
pub struct PostResponse {
    pub id: crate::post_id::PostId,
    pub title: String,
    pub body: String,
    pub published: bool,
}

impl View for PostResponse {
    type V = PostView;

    open spec fn view(&self) -> PostView {
        PostView {
            id: self.id.value,
            title: self.title@,
            body: self.body@,
            published: self.published,
        }
    }
}

/// The views of a sequence of post responses.
pub open spec fn responses_view(s: Seq<PostResponse>) -> Seq<PostView> {
    s.map_values(|p: PostResponse| p@)
}

/// The response to a list request: the matching posts, wrapped in an object.
pub struct ListPostsResponse {
    pub posts: Vec<PostResponse>,
}

/// What a response's body holds, before it is written out.
pub enum ResponseBody {
    /// A plain-text body.
    Text(String),
    /// A JSON object with one `message` field.
    Message(String),
    /// A JSON post object.
    Post(PostResponse),
    /// A JSON object wrapping a list of post objects.
    Posts(ListPostsResponse),
}

/// An HTTP response: a status code and a body.
pub struct HttpResponse {
    pub status: u16,
    pub body: ResponseBody,
}

/// How one character is written inside a JSON string literal.
pub open spec fn json_escaped_char(c: char) -> Seq<char> {
    if c == '"' {
        seq!['\\', '"']
    } else if c == '\\' {
        seq!['\\', '\\']
    } else if c == '\u{8}' {
        seq!['\\', 'b']
    } else if c == '\t' {
        seq!['\\', 't']
    } else if c == '\n' {
        seq!['\\', 'n']
    } else if c == '\u{c}' {
        seq!['\\', 'f']
    } else if c == '\r' {
        seq!['\\', 'r']
    } else if (c as int) < 32 {
        seq!['\\', 'u', '0', '0', hex_char(c as int / 16), hex_char(c as int % 16)]
    } else {
        seq![c]
    }
}

/// How a string is written inside a JSON string literal.
pub open spec fn json_escaped(s: Seq<char>) -> Seq<char>
    decreases s.len(),
{
    if s.len() == 0 {
        Seq::empty()
    } else {
        json_escaped(s.drop_last()) + json_escaped_char(s.last())
    }
}

/// The JSON text of the object `{"message": m}`.
pub open spec fn json_message(m: Seq<char>) -> Seq<char> {
    "{\"message\":\""@ + json_escaped(m) + "\"}"@
}

/// The JSON text of a boolean.
pub open spec fn bool_str(b: bool) -> Seq<char> {
    if b {
        "true"@
    } else {
        "false"@
    }
}

/// The JSON text of a post object.
pub open spec fn json_post(p: PostView) -> Seq<char> {
    "{\"id\":\""@ + uuid_str_of(p.id as u128) + "\",\"title\":\""@ + json_escaped(p.title)
        + "\",\"body\":\""@ + json_escaped(p.body) + "\",\"published\":"@ + bool_str(p.published)
        + "}"@
}

/// The JSON text of an array of post objects.
pub open spec fn json_posts_array(s: Seq<PostView>) -> Seq<char>
    decreases s.len(),
{
    if s.len() == 0 {
        Seq::empty()
    } else if s.len() == 1 {
        json_post(s[0])
    } else {
        json_posts_array(s.drop_last()) + ","@ + json_post(s.last())
    }
}

/// The JSON text of the object `{"posts": [...]}`.
pub open spec fn json_post_list(s: Seq<PostView>) -> Seq<char> {
    "{\"posts\":["@ + json_posts_array(s) + "]}"@
}

/// The text a response body is written as: JSON for the structured bodies,
/// the text itself for a plain-text body.
pub open spec fn body_text(b: ResponseBody) -> Seq<char> {
    match b {
        ResponseBody::Text(t) => t@,
        ResponseBody::Message(m) => json_message(m@),
        ResponseBody::Post(p) => json_post(p@),
        ResponseBody::Posts(l) => json_post_list(responses_view(l.posts@)),
    }
}

/// Appends `json_escaped(s@)` to `out`.
fn push_json_escaped(out: &mut String, s: &str)
    ensures
        final(out)@ == old(out)@ + json_escaped(s@),
{
    let n = s.unicode_len();
    let mut i: usize = 0;
    proof {
        assert(out@ =~= out@ + json_escaped(s@.take(0)));
    }
    while i < n
        invariant
            n == s@.len(),
            i <= n,
            out@ == old(out)@ + json_escaped(s@.take(i as int)),
        decreases n - i,
    {
        let ghost prev = out@;
        let c = s.get_char(i);
        if c == '"' {
            push_char(out, '\\');
            push_char(out, '"');
        } else if c == '\\' {
            push_char(out, '\\');
            push_char(out, '\\');
        } else if c == '\u{8}' {
            push_char(out, '\\');
            push_char(out, 'b');
        } else if c == '\t' {
            push_char(out, '\\');
            push_char(out, 't');
        } else if c == '\n' {
            push_char(out, '\\');
            push_char(out, 'n');
        } else if c == '\u{c}' {
            push_char(out, '\\');
            push_char(out, 'f');
        } else if c == '\r' {
            push_char(out, '\\');
            push_char(out, 'r');
        } else if (c as u32) < 32 {
            push_char(out, '\\');
            push_char(out, 'u');
            push_char(out, '0');
            push_char(out, '0');
            push_char(out, crate::post_id::hex_char_of((c as u32 / 16) as u8));
            push_char(out, crate::post_id::hex_char_of((c as u32 % 16) as u8));
        } else {
            push_char(out, c);
        }
        proof {
            assert(prev + json_escaped_char(c) =~= out@);
            assert(s@.take(i + 1).drop_last() =~= s@.take(i as int));
            assert(s@.take(i + 1).last() == c);
            assert(out@ =~= old(out)@ + json_escaped(s@.take(i + 1)));
        }
        i += 1;
    }
    proof {
        assert(s@.take(n as int) =~= s@);
    }
}

/// Writes a response body out as text.
pub fn render_body(b: &ResponseBody) -> (r: String)
    ensures
        r@ == body_text(*b),
{
    match b {
        ResponseBody::Text(t) => t.clone(),
        ResponseBody::Message(m) => {
            let mut out = "{\"message\":\"".to_owned();
            push_json_escaped(&mut out, m.as_str());
            out.append("\"}");
            out
        },
        ResponseBody::Post(p) => render_post(p),
        ResponseBody::Posts(l) => {
            let mut out = "{\"posts\":[".to_owned();
            let mut i: usize = 0;
            proof {
                assert(responses_view(l.posts@).take(0) =~= Seq::<PostView>::empty());
                assert(out@ =~= "{\"posts\":["@ + json_posts_array(
                    responses_view(l.posts@).take(0),
                ));
            }
            while i < l.posts.len()
                invariant
                    i <= l.posts@.len(),
                    out@ == "{\"posts\":["@ + json_posts_array(
                        responses_view(l.posts@).take(i as int),
                    ),
                decreases l.posts@.len() - i,
            {
                let ghost prev = out@;
                if i > 0 {
                    out.append(",");
                }
                let one = render_post(&l.posts[i]);
                out.append(one.as_str());
                proof {
                    let views = responses_view(l.posts@);
                    assert(views.take(i + 1).drop_last() =~= views.take(i as int));
                    assert(views.take(i + 1).last() == views[i as int]);
                    if i == 0 {
                        assert(views.take(1).len() == 1);
                        assert(out@ =~= "{\"posts\":["@ + json_posts_array(views.take(1)));
                    } else {
                        assert(out@ =~= "{\"posts\":["@ + json_posts_array(views.take(i + 1)));
                    }
                }
                i += 1;
            }
            proof {
                assert(responses_view(l.posts@).take(l.posts@.len() as int) =~= responses_view(
                    l.posts@,
                ));
            }
            out.append("]}");
            out
        },
    }
}

/// Writes one post out as a JSON object.
pub fn render_post(p: &PostResponse) -> (r: String)
    ensures
        r@ == json_post(p@),
{
    let mut out = "{\"id\":\"".to_owned();
    let id_str = crate::post_id::format_post_id(p.id);
    out.append(id_str.as_str());
    out.append("\",\"title\":\"");
    push_json_escaped(&mut out, p.title.as_str());
    out.append("\",\"body\":\"");
    push_json_escaped(&mut out, p.body.as_str());
    out.append("\",\"published\":");
    if p.published {
        out.append("true");
    } else {
        out.append("false");
    }
    out.append("}");
    out
}

impl AppError {
    /// Translates an extraction-time failure into its HTTP response:
    /// a server fault is a plain 500, a body-parsing failure a 400 whose
    /// message embeds the parse failure's description.
    pub fn into_response(self) -> (r: HttpResponse)
        ensures
            self is InternalServerError ==> r.status == 500 && (r.body matches
                ResponseBody::Message(m) && m@ == "Internal Server Error"@),
            self matches AppError::BodyParsingError(msg) ==> r.status == 400 && (r.body matches
                ResponseBody::Message(m) && m@ == "Bad request error: "@ + msg@),
    {
        match self {
            AppError::InternalServerError => HttpResponse {
                status: 500,
                body: ResponseBody::Message("Internal Server Error".to_owned()),
            },
            AppError::BodyParsingError(message) => HttpResponse {
                status: 400,
                body: ResponseBody::Message(
                    "Bad request error: ".to_owned().concat(message.as_str()),
                ),
            },
        }
    }
}

impl PostError {
    /// Translates a handler-time failure into its HTTP response: the absent
    /// id becomes a 404 naming it, any other fault a plain 500.
    pub fn into_response(self) -> (r: HttpResponse)
        ensures
            self matches PostError::NotFound(id) ==> r.status == 404 && (r.body matches
                ResponseBody::Message(m) && m@ == "Post not found: "@ + uuid_str_of(id.value)),
            self is InternalServerError ==> r.status == 500 && (r.body matches
                ResponseBody::Message(m) && m@ == "Internal Server Error"@),
    {
        match self {
            PostError::NotFound(id) => {
                let id_str = crate::post_id::format_post_id(id);
                HttpResponse {
                    status: 404,
                    body: ResponseBody::Message(
                        "Post not found: ".to_owned().concat(id_str.as_str()),
                    ),
                }
            },
            PostError::InternalServerError => HttpResponse {
                status: 500,
                body: ResponseBody::Message("Internal Server Error".to_owned()),
            },
        }
    }
}

} // verus!
