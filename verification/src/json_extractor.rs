use vstd::prelude::*;
use vstd::string::*;
use crate::errors::AppError;
use crate::handlers::CreatePostRequest;
use crate::post_id::{hex_val, is_hex_digit};
use crate::strutil::{char_from_u32, push_char, str_eq, to_chars};

verus! {

/// A typed value extracted from a request's JSON body.
pub struct JsonExtractor<T>(pub T);

/// The whitespace JSON allows between tokens.
pub open spec fn is_json_ws(c: char) -> bool {
    c == ' ' || c == '\n' || c == '\r' || c == '\t'
}

/// The first position at or after `i` holding no whitespace.
pub open spec fn skip_ws(s: Seq<char>, i: int) -> int
    decreases s.len() - i,
{
    if 0 <= i < s.len() && is_json_ws(s[i]) {
        skip_ws(s, i + 1)
    } else {
        i
    }
}

pub proof fn lemma_skip_ws_bounds(s: Seq<char>, i: int)
    requires
        0 <= i <= s.len(),
    ensures
        i <= skip_ws(s, i) <= s.len(),
    decreases s.len() - i,
{
    if i < s.len() && is_json_ws(s[i]) {
        lemma_skip_ws_bounds(s, i + 1);
    }
}

/// Whether `c` is a decimal digit.
pub open spec fn is_digit(c: char) -> bool {
    48 <= c as int <= 57
}

/// The character a short escape stands for, if the character after the
/// backslash is one.
pub open spec fn escape_char(c: char) -> Option<char> {
    if c == '"' {
        Some('"')
    } else if c == '\\' {
        Some('\\')
    } else if c == '/' {
        Some('/')
    } else if c == 'b' {
        Some('\u{8}')
    } else if c == 'f' {
        Some('\u{c}')
    } else if c == 'n' {
        Some('\n')
    } else if c == 'r' {
        Some('\r')
    } else if c == 't' {
        Some('\t')
    } else {
        None
    }
}

/// The value of the four hexadecimal digits at `i`, if they are there.
pub open spec fn hex4(s: Seq<char>, i: int) -> Option<int> {
    if 0 <= i && i + 4 <= s.len() && is_hex_digit(s[i]) && is_hex_digit(s[i + 1]) && is_hex_digit(
        s[i + 2],
    ) && is_hex_digit(s[i + 3]) {
        Some(hex_val(s[i]) * 4096 + hex_val(s[i + 1]) * 256 + hex_val(s[i + 2]) * 16 + hex_val(
            s[i + 3],
        ))
    } else {
        None
    }
}

/// Parses the inside of a JSON string literal from `i` (just past the
/// opening quote): the decoded characters, and the position just past the
/// closing quote. Escapes are decoded, a surrogate pair as one character;
/// a lone surrogate escape or a bare control character is malformed.
pub open spec fn string_body(s: Seq<char>, i: int) -> Option<(Seq<char>, int)>
    decreases s.len() - i,
{
    if i < 0 || i >= s.len() {
        None
    } else if s[i] == '"' {
        Some((Seq::empty(), i + 1))
    } else if s[i] == '\\' {
        if i + 1 >= s.len() {
            None
        } else if s[i + 1] == 'u' {
            match hex4(s, i + 2) {
                None => None,
                Some(x) => if 0xD800 <= x < 0xDC00 {
                    if i + 8 <= s.len() && s[i + 6] == '\\' && s[i + 7] == 'u' {
                        match hex4(s, i + 8) {
                            None => None,
                            Some(w) => if 0xDC00 <= w < 0xE000 {
                                match string_body(s, i + 12) {
                                    None => None,
                                    Some(r) => Some(
                                        (
                                            seq![
                                                (((0x10000 + (x - 0xD800) * 0x400 + (w
                                                    - 0xDC00)) as u32) as char)
                                            ] + r.0,
                                            r.1,
                                        ),
                                    ),
                                }
                            } else {
                                None
                            },
                        }
                    } else {
                        None
                    }
                } else if 0xDC00 <= x < 0xE000 {
                    None
                } else {
                    match string_body(s, i + 6) {
                        None => None,
                        Some(r) => Some((seq![((x as u32) as char)] + r.0, r.1)),
                    }
                },
            }
        } else {
            match escape_char(s[i + 1]) {
                None => None,
                Some(c) => match string_body(s, i + 2) {
                    None => None,
                    Some(r) => Some((seq![c] + r.0, r.1)),
                },
            }
        }
    } else if (s[i] as int) < 32 {
        None
    } else {
        match string_body(s, i + 1) {
            None => None,
            Some(r) => Some((seq![s[i]] + r.0, r.1)),
        }
    }
}

pub proof fn lemma_string_body_bounds(s: Seq<char>, i: int)
    requires
        0 <= i,
    ensures
        string_body(s, i) matches Some(r) ==> i < r.1 <= s.len(),
    decreases s.len() - i,
{
    if i < s.len() {
        lemma_string_body_bounds(s, i + 1);
        if i + 2 <= s.len() {
            lemma_string_body_bounds(s, i + 2);
        }
        if i + 6 <= s.len() {
            lemma_string_body_bounds(s, i + 6);
        }
        if i + 12 <= s.len() {
            lemma_string_body_bounds(s, i + 12);
        }
    }
}

/// The first position at or after `i` holding no decimal digit.
pub open spec fn digits_end(s: Seq<char>, i: int) -> int
    decreases s.len() - i,
{
    if 0 <= i < s.len() && is_digit(s[i]) {
        digits_end(s, i + 1)
    } else {
        i
    }
}

pub proof fn lemma_digits_end_bounds(s: Seq<char>, i: int)
    requires
        0 <= i <= s.len(),
    ensures
        i <= digits_end(s, i) <= s.len(),
    decreases s.len() - i,
{
    if i < s.len() && is_digit(s[i]) {
        lemma_digits_end_bounds(s, i + 1);
    }
}

/// The position just past the JSON number starting at `i`, if one does:
/// an optional minus, an integer part without a leading zero, an optional
/// fraction, an optional exponent.
pub open spec fn number_end(s: Seq<char>, i: int) -> Option<int> {
    let j = if 0 <= i < s.len() && s[i] == '-' {
        i + 1
    } else {
        i
    };
    if 0 <= j < s.len() && is_digit(s[j]) {
        let j2 = if s[j] == '0' {
            j + 1
        } else {
            digits_end(s, j)
        };
        let j3 = if j2 < s.len() && s[j2] == '.' {
            if j2 + 1 < s.len() && is_digit(s[j2 + 1]) {
                digits_end(s, j2 + 1)
            } else {
                -1
            }
        } else {
            j2
        };
        if j3 < 0 {
            None
        } else {
            let j4 = if j3 < s.len() && (s[j3] == 'e' || s[j3] == 'E') {
                let j5 = if j3 + 1 < s.len() && (s[j3 + 1] == '+' || s[j3 + 1] == '-') {
                    j3 + 2
                } else {
                    j3 + 1
                };
                if j5 < s.len() && is_digit(s[j5]) {
                    digits_end(s, j5)
                } else {
                    -1int
                }
            } else {
                j3
            };
            if j4 < 0 {
                None
            } else {
                Some(j4)
            }
        }
    } else {
        None
    }
}

/// Whether the word `w` stands at position `i` of `s`.
pub open spec fn lit_at(s: Seq<char>, i: int, w: Seq<char>) -> bool {
    0 <= i && i + w.len() <= s.len() && s.subrange(i, i + w.len()) == w
}

/// The position just past the scalar JSON value at `i`, if one is there:
/// a string, a number, `true`, `false` or `null`. This service reads flat
/// bodies: an object or array in an ignored field is not accepted.
pub open spec fn scalar_end(s: Seq<char>, i: int) -> Option<int> {
    if i < 0 || i >= s.len() {
        None
    } else if s[i] == '"' {
        match string_body(s, i + 1) {
            None => None,
            Some(r) => Some(r.1),
        }
    } else if lit_at(s, i, "true"@) {
        Some(i + 4)
    } else if lit_at(s, i, "false"@) {
        Some(i + 5)
    } else if lit_at(s, i, "null"@) {
        Some(i + 4)
    } else if s[i] == '-' || is_digit(s[i]) {
        number_end(s, i)
    } else {
        None
    }
}

/// The view of an optional extracted field.
pub open spec fn opt_view(o: Option<String>) -> Option<Seq<char>> {
    match o {
        Some(s) => Some(s@),
        None => None,
    }
}

/// Parses one member at `i` (just past `{` or a `,`): the key's
/// characters, the decoded string content where the key is `title` or
/// `body` (whose values must be strings), and the position just past the
/// member's value. An ignored member's value must be a scalar.
pub open spec fn member_step(s: Seq<char>, i: int) -> Option<(Seq<char>, Option<Seq<char>>, int)> {
    let j = skip_ws(s, i);
    if j >= s.len() || s[j] != '"' {
        None
    } else {
        match string_body(s, j + 1) {
            None => None,
            Some(key) => {
                let j2 = skip_ws(s, key.1);
                if j2 >= s.len() || s[j2] != ':' {
                    None
                } else {
                    let j3 = skip_ws(s, j2 + 1);
                    if key.0 == "title"@ || key.0 == "body"@ {
                        if j3 < s.len() && s[j3] == '"' {
                            match string_body(s, j3 + 1) {
                                None => None,
                                Some(r) => Some((key.0, Some(r.0), r.1)),
                            }
                        } else {
                            None
                        }
                    } else {
                        match scalar_end(s, j3) {
                            None => None,
                            Some(e) => Some((key.0, None::<Seq<char>>, e)),
                        }
                    }
                }
            },
        }
    }
}

/// Parses the members of the body's object from `i` (just past `{` or a
/// `,`), tracking the `title` and `body` fields seen so far. Yields the
/// two fields and the position just past the closing `}`. A duplicate
/// `title` or `body` is malformed.
pub open spec fn obj_members(
    s: Seq<char>,
    i: int,
    t: Option<Seq<char>>,
    b: Option<Seq<char>>,
) -> Option<(Option<Seq<char>>, Option<Seq<char>>, int)>
    decreases s.len() - i,
        when 0 <= i <= s.len()
    via obj_members_dec
{
    match member_step(s, i) {
        None => None,
        Some(st) => {
            if st.0 == "title"@ && t is Some {
                None
            } else if st.0 == "body"@ && b is Some {
                None
            } else {
                let t2 = if st.0 == "title"@ {
                    st.1
                } else {
                    t
                };
                let b2 = if st.0 == "body"@ {
                    st.1
                } else {
                    b
                };
                let j4 = skip_ws(s, st.2);
                if j4 >= s.len() {
                    None
                } else if s[j4] == ',' {
                    obj_members(s, j4 + 1, t2, b2)
                } else if s[j4] == '}' {
                    Some((t2, b2, j4 + 1))
                } else {
                    None
                }
            }
        },
    }
}

pub proof fn lemma_member_step_bounds(s: Seq<char>, i: int)
    requires
        0 <= i <= s.len(),
    ensures
        member_step(s, i) matches Some(st) ==> i < st.2 <= s.len(),
{
    lemma_skip_ws_bounds(s, i);
    let j = skip_ws(s, i);
    if j < s.len() && s[j] == '"' {
        lemma_string_body_bounds(s, j + 1);
        match string_body(s, j + 1) {
            None => {},
            Some(key) => {
                lemma_skip_ws_bounds(s, key.1);
                let j2 = skip_ws(s, key.1);
                if j2 < s.len() && s[j2] == ':' {
                    lemma_skip_ws_bounds(s, j2 + 1);
                    let j3 = skip_ws(s, j2 + 1);
                    if j3 < s.len() && s[j3] == '"' {
                        lemma_string_body_bounds(s, j3 + 1);
                    }
                    lemma_scalar_end_bounds(s, j3);
                }
            },
        }
    }
}

pub proof fn lemma_scalar_end_bounds(s: Seq<char>, i: int)
    requires
        0 <= i <= s.len(),
    ensures
        scalar_end(s, i) matches Some(e) ==> i < e <= s.len(),
{
    reveal_strlit("true");
    reveal_strlit("false");
    reveal_strlit("null");
    if i < s.len() {
        lemma_string_body_bounds(s, i + 1);
        if s[i] == '-' || is_digit(s[i]) {
            lemma_number_end_bounds(s, i);
        }
    }
}

pub proof fn lemma_number_end_bounds(s: Seq<char>, i: int)
    requires
        0 <= i <= s.len(),
    ensures
        number_end(s, i) matches Some(e) ==> i < e <= s.len(),
{
    let j = if 0 <= i < s.len() && s[i] == '-' {
        i + 1
    } else {
        i
    };
    if 0 <= j < s.len() && is_digit(s[j]) {
        lemma_digits_end_bounds(s, j);
        let j2 = if s[j] == '0' {
            j + 1
        } else {
            digits_end(s, j)
        };
        assert(digits_end(s, j) == digits_end(s, j + 1));
        lemma_digits_end_bounds(s, j + 1);
        if j2 + 1 <= s.len() {
            lemma_digits_end_bounds(s, j2 + 1);
        }
        let j3 = if j2 < s.len() && s[j2] == '.' {
            if j2 + 1 < s.len() && is_digit(s[j2 + 1]) {
                digits_end(s, j2 + 1)
            } else {
                -1
            }
        } else {
            j2
        };
        if 0 <= j3 {
            if j3 + 2 <= s.len() {
                lemma_digits_end_bounds(s, j3 + 2);
            }
            if j3 + 1 <= s.len() {
                lemma_digits_end_bounds(s, j3 + 1);
            }
        }
    }
}

#[via_fn]
proof fn obj_members_dec(s: Seq<char>, i: int, t: Option<Seq<char>>, b: Option<Seq<char>>) {
    lemma_member_step_bounds(s, i);
    match member_step(s, i) {
        None => {},
        Some(st) => {
            lemma_skip_ws_bounds(s, st.2);
        },
    }
}

/// Parses a create request's body: one JSON object whose `title` and
/// `body` members are strings, other members scalars to ignore, and
/// nothing but whitespace around it. Yields the two fields' characters.
pub open spec fn parse_create_spec(s: Seq<char>) -> Option<(Seq<char>, Seq<char>)> {
    let j = skip_ws(s, 0);
    if j >= s.len() || s[j] != '{' {
        None
    } else {
        let j1 = skip_ws(s, j + 1);
        let tbe = if j1 < s.len() && s[j1] == '}' {
            Some((None::<Seq<char>>, None::<Seq<char>>, j1 + 1))
        } else {
            obj_members(s, j + 1, None, None)
        };
        match tbe {
            None => None,
            Some(r) => {
                let j2 = skip_ws(s, r.2);
                if j2 != s.len() {
                    None
                } else {
                    match (r.0, r.1) {
                        (Some(t), Some(bd)) => Some((t, bd)),
                        _ => None,
                    }
                }
            },
        }
    }
}

fn skip_ws_x(v: &Vec<char>, i: usize) -> (r: usize)
    requires
        i <= v@.len(),
    ensures
        r as int == skip_ws(v@, i as int),
        i <= r <= v@.len(),
    decreases v@.len() - i,
{
    if i < v.len() && (v[i] == ' ' || v[i] == '\n' || v[i] == '\r' || v[i] == '\t') {
        skip_ws_x(v, i + 1)
    } else {
        i
    }
}

fn is_control_x(c: char) -> (r: bool)
    ensures
        r == ((c as int) < 32),
{
    (c as u32) < 32
}

fn is_digit_x(c: char) -> (r: bool)
    ensures
        r == is_digit(c),
{
    48 <= c as u32 && c as u32 <= 57
}

fn digits_end_x(v: &Vec<char>, i: usize) -> (r: usize)
    requires
        i <= v@.len(),
    ensures
        r as int == digits_end(v@, i as int),
        i <= r <= v@.len(),
    decreases v@.len() - i,
{
    if i < v.len() {
        let c = v[i];
        if is_digit_x(c) {
            digits_end_x(v, i + 1)
        } else {
            i
        }
    } else {
        i
    }
}

fn hex4_x(v: &Vec<char>, i: usize) -> (r: Option<u32>)
    requires
        i <= v@.len(),
    ensures
        (r is Some) == (hex4(v@, i as int) is Some),
        r matches Some(x) ==> hex4(v@, i as int) == Some(x as int) && x < 0x10000,
{
    if v.len() >= 4 && i <= v.len() - 4 {
        match (
            crate::post_id::hex_digit_val(v[i]),
            crate::post_id::hex_digit_val(v[i + 1]),
            crate::post_id::hex_digit_val(v[i + 2]),
            crate::post_id::hex_digit_val(v[i + 3]),
        ) {
            (Some(a), Some(b), Some(c), Some(d)) => Some(
                a as u32 * 4096 + b as u32 * 256 + c as u32 * 16 + d as u32,
            ),
            _ => None,
        }
    } else {
        None
    }
}

#[verifier::rlimit(100)]
fn parse_string_x(v: &Vec<char>, i: usize) -> (r: Option<(String, usize)>)
    requires
        i <= v@.len(),
    ensures
        (r is Some) == (string_body(v@, i as int) is Some),
        r matches Some(p) ==> string_body(v@, i as int) == Some((p.0@, p.1 as int)) && i < p.1
            <= v@.len(),
    decreases v@.len() - i,
{
    if i >= v.len() {
        return None;
    }
    let c0 = v[i];
    if c0 == '"' {
        return Some((String::new(), i + 1));
    }
    if c0 == '\\' {
        if i + 1 >= v.len() {
            return None;
        }
        let c1 = v[i + 1];
        if c1 == 'u' {
            match hex4_x(v, i + 2) {
                None => None,
                Some(x) => {
                    if 0xD800 <= x && x < 0xDC00 {
                        if v.len() - i >= 8 && v[i + 6] == '\\' && v[i + 7] == 'u' {
                            match hex4_x(v, i + 8) {
                                None => None,
                                Some(w) => {
                                    if 0xDC00 <= w && w < 0xE000 {
                                        let cp: u32 = 0x10000 + (x - 0xD800) * 0x400 + (w - 0xDC00);
                                        match parse_string_x(v, i + 12) {
                                            None => None,
                                            Some(rest) => {
                                                let c = match char_from_u32(cp) {
                                                    Some(c) => c,
                                                    None => {
                                                        proof {
                                                            assert(false);
                                                        }
                                                        ' '
                                                    },
                                                };
                                                proof {
                                                    vstd::utf8::char_u32_cast(c, cp);
                                                }
                                                let mut out = String::new();
                                                push_char(&mut out, c);
                                                out.append(rest.0.as_str());
                                                proof {
                                                    assert(out@ =~= seq![c] + rest.0@);
                                                }
                                                Some((out, rest.1))
                                            },
                                        }
                                    } else {
                                        None
                                    }
                                },
                            }
                        } else {
                            None
                        }
                    } else if 0xDC00 <= x && x < 0xE000 {
                        None
                    } else {
                        match parse_string_x(v, i + 6) {
                            None => None,
                            Some(rest) => {
                                let c = match char_from_u32(x) {
                                    Some(c) => c,
                                    None => {
                                        proof {
                                            assert(false);
                                        }
                                        ' '
                                    },
                                };
                                proof {
                                    vstd::utf8::char_u32_cast(c, x);
                                }
                                let mut out = String::new();
                                push_char(&mut out, c);
                                out.append(rest.0.as_str());
                                proof {
                                    assert(out@ =~= seq![c] + rest.0@);
                                }
                                Some((out, rest.1))
                            },
                        }
                    }
                },
            }
        } else {
            let ec: Option<char> = if c1 == '"' {
                Some('"')
            } else if c1 == '\\' {
                Some('\\')
            } else if c1 == '/' {
                Some('/')
            } else if c1 == 'b' {
                Some('\u{8}')
            } else if c1 == 'f' {
                Some('\u{c}')
            } else if c1 == 'n' {
                Some('\n')
            } else if c1 == 'r' {
                Some('\r')
            } else if c1 == 't' {
                Some('\t')
            } else {
                None
            };
            match ec {
                None => None,
                Some(c) => match parse_string_x(v, i + 2) {
                    None => None,
                    Some(rest) => {
                        let mut out = String::new();
                        push_char(&mut out, c);
                        out.append(rest.0.as_str());
                        proof {
                            assert(out@ =~= seq![c] + rest.0@);
                        }
                        Some((out, rest.1))
                    },
                },
            }
        }
    } else if is_control_x(c0) {
        None
    } else {
        match parse_string_x(v, i + 1) {
            None => None,
            Some(rest) => {
                let mut out = String::new();
                push_char(&mut out, c0);
                out.append(rest.0.as_str());
                proof {
                    assert(out@ =~= seq![c0] + rest.0@);
                }
                Some((out, rest.1))
            },
        }
    }
}

fn match_lit(v: &Vec<char>, i: usize, w: &str) -> (r: bool)
    requires
        i <= v@.len(),
    ensures
        r == lit_at(v@, i as int, w@),
{
    let wl = w.unicode_len();
    let n = v.len();
    if wl > n - i {
        return false;
    }
    let mut k: usize = 0;
    while k < wl
        invariant
            i + wl <= n,
            n == v@.len(),
            k <= wl,
            wl == w@.len(),
            forall|t: int| 0 <= t < k ==> v@[i + t] == w@[t],
        decreases wl - k,
    {
        if v[i + k] != w.get_char(k) {
            proof {
                assert(v@.subrange(i as int, i + wl) != w@) by {
                    assert(v@.subrange(i as int, i + wl)[k as int] == v@[i + k]);
                }
            }
            return false;
        }
        k += 1;
    }
    proof {
        assert(v@.subrange(i as int, i + wl) =~= w@);
    }
    true
}

fn number_end_x(v: &Vec<char>, i: usize) -> (r: Option<usize>)
    requires
        i <= v@.len(),
    ensures
        (r is Some) == (number_end(v@, i as int) is Some),
        r matches Some(e) ==> number_end(v@, i as int) == Some(e as int) && i < e <= v@.len(),
{
    let j = if i < v.len() && v[i] == '-' {
        i + 1
    } else {
        i
    };
    if j < v.len() && is_digit_x(v[j]) {
        let j2 = if v[j] == '0' {
            j + 1
        } else {
            proof {
                lemma_digits_end_bounds(v@, j + 1);
                assert(digits_end(v@, j as int) == digits_end(v@, j + 1));
            }
            digits_end_x(v, j)
        };
        let j3o: Option<usize> = if j2 < v.len() && v[j2] == '.' {
            if j2 + 1 < v.len() && is_digit_x(v[j2 + 1]) {
                Some(digits_end_x(v, j2 + 1))
            } else {
                None
            }
        } else {
            Some(j2)
        };
        match j3o {
            None => None,
            Some(j3) => {
                let j4o: Option<usize> = if j3 < v.len() && (v[j3] == 'e' || v[j3] == 'E') {
                    let j5 = if j3 + 1 < v.len() && (v[j3 + 1] == '+' || v[j3 + 1] == '-') {
                        j3 + 2
                    } else {
                        j3 + 1
                    };
                    if j5 < v.len() && is_digit_x(v[j5]) {
                        Some(digits_end_x(v, j5))
                    } else {
                        None
                    }
                } else {
                    Some(j3)
                };
                j4o
            },
        }
    } else {
        None
    }
}

fn scalar_end_x(v: &Vec<char>, i: usize) -> (r: Option<usize>)
    requires
        i <= v@.len(),
    ensures
        (r is Some) == (scalar_end(v@, i as int) is Some),
        r matches Some(e) ==> scalar_end(v@, i as int) == Some(e as int) && i < e <= v@.len(),
{
    if i >= v.len() {
        return None;
    }
    let c = v[i];
    if c == '"' {
        match parse_string_x(v, i + 1) {
            None => None,
            Some(p) => Some(p.1),
        }
    } else if match_lit(v, i, "true") {
        proof {
            reveal_strlit("true");
        }
        Some(i + 4)
    } else if match_lit(v, i, "false") {
        proof {
            reveal_strlit("false");
        }
        Some(i + 5)
    } else if match_lit(v, i, "null") {
        proof {
            reveal_strlit("null");
        }
        Some(i + 4)
    } else if c == '-' || is_digit_x(c) {
        number_end_x(v, i)
    } else {
        None
    }
}

fn member_step_x(v: &Vec<char>, i: usize) -> (r: Result<(String, Option<String>, usize), String>)
    requires
        i <= v@.len(),
    ensures
        (r is Ok) == (member_step(v@, i as int) is Some),
        r matches Ok(p) ==> member_step(v@, i as int) == Some((p.0@, opt_view(p.1), p.2 as int))
            && i < p.2 <= v@.len(),
{
    let j = skip_ws_x(v, i);
    if j >= v.len() {
        return Err("unexpected end of body".to_owned());
    }
    if v[j] != '"' {
        return Err("expected a string key".to_owned());
    }
    let key = match parse_string_x(v, j + 1) {
        None => {
            return Err("malformed string".to_owned());
        },
        Some(p) => p,
    };
    let j2 = skip_ws_x(v, key.1);
    if j2 >= v.len() || v[j2] != ':' {
        return Err("expected a colon after a key".to_owned());
    }
    let j3 = skip_ws_x(v, j2 + 1);
    let is_title = str_eq(key.0.as_str(), "title");
    let is_body = str_eq(key.0.as_str(), "body");
    if is_title || is_body {
        if j3 < v.len() && v[j3] == '"' {
            match parse_string_x(v, j3 + 1) {
                None => Err("malformed string".to_owned()),
                Some(p) => Ok((key.0, Some(p.0), p.1)),
            }
        } else {
            Err("invalid type: title and body must be strings".to_owned())
        }
    } else {
        match scalar_end_x(v, j3) {
            None => Err("unsupported value".to_owned()),
            Some(e) => Ok((key.0, None, e)),
        }
    }
}

#[verifier::rlimit(100)]
fn obj_members_x(v: &Vec<char>, i: usize, t: Option<String>, b: Option<String>) -> (r: Result<
    (Option<String>, Option<String>, usize),
    String,
>)
    requires
        i <= v@.len(),
    ensures
        (r is Ok) == (obj_members(v@, i as int, opt_view(t), opt_view(b)) is Some),
        r matches Ok(p) ==> obj_members(v@, i as int, opt_view(t), opt_view(b)) == Some(
            (opt_view(p.0), opt_view(p.1), p.2 as int),
        ) && i < p.2 <= v@.len(),
    decreases v@.len() - i,
{
    let st = match member_step_x(v, i) {
        Err(m) => {
            return Err(m);
        },
        Ok(p) => p,
    };
    let is_title = str_eq(st.0.as_str(), "title");
    let is_body = str_eq(st.0.as_str(), "body");
    if is_title && t.is_some() {
        return Err("duplicate field title".to_owned());
    }
    if is_body && b.is_some() {
        return Err("duplicate field body".to_owned());
    }
    let tb: (Option<String>, Option<String>) = if is_title {
        (st.1, b)
    } else if is_body {
        (t, st.1)
    } else {
        (t, b)
    };
    proof {
        reveal_strlit("title");
        reveal_strlit("body");
        assert("title"@.len() == 5);
        assert("body"@.len() == 4);
        assert("title"@ != "body"@);
        let sts = (st.0@, opt_view(st.1), st.2 as int);
        assert(member_step(v@, i as int) == Some(sts));
        assert((sts.0 == "title"@) == is_title);
        assert((sts.0 == "body"@) == is_body);
        assert(opt_view(tb.0) == (if sts.0 == "title"@ { sts.1 } else { opt_view(t) }));
        assert(opt_view(tb.1) == (if sts.0 == "body"@ { sts.1 } else { opt_view(b) }));
    }
    let j4 = skip_ws_x(v, st.2);
    if j4 >= v.len() {
        return Err("unexpected end of body".to_owned());
    }
    if v[j4] == ',' {
        obj_members_x(v, j4 + 1, tb.0, tb.1)
    } else if v[j4] == '}' {
        Ok((tb.0, tb.1, j4 + 1))
    } else {
        Err("expected a comma or a closing brace".to_owned())
    }
}

/// Extracts a create request from a JSON body. Succeeds exactly on the
/// bodies the grammar accepts with both fields present, and then carries
/// their decoded characters; any other body is rejected with a
/// body-parsing error describing the mismatch.
pub fn parse_create_post_request(body: &str) -> (r: Result<CreatePostRequest, AppError>)
    ensures
        parse_create_spec(body@) matches Some(tb) ==> (r matches Ok(req) && req.title@ == tb.0
            && req.body@ == tb.1),
        parse_create_spec(body@) is None ==> (r matches Err(e) && e matches
            AppError::BodyParsingError(_)),
{
    let v = to_chars(body);
    let j = skip_ws_x(&v, 0);
    if j >= v.len() || v[j] != '{' {
        return Err(AppError::BodyParsingError("expected a JSON object".to_owned()));
    }
    let j1 = skip_ws_x(&v, j + 1);
    let parsed: (Option<String>, Option<String>, usize) = if j1 < v.len() && v[j1] == '}' {
        (None, None, j1 + 1)
    } else {
        match obj_members_x(&v, j + 1, None, None) {
            Err(m) => {
                return Err(AppError::BodyParsingError(m));
            },
            Ok(p) => p,
        }
    };
    let j2 = skip_ws_x(&v, parsed.2);
    if j2 != v.len() {
        return Err(AppError::BodyParsingError("trailing characters after the object".to_owned()));
    }
    match (parsed.0, parsed.1) {
        (Some(title), Some(bd)) => Ok(CreatePostRequest { title, body: bd }),
        (None, _) => Err(AppError::BodyParsingError("missing field title".to_owned())),
        (_, None) => Err(AppError::BodyParsingError("missing field body".to_owned())),
    }
}

} // verus!
