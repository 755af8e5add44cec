use vstd::prelude::*;
use vstd::arithmetic::div_mod::{lemma_div_denominator, lemma_fundamental_div_mod};
use crate::errors::AppError;
use crate::strutil::push_char;

verus! {

/// The identifier of a post: a 128-bit value, written on the wire in the
/// canonical hyphenated form (8-4-4-4-12 hex digits).
#[derive(Clone, Copy, Debug, PartialEq, Eq, Structural, Hash)]
pub struct PostId {
    pub value: u128,
}

/// A fresh identifier for a newly created post.
///
/// Relies on uuid::Uuid::new_v4 (a random 128-bit identifier) and
/// uuid::Uuid::as_u128 (the identifier's 16 bytes as one big-endian
/// integer). The result is random: nothing is promised of it.
#[verifier::external_body]
pub fn fresh_post_id() -> PostId {
    PostId { value: uuid::Uuid::new_v4().as_u128() }
}

/// 16 to the power `e`.
pub open spec fn pow16(e: nat) -> int
    decreases e,
{
    if e == 0 {
        1
    } else {
        16 * pow16((e - 1) as nat)
    }
}

pub proof fn lemma_pow16_pos(e: nat)
    ensures
        pow16(e) >= 1,
    decreases e,
{
    if e > 0 {
        lemma_pow16_pos((e - 1) as nat);
    }
}

pub proof fn lemma_pow16_increases(a: nat, b: nat)
    requires
        a <= b,
    ensures
        pow16(a) <= pow16(b),
    decreases b,
{
    if a < b {
        lemma_pow16_increases(a, (b - 1) as nat);
        lemma_pow16_pos((b - 1) as nat);
    }
}

pub proof fn lemma_pow16_32()
    ensures
        pow16(32) == 0x100000000000000000000000000000000,
{
    reveal_with_fuel(pow16, 33);
}

/// Whether `c` is a hexadecimal digit, either case.
pub open spec fn is_hex_digit(c: char) -> bool {
    ||| 48 <= c as int <= 57
    ||| 97 <= c as int <= 102
    ||| 65 <= c as int <= 70
}

/// The value of a hexadecimal digit.
pub open spec fn hex_val(c: char) -> int {
    if 48 <= c as int <= 57 {
        c as int - 48
    } else if 97 <= c as int <= 102 {
        c as int - 87
    } else {
        c as int - 55
    }
}

/// The lower-case character for a hexadecimal digit value.
pub open spec fn hex_char(d: int) -> char {
    if d == 0 { '0' }
    else if d == 1 { '1' }
    else if d == 2 { '2' }
    else if d == 3 { '3' }
    else if d == 4 { '4' }
    else if d == 5 { '5' }
    else if d == 6 { '6' }
    else if d == 7 { '7' }
    else if d == 8 { '8' }
    else if d == 9 { '9' }
    else if d == 10 { 'a' }
    else if d == 11 { 'b' }
    else if d == 12 { 'c' }
    else if d == 13 { 'd' }
    else if d == 14 { 'e' }
    else { 'f' }
}

/// The positions of the four hyphens in the hyphenated form.
pub open spec fn is_hyphen_pos(j: int) -> bool {
    j == 8 || j == 13 || j == 18 || j == 23
}

/// How many hyphen positions lie before position `j`.
pub open spec fn n_hyphens_before(j: int) -> int {
    (if j > 8 { 1int } else { 0int })
    + (if j > 13 { 1int } else { 0int })
    + (if j > 18 { 1int } else { 0int })
    + (if j > 23 { 1int } else { 0int })
}

/// How many digit positions lie before position `j`.
pub open spec fn digits_before(j: int) -> int {
    j - n_hyphens_before(j)
}

/// Whether the first `j` characters of `s` follow the hyphenated form.
pub open spec fn uuid_prefix_ok(s: Seq<char>, j: int) -> bool {
    forall|k: int|
        0 <= k < j ==> if is_hyphen_pos(k) {
            s[k] == '-'
        } else {
            is_hex_digit(#[trigger] s[k])
        }
}

/// Whether `s` is an identifier in the hyphenated form: 36 characters,
/// hyphens at positions 8, 13, 18 and 23, hexadecimal digits elsewhere.
pub open spec fn is_uuid_string(s: Seq<char>) -> bool {
    s.len() == 36 && uuid_prefix_ok(s, 36)
}

/// The value of the digits among the first `j` characters of `s`, the
/// first digit most significant.
pub open spec fn uuid_prefix_val(s: Seq<char>, j: int) -> int
    decreases j,
{
    if j <= 0 {
        0
    } else if is_hyphen_pos(j - 1) {
        uuid_prefix_val(s, j - 1)
    } else {
        uuid_prefix_val(s, j - 1) * 16 + hex_val(s[j - 1])
    }
}

/// The value written by an identifier string.
pub open spec fn uuid_value(s: Seq<char>) -> int {
    uuid_prefix_val(s, 36)
}

/// The character at position `j` of the hyphenated form of `v`.
pub open spec fn uuid_char_at(v: u128, j: int) -> char {
    if is_hyphen_pos(j) {
        '-'
    } else {
        hex_char((v as int / pow16((31 - digits_before(j)) as nat)) % 16)
    }
}

/// The hyphenated form of `v`.
pub open spec fn uuid_str_of(v: u128) -> Seq<char> {
    Seq::new(36, |j: int| uuid_char_at(v, j))
}

pub fn hex_digit_val(c: char) -> (r: Option<u8>)
    ensures
        r is Some <==> is_hex_digit(c),
        r matches Some(v) ==> v as int == hex_val(c) && v < 16,
{
    let u = c as u32;
    if 48 <= u && u <= 57 {
        Some((u - 48) as u8)
    } else if 97 <= u && u <= 102 {
        Some((u - 87) as u8)
    } else if 65 <= u && u <= 70 {
        Some((u - 55) as u8)
    } else {
        None
    }
}

/// The lower-case character for a hexadecimal digit value.
pub fn hex_char_of(d: u8) -> (c: char)
    requires
        d < 16,
    ensures
        c == hex_char(d as int),
{
    match d {
        0 => '0',
        1 => '1',
        2 => '2',
        3 => '3',
        4 => '4',
        5 => '5',
        6 => '6',
        7 => '7',
        8 => '8',
        9 => '9',
        10 => 'a',
        11 => 'b',
        12 => 'c',
        13 => 'd',
        14 => 'e',
        _ => 'f',
    }
}

/// Parses a path segment as a post identifier. Succeeds exactly on strings
/// in the hyphenated form, and then returns the value their digits write;
/// any other string is rejected with a body-parsing error.
pub fn parse_post_id(s: &str) -> (r: Result<PostId, AppError>)
    ensures
        is_uuid_string(s@) ==> (r matches Ok(id) && id.value as int == uuid_value(s@)),
        !is_uuid_string(s@) ==> (r matches Err(e) && e matches AppError::BodyParsingError(m)
            && m@ == "Invalid post id"@),
{
    let n = s.unicode_len();
    if n != 36 {
        return Err(AppError::BodyParsingError("Invalid post id".to_owned()));
    }
    let mut acc: u128 = 0;
    let mut j: usize = 0;
    while j < 36
        invariant
            n == 36,
            n == s@.len(),
            j <= 36,
            uuid_prefix_ok(s@, j as int),
            acc as int == uuid_prefix_val(s@, j as int),
            (acc as int) < pow16(digits_before(j as int) as nat),
        decreases 36 - j,
    {
        let c = s.get_char(j);
        if j == 8 || j == 13 || j == 18 || j == 23 {
            if c != '-' {
                assert(!is_uuid_string(s@));
                return Err(AppError::BodyParsingError("Invalid post id".to_owned()));
            }
        } else {
            match hex_digit_val(c) {
                None => {
                    assert(!is_uuid_string(s@));
                    return Err(AppError::BodyParsingError("Invalid post id".to_owned()));
                },
                Some(d) => {
                    proof {
                        lemma_pow16_increases(digits_before(j as int) as nat, 31);
                        lemma_pow16_32();
                        assert(pow16(32) == 16 * pow16(31));
                    }
                    acc = acc * 16 + (d as u128);
                },
            }
        }
        j += 1;
    }
    proof {
        assert(digits_before(36) == 32);
    }
    Ok(PostId { value: acc })
}

/// Writes an identifier in the hyphenated form, with lower-case digits.
pub fn format_post_id(id: PostId) -> (r: String)
    ensures
        r@ == uuid_str_of(id.value),
{
    let mut digits: Vec<u8> = Vec::new();
    let mut v: u128 = id.value;
    let mut k: usize = 0;
    proof {
        assert(v as int == id.value as int / pow16(0));
    }
    while k < 32
        invariant
            k <= 32,
            digits@.len() == k,
            v as int == id.value as int / pow16(k as nat),
            forall|t: int|
                0 <= t < k ==> #[trigger] digits@[t] as int == (id.value as int / pow16(
                    t as nat,
                )) % 16 && digits@[t] < 16,
        decreases 32 - k,
    {
        let d = (v % 16) as u8;
        digits.push(d);
        proof {
            lemma_pow16_pos(k as nat);
            lemma_div_denominator(id.value as int, pow16(k as nat), 16);
            assert(pow16(k as nat) * 16 == pow16((k + 1) as nat));
        }
        v = v / 16;
        k += 1;
    }
    let mut out = String::new();
    let mut j: usize = 0;
    proof {
        assert(out@ =~= uuid_str_of(id.value).take(0));
    }
    while j < 36
        invariant
            j <= 36,
            digits@.len() == 32,
            forall|t: int|
                0 <= t < 32 ==> #[trigger] digits@[t] as int == (id.value as int / pow16(
                    t as nat,
                )) % 16 && digits@[t] < 16,
            out@ == uuid_str_of(id.value).take(j as int),
        decreases 36 - j,
    {
        if j == 8 || j == 13 || j == 18 || j == 23 {
            push_char(&mut out, '-');
        } else {
            let h: usize = if j > 23 {
                4
            } else if j > 18 {
                3
            } else if j > 13 {
                2
            } else if j > 8 {
                1
            } else {
                0
            };
            let di = j - h;
            let c = hex_char_of(digits[31 - di]);
            push_char(&mut out, c);
            proof {
                assert(digits_before(j as int) == di as int);
            }
        }
        proof {
            assert(out@ =~= uuid_str_of(id.value).take(j + 1));
        }
        j += 1;
    }
    proof {
        assert(out@ =~= uuid_str_of(id.value));
    }
    out
}


proof fn lemma_format_prefix(v: u128, j: int)
    requires
        0 <= j <= 36,
    ensures
        uuid_prefix_val(uuid_str_of(v), j) == v as int / pow16((32 - digits_before(j)) as nat),
    decreases j,
{
    let s = uuid_str_of(v);
    if j == 0 {
        lemma_pow16_32();
        vstd::arithmetic::div_mod::lemma_basic_div(v as int, pow16(32));
    } else {
        lemma_format_prefix(v, j - 1);
        if !is_hyphen_pos(j - 1) {
            let k = digits_before(j - 1);
            let a = v as int / pow16((31 - k) as nat);
            lemma_pow16_pos((31 - k) as nat);
            vstd::arithmetic::div_mod::lemma_div_pos_is_pos(v as int, pow16((31 - k) as nat));
            lemma_fundamental_div_mod(a, 16);
            lemma_div_denominator(v as int, pow16((31 - k) as nat), 16);
            assert(pow16((31 - k) as nat) * 16 == pow16((32 - k) as nat));
            assert(s[j - 1] == uuid_char_at(v, j - 1));
            let d = a % 16;
            assert(hex_val(hex_char(d)) == d);
            assert(digits_before(j) == k + 1);
            assert(uuid_prefix_val(s, j) == uuid_prefix_val(s, j - 1) * 16 + hex_val(s[j - 1]));
            assert(uuid_prefix_val(s, j - 1) == a / 16);
            assert(a == 16 * (a / 16) + a % 16);
        }
    }
}

/// Writing an identifier out and reading the result back yields the
/// identifier: the hyphenated form of any value is a well-formed
/// identifier string, and its digits write that value.
pub proof fn lemma_post_id_round_trip(v: u128)
    ensures
        is_uuid_string(uuid_str_of(v)),
        uuid_value(uuid_str_of(v)) == v as int,
{
    let s = uuid_str_of(v);
    assert forall|k: int|
        0 <= k < 36 implies (is_hyphen_pos(k) ==> s[k] == '-') && (!is_hyphen_pos(k)
        ==> is_hex_digit(#[trigger] s[k])) by {
        assert(s[k] == uuid_char_at(v, k));
        if !is_hyphen_pos(k) {
            let d = (v as int / pow16((31 - digits_before(k)) as nat)) % 16;
            lemma_pow16_pos((31 - digits_before(k)) as nat);
            assert(0 <= d < 16);
            assert(is_hex_digit(hex_char(d)));
        }
    }
    assert(is_uuid_string(s));
    lemma_format_prefix(v, 36);
    assert(digits_before(36) == 32);
    assert(v as int / pow16(0) == v as int);
}

} // verus!
