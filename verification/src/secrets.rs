//! Tokens and identifiers: making them, carrying them in headers and comparing them.

use vstd::prelude::*;
use vstd::utf8::encode_utf8;
use rand::Rng;
use crate::text::strip_prefix;
use crate::text::without_prefix;

verus! {

/// The number of characters of a generated token.
pub const TOKEN_LEN: usize = 48;

/// The header in which a request carries the token of its stream.
pub const STREAM_TOKEN_HEADER: &'static str = "x-stream-token";

/// Whether `c` is an ASCII letter or digit.
pub open spec fn alphanumeric(c: char) -> bool {
    'a' <= c <= 'z' || 'A' <= c <= 'Z' || '0' <= c <= '9'
}

/// Draws one byte from rand's `Alphanumeric` distribution with the thread's generator. Which one
/// comes is left to chance; it is always an ASCII letter or digit.
#[verifier::external_body]
fn sample_alphanumeric() -> (b: u8)
    ensures
        alphanumeric(b as char),
{
    rand::thread_rng().sample(rand::distributions::Alphanumeric)
}

/// A token of `len` letters and digits, drawn at random.
pub fn generate_secret(len: usize) -> (secret: String)
    ensures
        secret@.len() == len,
        forall|i: int| 0 <= i < len ==> alphanumeric(#[trigger] secret@[i]),
{
    let mut secret = String::new();
    let mut i: usize = 0;
    while i < len
        invariant
            i <= len,
            secret@.len() == i,
            forall|j: int| 0 <= j < i ==> alphanumeric(#[trigger] secret@[j]),
        decreases len - i,
    {
        secret.push(sample_alphanumeric() as char);
        i += 1;
    }
    secret
}

/// Whether `c` is a small hexadecimal digit.
pub open spec fn lower_hex(c: char) -> bool {
    '0' <= c <= '9' || 'a' <= c <= 'f'
}

/// Whether `s` is a random (version 4) UUID in its hyphenated form.
pub open spec fn is_uuid_v4(s: Seq<char>) -> bool {
    &&& s.len() == 36
    &&& forall|i: int|
        0 <= i < 36 ==> if i == 8 || i == 13 || i == 18 || i == 23 {
            #[trigger] s[i] == '-'
        } else {
            lower_hex(s[i])
        }
    &&& s[14] == '4'
    &&& s[19] == '8' || s[19] == '9' || s[19] == 'a' || s[19] == 'b'
}

/// `Uuid::new_v4` of the uuid crate, written out by its `to_string`. Which identifier comes is left
/// to chance; it is always a version 4 UUID with small hexadecimal digits and hyphens.
#[verifier::external_body]
pub(crate) fn new_uuid() -> (id: String)
    ensures
        is_uuid_v4(id@),
{
    uuid::Uuid::new_v4().to_string()
}

/// Whether a byte may stand in a header that is read as text.
pub open spec fn visible(b: u8) -> bool {
    32 <= b < 127 || b == 9
}

/// The text of a header; nothing where the header holds anything but visible ASCII and tabs.
pub open spec fn header_text(value: Seq<u8>) -> Option<Seq<char>> {
    if forall|i: int| 0 <= i < value.len() ==> visible(#[trigger] value[i]) {
        Some(value.map_values(|b: u8| b as char))
    } else {
        None
    }
}

/// `HeaderValue::from_bytes` and then `HeaderValue::to_str` of the http crate, which axum hands on:
/// the bytes as text, if all of them are visible ASCII characters or tabs. (`from_bytes` alone
/// refuses fewer bytes than `to_str`, so what it refuses `to_str` would refuse too.)
#[verifier::external_body]
fn read_header(value: &Vec<u8>) -> (text: Option<String>)
    ensures
        match text {
            Some(t) => header_text(value@) == Some(t@),
            None => header_text(value@) is None,
        },
{
    let value = axum::http::HeaderValue::from_bytes(value).ok()?;
    value.to_str().ok().map(String::from)
}

/// Whether a byte may stand in a header at all.
pub open spec fn permitted(b: u8) -> bool {
    b >= 32 && b != 127 || b == 9
}

/// The header that carries `text`; nothing where a byte of `text` may not stand in a header.
pub open spec fn header_bytes(text: Seq<char>) -> Option<Seq<u8>> {
    if forall|i: int| 0 <= i < encode_utf8(text).len() ==> permitted(#[trigger] encode_utf8(text)[i]) {
        Some(encode_utf8(text))
    } else {
        None
    }
}

/// `HeaderValue::from_str` of the http crate: the UTF-8 bytes of `text`, if each of them may stand
/// in a header.
#[verifier::external_body]
fn write_header(text: &str) -> (value: Option<Vec<u8>>)
    ensures
        match value {
            Some(bytes) => header_bytes(text@) == Some(bytes@),
            None => header_bytes(text@) is None,
        },
{
    axum::http::HeaderValue::from_str(text).ok().map(|value| value.as_bytes().to_vec())
}

/// The two headers of a request that decide whether it is let in, where it has them.
pub struct RequestHeaders {
    /// The value of `Authorization`.
    pub authorization: Option<Vec<u8>>,
    /// The value of [`STREAM_TOKEN_HEADER`].
    pub stream_token: Option<Vec<u8>>,
}

/// The view of a [`RequestHeaders`].
#[verifier::ext_equal]
pub struct HeadersView {
    pub authorization: Option<Seq<u8>>,
    pub stream_token: Option<Seq<u8>>,
}

/// The bytes of a header that may be missing.
pub open spec fn header_view(value: Option<Vec<u8>>) -> Option<Seq<u8>> {
    match value {
        Some(bytes) => Some(bytes@),
        None => None,
    }
}

impl View for RequestHeaders {
    type V = HeadersView;

    open spec fn view(&self) -> HeadersView {
        HeadersView {
            authorization: header_view(self.authorization),
            stream_token: header_view(self.stream_token),
        }
    }
}

/// Compares two strings, looking at every byte of the longer one whatever they hold.
pub fn secure_eq(a: &str, b: &str) -> (same: bool)
    ensures
        same == (a@ == b@),
{
    let left = a.as_bytes();
    let right = b.as_bytes();
    let mut diff: usize = left.len() ^ right.len();
    let max_len: usize = if left.len() > right.len() {
        left.len()
    } else {
        right.len()
    };
    proof {
        lemma_xor_zero(left.len(), right.len());
    }
    let mut index: usize = 0;
    while index < max_len
        invariant
            left@ == encode_utf8(a@),
            right@ == encode_utf8(b@),
            index <= max_len,
            max_len == if left@.len() > right@.len() {
                left@.len()
            } else {
                right@.len()
            },
            diff == 0 <==> (left@.len() == right@.len() && forall|i: int|
                0 <= i < index ==> left@[i] == right@[i]),
        decreases max_len - index,
    {
        let l: u8 = if index < left.len() {
            left[index]
        } else {
            0
        };
        let r: u8 = if index < right.len() {
            right[index]
        } else {
            0
        };
        let step: usize = (l ^ r) as usize;
        proof {
            lemma_xor_zero_byte(l, r);
            lemma_or_zero(diff, step);
        }
        diff = diff | step;
        index += 1;
    }
    proof {
        vstd::utf8::encode_utf8_decode_utf8(a@);
        vstd::utf8::encode_utf8_decode_utf8(b@);
        if diff == 0 {
            assert(left@ == right@);
        }
    }
    diff == 0
}

proof fn lemma_xor_zero(x: usize, y: usize)
    ensures
        x ^ y == 0 <==> x == y,
{
    assert(x ^ y == 0 <==> x == y) by (bit_vector);
}

proof fn lemma_xor_zero_byte(x: u8, y: u8)
    ensures
        x ^ y == 0 <==> x == y,
{
    assert(x ^ y == 0 <==> x == y) by (bit_vector);
}

proof fn lemma_or_zero(x: usize, y: usize)
    ensures
        x | y == 0 <==> x == 0 && y == 0,
{
    assert(x | y == 0 <==> x == 0 && y == 0) by (bit_vector);
}

/// The text of a header that may be missing.
pub open spec fn optional_text(value: Option<Seq<u8>>) -> Option<Seq<char>> {
    match value {
        Some(bytes) => header_text(bytes),
        None => None,
    }
}

impl HeadersView {
    /// Whether the request carries `token` after the word `Bearer`.
    pub open spec fn bears(self, token: Seq<char>) -> bool {
        match optional_text(self.authorization) {
            Some(text) => without_prefix(text, "Bearer "@) == Some(token),
            None => false,
        }
    }

    /// Whether the request carries `token` as the token of its stream.
    pub open spec fn opens(self, token: Seq<char>) -> bool {
        optional_text(self.stream_token) == Some(token)
    }
}

/// Whether a request carries the token that every request to this server must carry.
pub fn is_authorized(headers: &RequestHeaders, auth_token: &str) -> (yes: bool)
    ensures
        yes == headers@.bears(auth_token@),
{
    match &headers.authorization {
        None => false,
        Some(value) => match read_header(value) {
            None => false,
            Some(text) => match strip_prefix(text.as_str(), "Bearer ") {
                None => false,
                Some(token) => secure_eq(token.as_str(), auth_token),
            },
        },
    }
}

/// Whether a request carries the token of the stream that it is for.
pub fn is_stream_token_authorized(headers: &RequestHeaders, expected_token: &str) -> (yes: bool)
    ensures
        yes == headers@.opens(expected_token@),
{
    match &headers.stream_token {
        None => false,
        Some(value) => match read_header(value) {
            None => false,
            Some(text) => secure_eq(text.as_str(), expected_token),
        },
    }
}

/// The value of `Authorization` with which a client shows `token`; nothing where the token holds a
/// character that cannot stand in a header.
pub fn bearer_header(token: &str) -> (value: Option<Vec<u8>>)
    ensures
        header_view(value) == header_bytes("Bearer "@ + token@),
{
    let text = "Bearer ".to_string().concat(token);
    write_header(text.as_str())
}

/// Whether `c` is a visible ASCII character or a tab.
pub open spec fn visible_char(c: char) -> bool {
    ' ' <= c <= '~' || c == '\t'
}

/// Whether every character of `s` is visible ASCII or a tab.
pub open spec fn visible_text(s: Seq<char>) -> bool {
    forall|i: int| 0 <= i < s.len() ==> visible_char(#[trigger] s[i])
}

/// A header that was written from a text is read as that text, if the text is visible, and not as
/// any text otherwise.
pub proof fn header_gives_back_its_text(s: Seq<char>)
    ensures
        visible_text(s) ==> header_bytes(s) == Some(encode_utf8(s)),
        header_text(encode_utf8(s)) == if visible_text(s) {
            Some(s)
        } else {
            None
        },
{
    let bytes = encode_utf8(s);
    if visible_text(s) {
        vstd::utf8::is_ascii_chars_encode_utf8(s);
        assert forall|i: int| 0 <= i < bytes.len() implies visible(#[trigger] bytes[i])
            && permitted(bytes[i]) by {
            assert(s[i] as u8 == bytes[i]);
        }
        assert(bytes.map_values(|b: u8| b as char) == s);
    } else {
        let i = choose|i: int| 0 <= i < s.len() && !visible_char(#[trigger] s[i]);
        hidden_character_shows(s, i);
    }
}

/// The first byte of a character that is not visible is not visible.
proof fn hidden_first_byte(c: char)
    requires
        !visible_char(c),
    ensures
        vstd::utf8::encode_scalar(c as u32).len() > 0,
        !visible(vstd::utf8::encode_scalar(c as u32)[0]),
{
    let n = c as u32;
    if n <= 0x7f {
        assert((n & 0x7f) as u8 == n) by (bit_vector)
            requires
                n <= 0x7f,
        ;
    } else {
        let b2 = ((n >> 6) & 0x1f) as u8;
        let b3 = ((n >> 12) & 0x0f) as u8;
        let b4 = ((n >> 18) & 0x7) as u8;
        assert(0xc0 | b2 >= 0xc0 && 0xe0 | b3 >= 0xe0 && 0xf0 | b4 >= 0xf0) by (bit_vector);
    }
}

/// A character that is not visible leaves a byte that is not.
proof fn hidden_character_shows(s: Seq<char>, i: int)
    requires
        0 <= i < s.len(),
        !visible_char(s[i]),
    ensures
        exists|k: int| 0 <= k < encode_utf8(s).len() && !visible(#[trigger] encode_utf8(s)[k]),
    decreases i,
{
    let first = vstd::utf8::encode_scalar(s[0] as u32);
    let rest = encode_utf8(s.drop_first());
    assert(encode_utf8(s) == first + rest);
    if i == 0 {
        hidden_first_byte(s[0]);
        assert(encode_utf8(s)[0] == first[0]);
    } else {
        hidden_character_shows(s.drop_first(), i - 1);
        let k = choose|k: int| 0 <= k < rest.len() && !visible(#[trigger] rest[k]);
        assert(encode_utf8(s)[first.len() + k] == rest[k]);
    }
}

/// A request that shows `shown` is let in by a server whose token is `wanted` exactly when the two
/// tokens are the same and can be read from a header.
pub proof fn bearer_opens_with_the_right_token(shown: Seq<char>, wanted: Seq<char>, headers: HeadersView)
    requires
        headers.authorization == header_bytes("Bearer "@ + shown),
    ensures
        headers.bears(wanted) <==> shown == wanted && visible_text(shown),
{
    let text = "Bearer "@ + shown;
    reveal_strlit("Bearer ");
    header_gives_back_its_text(text);
    assert("Bearer "@.is_prefix_of(text)) by {
        assert(text.subrange(0, "Bearer "@.len() as int) == "Bearer "@);
    }
    assert(text.skip("Bearer "@.len() as int) == shown);
    assert(visible_text(text) <==> visible_text(shown)) by {
        if visible_text(shown) {
            assert forall|i: int| 0 <= i < text.len() implies visible_char(#[trigger] text[i]) by {
                if i >= 7 {
                    assert(text[i] == shown[i - 7]);
                }
            }
        }
        if visible_text(text) {
            assert forall|i: int| 0 <= i < shown.len() implies visible_char(#[trigger] shown[i]) by {
                assert(text[i + 7] == shown[i]);
            }
        }
    }
}

/// A generated token can always be read from a header.
pub proof fn generated_tokens_are_visible(secret: Seq<char>)
    requires
        forall|i: int| 0 <= i < secret.len() ==> alphanumeric(#[trigger] secret[i]),
    ensures
        visible_text(secret),
{
}

/// A header is read as a text exactly if it holds the bytes of that text and the text is visible.
pub proof fn headers_are_read_exactly(value: Seq<u8>, text: Seq<char>)
    ensures
        header_text(value) == Some(text) <==> value == encode_utf8(text) && visible_text(text),
{
    if header_text(value) == Some(text) {
        assert forall|i: int| 0 <= i < text.len() implies visible_char(#[trigger] text[i]) by {
            assert(visible(value[i]));
            assert(text[i] == value[i] as char);
        }
        vstd::utf8::is_ascii_chars_encode_utf8(text);
        assert forall|i: int| 0 <= i < value.len() implies value[i] == #[trigger] encode_utf8(
            text,
        )[i] by {
            assert(text[i] == value[i] as char);
            assert(text[i] as u8 == encode_utf8(text)[i]);
        }
        assert(value =~= encode_utf8(text));
    }
    header_gives_back_its_text(text);
}

/// A request carries the server's token exactly if its authorization is the word `Bearer`, a space
/// and the token; it carries the token of a stream exactly if that header is the token. Either must
/// be visible.
pub proof fn tokens_are_carried_exactly(headers: HeadersView, token: Seq<char>)
    ensures
        headers.bears(token) <==> visible_text(token) && headers.authorization == Some(
            encode_utf8("Bearer "@ + token),
        ),
        headers.opens(token) <==> visible_text(token) && headers.stream_token == Some(
            encode_utf8(token),
        ),
{
    reveal_strlit("Bearer ");
    let text = "Bearer "@ + token;
    assert(text.subrange(0, 7) == "Bearer "@);
    assert(text.skip(7) == token);
    assert(visible_text(text) <==> visible_text(token)) by {
        if visible_text(token) {
            assert forall|i: int| 0 <= i < text.len() implies visible_char(#[trigger] text[i]) by {
                if i >= 7 {
                    assert(text[i] == token[i - 7]);
                }
            }
        }
        if visible_text(text) {
            assert forall|i: int| 0 <= i < token.len() implies visible_char(#[trigger] token[i]) by {
                assert(text[i + 7] == token[i]);
            }
        }
    }
    if headers.authorization is Some {
        let value = headers.authorization->0;
        headers_are_read_exactly(value, text);
        if headers.bears(token) {
            let read = header_text(value)->0;
            assert(read =~= text);
        }
    }
    if headers.stream_token is Some {
        headers_are_read_exactly(headers.stream_token->0, token);
    }
}

/// A header that is written holds the bytes of its text.
pub proof fn headers_are_written_as_they_are(text: Seq<char>)
    ensures
        header_bytes(text) matches Some(bytes) ==> bytes == encode_utf8(text),
        header_bytes(text) is Some <==> forall|i: int|
            0 <= i < encode_utf8(text).len() ==> {
                ||| #[trigger] encode_utf8(text)[i] == 9
                ||| encode_utf8(text)[i] >= 32 && encode_utf8(text)[i] != 127
            },
        visible_text(text) <==> forall|i: int|
            0 <= i < text.len() ==> #[trigger] text[i] == '\t' || ' ' <= text[i] <= '~',
{
    let bytes = encode_utf8(text);
    assert forall|i: int| 0 <= i < bytes.len() implies (permitted(#[trigger] bytes[i]) <==> bytes[i]
        == 9 || (bytes[i] >= 32 && bytes[i] != 127)) by {}
    if header_bytes(text) is Some {
        assert forall|i: int| 0 <= i < bytes.len() implies {
            ||| #[trigger] bytes[i] == 9
            ||| bytes[i] >= 32 && bytes[i] != 127
        } by {
            assert(permitted(bytes[i]));
        }
    }
    if visible_text(text) {
        assert forall|i: int| 0 <= i < text.len() implies #[trigger] text[i] == '\t' || ' '
            <= text[i] <= '~' by {
            assert(visible_char(text[i]));
        }
    }
}

} // verus!
