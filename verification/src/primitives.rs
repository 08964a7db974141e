//! Calls into std and into the outside crates (url, base64, sha2, rand,
//! tiktoken-rs) that the library's logic makes, each with the contract that
//! the library relies on.
use base64::Engine as _;
use rand::RngCore as _;
use sha2::Digest as _;
use vstd::prelude::*;

verus! {

/// A byte that `application/x-www-form-urlencoded` serialization keeps as it is.
pub open spec fn form_byte_unchanged(b: u8) -> bool {
    ||| b == 42
    ||| b == 45
    ||| b == 46
    ||| (48 <= b && b <= 57)
    ||| (65 <= b && b <= 90)
    ||| b == 95
    ||| (97 <= b && b <= 122)
}

/// An upper-case hexadecimal digit.
pub open spec fn hex_upper(n: u8) -> char {
    if n < 10 {
        (48 + n) as char
    } else {
        (55 + n) as char
    }
}

/// The serialization of one byte: itself, `+` for a space, else `%XX`.
pub open spec fn form_encode_byte(b: u8) -> Seq<char> {
    if form_byte_unchanged(b) {
        seq![b as char]
    } else if b == 32 {
        seq!['+']
    } else {
        seq!['%', hex_upper(b / 16), hex_upper(b % 16)]
    }
}

/// The `application/x-www-form-urlencoded` byte serialization of `bytes`.
pub open spec fn form_encode(bytes: Seq<u8>) -> Seq<char>
    decreases bytes.len(),
{
    if bytes.len() == 0 {
        Seq::empty()
    } else {
        form_encode_byte(bytes[0]) + form_encode(bytes.drop_first())
    }
}

/// The percent-encoding of a text's UTF-8 bytes, as `url_encode` produces it.
pub open spec fn url_encoded(s: Seq<char>) -> Seq<char> {
    form_encode(vstd::utf8::encode_utf8(s))
}

/// The (name, value) pairs that `form_urlencoded::parse` yields for a text.
pub uninterp spec fn form_urlencoded_pairs(input: Seq<char>) -> Seq<(Seq<char>, Seq<char>)>;

/// The unpadded URL-safe Base64 text of some bytes.
pub uninterp spec fn base64_url_encoded(bytes: Seq<u8>) -> Seq<char>;

/// The bytes that unpadded URL-safe Base64 text decodes to, if it is valid.
pub uninterp spec fn base64_url_decoded(text: Seq<char>) -> Option<Seq<u8>>;

/// The SHA-256 digest of some bytes.
pub uninterp spec fn sha256_of(bytes: Seq<u8>) -> Seq<u8>;

/// The number of tokens that the `cl100k_base` encoding gives a text, or
/// nothing when its regex engine gives up on the text.
pub uninterp spec fn cl100k_token_count(text: Seq<char>) -> Option<nat>;

/// The number of tokens that the `o200k_base` encoding gives a text, or
/// nothing when its regex engine gives up on the text.
pub uninterp spec fn o200k_token_count(text: Seq<char>) -> Option<nat>;

/// A character of the URL-safe Base64 alphabet: `A-Z`, `a-z`, `0-9`, `-`, `_`.
pub open spec fn is_base64_url_char(c: char) -> bool {
    ('A' <= c && c <= 'Z') || ('a' <= c && c <= 'z') || ('0' <= c && c <= '9') || c == '-' || c
        == '_'
}

/// The text that `String::from_utf8_lossy` makes of some bytes.
pub uninterp spec fn utf8_lossy_text(bytes: Seq<u8>) -> Seq<char>;

/// The view of a sequence of string pairs.
pub open spec fn pair_views(v: Seq<(String, String)>) -> Seq<(Seq<char>, Seq<char>)> {
    v.map_values(|p: (String, String)| (p.0@, p.1@))
}

/// The view of an optional byte vector.
pub open spec fn opt_bytes(o: Option<Vec<u8>>) -> Option<Seq<u8>> {
    match o {
        Some(v) => Some(v@),
        None => None,
    }
}

/// Builds a string from characters (std's `FromIterator<&char>` for `String`);
/// the contract claims the string holds exactly those characters.
#[verifier::external_body]
pub(crate) fn string_from_chars(v: &[char]) -> (r: String)
    ensures
        r@ == v@,
{
    v.iter().collect::<String>()
}

/// Calls `url::form_urlencoded::byte_serialize` on the UTF-8 bytes of a text and
/// joins the pieces; the contract claims the result is `form_encode` of those
/// bytes, which is what the crate's source does byte by byte (`*-._`, digits and
/// ASCII letters unchanged, space as `+`, every other byte as upper-case `%XX`).
#[verifier::external_body]
pub(crate) fn url_encode(value: &str) -> (r: String)
    ensures
        r@ == url_encoded(value@),
{
    url::form_urlencoded::byte_serialize(value.as_bytes()).collect::<String>()
}

/// Calls `url::form_urlencoded::parse` on the bytes of a text and collects the
/// owned pairs; the contract claims they are the pairs that the crate yields for
/// that text, a function of the text alone.
#[verifier::external_body]
pub(crate) fn form_parse(input: &str) -> (r: Vec<(String, String)>)
    ensures
        pair_views(r@) == form_urlencoded_pairs(input@),
{
    url::form_urlencoded::parse(input.as_bytes()).into_owned().collect()
}

/// Calls base64's `URL_SAFE_NO_PAD.encode`; the contract claims the result is the
/// encoding of the given bytes, a function of them alone, that it is
/// `ceil(4n/3)` characters long for `n` bytes (`encoded_len` without padding:
/// four per whole 3-byte chunk, two or three for a rest of one or two), and that
/// every character is of the URL-safe alphabet. The length bound rules out the
/// overflow on which `encode` panics.
#[verifier::external_body]
pub(crate) fn base64_url_encode(bytes: &[u8]) -> (r: String)
    requires
        bytes@.len() <= usize::MAX / 2,
    ensures
        r@ == base64_url_encoded(bytes@),
        r@.len() == (4 * bytes@.len() + 2) / 3,
        forall|i: int| 0 <= i < r@.len() ==> is_base64_url_char(#[trigger] r@[i]),
{
    base64::engine::general_purpose::URL_SAFE_NO_PAD.encode(bytes)
}

/// Calls base64's `URL_SAFE_NO_PAD.decode`, mapping its error to `None`; the
/// contract claims the result is the decoding of the given text, a function of
/// it alone.
#[verifier::external_body]
pub(crate) fn base64_url_decode(text: &str) -> (r: Option<Vec<u8>>)
    ensures
        opt_bytes(r) == base64_url_decoded(text@),
{
    base64::engine::general_purpose::URL_SAFE_NO_PAD.decode(text).ok()
}

/// Calls sha2's `Sha256::digest`; the contract claims the result is the digest of
/// the given bytes and is 32 bytes long, as the algorithm's output size says.
#[verifier::external_body]
pub(crate) fn sha256_digest(bytes: &[u8]) -> (r: Vec<u8>)
    ensures
        r@ == sha256_of(bytes@),
        r@.len() == 32,
{
    sha2::Sha256::digest(bytes).to_vec()
}

/// Fills a buffer of `len` bytes with `rand::rng().fill_bytes`; the contract
/// claims only the length: the bytes are random.
#[verifier::external_body]
pub(crate) fn random_bytes(len: usize) -> (r: Vec<u8>)
    ensures
        r@.len() == len,
{
    let mut bytes = vec![0u8; len];
    rand::rng().fill_bytes(&mut bytes);
    bytes
}

/// Counts the tokens of a text with tiktoken-rs's `cl100k_base_singleton` and
/// `encode` with no special token allowed, which encodes the whole text as
/// ordinary text; a regex error of the tokenizer comes back as `None` in place
/// of the panic `encode_ordinary` would raise. The contract claims the result is
/// a function of the text alone. (`encode` also unwraps its search for special
/// tokens; that regex is a plain alternation of literals, which fancy-regex runs
/// on the wrapped `regex` engine, whose search does not fail.)
#[verifier::external_body]
pub(crate) fn cl100k_count(text: &str) -> (r: Option<usize>)
    ensures
        match r {
            Some(n) => cl100k_token_count(text@) == Some(n as nat),
            None => cl100k_token_count(text@) is None,
        },
{
    let none: std::collections::HashSet<&str> = std::collections::HashSet::new();
    tiktoken_rs::cl100k_base_singleton().encode(text, &none).ok().map(|t| t.0.len())
}

/// Counts the tokens of a text with tiktoken-rs's `o200k_base_singleton`, as
/// `cl100k_count` does with `cl100k_base`.
#[verifier::external_body]
pub(crate) fn o200k_count(text: &str) -> (r: Option<usize>)
    ensures
        match r {
            Some(n) => o200k_token_count(text@) == Some(n as nat),
            None => o200k_token_count(text@) is None,
        },
{
    let none: std::collections::HashSet<&str> = std::collections::HashSet::new();
    tiktoken_rs::o200k_base_singleton().encode(text, &none).ok().map(|t| t.0.len())
}

/// Calls std's `String::from_utf8_lossy`; the contract claims the text is a
/// function of the bytes alone and is their decoding when they are valid UTF-8.
#[verifier::external_body]
pub(crate) fn utf8_lossy(bytes: &[u8]) -> (r: String)
    ensures
        r@ == utf8_lossy_text(bytes@),
        vstd::utf8::valid_utf8(bytes@) ==> r@ == vstd::utf8::decode_utf8(bytes@),
{
    String::from_utf8_lossy(bytes).into_owned()
}

/// The text of the URL that `url::Url::parse(base)` gives once its path and query
/// are replaced, if `base` parses.
pub uninterp spec fn url_with_path_and_query(
    base: Seq<char>,
    path: Seq<char>,
    query: Option<Seq<char>>,
) -> Option<Seq<char>>;

/// The text of the URL `url` with a `key=value` pair appended to its query, if
/// `url` parses.
pub uninterp spec fn url_with_pair(url: Seq<char>, key: Seq<char>, value: Seq<char>) -> Option<
    Seq<char>,
>;

/// The view of an optional string slice.
pub open spec fn opt_str_view(o: Option<&str>) -> Option<Seq<char>> {
    match o {
        Some(s) => Some(s@),
        None => None,
    }
}

/// The view of an optional string.
pub open spec fn opt_string_view(o: Option<String>) -> Option<Seq<char>> {
    match o {
        Some(s) => Some(s@),
        None => None,
    }
}

/// Parses `base` with `url::Url::parse`, replaces its path with `set_path` and
/// its query with `set_query`, and renders it; the contract claims the result is
/// a function of the three arguments alone.
#[verifier::external_body]
pub(crate) fn url_set_path_and_query(base: &str, path: &str, query: Option<&str>) -> (r: Option<
    String,
>)
    ensures
        opt_string_view(r) == url_with_path_and_query(base@, path@, opt_str_view(query)),
{
    let mut url = url::Url::parse(base).ok()?;
    url.set_path(path);
    url.set_query(query);
    Some(url.to_string())
}

/// Parses `url` with `url::Url::parse`, appends `key=value` with
/// `query_pairs_mut().append_pair`, and renders it; the contract claims the result
/// is a function of the three arguments alone.
#[verifier::external_body]
pub(crate) fn url_append_pair(url: &str, key: &str, value: &str) -> (r: Option<String>)
    ensures
        opt_string_view(r) == url_with_pair(url@, key@, value@),
{
    let mut parsed = url::Url::parse(url).ok()?;
    parsed.query_pairs_mut().append_pair(key, value);
    Some(parsed.to_string())
}

} // verus!
