//! OAuth 2 with PKCE for both channels: starting a flow, reading the code back
//! from what the user pastes, token requests and their answers, and the
//! profile and usage data that come with a credential.
use vstd::prelude::*;
use crate::config::{
    clone_opt_string, DEFAULT_ANTHROPIC_VERSION, DEFAULT_REQUIRED_BETA, ChannelKind, CodexUsageSnapshot, CodexUsageWindow, CredentialConfig, StoredOAuthState, CLAUDE_CODE_OAUTH_CLIENT_ID, CLAUDE_CODE_OAUTH_SCOPE,
    CODEX_OAUTH_CLIENT_ID, DEFAULT_CLAUDE_AI_BASE_URL, DEFAULT_CODEX_BASE_URL,
    DEFAULT_CODEX_ISSUER, DEFAULT_CODEX_ORIGINATOR, DEFAULT_CODEX_REDIRECT_URI,
    DEFAULT_CODEX_SCOPE, DEFAULT_REDIRECT_URI,
};
use crate::json::{get_str, get_string, json_str, opt_get, opt_get_str, JsonValue};
use crate::primitives::{
    base64_url_decode, base64_url_decoded, base64_url_encode, form_byte_unchanged, form_encode, base64_url_encoded, form_parse, form_urlencoded_pairs, is_base64_url_char,
    opt_bytes, pair_views, random_bytes, sha256_digest, sha256_of, url_encode, url_encoded, utf8_lossy,
    utf8_lossy_text,
};
use crate::text::{
    after_char, before_char, decimal, decimal_string, before_char_len, chars_of, clean, clean_opt, contains_char,
    contains_chars, contains_seq, ends_with, find, find_in, has_prefix, has_suffix, has_whitespace, index_of,
    index_of_char, is_ws, lemma_find_from_range, lemma_index_of_from_range, lower_seq, opt_view,
    starts_with_lower, str_equal, strip_leading, strip_leading_start, strip_trailing,
    strip_trailing_len, sub_string, trim, trim_str, trimmed_string,
};

verus! {

/// Options of an OAuth start; each may be left out for the default.
#[derive(Debug, PartialEq)]
pub struct OAuthStartInput {
    pub redirect_uri: Option<String>,
    pub scope: Option<String>,
    pub issuer: Option<String>,
    pub originator: Option<String>,
}

/// What the user hands back after authorizing: a callback URL, a code, a state.
#[derive(Debug, PartialEq)]
pub struct OAuthCallbackInput {
    pub callback_url: Option<String>,
    pub code: Option<String>,
    pub state: Option<String>,
}

/// What an OAuth start answers the admin with.
#[derive(Debug, PartialEq)]
pub struct OAuthStartResponse {
    pub auth_url: String,
    pub state: String,
    pub redirect_uri: String,
}

/// An OAuth start: the answer, and the state kept for the callback.
#[derive(Debug, PartialEq)]
pub struct OAuthStartState {
    pub response: OAuthStartResponse,
    pub stored_state: StoredOAuthState,
}

/// Fresh tokens and what came with them.
#[derive(Debug, PartialEq)]
pub struct RefreshedCredential {
    pub access_token: String,
    pub refresh_token: String,
    pub expires_at_unix_ms: u64,
    pub user_email: Option<String>,
    pub account_id: Option<String>,
    pub subscription_type: Option<String>,
    pub rate_limit_tier: Option<String>,
}

/// Why a refresh failed: the credential is unusable, or it may work later.
#[derive(Debug, PartialEq)]
pub enum RefreshError {
    InvalidCredential(String),
    Transient(String),
}

/// Account data of a credential.
#[derive(Debug, PartialEq)]
pub struct OAuthProfileParsed {
    pub email: Option<String>,
    pub account_id: Option<String>,
    pub subscription_type: Option<String>,
    pub rate_limit_tier: Option<String>,
    pub organization_uuid: Option<String>,
}

/// The answer of Anthropic's token endpoint.
#[derive(Debug, PartialEq)]
pub struct ClaudeTokenResponse {
    pub access_token: Option<String>,
    pub refresh_token: Option<String>,
    pub expires_in: Option<u64>,
    pub subscription_type: Option<String>,
    pub rate_limit_tier: Option<String>,
    pub error: Option<String>,
    pub error_description: Option<String>,
    pub organization_uuid: Option<String>,
}

/// Why the code of a callback could not be found.
#[derive(Debug, PartialEq, Eq, Structural)]
pub enum CallbackError {
    MissingCode,
}

impl CallbackError {
    /// The text of the error.
    pub fn message(&self) -> (r: String)
        ensures
            r@ == "missing code"@,
    {
        String::from_str("missing code")
    }
}

/// The value of an option, or a default.
pub open spec fn or_default(o: Option<Seq<char>>, d: Seq<char>) -> Seq<char> {
    match o {
        Some(s) => s,
        None => d,
    }
}

/// The PKCE challenge of a verifier: the URL-safe Base64 of its SHA-256.
pub open spec fn pkce_challenge(verifier: Seq<char>) -> Seq<char> {
    base64_url_encoded(sha256_of(vstd::utf8::encode_utf8(verifier)))
}

/// Some `n` bytes whose URL-safe Base64 text `s` is.
pub open spec fn is_random_token(s: Seq<char>, n: nat) -> bool {
    exists|b: Seq<u8>| b.len() == n && s == #[trigger] base64_url_encoded(b)
}

/// `key=value` with the value percent-encoded.
pub open spec fn query_pair(key: Seq<char>, value: Seq<char>) -> Seq<char> {
    key + "="@ + url_encoded(value)
}

/// The ClaudeCode authorize URL for a redirect URI, scope, PKCE challenge and state.
pub open spec fn claude_authorize_url(
    redirect_uri: Seq<char>,
    scope: Seq<char>,
    challenge: Seq<char>,
    state: Seq<char>,
) -> Seq<char> {
    strip_trailing(DEFAULT_CLAUDE_AI_BASE_URL@, '/') + "/oauth/authorize?"@ + query_pair(
        "code"@,
        "true"@,
    ) + "&"@ + query_pair("client_id"@, CLAUDE_CODE_OAUTH_CLIENT_ID@) + "&"@ + query_pair(
        "response_type"@,
        "code"@,
    ) + "&"@ + query_pair("redirect_uri"@, redirect_uri) + "&"@ + query_pair("scope"@, scope)
        + "&"@ + query_pair("code_challenge"@, challenge) + "&"@ + query_pair(
        "code_challenge_method"@,
        "S256"@,
    ) + "&"@ + query_pair("state"@, state)
}

/// The Codex authorize URL at an issuer.
pub open spec fn codex_authorize_url(
    issuer: Seq<char>,
    redirect_uri: Seq<char>,
    scope: Seq<char>,
    originator: Seq<char>,
    challenge: Seq<char>,
    state: Seq<char>,
) -> Seq<char> {
    strip_trailing(issuer, '/') + "/oauth/authorize?"@ + query_pair("response_type"@, "code"@)
        + "&"@ + query_pair("client_id"@, CODEX_OAUTH_CLIENT_ID@) + "&"@ + query_pair(
        "redirect_uri"@,
        redirect_uri,
    ) + "&"@ + query_pair("scope"@, scope) + "&"@ + query_pair("code_challenge"@, challenge)
        + "&"@ + query_pair("code_challenge_method"@, "S256"@) + "&"@ + query_pair(
        "id_token_add_organizations"@,
        "true"@,
    ) + "&"@ + query_pair("codex_cli_simplified_flow"@, "true"@) + "&"@ + query_pair(
        "state"@,
        state,
    ) + "&"@ + query_pair("originator"@, originator)
}

/// The trimmed text, or nothing when it is blank.
pub fn clean_opt_str(value: &str) -> (r: Option<String>)
    ensures
        opt_view(r) == clean(value@),
{
    let t = trim_str(value);
    if t.as_str().unicode_len() == 0 {
        None
    } else {
        Some(t)
    }
}

/// The trimmed text, or nothing when it is blank.
pub fn clean_string(value: String) -> (r: Option<String>)
    ensures
        opt_view(r) == clean(value@),
{
    clean_opt_str(value.as_str())
}

/// The trimmed text of an option, or nothing when it is missing or blank.
pub fn clean_option(value: Option<String>) -> (r: Option<String>)
    ensures
        opt_view(r) == clean_opt(value),
{
    match value {
        Some(v) => clean_string(v),
        None => None,
    }
}

/// The trimmed text of an option, or `default` when it is missing or blank.
fn clean_or(value: Option<String>, default: &str) -> (r: String)
    ensures
        r@ == or_default(clean_opt(value), default@),
{
    match clean_option(value) {
        Some(v) => v,
        None => String::from_str(default),
    }
}

/// A fresh OAuth state: 24 random bytes in URL-safe Base64.
fn generate_oauth_state() -> (r: String)
    ensures
        is_random_token(r@, 24),
        r@.len() == 32,
        forall|i: int| 0 <= i < r@.len() ==> is_base64_url_char(#[trigger] r@[i]),
{
    let bytes = random_bytes(24);
    let r = base64_url_encode(bytes.as_slice());
    assert(r@ == base64_url_encoded(bytes@));
    r
}

/// A fresh PKCE verifier: `len` random bytes in URL-safe Base64.
fn generate_code_verifier(len: usize) -> (r: String)
    requires
        len <= 64,
    ensures
        is_random_token(r@, len as nat),
        r@.len() == (4 * len + 2) / 3,
        forall|i: int| 0 <= i < r@.len() ==> is_base64_url_char(#[trigger] r@[i]),
{
    let bytes = random_bytes(len);
    let r = base64_url_encode(bytes.as_slice());
    assert(r@ == base64_url_encoded(bytes@));
    r
}

/// The PKCE challenge of a verifier.
fn generate_code_challenge(code_verifier: &str) -> (r: String)
    ensures
        r@ == pkce_challenge(code_verifier@),
        r@.len() == 43,
        forall|i: int| 0 <= i < r@.len() ==> is_base64_url_char(#[trigger] r@[i]),
{
    let digest = sha256_digest(code_verifier.as_bytes());
    base64_url_encode(digest.as_slice())
}

/// Appends `key=value` with the value percent-encoded.
fn push_pair(out: &mut String, key: &str, value: &str)
    ensures
        final(out)@ == old(out)@ + query_pair(key@, value@),
{
    out.append(key);
    out.append("=");
    let enc = url_encode(value);
    out.append(enc.as_str());
}

/// Appends `&key=value` with the value percent-encoded.
fn push_next_pair(out: &mut String, key: &str, value: &str)
    ensures
        final(out)@ == old(out)@ + "&"@ + query_pair(key@, value@),
{
    out.append("&");
    push_pair(out, key, value);
}

/// `base` without its trailing slashes.
fn without_trailing_slashes(base: &str) -> (r: String)
    ensures
        r@ == strip_trailing(base@, '/'),
{
    let v = chars_of(base);
    let end = strip_trailing_len(v.as_slice(), '/');
    sub_string(v.as_slice(), 0, end)
}

/// The ClaudeCode authorize URL.
fn build_claude_authorize_url(
    redirect_uri: &str,
    scope: &str,
    code_challenge: &str,
    state: &str,
) -> (r: String)
    ensures
        r@ == claude_authorize_url(redirect_uri@, scope@, code_challenge@, state@),
{
    let mut url = without_trailing_slashes(DEFAULT_CLAUDE_AI_BASE_URL);
    url.append("/oauth/authorize?");
    push_pair(&mut url, "code", "true");
    push_next_pair(&mut url, "client_id", CLAUDE_CODE_OAUTH_CLIENT_ID);
    push_next_pair(&mut url, "response_type", "code");
    push_next_pair(&mut url, "redirect_uri", redirect_uri);
    push_next_pair(&mut url, "scope", scope);
    push_next_pair(&mut url, "code_challenge", code_challenge);
    push_next_pair(&mut url, "code_challenge_method", "S256");
    push_next_pair(&mut url, "state", state);
    url
}

/// The Codex authorize URL.
fn build_codex_authorize_url(
    issuer: &str,
    redirect_uri: &str,
    scope: &str,
    originator: &str,
    code_challenge: &str,
    state: &str,
) -> (r: String)
    ensures
        r@ == codex_authorize_url(
            issuer@,
            redirect_uri@,
            scope@,
            originator@,
            code_challenge@,
            state@,
        ),
{
    let mut url = without_trailing_slashes(issuer);
    url.append("/oauth/authorize?");
    push_pair(&mut url, "response_type", "code");
    push_next_pair(&mut url, "client_id", CODEX_OAUTH_CLIENT_ID);
    push_next_pair(&mut url, "redirect_uri", redirect_uri);
    push_next_pair(&mut url, "scope", scope);
    push_next_pair(&mut url, "code_challenge", code_challenge);
    push_next_pair(&mut url, "code_challenge_method", "S256");
    push_next_pair(&mut url, "id_token_add_organizations", "true");
    push_next_pair(&mut url, "codex_cli_simplified_flow", "true");
    push_next_pair(&mut url, "state", state);
    push_next_pair(&mut url, "originator", originator);
    url
}

/// Form encoding keeps bytes that it leaves unchanged one by one.
proof fn lemma_form_encode_plain(b: Seq<u8>)
    requires
        forall|i: int| 0 <= i < b.len() ==> form_byte_unchanged(#[trigger] b[i]),
    ensures
        form_encode(b) == b.map_values(|x: u8| x as char),
    decreases b.len(),
{
    if b.len() > 0 {
        lemma_form_encode_plain(b.drop_first());
        assert(b.drop_first().map_values(|x: u8| x as char) =~= b.map_values(|x: u8| x as char).drop_first());
        assert(seq![b[0] as char] + b.map_values(|x: u8| x as char).drop_first() =~= b.map_values(
            |x: u8| x as char,
        ));
    } else {
        assert(b.map_values(|x: u8| x as char) =~= Seq::<char>::empty());
    }
}

/// Percent-encoding leaves a text of the URL-safe Base64 alphabet as it is.
pub proof fn lemma_url_encoded_base64(s: Seq<char>)
    requires
        forall|i: int| 0 <= i < s.len() ==> is_base64_url_char(#[trigger] s[i]),
    ensures
        url_encoded(s) == s,
{
    broadcast use vstd::utf8::is_ascii_chars_encode_utf8;
    assert(vstd::utf8::is_ascii_chars(s)) by {
        assert forall|i: int| 0 <= i < s.len() implies '\0' <= #[trigger] s[i] <= '\u{7f}' by {
            assert(is_base64_url_char(s[i]));
        }
    }
    let e = vstd::utf8::encode_utf8(s);
    assert(e.len() == s.len());
    assert forall|i: int| 0 <= i < e.len() implies form_byte_unchanged(#[trigger] e[i]) by {
        assert(s[i] as u8 == e[i]);
        assert(is_base64_url_char(s[i]));
    }
    lemma_form_encode_plain(e);
    assert forall|i: int| 0 <= i < s.len() implies (e[i] as char) == s[i] by {
        assert(s[i] as u8 == e[i]);
        assert(is_base64_url_char(s[i]));
    }
    assert(e.map_values(|x: u8| x as char) =~= s);
}

/// Starts a ClaudeCode OAuth flow at time `now`: a fresh state and PKCE verifier, and the
/// authorize URL that carries them.
pub fn oauth_start_claudecode(input: OAuthStartInput, now: u64) -> (r: OAuthStartState)
    ensures
        url_encoded(r.response.state@) == r.response.state@,
        pkce_challenge(r.stored_state.code_verifier@).len() == 43,
        forall|i: int|
            0 <= i < pkce_challenge(r.stored_state.code_verifier@).len() ==> is_base64_url_char(
                #[trigger] pkce_challenge(r.stored_state.code_verifier@)[i],
            ),
        url_encoded(pkce_challenge(r.stored_state.code_verifier@)) == pkce_challenge(
            r.stored_state.code_verifier@,
        ),
        r.stored_state.created_at_unix_ms == now,
        r.response.state@.len() == 32,
        r.stored_state.code_verifier@.len() == 43,
        forall|i: int|
            0 <= i < r.response.state@.len() ==> is_base64_url_char(#[trigger] r.response.state@[i]),
        forall|i: int|
            0 <= i < r.stored_state.code_verifier@.len() ==> is_base64_url_char(
                #[trigger] r.stored_state.code_verifier@[i],
            ),
        r.response.redirect_uri@ == or_default(
            clean_opt(input.redirect_uri),
            DEFAULT_REDIRECT_URI@,
        ),
        r.response.auth_url@ == claude_authorize_url(
            r.response.redirect_uri@,
            or_default(clean_opt(input.scope), CLAUDE_CODE_OAUTH_SCOPE@),
            pkce_challenge(r.stored_state.code_verifier@),
            r.response.state@,
        ),
        is_random_token(r.response.state@, 24),
        is_random_token(r.stored_state.code_verifier@, 32),
        r.stored_state.state_id == r.response.state,
        r.stored_state.redirect_uri == r.response.redirect_uri,
        r.stored_state.channel == ChannelKind::ClaudeCode,
        r.stored_state.oauth_issuer is None,
{
    let redirect_uri = clean_or(input.redirect_uri, DEFAULT_REDIRECT_URI);
    let scope = clean_or(input.scope, CLAUDE_CODE_OAUTH_SCOPE);
    let state_id = generate_oauth_state();
    let code_verifier = generate_code_verifier(32);
    let code_challenge = generate_code_challenge(code_verifier.as_str());
    proof {
        lemma_url_encoded_base64(state_id@);
        lemma_url_encoded_base64(code_challenge@);
    }
    let auth_url = build_claude_authorize_url(
        redirect_uri.as_str(),
        scope.as_str(),
        code_challenge.as_str(),
        state_id.as_str(),
    );
    OAuthStartState {
        response: OAuthStartResponse {
            auth_url,
            state: state_id.clone(),
            redirect_uri: redirect_uri.clone(),
        },
        stored_state: StoredOAuthState {
            channel: ChannelKind::ClaudeCode,
            state_id,
            code_verifier,
            redirect_uri,
            oauth_issuer: None,
            created_at_unix_ms: now,
        },
    }
}

/// Starts a Codex OAuth flow at the chosen issuer at time `now`.
pub fn oauth_start_codex(input: OAuthStartInput, now: u64) -> (r: OAuthStartState)
    ensures
        url_encoded(r.response.state@) == r.response.state@,
        pkce_challenge(r.stored_state.code_verifier@).len() == 43,
        forall|i: int|
            0 <= i < pkce_challenge(r.stored_state.code_verifier@).len() ==> is_base64_url_char(
                #[trigger] pkce_challenge(r.stored_state.code_verifier@)[i],
            ),
        url_encoded(pkce_challenge(r.stored_state.code_verifier@)) == pkce_challenge(
            r.stored_state.code_verifier@,
        ),
        r.stored_state.created_at_unix_ms == now,
        r.response.state@.len() == 32,
        r.stored_state.code_verifier@.len() == 86,
        forall|i: int|
            0 <= i < r.response.state@.len() ==> is_base64_url_char(#[trigger] r.response.state@[i]),
        forall|i: int|
            0 <= i < r.stored_state.code_verifier@.len() ==> is_base64_url_char(
                #[trigger] r.stored_state.code_verifier@[i],
            ),
        r.response.redirect_uri@ == or_default(
            clean_opt(input.redirect_uri),
            DEFAULT_CODEX_REDIRECT_URI@,
        ),
        r.stored_state.oauth_issuer matches Some(issuer) && issuer@ == or_default(
            clean_opt(input.issuer),
            DEFAULT_CODEX_ISSUER@,
        ),
        r.response.auth_url@ == codex_authorize_url(
            or_default(clean_opt(input.issuer), DEFAULT_CODEX_ISSUER@),
            r.response.redirect_uri@,
            or_default(clean_opt(input.scope), DEFAULT_CODEX_SCOPE@),
            or_default(clean_opt(input.originator), DEFAULT_CODEX_ORIGINATOR@),
            pkce_challenge(r.stored_state.code_verifier@),
            r.response.state@,
        ),
        is_random_token(r.response.state@, 24),
        is_random_token(r.stored_state.code_verifier@, 64),
        r.stored_state.state_id == r.response.state,
        r.stored_state.redirect_uri == r.response.redirect_uri,
        r.stored_state.channel == ChannelKind::Codex,
{
    let redirect_uri = clean_or(input.redirect_uri, DEFAULT_CODEX_REDIRECT_URI);
    let scope = clean_or(input.scope, DEFAULT_CODEX_SCOPE);
    let issuer = clean_or(input.issuer, DEFAULT_CODEX_ISSUER);
    let originator = clean_or(input.originator, DEFAULT_CODEX_ORIGINATOR);
    let state_id = generate_oauth_state();
    let code_verifier = generate_code_verifier(64);
    let code_challenge = generate_code_challenge(code_verifier.as_str());
    proof {
        lemma_url_encoded_base64(state_id@);
        lemma_url_encoded_base64(code_challenge@);
    }
    let auth_url = build_codex_authorize_url(
        issuer.as_str(),
        redirect_uri.as_str(),
        scope.as_str(),
        originator.as_str(),
        code_challenge.as_str(),
        state_id.as_str(),
    );
    OAuthStartState {
        response: OAuthStartResponse {
            auth_url,
            state: state_id.clone(),
            redirect_uri: redirect_uri.clone(),
        },
        stored_state: StoredOAuthState {
            channel: ChannelKind::Codex,
            state_id,
            code_verifier,
            redirect_uri,
            oauth_issuer: Some(issuer),
            created_at_unix_ms: now,
        },
    }
}

/// The Codex backend base URL.
pub fn codex_base_url() -> (r: &'static str)
    ensures
        r@ == DEFAULT_CODEX_BASE_URL@,
{
    DEFAULT_CODEX_BASE_URL
}

/// The value of the first pair named `key`.
pub open spec fn first_value(pairs: Seq<(Seq<char>, Seq<char>)>, key: Seq<char>) -> Option<
    Seq<char>,
>
    decreases pairs.len(),
{
    if pairs.len() == 0 {
        None
    } else if pairs[0].0 == key {
        Some(pairs[0].1)
    } else {
        first_value(pairs.drop_first(), key)
    }
}

/// A text percent-decoded as a form value, or left as it is when nothing parses.
pub open spec fn percent_decoded(value: Seq<char>) -> Seq<char> {
    let pairs = form_urlencoded_pairs("x="@ + value);
    if pairs.len() > 0 {
        pairs[0].1
    } else {
        value
    }
}

/// The query of a trimmed text: after its first `?` (or all of it), less leading `?`s.
pub open spec fn query_part(raw: Seq<char>) -> Seq<char> {
    let t = trim(raw);
    strip_leading(or_default(after_char(t, '?'), t), '?')
}

/// The form value named `key` in the query part of a text.
pub open spec fn query_value(raw: Option<Seq<char>>, key: Seq<char>) -> Option<Seq<char>> {
    match raw {
        None => None,
        Some(r) => first_value(form_urlencoded_pairs(query_part(r)), key),
    }
}

/// A character that ends a value written inline as `key=value`.
pub open spec fn is_value_stop(c: char) -> bool {
    c == '&' || c == '#' || c == '"' || c == '\'' || c == ' ' || c == '\n' || c == '\r' || c
        == '\t'
}

/// The first position at or after `i` of a character that ends an inline value.
pub open spec fn stop_from(s: Seq<char>, i: int) -> int
    decreases s.len() - i,
{
    if i < 0 || i >= s.len() {
        s.len() as int
    } else if is_value_stop(s[i]) {
        i
    } else {
        stop_from(s, i + 1)
    }
}

/// The value after the first `key=` in a text, up to the next stop character,
/// trimmed and percent-decoded; nothing when it is blank.
pub open spec fn inline_query_value(raw: Seq<char>, key: Seq<char>) -> Option<Seq<char>> {
    let needle = key + "="@;
    match find(raw, needle) {
        None => None,
        Some(i) => {
            let rest = raw.subrange(i + needle.len(), raw.len() as int);
            let value = trim(rest.subrange(0, stop_from(rest, 0)));
            if value.len() == 0 {
                None
            } else {
                Some(percent_decoded(value))
            }
        },
    }
}

/// `rest` after a prefix of length `n`, trimmed, when it is not blank.
pub open spec fn label_rest(t: Seq<char>, n: int) -> Seq<char> {
    trim(t.subrange(n, t.len() as int))
}

/// The value of a trimmed line that reads `key: value` or `key=value`, the key
/// in any ASCII case.
pub open spec fn labeled_in_line(t: Seq<char>, key: Seq<char>) -> Option<Seq<char>> {
    let p1 = key + ":"@;
    let p2 = key + "="@;
    if has_prefix(lower_seq(t), p1) && label_rest(t, p1.len() as int).len() > 0 {
        Some(label_rest(t, p1.len() as int))
    } else if has_prefix(lower_seq(t), p2) && label_rest(t, p2.len() as int).len() > 0 {
        Some(label_rest(t, p2.len() as int))
    } else {
        None
    }
}

/// The value of the first line of a text that labels one with `key`.
pub open spec fn labeled_value(s: Seq<char>, key: Seq<char>) -> Option<Seq<char>>
    decreases s.len(),
{
    let t = trim(before_char(s, '\n'));
    let here = if t.len() == 0 {
        None
    } else {
        labeled_in_line(t, key)
    };
    if here is Some {
        here
    } else {
        match index_of(s, '\n') {
            Some(i) => if 0 <= i < s.len() {
                labeled_value(s.subrange(i + 1, s.len() as int), key)
            } else {
                None
            },
            None => None,
        }
    }
}

/// A text that looks like a URL or a query rather than a bare code.
pub open spec fn looks_structured(t: Seq<char>) -> bool {
    ||| contains_seq(t, "://"@)
    ||| index_of(t, '?') is Some
    ||| index_of(t, '&') is Some
    ||| contains_seq(t, "code="@)
    ||| contains_seq(t, "state="@)
}

/// The code of a pasted text: a `code:` line, else the whole text when it is one
/// bare word.
pub open spec fn manual_code(raw: Seq<char>) -> Option<Seq<char>> {
    match labeled_value(raw, "code"@) {
        Some(c) => Some(c),
        None => {
            let t = trim(raw);
            if t.len() == 0 || looks_structured(t) || (exists|i: int|
                0 <= i < t.len() && is_ws(#[trigger] t[i])) {
                None
            } else {
                Some(t)
            }
        },
    }
}

/// The value named `key` in a pasted callback: from the query, the fragment, an
/// inline `key=`, or the same once the text is percent-decoded.
pub open spec fn value_from_text(raw: Seq<char>, key: Seq<char>) -> Option<Seq<char>> {
    match query_value(Some(raw), key) {
        Some(v) => Some(v),
        None => match query_value(after_char(raw, '#'), key) {
            Some(v) => Some(v),
            None => match inline_query_value(raw, key) {
                Some(v) => Some(v),
                None => {
                    let decoded = percent_decoded(raw);
                    if decoded == raw {
                        None
                    } else {
                        match query_value(Some(decoded), key) {
                            Some(v) => Some(v),
                            None => inline_query_value(decoded, key),
                        }
                    }
                },
            },
        },
    }
}

/// The code of a callback: the one given, else the callback URL's, else a bare
/// code pasted as the URL.
pub open spec fn resolved_code(p: OAuthCallbackInput) -> Option<Seq<char>> {
    let code = clean_opt(p.code);
    match clean_opt(p.callback_url) {
        None => code,
        Some(url) => if code is Some {
            code
        } else {
            match value_from_text(url, "code"@) {
                Some(c) => Some(c),
                None => manual_code(url),
            }
        },
    }
}

/// The state of a callback: the one given, else the callback URL's.
pub open spec fn resolved_state(p: OAuthCallbackInput) -> Option<Seq<char>> {
    let state = clean_opt(p.state);
    match clean_opt(p.callback_url) {
        None => state,
        Some(url) => if state is Some {
            state
        } else {
            value_from_text(url, "state"@)
        },
    }
}

/// An authorization code with any fragment and extra parameters cut off.
pub open spec fn sanitized_code(code: Seq<char>) -> Seq<char> {
    trim(before_char(before_char(code, '#'), '&'))
}

/// The text `x=` followed by `value`.
fn form_probe(value: &str) -> (r: String)
    ensures
        r@ == "x="@ + value@,
{
    let mut probe = String::from_str("x=");
    probe.append(value);
    probe
}

/// Percent-decodes a text as a form value, keeping it when nothing parses.
fn percent_decode_lossy(value: &str) -> (r: String)
    ensures
        r@ == percent_decoded(value@),
{
    let probe = form_probe(value);
    let pairs = form_parse(probe.as_str());
    if pairs.len() > 0 {
        assert(pair_views(pairs@)[0] == (pairs@[0].0@, pairs@[0].1@));
        pairs[0].1.clone()
    } else {
        String::from_str(value)
    }
}

/// Skipping pairs whose name is not `key` keeps the first value named `key`.
proof fn lemma_first_value_skip(pairs: Seq<(Seq<char>, Seq<char>)>, key: Seq<char>, i: int)
    requires
        0 <= i <= pairs.len(),
        forall|j: int| 0 <= j < i ==> (#[trigger] pairs[j]).0 != key,
    ensures
        first_value(pairs, key) == first_value(pairs.subrange(i, pairs.len() as int), key),
    decreases i,
{
    if i > 0 {
        lemma_first_value_skip(pairs, key, i - 1);
        let t = pairs.subrange(i - 1, pairs.len() as int);
        assert(t[0] == pairs[i - 1]);
        assert(t.drop_first() =~= pairs.subrange(i, pairs.len() as int));
    } else {
        assert(pairs.subrange(0, pairs.len() as int) =~= pairs);
    }
}

/// The value of the first pair named `key`.
fn find_pair_value(pairs: &Vec<(String, String)>, key: &str) -> (r: Option<String>)
    ensures
        opt_view(r) == first_value(pair_views(pairs@), key@),
{
    let ghost pv = pair_views(pairs@);
    let n = pairs.len();
    let mut i: usize = 0;
    while i < n
        invariant
            n == pairs@.len(),
            pv == pair_views(pairs@),
            i <= n,
            forall|j: int| 0 <= j < i ==> (#[trigger] pv[j]).0 != key@,
        decreases n - i,
    {
        assert(pv[i as int] == (pairs@[i as int].0@, pairs@[i as int].1@));
        if str_equal(pairs[i].0.as_str(), key) {
            proof {
                lemma_first_value_skip(pv, key@, i as int);
            }
            return Some(pairs[i].1.clone());
        }
        i = i + 1;
    }
    proof {
        lemma_first_value_skip(pv, key@, n as int);
    }
    None
}

/// The query part of a text.
fn query_of(raw: &str) -> (r: String)
    ensures
        r@ == query_part(raw@),
{
    let t = trim_str(raw);
    let v = chars_of(t.as_str());
    proof {
        lemma_index_of_from_range(v@, '?', 0);
    }
    let after = match index_of_char(v.as_slice(), '?') {
        Some(i) => sub_string(v.as_slice(), i + 1, v.len()),
        None => sub_string(v.as_slice(), 0, v.len()),
    };
    assert(v@.subrange(0, v@.len() as int) =~= v@);
    let w = chars_of(after.as_str());
    let start = strip_leading_start(w.as_slice(), '?');
    sub_string(w.as_slice(), start, w.len())
}

/// The form value named `key` in the query part of a text.
fn parse_query_value(raw: Option<&str>, key: &str) -> (r: Option<String>)
    ensures
        opt_view(r) == query_value(
            match raw {
                Some(s) => Some(s@),
                None => None,
            },
            key@,
        ),
{
    match raw {
        None => None,
        Some(text) => {
            let q = query_of(text);
            let pairs = form_parse(q.as_str());
            find_pair_value(&pairs, key)
        },
    }
}

/// The first position at or after `i` of a stop character.
fn stop_index(s: &[char], i: usize) -> (r: usize)
    requires
        i <= s@.len(),
    ensures
        r as int == stop_from(s@, i as int),
        i <= r <= s@.len(),
{
    let n = s.len();
    let mut k = i;
    while k < n
        invariant
            n == s@.len(),
            i <= k <= n,
            stop_from(s@, i as int) == stop_from(s@, k as int),
        decreases n - k,
    {
        let c = s[k];
        if c == '&' || c == '#' || c == '"' || c == '\'' || c == ' ' || c == '\n' || c == '\r'
            || c == '\t' {
            return k;
        }
        k = k + 1;
    }
    k
}

/// The value written inline as `key=value` in a text.
pub fn extract_inline_query_value(raw: &str, key: &str) -> (r: Option<String>)
    ensures
        opt_view(r) == inline_query_value(raw@, key@),
{
    let mut needle = String::from_str(key);
    needle.append("=");
    let v = chars_of(raw);
    let nv = chars_of(needle.as_str());
    proof {
        lemma_find_from_range(v@, nv@, 0);
    }
    match find_in(v.as_slice(), nv.as_slice()) {
        None => None,
        Some(index) => {
            let start = index + nv.len();
            let rest = &v.as_slice()[start..v.len()];
            let end = stop_index(rest, 0);
            let value = trimmed_string(&rest[0..end]);
            if value.as_str().unicode_len() == 0 {
                None
            } else {
                Some(percent_decode_lossy(value.as_str()))
            }
        },
    }
}

/// The rest of a line after a prefix, trimmed.
fn rest_after(t: &[char], n: usize) -> (r: String)
    requires
        n <= t@.len(),
    ensures
        r@ == label_rest(t@, n as int),
{
    trimmed_string(&t[n..t.len()])
}

/// The value of a trimmed line that labels one with `key`.
fn labeled_line_value(t: &[char], key: &str) -> (r: Option<String>)
    ensures
        opt_view(r) == labeled_in_line(t@, key@),
{
    let mut p1 = String::from_str(key);
    p1.append(":");
    let mut p2 = String::from_str(key);
    p2.append("=");
    let c1 = chars_of(p1.as_str());
    let c2 = chars_of(p2.as_str());
    if starts_with_lower(t, c1.as_slice()) {
        assert(lower_seq(t@).len() == t@.len());
        let value = rest_after(t, c1.len());
        if value.as_str().unicode_len() > 0 {
            return Some(value);
        }
    }
    if starts_with_lower(t, c2.as_slice()) {
        assert(lower_seq(t@).len() == t@.len());
        let value = rest_after(t, c2.len());
        if value.as_str().unicode_len() > 0 {
            return Some(value);
        }
    }
    None
}

/// The value of the first line of `s` that labels one with `key`.
fn labeled_value_in(s: &[char], key: &str) -> (r: Option<String>)
    ensures
        opt_view(r) == labeled_value(s@, key@),
    decreases s@.len(),
{
    let end = before_char_len(s, '\n');
    let t = trimmed_string(&s[0..end]);
    let tv = chars_of(t.as_str());
    if tv.len() > 0 {
        let here = labeled_line_value(tv.as_slice(), key);
        if here.is_some() {
            return here;
        }
    }
    proof {
        lemma_index_of_from_range(s@, '\n', 0);
    }
    match index_of_char(s, '\n') {
        Some(i) => {
            let tail = &s[i + 1..s.len()];
            labeled_value_in(tail, key)
        },
        None => None,
    }
}

/// The value labeled with `key` on some line of a text.
pub fn extract_labeled_value(raw: &str, key: &str) -> (r: Option<String>)
    ensures
        opt_view(r) == labeled_value(raw@, key@),
{
    let v = chars_of(raw);
    labeled_value_in(v.as_slice(), key)
}

/// The code of a pasted text.
pub fn extract_manual_code(raw: &str) -> (r: Option<String>)
    ensures
        opt_view(r) == manual_code(raw@),
{
    if let Some(code) = extract_labeled_value(raw, "code") {
        return Some(code);
    }
    let trimmed = trim_str(raw);
    let t = chars_of(trimmed.as_str());
    if t.len() == 0 {
        return None;
    }
    let scheme = chars_of("://");
    let code_eq = chars_of("code=");
    let state_eq = chars_of("state=");
    let looks = contains_chars(t.as_slice(), scheme.as_slice()) || contains_char(
        t.as_slice(),
        '?',
    ) || contains_char(t.as_slice(), '&') || contains_chars(t.as_slice(), code_eq.as_slice())
        || contains_chars(t.as_slice(), state_eq.as_slice());
    if looks {
        return None;
    }
    if has_whitespace(t.as_slice()) {
        None
    } else {
        Some(trimmed)
    }
}

/// The value named `key` in a pasted callback.
fn extract_value_from_text(raw: &str, key: &str) -> (r: Option<String>)
    ensures
        opt_view(r) == value_from_text(raw@, key@),
{
    if let Some(v) = parse_query_value(Some(raw), key) {
        return Some(v);
    }
    let chars = chars_of(raw);
    proof {
        lemma_index_of_from_range(chars@, '#', 0);
    }
    let fragment = match index_of_char(chars.as_slice(), '#') {
        Some(i) => Some(sub_string(chars.as_slice(), i + 1, chars.len())),
        None => None,
    };
    let from_fragment = match &fragment {
        Some(f) => parse_query_value(Some(f.as_str()), key),
        None => parse_query_value(None, key),
    };
    if from_fragment.is_some() {
        return from_fragment;
    }
    if let Some(v) = extract_inline_query_value(raw, key) {
        return Some(v);
    }
    let decoded = percent_decode_lossy(raw);
    if str_equal(decoded.as_str(), raw) {
        None
    } else {
        match parse_query_value(Some(decoded.as_str()), key) {
            Some(v) => Some(v),
            None => extract_inline_query_value(decoded.as_str(), key),
        }
    }
}

/// The code and the state of an OAuth callback; the code is required.
pub fn resolve_code_and_state(payload: &OAuthCallbackInput) -> (r: Result<
    (String, Option<String>),
    CallbackError,
>)
    ensures
        r is Ok <==> resolved_code(*payload) is Some,
        r matches Ok((code, state)) ==> Some(code@) == resolved_code(*payload) && opt_view(state)
            == resolved_state(*payload),
        r matches Err(e) ==> e == CallbackError::MissingCode,
{
    let mut code = clean_option(clone_opt_string(&payload.code));
    let mut state = clean_option(clone_opt_string(&payload.state));
    if let Some(callback_url) = clean_option(clone_opt_string(&payload.callback_url)) {
        let callback_code = extract_value_from_text(callback_url.as_str(), "code");
        let callback_state = extract_value_from_text(callback_url.as_str(), "state");
        if code.is_none() {
            code = callback_code;
        }
        if state.is_none() {
            state = callback_state;
        }
        if code.is_none() {
            code = extract_manual_code(callback_url.as_str());
        }
    }
    match code {
        Some(c) => Ok((c, state)),
        None => Err(CallbackError::MissingCode),
    }
}

/// An authorization code with any fragment and extra parameters cut off.
pub fn sanitize_oauth_code(code: &str) -> (r: String)
    ensures
        r@ == sanitized_code(code@),
{
    let v = chars_of(code);
    let a = before_char_len(v.as_slice(), '#');
    let head = &v.as_slice()[0..a];
    let b = before_char_len(head, '&');
    trimmed_string(&head[0..b])
}

/// The answer of OpenAI's token endpoint.
#[derive(Debug, PartialEq)]
pub struct CodexTokenResponse {
    pub access_token: Option<String>,
    pub refresh_token: Option<String>,
    pub id_token: Option<String>,
    pub expires_in: Option<u64>,
    pub error: Option<JsonValue>,
    pub error_description: Option<String>,
}

/// What an OpenAI ID token says of its account.
#[derive(Debug, PartialEq)]
pub struct CodexIdTokenClaims {
    pub email: Option<String>,
    pub plan: Option<String>,
    pub account_id: Option<String>,
}

/// `a + b`, or the largest `u64` when that overflows.
pub open spec fn sat_add(a: u64, b: u64) -> u64 {
    if a + b > u64::MAX {
        u64::MAX
    } else {
        (a + b) as u64
    }
}

/// `a * b`, or the largest `u64` when that overflows.
pub open spec fn sat_mul(a: u64, b: u64) -> u64 {
    if a * b > u64::MAX {
        u64::MAX
    } else {
        (a * b) as u64
    }
}

/// When a token that lives `expires_in` seconds (an hour when unsaid) runs out.
pub open spec fn expiry_after(now: u64, expires_in: Option<u64>) -> u64 {
    sat_add(
        now,
        sat_mul(
            match expires_in {
                Some(e) => e,
                None => 3600,
            },
            1000,
        ),
    )
}

/// A status in the 2xx range.
pub open spec fn is_success_status(status: u16) -> bool {
    200 <= status && status <= 299
}

/// A status with which the token endpoint rejects the credential itself.
pub open spec fn is_rejection_status(status: u16) -> bool {
    status == 400 || status == 401 || status == 403
}

/// An access token that is set and stays valid for at least another minute.
pub open spec fn is_fresh(access_token: Seq<char>, expires_at: u64, now: u64) -> bool {
    trim(access_token).len() > 0 && expires_at > sat_add(now, 60000)
}

/// The error of a failed upstream call: its label, status and body.
pub open spec fn status_error_message(label: Seq<char>, status: u16, body: Seq<u8>) -> Seq<char> {
    label + ": status="@ + decimal(status as nat) + " body="@ + utf8_lossy_text(body)
}

/// The message of a failed Anthropic token refresh.
pub open spec fn claude_refresh_message(
    status: u16,
    error: Seq<char>,
    description: Seq<char>,
    body: Seq<u8>,
) -> Seq<char> {
    if error.len() == 0 && description.len() == 0 {
        "oauth token refresh failed: status="@ + decimal(status as nat) + " body="@
            + utf8_lossy_text(body)
    } else {
        "oauth token refresh failed: status="@ + decimal(status as nat) + " error="@ + error
            + " description="@ + description
    }
}

/// The refresh failure for a message: the credential is rejected on 400, 401 and
/// 403, and the failure may pass otherwise.
pub open spec fn refresh_failure(status: u16, message: Seq<char>) -> (RefreshErrorKind, Seq<char>) {
    if is_rejection_status(status) {
        (RefreshErrorKind::InvalidCredential, message)
    } else {
        (RefreshErrorKind::Transient, message)
    }
}

/// The two kinds of refresh failure.
pub enum RefreshErrorKind {
    InvalidCredential,
    Transient,
}

/// The kind and message of a refresh failure.
pub open spec fn refresh_error_view(e: RefreshError) -> (RefreshErrorKind, Seq<char>) {
    match e {
        RefreshError::InvalidCredential(m) => (RefreshErrorKind::InvalidCredential, m@),
        RefreshError::Transient(m) => (RefreshErrorKind::Transient, m@),
    }
}

/// The body of an Anthropic refresh-token request.
pub open spec fn claude_refresh_body_text(refresh_token: Seq<char>) -> Seq<char> {
    "grant_type=refresh_token&client_id="@ + url_encoded(CLAUDE_CODE_OAUTH_CLIENT_ID@)
        + "&refresh_token="@ + url_encoded(refresh_token)
}

/// `a + b`, or the largest `u64` when that overflows.
pub fn saturating_add_u64(a: u64, b: u64) -> (r: u64)
    ensures
        r == sat_add(a, b),
{
    a.saturating_add(b)
}

/// `a * b`, or the largest `u64` when that overflows.
pub fn saturating_mul_u64(a: u64, b: u64) -> (r: u64)
    ensures
        r == sat_mul(a, b),
{
    if a == 0 {
        assert(a * b == 0);
        0
    } else if b > u64::MAX / a {
        assert(a * b > u64::MAX) by (nonlinear_arith)
            requires
                a > 0,
                b > u64::MAX / a,
        ;
        u64::MAX
    } else {
        assert(a * b <= u64::MAX) by (nonlinear_arith)
            requires
                a > 0,
                b <= u64::MAX / a,
        ;
        a * b
    }
}

/// When a token that lives `expires_in` seconds runs out.
pub fn expiry_from_now(now: u64, expires_in: Option<u64>) -> (r: u64)
    ensures
        r == expiry_after(now, expires_in),
{
    let secs = match expires_in {
        Some(e) => e,
        None => 3600,
    };
    saturating_add_u64(now, saturating_mul_u64(secs, 1000))
}

/// Whether a stored credential must be refreshed before use: `Ok(false)` when its
/// access token is good for another minute, `Ok(true)` when it must be refreshed,
/// and a rejection when it has no refresh token to do so.
pub fn refresh_gate(credential: &CredentialConfig, now: u64) -> (r: Result<bool, RefreshError>)
    ensures
        is_fresh(credential.access_token@, credential.expires_at_unix_ms, now) ==> r matches Ok(
            false,
        ),
        !is_fresh(credential.access_token@, credential.expires_at_unix_ms, now) && trim(
            credential.refresh_token@,
        ).len() > 0 ==> r matches Ok(true),
        !is_fresh(credential.access_token@, credential.expires_at_unix_ms, now) && trim(
            credential.refresh_token@,
        ).len() == 0 ==> (r matches Err(e) && refresh_error_view(e) == (
            RefreshErrorKind::InvalidCredential,
            "missing refresh_token"@,
        )),
{
    let access = trim_str(credential.access_token.as_str());
    if access.as_str().unicode_len() > 0 && credential.expires_at_unix_ms > now.saturating_add(
        60000,
    ) {
        return Ok(false);
    }
    let refresh = trim_str(credential.refresh_token.as_str());
    if refresh.as_str().unicode_len() == 0 {
        return Err(RefreshError::InvalidCredential(String::from_str("missing refresh_token")));
    }
    Ok(true)
}

/// The body of an Anthropic refresh-token request.
pub fn claude_refresh_body(refresh_token: &str) -> (r: String)
    ensures
        r@ == claude_refresh_body_text(refresh_token@),
{
    let mut body = String::from_str("grant_type=refresh_token&client_id=");
    let id = url_encode(CLAUDE_CODE_OAUTH_CLIENT_ID);
    body.append(id.as_str());
    body.append("&refresh_token=");
    let tok = url_encode(refresh_token);
    body.append(tok.as_str());
    body
}

/// A text, or empty when it is missing.
pub open spec fn or_empty(o: Option<String>) -> Seq<char> {
    match o {
        Some(s) => s@,
        None => Seq::empty(),
    }
}

/// A text, or empty when it is missing.
fn string_or_empty(o: &Option<String>) -> (r: String)
    ensures
        r@ == or_empty(*o),
{
    match o {
        Some(s) => s.clone(),
        None => String::new(),
    }
}

/// The answer to an Anthropic refresh request. On a 2xx status it is the new tokens
/// (a new refresh token only when one came, the expiry an hour on when none was
/// said, account data of the credential, plan and tier of the answer); otherwise
/// the failure, which rejects the credential on 400, 401 and 403.
pub fn claude_refresh_outcome(
    status: u16,
    parsed: Option<ClaudeTokenResponse>,
    body: &[u8],
    credential: &CredentialConfig,
    now: u64,
) -> (r: Result<RefreshedCredential, RefreshError>)
    ensures
        is_success_status(status) ==> match parsed {
            Some(p) if clean_opt(p.access_token) is Some => r matches Ok(c) && Some(c.access_token@)
                == clean_opt(p.access_token) && c.refresh_token@ == or_default(
                clean_opt(p.refresh_token),
                credential.refresh_token@,
            ) && c.expires_at_unix_ms == expiry_after(now, p.expires_in) && c.user_email
                == credential.user_email && c.account_id == credential.account_id
                && c.subscription_type == p.subscription_type && c.rate_limit_tier
                == p.rate_limit_tier,
            _ => r matches Err(e) && refresh_error_view(e) == (
                RefreshErrorKind::Transient,
                "missing access_token"@,
            ),
        },
        !is_success_status(status) ==> (r matches Err(e) && refresh_error_view(e)
            == refresh_failure(
            status,
            claude_refresh_message(
                status,
                match parsed {
                    Some(p) => or_empty(p.error),
                    None => Seq::empty(),
                },
                match parsed {
                    Some(p) => or_empty(p.error_description),
                    None => Seq::empty(),
                },
                body@,
            ),
        )),
{
    if 200 <= status && status <= 299 {
        match parsed {
            Some(p) => {
                let access = clean_option(p.access_token);
                match access {
                    Some(access_token) => {
                        let refresh_token = match clean_option(p.refresh_token) {
                            Some(t) => t,
                            None => credential.refresh_token.clone(),
                        };
                        Ok(
                            RefreshedCredential {
                                access_token,
                                refresh_token,
                                expires_at_unix_ms: expiry_from_now(now, p.expires_in),
                                user_email: clone_opt_string(&credential.user_email),
                                account_id: clone_opt_string(&credential.account_id),
                                subscription_type: p.subscription_type,
                                rate_limit_tier: p.rate_limit_tier,
                            },
                        )
                    },
                    None => Err(RefreshError::Transient(String::from_str("missing access_token"))),
                }
            },
            None => Err(RefreshError::Transient(String::from_str("missing access_token"))),
        }
    } else {
        let (error, description) = match &parsed {
            Some(p) => (string_or_empty(&p.error), string_or_empty(&p.error_description)),
            None => (String::new(), String::new()),
        };
        let mut message = String::from_str("oauth token refresh failed: status=");
        let code = decimal_string(status as u64);
        message.append(code.as_str());
        if error.as_str().unicode_len() == 0 && description.as_str().unicode_len() == 0 {
            message.append(" body=");
            let text = utf8_lossy(body);
            message.append(text.as_str());
        } else {
            message.append(" error=");
            message.append(error.as_str());
            message.append(" description=");
            message.append(description.as_str());
        }
        if status == 400 || status == 401 || status == 403 {
            Err(RefreshError::InvalidCredential(message))
        } else {
            Err(RefreshError::Transient(message))
        }
    }
}

/// `part` added to a `sep`-joined list when it is not empty.
pub open spec fn add_part(acc: Seq<char>, part: Seq<char>, sep: Seq<char>) -> Seq<char> {
    if part.len() == 0 {
        acc
    } else if acc.len() == 0 {
        part
    } else {
        acc + sep + part
    }
}

/// `part` added to a `sep`-joined list when it is not blank.
pub open spec fn add_nonblank(acc: Seq<char>, part: Seq<char>, sep: Seq<char>) -> Seq<char> {
    if trim(part).len() == 0 {
        acc
    } else if acc.len() == 0 {
        part
    } else {
        acc + sep + part
    }
}

/// The trimmed string member `key`, or empty.
pub open spec fn trimmed_member(v: JsonValue, key: Seq<char>) -> Seq<char> {
    trim(or_default(get_str(v, key), Seq::empty()))
}

/// The text of a Codex token error: an object's type, message and code joined by
/// ` | `, a string as it is, and any other value as its JSON text `rendered`.
pub open spec fn codex_error_text(error: JsonValue, rendered: Seq<char>) -> Seq<char> {
    match error {
        JsonValue::Object(_) => {
            let code = trimmed_member(error, "code"@);
            add_part(
                add_part(
                    add_part(Seq::empty(), trimmed_member(error, "type"@), " | "@),
                    trimmed_member(error, "message"@),
                    " | "@,
                ),
                if code.len() > 0 {
                    "code="@ + code
                } else {
                    Seq::empty()
                },
                " | "@,
            )
        },
        JsonValue::String(s) => s@,
        _ => rendered,
    }
}

/// The message of a failed Codex token refresh.
pub open spec fn codex_refresh_message(
    status: u16,
    body: Seq<u8>,
    parsed: Option<CodexTokenResponse>,
    rendered: Seq<char>,
) -> Seq<char> {
    let description = match parsed {
        Some(p) => or_empty(p.error_description),
        None => Seq::empty(),
    };
    let detail = match parsed {
        Some(p) => match p.error {
            Some(e) => codex_error_text(e, rendered),
            None => Seq::empty(),
        },
        None => Seq::empty(),
    };
    let suffix = add_nonblank(add_nonblank(Seq::empty(), detail, " | "@), description, " | "@);
    if suffix.len() == 0 {
        "oauth token refresh failed: status="@ + decimal(status as nat) + " body="@
            + utf8_lossy_text(body)
    } else {
        "oauth token refresh failed: status="@ + decimal(status as nat) + " "@ + suffix
    }
}

/// Adds `part` to a `sep`-joined list when it is not empty.
fn push_part(acc: &mut String, part: &str, sep: &str)
    ensures
        final(acc)@ == add_part(old(acc)@, part@, sep@),
{
    if part.unicode_len() == 0 {
        return;
    }
    if acc.as_str().unicode_len() == 0 {
        *acc = String::from_str(part);
    } else {
        acc.append(sep);
        acc.append(part);
    }
}

/// Adds `part` to a `sep`-joined list when it is not blank.
fn push_nonblank(acc: &mut String, part: &str, sep: &str)
    ensures
        final(acc)@ == add_nonblank(old(acc)@, part@, sep@),
{
    let t = trim_str(part);
    if t.as_str().unicode_len() == 0 {
        return;
    }
    if acc.as_str().unicode_len() == 0 {
        *acc = String::from_str(part);
    } else {
        acc.append(sep);
        acc.append(part);
    }
}

/// The trimmed string member `key`, or empty.
fn trimmed_member_string(v: &JsonValue, key: &str) -> (r: String)
    ensures
        r@ == trimmed_member(*v, key@),
{
    match get_string(v, key) {
        Some(s) => trim_str(s.as_str()),
        None => {
            assert(trim(Seq::<char>::empty()) =~= Seq::<char>::empty());
            String::new()
        },
    }
}

/// The text of a Codex token error; `rendered` is the error's JSON text.
fn stringify_codex_error(error: &JsonValue, rendered: &str) -> (r: String)
    ensures
        r@ == codex_error_text(*error, rendered@),
{
    match error {
        JsonValue::Object(_) => {
            let error_type = trimmed_member_string(error, "type");
            let message = trimmed_member_string(error, "message");
            let code = trimmed_member_string(error, "code");
            let mut out = String::new();
            push_part(&mut out, error_type.as_str(), " | ");
            push_part(&mut out, message.as_str(), " | ");
            if code.as_str().unicode_len() > 0 {
                let mut labeled = String::from_str("code=");
                labeled.append(code.as_str());
                push_part(&mut out, labeled.as_str(), " | ");
            }
            out
        },
        JsonValue::String(s) => s.clone(),
        _ => String::from_str(rendered),
    }
}

/// The message of a failed Codex token refresh; `rendered` is the JSON text of
/// the answer's `error` member.
fn codex_error_message(
    status: u16,
    body: &[u8],
    parsed: &Option<CodexTokenResponse>,
    rendered: &str,
) -> (r: String)
    ensures
        r@ == codex_refresh_message(status, body@, *parsed, rendered@),
{
    let description = match parsed {
        Some(p) => string_or_empty(&p.error_description),
        None => String::new(),
    };
    let detail = match parsed {
        Some(p) => match &p.error {
            Some(e) => stringify_codex_error(e, rendered),
            None => String::new(),
        },
        None => String::new(),
    };
    let mut suffix = String::new();
    push_nonblank(&mut suffix, detail.as_str(), " | ");
    push_nonblank(&mut suffix, description.as_str(), " | ");
    let mut message = String::from_str("oauth token refresh failed: status=");
    let code = decimal_string(status as u64);
    message.append(code.as_str());
    if suffix.as_str().unicode_len() == 0 {
        message.append(" body=");
        let text = utf8_lossy(body);
        message.append(text.as_str());
    } else {
        message.append(" ");
        message.append(suffix.as_str());
    }
    message
}

/// The new Codex tokens of a token answer, with the account data of its ID token
/// claims (which the caller reads from the ID token); an access and a refresh
/// token must both be there.
pub fn codex_refreshed_from_token(
    parsed: CodexTokenResponse,
    claims: CodexIdTokenClaims,
    now: u64,
) -> (r: Result<RefreshedCredential, String>)
    ensures
        clean_opt(parsed.access_token) is None ==> (r matches Err(m) && m@
            == "missing access_token"@),
        clean_opt(parsed.access_token) is Some && clean_opt(parsed.refresh_token) is None ==> (
        r matches Err(m) && m@ == "missing refresh_token"@),
        clean_opt(parsed.access_token) is Some && clean_opt(parsed.refresh_token) is Some ==> (
        r matches Ok(c) && Some(c.access_token@) == clean_opt(parsed.access_token) && Some(
            c.refresh_token@,
        ) == clean_opt(parsed.refresh_token) && c.expires_at_unix_ms == expiry_after(
            now,
            parsed.expires_in,
        ) && c.user_email == claims.email && c.account_id == claims.account_id
            && c.subscription_type == claims.plan && c.rate_limit_tier is None),
{
    let access_token = match clean_option(parsed.access_token) {
        Some(t) => t,
        None => {
            return Err(String::from_str("missing access_token"));
        },
    };
    let refresh_token = match clean_option(parsed.refresh_token) {
        Some(t) => t,
        None => {
            return Err(String::from_str("missing refresh_token"));
        },
    };
    Ok(
        RefreshedCredential {
            access_token,
            refresh_token,
            expires_at_unix_ms: expiry_from_now(now, parsed.expires_in),
            user_email: claims.email,
            account_id: claims.account_id,
            subscription_type: claims.plan,
            rate_limit_tier: None,
        },
    )
}

/// The answer to a Codex refresh request: the new tokens on a 2xx status (a
/// transient failure when the answer is missing or lacks a token), otherwise the
/// failure, which rejects the credential on 400, 401 and 403. The caller reads
/// `claims` from the answer's ID token (`id_token_payload`, a JSON parse of
/// those bytes, then `parse_codex_id_token_claims`; all empty when there is no
/// token); `rendered` is the JSON text of the answer's `error` member.
pub fn codex_refresh_outcome(
    status: u16,
    parsed: Option<CodexTokenResponse>,
    claims: CodexIdTokenClaims,
    body: &[u8],
    rendered: &str,
    now: u64,
) -> (r: Result<RefreshedCredential, RefreshError>)
    ensures
        is_success_status(status) && parsed is None ==> (r matches Err(e) && refresh_error_view(e)
            == (RefreshErrorKind::Transient, "missing token response"@)),
        is_success_status(status) && parsed is Some ==> match parsed {
            Some(p) => if clean_opt(p.access_token) is None {
                r matches Err(e) && refresh_error_view(e) == (
                    RefreshErrorKind::Transient,
                    "missing access_token"@,
                )
            } else if clean_opt(p.refresh_token) is None {
                r matches Err(e) && refresh_error_view(e) == (
                    RefreshErrorKind::Transient,
                    "missing refresh_token"@,
                )
            } else {
                r matches Ok(c) && Some(c.access_token@) == clean_opt(p.access_token) && Some(
                    c.refresh_token@,
                ) == clean_opt(p.refresh_token) && c.expires_at_unix_ms == expiry_after(
                    now,
                    p.expires_in,
                ) && c.user_email == claims.email && c.account_id == claims.account_id
                    && c.subscription_type == claims.plan && c.rate_limit_tier is None
            },
            None => true,
        },
        !is_success_status(status) ==> (r matches Err(e) && refresh_error_view(e)
            == refresh_failure(status, codex_refresh_message(status, body@, parsed, rendered@))),
{
    if 200 <= status && status <= 299 {
        match parsed {
            Some(p) => match codex_refreshed_from_token(p, claims, now) {
                Ok(c) => Ok(c),
                Err(m) => Err(RefreshError::Transient(m)),
            },
            None => Err(RefreshError::Transient(String::from_str("missing token response"))),
        }
    } else {
        let message = codex_error_message(status, body, &parsed, rendered);
        if status == 400 || status == 401 || status == 403 {
            Err(RefreshError::InvalidCredential(message))
        } else {
            Err(RefreshError::Transient(message))
        }
    }
}

/// The profile Anthropic's OAuth profile endpoint answers with.
#[derive(Debug, PartialEq)]
pub struct OAuthProfile {
    pub account: OAuthProfileAccount,
    pub organization: OAuthProfileOrg,
}

/// The account part of an OAuth profile.
#[derive(Debug, PartialEq)]
pub struct OAuthProfileAccount {
    pub email: Option<String>,
    pub has_claude_max: bool,
    pub has_claude_pro: bool,
}

/// The organization part of an OAuth profile.
#[derive(Debug, PartialEq)]
pub struct OAuthProfileOrg {
    pub uuid: Option<String>,
    pub organization_type: Option<String>,
    pub rate_limit_tier: Option<String>,
}

/// One rate-limit window as the Codex usage endpoint reports it.
#[derive(Debug, PartialEq)]
pub struct CodexRateLimitWindowPayload {
    pub used_percent: Option<i64>,
    pub limit_window_seconds: Option<i64>,
    pub reset_at_unix_secs: Option<i64>,
}

/// The rate-limit part of a Codex usage report.
#[derive(Debug, PartialEq)]
pub struct CodexRateLimitDetails {
    pub primary_window: Option<CodexRateLimitWindowPayload>,
    pub secondary_window: Option<CodexRateLimitWindowPayload>,
}

/// The credit flags of a Codex usage report.
#[derive(Debug, PartialEq)]
pub struct CodexCreditsDetails {
    pub has_credits: Option<bool>,
    pub unlimited: Option<bool>,
}

/// A Codex usage report.
#[derive(Debug, PartialEq)]
pub struct CodexUsagePayload {
    pub rate_limit: Option<CodexRateLimitDetails>,
    pub credits: Option<CodexCreditsDetails>,
    pub plan_type: Option<String>,
}

/// The plan of an Anthropic profile: the organization type when it is not
/// blank, else Max or Pro from the account flags.
pub open spec fn profile_subscription(p: OAuthProfile) -> Option<Seq<char>> {
    match p.organization.organization_type {
        Some(t) if trim(t@).len() > 0 => Some(t@),
        _ => if p.account.has_claude_max {
            Some("claude_max"@)
        } else if p.account.has_claude_pro {
            Some("claude_pro"@)
        } else {
            None
        },
    }
}

/// The unit part of a JWT, between its first and second dots, when the header,
/// the payload and the signature parts are all there.
pub open spec fn jwt_payload_part(token: Seq<char>) -> Option<Seq<char>> {
    match after_char(token, '.') {
        None => None,
        Some(r1) => match after_char(r1, '.') {
            None => None,
            Some(r2) => {
                let header = before_char(token, '.');
                let payload = before_char(r1, '.');
                let signature = before_char(r2, '.');
                if header.len() > 0 && payload.len() > 0 && signature.len() > 0 {
                    Some(payload)
                } else {
                    None
                }
            },
        },
    }
}

/// The claim key of OpenAI's profile claims.
pub open spec fn profile_claim_key() -> Seq<char> {
    "https://api.openai.com/profile"@
}

/// The claim key of OpenAI's auth claims.
pub open spec fn auth_claim_key() -> Seq<char> {
    "https://api.openai.com/auth"@
}

/// The e-mail of an ID token payload: its own claim, else the profile claim's.
pub open spec fn claims_email(p: Option<JsonValue>) -> Option<Seq<char>> {
    match opt_get_str(p, "email"@) {
        Some(e) => Some(e),
        None => opt_get_str(opt_get(p, profile_claim_key()), "email"@),
    }
}

/// The plan of an ID token payload.
pub open spec fn claims_plan(p: Option<JsonValue>) -> Option<Seq<char>> {
    opt_get_str(opt_get(p, auth_claim_key()), "chatgpt_plan_type"@)
}

/// The account id of an ID token payload.
pub open spec fn claims_account(p: Option<JsonValue>) -> Option<Seq<char>> {
    opt_get_str(opt_get(p, auth_claim_key()), "chatgpt_account_id"@)
}

/// A percentage clamped to 0..=100.
pub open spec fn clamp_percent(v: i64) -> u32 {
    if v < 0 {
        0
    } else if v > 100 {
        100
    } else {
        v as u32
    }
}

/// Whole minutes of a window length, negative lengths counting as zero and the
/// seconds cut to 32 bits first.
pub open spec fn window_minutes(v: i64) -> u32 {
    ((if v < 0 {
        0
    } else {
        v
    }) as u32) / 60
}

/// `s` with `suffix` removed from its end as often as it is there.
pub open spec fn strip_suffix_all(s: Seq<char>, suffix: Seq<char>) -> Seq<char>
    decreases s.len(),
{
    if suffix.len() > 0 && has_suffix(s, suffix) {
        strip_suffix_all(s.subrange(0, s.len() - suffix.len()), suffix)
    } else {
        s
    }
}

/// The body of an authorization-code exchange with Anthropic.
pub open spec fn claude_exchange_body_text(
    code: Seq<char>,
    redirect_uri: Seq<char>,
    verifier: Seq<char>,
    state: Seq<char>,
) -> Seq<char> {
    "grant_type=authorization_code&client_id="@ + url_encoded(CLAUDE_CODE_OAUTH_CLIENT_ID@)
        + "&code="@ + url_encoded(sanitized_code(code)) + "&redirect_uri="@ + url_encoded(
        redirect_uri,
    ) + "&code_verifier="@ + url_encoded(verifier) + "&state="@ + url_encoded(state)
}

/// The body of an authorization-code exchange with OpenAI.
pub open spec fn codex_exchange_body_text(
    code: Seq<char>,
    redirect_uri: Seq<char>,
    verifier: Seq<char>,
) -> Seq<char> {
    "grant_type=authorization_code&code="@ + url_encoded(sanitized_code(code))
        + "&redirect_uri="@ + url_encoded(redirect_uri) + "&client_id="@ + url_encoded(
        CODEX_OAUTH_CLIENT_ID@,
    ) + "&code_verifier="@ + url_encoded(verifier)
}

/// A string member of an object.
pub open spec fn is_string_member(m: (String, JsonValue), key: Seq<char>, value: Seq<char>) -> bool {
    m.0@ == key && json_str(m.1) == Some(value)
}

/// Reads the profile of an Anthropic account.
pub fn parse_profile(profile: OAuthProfile) -> (r: OAuthProfileParsed)
    ensures
        opt_view(r.subscription_type) == profile_subscription(profile),
        r.email == profile.account.email,
        r.account_id is None,
        r.rate_limit_tier == profile.organization.rate_limit_tier,
        r.organization_uuid == profile.organization.uuid,
{
    let has_type = match &profile.organization.organization_type {
        Some(t) => trim_str(t.as_str()).as_str().unicode_len() > 0,
        None => false,
    };
    let subscription_type = if has_type {
        profile.organization.organization_type
    } else if profile.account.has_claude_max {
        Some(String::from_str("claude_max"))
    } else if profile.account.has_claude_pro {
        Some(String::from_str("claude_pro"))
    } else {
        None
    };
    OAuthProfileParsed {
        email: profile.account.email,
        account_id: None,
        subscription_type,
        rate_limit_tier: profile.organization.rate_limit_tier,
        organization_uuid: profile.organization.uuid,
    }
}

/// The Base64-decoded payload of an ID token, when it has three non-empty parts.
pub fn id_token_payload(id_token: &str) -> (r: Option<Vec<u8>>)
    ensures
        opt_bytes(r) == match jwt_payload_part(id_token@) {
            Some(p) => base64_url_decoded(p),
            None => None,
        },
{
    let t = chars_of(id_token);
    let first = match index_of_char(t.as_slice(), '.') {
        Some(i) => i,
        None => {
            return None;
        },
    };
    let r1 = &t.as_slice()[first + 1..t.len()];
    let second = match index_of_char(r1, '.') {
        Some(i) => i,
        None => {
            return None;
        },
    };
    let r2 = &r1[second + 1..r1.len()];
    let header_len = before_char_len(t.as_slice(), '.');
    let payload_len = before_char_len(r1, '.');
    let signature_len = before_char_len(r2, '.');
    if header_len == 0 || payload_len == 0 || signature_len == 0 {
        return None;
    }
    let payload = sub_string(r1, 0, payload_len);
    base64_url_decode(payload.as_str())
}

/// The text of the string member `key` of `v`, when `v` is there.
fn opt_member_string(v: Option<&JsonValue>, key: &str) -> (r: Option<String>)
    ensures
        opt_view(r) == opt_get_str(
            match v {
                Some(x) => Some(*x),
                None => None,
            },
            key@,
        ),
{
    match v {
        Some(x) => get_string(x, key),
        None => None,
    }
}

/// The member `key` of `v`, when `v` is there.
fn opt_member<'a>(v: Option<&'a JsonValue>, key: &str) -> (r: Option<&'a JsonValue>)
    ensures
        match r {
            Some(m) => opt_get(
                match v {
                    Some(x) => Some(*x),
                    None => None,
                },
                key@,
            ) == Some(*m),
            None => opt_get(
                match v {
                    Some(x) => Some(*x),
                    None => None,
                },
                key@,
            ) is None,
        },
{
    match v {
        Some(x) => x.get(key),
        None => None,
    }
}

/// The claims of a decoded ID token payload; all missing when there is none.
pub fn parse_codex_id_token_claims(payload: Option<&JsonValue>) -> (r: CodexIdTokenClaims)
    ensures
        opt_view(r.email) == claims_email(
            match payload {
                Some(x) => Some(*x),
                None => None,
            },
        ),
        opt_view(r.plan) == claims_plan(
            match payload {
                Some(x) => Some(*x),
                None => None,
            },
        ),
        opt_view(r.account_id) == claims_account(
            match payload {
                Some(x) => Some(*x),
                None => None,
            },
        ),
{
    let email = match opt_member_string(payload, "email") {
        Some(e) => Some(e),
        None => opt_member_string(opt_member(payload, "https://api.openai.com/profile"), "email"),
    };
    let auth = opt_member(payload, "https://api.openai.com/auth");
    CodexIdTokenClaims {
        email,
        plan: opt_member_string(auth, "chatgpt_plan_type"),
        account_id: opt_member_string(auth, "chatgpt_account_id"),
    }
}

/// The profile of an imported Codex credential, from its ID token payload.
pub fn parse_codex_import_profile(payload: Option<&JsonValue>) -> (r: OAuthProfileParsed)
    ensures
        opt_view(r.email) == claims_email(
            match payload {
                Some(x) => Some(*x),
                None => None,
            },
        ),
        opt_view(r.account_id) == claims_account(
            match payload {
                Some(x) => Some(*x),
                None => None,
            },
        ),
        opt_view(r.subscription_type) == claims_plan(
            match payload {
                Some(x) => Some(*x),
                None => None,
            },
        ),
        r.rate_limit_tier is None,
        r.organization_uuid is None,
{
    let claims = parse_codex_id_token_claims(payload);
    OAuthProfileParsed {
        email: claims.email,
        account_id: claims.account_id,
        subscription_type: claims.plan,
        rate_limit_tier: None,
        organization_uuid: None,
    }
}

/// A string member of an object.
fn string_member(key: &str, value: &str) -> (r: (String, JsonValue))
    ensures
        is_string_member(r, key@, value@),
{
    (String::from_str(key), JsonValue::String(String::from_str(value)))
}

/// The JSON body of a Codex refresh-token request.
pub fn codex_refresh_body(refresh_token: &str) -> (r: JsonValue)
    ensures
        r matches JsonValue::Object(m) && m@.len() == 4 && is_string_member(
            m@[0],
            "client_id"@,
            CODEX_OAUTH_CLIENT_ID@,
        ) && is_string_member(m@[1], "grant_type"@, "refresh_token"@) && is_string_member(
            m@[2],
            "refresh_token"@,
            refresh_token@,
        ) && is_string_member(m@[3], "scope"@, "openid profile email"@),
{
    let members = vec![
        string_member("client_id", CODEX_OAUTH_CLIENT_ID),
        string_member("grant_type", "refresh_token"),
        string_member("refresh_token", refresh_token),
        string_member("scope", "openid profile email"),
    ];
    JsonValue::Object(members)
}

/// A Codex rate-limit window: the percentage clamped to 0..=100, the length in
/// minutes, and the reset time `reset_text` (its ISO form) when it is not blank.
pub fn parse_codex_usage_window(
    window: &CodexRateLimitWindowPayload,
    reset_text: Option<String>,
) -> (r: CodexUsageWindow)
    ensures
        r.used_percent == match window.used_percent {
            Some(v) => Some(clamp_percent(v)),
            None => None,
        },
        r.window_duration_mins == match window.limit_window_seconds {
            Some(v) => Some(window_minutes(v)),
            None => None,
        },
        opt_view(r.resets_at) == clean_opt(reset_text),
{
    let used_percent = match window.used_percent {
        Some(v) => Some(
            if v < 0 {
                0u32
            } else if v > 100 {
                100u32
            } else {
                v as u32
            },
        ),
        None => None,
    };
    let window_duration_mins = match window.limit_window_seconds {
        Some(v) => {
            let secs: i64 = if v < 0 {
                0
            } else {
                v
            };
            Some((secs as u32) / 60)
        },
        None => None,
    };
    CodexUsageWindow { used_percent, window_duration_mins, resets_at: clean_option(reset_text) }
}

/// `r` is the window read from `w`, with `reset_text` as its reset time.
pub open spec fn is_window_of(
    r: CodexUsageWindow,
    w: CodexRateLimitWindowPayload,
    reset_text: Option<String>,
) -> bool {
    &&& r.used_percent == match w.used_percent {
        Some(v) => Some(clamp_percent(v)),
        None => None,
    }
    &&& r.window_duration_mins == match w.limit_window_seconds {
        Some(v) => Some(window_minutes(v)),
        None => None,
    }
    &&& opt_view(r.resets_at) == clean_opt(reset_text)
}

/// A window with nothing known.
pub open spec fn is_empty_window(w: CodexUsageWindow) -> bool {
    w.used_percent is None && w.window_duration_mins is None && w.resets_at is None
}

/// A window of a report, or an empty one when the report has none.
fn usage_window_or_empty(
    window: &Option<CodexRateLimitWindowPayload>,
    reset_text: Option<String>,
) -> (r: CodexUsageWindow)
    ensures
        match window {
            Some(w) => is_window_of(r, *w, reset_text),
            None => is_empty_window(r),
        },
{
    match window {
        Some(w) => parse_codex_usage_window(w, reset_text),
        None => CodexUsageWindow { used_percent: None, window_duration_mins: None, resets_at: None },
    }
}

/// The window a report gives, if any.
pub open spec fn report_window(
    rate_limit: Option<CodexRateLimitDetails>,
    primary: bool,
) -> Option<CodexRateLimitWindowPayload> {
    match rate_limit {
        Some(d) => if primary {
            d.primary_window
        } else {
            d.secondary_window
        },
        None => None,
    }
}

/// A Codex usage snapshot from a usage report; `primary_reset` and
/// `secondary_reset` are the ISO forms of the windows' reset times.
pub fn codex_usage_snapshot(
    payload: CodexUsagePayload,
    primary_reset: Option<String>,
    secondary_reset: Option<String>,
) -> (r: CodexUsageSnapshot)
    ensures
        match report_window(payload.rate_limit, true) {
            Some(w) => is_window_of(r.primary, w, primary_reset),
            None => is_empty_window(r.primary),
        },
        match report_window(payload.rate_limit, false) {
            Some(w) => is_window_of(r.secondary, w, secondary_reset),
            None => is_empty_window(r.secondary),
        },
        opt_view(r.plan_type) == clean_opt(payload.plan_type),
        r.credits_unlimited == match payload.credits {
            Some(c) => c.unlimited,
            None => None,
        },
        r.has_credits == match payload.credits {
            Some(c) => c.has_credits,
            None => None,
        },
{
    let (primary, secondary) = match &payload.rate_limit {
        Some(d) => (
            usage_window_or_empty(&d.primary_window, primary_reset),
            usage_window_or_empty(&d.secondary_window, secondary_reset),
        ),
        None => (
            usage_window_or_empty(&None, primary_reset),
            usage_window_or_empty(&None, secondary_reset),
        ),
    };
    let (credits_unlimited, has_credits) = match &payload.credits {
        Some(c) => (c.unlimited, c.has_credits),
        None => (None, None),
    };
    CodexUsageSnapshot {
        primary,
        secondary,
        plan_type: clean_option(payload.plan_type),
        credits_unlimited,
        has_credits,
    }
}

/// The body of an authorization-code exchange with Anthropic.
pub fn claude_code_exchange_body(stored_state: &StoredOAuthState, code: &str) -> (r: String)
    ensures
        r@ == claude_exchange_body_text(
            code@,
            stored_state.redirect_uri@,
            stored_state.code_verifier@,
            stored_state.state_id@,
        ),
{
    let cleaned_code = sanitize_oauth_code(code);
    let mut body = String::from_str("grant_type=authorization_code&client_id=");
    body.append(url_encode(CLAUDE_CODE_OAUTH_CLIENT_ID).as_str());
    body.append("&code=");
    body.append(url_encode(cleaned_code.as_str()).as_str());
    body.append("&redirect_uri=");
    body.append(url_encode(stored_state.redirect_uri.as_str()).as_str());
    body.append("&code_verifier=");
    body.append(url_encode(stored_state.code_verifier.as_str()).as_str());
    body.append("&state=");
    body.append(url_encode(stored_state.state_id.as_str()).as_str());
    body
}

/// The body of an authorization-code exchange with OpenAI.
pub fn codex_code_exchange_body(stored_state: &StoredOAuthState, code: &str) -> (r: String)
    ensures
        r@ == codex_exchange_body_text(
            code@,
            stored_state.redirect_uri@,
            stored_state.code_verifier@,
        ),
{
    let cleaned_code = sanitize_oauth_code(code);
    let mut body = String::from_str("grant_type=authorization_code&code=");
    body.append(url_encode(cleaned_code.as_str()).as_str());
    body.append("&redirect_uri=");
    body.append(url_encode(stored_state.redirect_uri.as_str()).as_str());
    body.append("&client_id=");
    body.append(url_encode(CODEX_OAUTH_CLIENT_ID).as_str());
    body.append("&code_verifier=");
    body.append(url_encode(stored_state.code_verifier.as_str()).as_str());
    body
}

/// The token endpoint of the issuer a Codex flow was started with.
pub fn codex_token_url(stored_state: &StoredOAuthState) -> (r: String)
    ensures
        r@ == strip_trailing(
            or_default(clean_opt(stored_state.oauth_issuer), DEFAULT_CODEX_ISSUER@),
            '/',
        ) + "/oauth/token"@,
{
    let issuer = clean_or(clone_opt_string(&stored_state.oauth_issuer), DEFAULT_CODEX_ISSUER);
    let mut url = without_trailing_slashes(issuer.as_str());
    url.append("/oauth/token");
    url
}

/// The failure of an upstream call that did not answer with a 2xx status.
pub fn upstream_status_check(label: &str, status: u16, body: &[u8]) -> (r: Result<(), String>)
    ensures
        is_success_status(status) <==> r is Ok,
        r matches Err(m) ==> m@ == status_error_message(label@, status, body@),
{
    if 200 <= status && status <= 299 {
        return Ok(());
    }
    let mut message = String::from_str(label);
    message.append(": status=");
    message.append(decimal_string(status as u64).as_str());
    message.append(" body=");
    message.append(utf8_lossy(body).as_str());
    Err(message)
}

/// Removing one more `suffix` from the end while it is there.
pub(crate) fn strip_suffix_len(v: &[char], suffix: &[char]) -> (r: usize)
    ensures
        r <= v@.len(),
        v@.subrange(0, r as int) == strip_suffix_all(v@, suffix@),
    decreases v@.len(),
{
    if suffix.len() > 0 && ends_with(v, suffix) {
        let cut = v.len() - suffix.len();
        let shorter = &v[0..cut];
        let r = strip_suffix_len(shorter, suffix);
        assert(shorter@.subrange(0, r as int) =~= v@.subrange(0, r as int));
        r
    } else {
        assert(v@.subrange(0, v@.len() as int) =~= v@);
        v.len()
    }
}

/// The Codex usage endpoint: the backend base without its `/codex` suffix.
pub fn codex_usage_url() -> (r: String)
    ensures
        r@ == strip_suffix_all(DEFAULT_CODEX_BASE_URL@, "/codex"@) + "/wham/usage"@,
{
    let base = chars_of(DEFAULT_CODEX_BASE_URL);
    let suffix = chars_of("/codex");
    let end = strip_suffix_len(base.as_slice(), suffix.as_slice());
    let mut url = sub_string(base.as_slice(), 0, end);
    url.append("/wham/usage");
    url
}

/// The headers every token request to Anthropic starts with: the API version
/// and the beta flag OAuth access tokens need.
pub fn default_claude_headers() -> (r: Vec<(String, String)>)
    ensures
        pair_views(r@) == seq![
            ("anthropic-version"@, DEFAULT_ANTHROPIC_VERSION@),
            ("anthropic-beta"@, DEFAULT_REQUIRED_BETA@),
        ],
{
    let r = vec![
        (String::from_str("anthropic-version"), String::from_str(DEFAULT_ANTHROPIC_VERSION)),
        (String::from_str("anthropic-beta"), String::from_str(DEFAULT_REQUIRED_BETA)),
    ];
    assert(pair_views(r@) =~= seq![
        ("anthropic-version"@, DEFAULT_ANTHROPIC_VERSION@),
        ("anthropic-beta"@, DEFAULT_REQUIRED_BETA@),
    ]);
    r
}

/// An ASCII decimal digit.
pub open spec fn is_digit(c: char) -> bool {
    '0' <= c && c <= '9'
}

/// The value of a string of decimal digits.
pub open spec fn digits_value(d: Seq<char>) -> int
    decreases d.len(),
{
    if d.len() == 0 {
        0
    } else {
        digits_value(d.drop_last()) * 10 + (d.last() as int - 48)
    }
}

/// The digits of a number text: trimmed, without one leading `+`.
pub open spec fn number_digits(t: Seq<char>) -> Seq<char> {
    let x = trim(t);
    if x.len() > 0 && x[0] == '+' {
        x.drop_first()
    } else {
        x
    }
}

/// The `u64` a text holds, as `str::trim` and `u64::from_str` read it: decimal
/// digits after an optional `+`, at least one, and not too large.
pub open spec fn u64_text_value(t: Seq<char>) -> Option<u64> {
    let d = number_digits(t);
    if d.len() > 0 && (forall|i: int| 0 <= i < d.len() ==> is_digit(#[trigger] d[i]))
        && digits_value(d) <= u64::MAX {
        Some(digits_value(d) as u64)
    } else {
        None
    }
}

/// A longer string of digits is worth at least as much as its prefix.
proof fn lemma_digits_value_prefix(d: Seq<char>, j: int, k: int)
    requires
        0 <= j <= k <= d.len(),
        forall|i: int| 0 <= i < k ==> is_digit(#[trigger] d[i]),
    ensures
        0 <= digits_value(d.subrange(0, j)) <= digits_value(d.subrange(0, k)),
    decreases k,
{
    if k > 0 {
        let s = d.subrange(0, k);
        assert(s.drop_last() =~= d.subrange(0, k - 1));
        assert(s.last() == d[k - 1]);
        if j < k {
            lemma_digits_value_prefix(d, j, k - 1);
        } else {
            lemma_digits_value_prefix(d, k - 1, k - 1);
        }
    }
}

/// The `u64` a text holds, as a number may be written as a JSON string.
pub fn parse_u64_text(text: &str) -> (r: Option<u64>)
    ensures
        r == u64_text_value(text@),
{
    let t = trim_str(text);
    let v = chars_of(t.as_str());
    let start: usize = if v.len() > 0 && v[0] == '+' {
        1
    } else {
        0
    };
    let ghost d = number_digits(text@);
    assert(d =~= v@.subrange(start as int, v@.len() as int));
    if start >= v.len() {
        return None;
    }
    let n = v.len();
    let mut acc: u64 = 0;
    let mut i: usize = start;
    assert(d.subrange(0, 0).len() == 0);
    while i < n
        invariant
            n == v@.len(),
            start <= i <= n,
            d == v@.subrange(start as int, n as int),
            d == number_digits(text@),
            d.len() > 0,
            forall|k: int| 0 <= k < i - start ==> is_digit(#[trigger] d[k]),
            acc == digits_value(d.subrange(0, i - start)),
        decreases n - i,
    {
        let c = v[i];
        assert(c == d[i - start]);
        if !('0' <= c && c <= '9') {
            return None;
        }
        let digit = (c as u32 - 48) as u64;
        proof {
            let s = d.subrange(0, i - start + 1);
            assert(s.drop_last() =~= d.subrange(0, i - start));
            assert(s.last() == c);
        }
        if acc > 1844674407370955161u64 || (acc == 1844674407370955161u64 && digit > 5) {
            proof {
                assert forall|k: int| 0 <= k < i - start + 1 implies is_digit(#[trigger] d[k]) by {}
                if forall|k: int| 0 <= k < d.len() ==> is_digit(#[trigger] d[k]) {
                    lemma_digits_value_prefix(d, i - start + 1, d.len() as int);
                    assert(d.subrange(0, d.len() as int) =~= d);
                }
            }
            return None;
        }
        acc = acc * 10 + digit;
        i = i + 1;
    }
    assert(d.subrange(0, n - start) =~= d);
    Some(acc)
}

} // verus!
