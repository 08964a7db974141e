//! The requests the proxy makes of Anthropic and OpenAI on its own behalf:
//! token exchanges and refreshes, the account profile and usage. Each is given
//! whole, method, URL, headers and body, for the caller to send.
use vstd::prelude::*;
use crate::config::{
    StoredOAuthState, CODEX_OAUTH_CLIENT_ID, DEFAULT_BASE_URL, DEFAULT_CLAUDE_AI_BASE_URL,
    DEFAULT_CODEX_BASE_URL, DEFAULT_CODEX_ISSUER, DEFAULT_CODEX_ORIGINATOR, DEFAULT_CODEX_USER_AGENT,
    DEFAULT_REQUIRED_BETA, DEFAULT_TOKEN_USER_AGENT, DEFAULT_USER_AGENT, DEFAULT_ANTHROPIC_VERSION,
};
use crate::do_state::HttpMethod;
use crate::oauth::{
    claude_code_exchange_body, claude_exchange_body_text, claude_refresh_body,
    claude_refresh_body_text, codex_code_exchange_body, codex_exchange_body_text, codex_token_url,
    codex_usage_url, or_default, strip_suffix_all,
};
use crate::primitives::{opt_string_view, pair_views, string_from_chars};
use crate::text::{clean_opt, strip_trailing};

verus! {

/// A request to send: method, URL, headers (each set once) and body.
#[derive(Debug, PartialEq)]
pub struct OutgoingRequest {
    pub method: HttpMethod,
    pub url: String,
    pub headers: Vec<(String, String)>,
    pub body: Option<String>,
}

/// A request as plain values.
pub struct RequestView {
    pub method: HttpMethod,
    pub url: Seq<char>,
    pub headers: Seq<(Seq<char>, Seq<char>)>,
    pub body: Option<Seq<char>>,
}

/// The plain values of a request.
pub open spec fn request_view(r: OutgoingRequest) -> RequestView {
    RequestView {
        method: r.method,
        url: r.url@,
        headers: pair_views(r.headers@),
        body: opt_string_view(r.body),
    }
}

/// A header of two texts.
fn header(name: &str, value: &str) -> (r: (String, String))
    ensures
        r.0@ == name@,
        r.1@ == value@,
{
    (String::from_str(name), String::from_str(value))
}

/// `a` followed by `b`.
fn joined(a: &str, b: &str) -> (r: String)
    ensures
        r@ == a@ + b@,
{
    let mut s = String::from_str(a);
    s.append(b);
    s
}

/// The headers of a form-encoded token request to Anthropic.
pub open spec fn anthropic_form_headers() -> Seq<(Seq<char>, Seq<char>)> {
    seq![
        ("anthropic-version"@, DEFAULT_ANTHROPIC_VERSION@),
        ("anthropic-beta"@, DEFAULT_REQUIRED_BETA@),
        ("content-type"@, "application/x-www-form-urlencoded"@),
        ("accept"@, "application/json, text/plain, */*"@),
    ]
}

/// The Anthropic code exchange: a form POST to the token endpoint from the
/// authorize page's origin.
pub open spec fn claude_exchange_request_of(stored: StoredOAuthState, code: Seq<char>) -> RequestView {
    RequestView {
        method: HttpMethod::Post,
        url: DEFAULT_BASE_URL@ + "/v1/oauth/token"@,
        headers: anthropic_form_headers() + seq![
            ("origin"@, DEFAULT_CLAUDE_AI_BASE_URL@),
            ("referer"@, DEFAULT_CLAUDE_AI_BASE_URL@ + "/"@),
            ("user-agent"@, DEFAULT_TOKEN_USER_AGENT@),
        ],
        body: Some(
            claude_exchange_body_text(
                code,
                stored.redirect_uri@,
                stored.code_verifier@,
                stored.state_id@,
            ),
        ),
    }
}

/// The Anthropic code exchange request.
pub fn claude_code_exchange_request(stored: &StoredOAuthState, code: &str) -> (r: OutgoingRequest)
    ensures
        request_view(r) == claude_exchange_request_of(*stored, code@),
{
    let headers = vec![
        header("anthropic-version", DEFAULT_ANTHROPIC_VERSION),
        header("anthropic-beta", DEFAULT_REQUIRED_BETA),
        header("content-type", "application/x-www-form-urlencoded"),
        header("accept", "application/json, text/plain, */*"),
        header("origin", DEFAULT_CLAUDE_AI_BASE_URL),
        (String::from_str("referer"), joined(DEFAULT_CLAUDE_AI_BASE_URL, "/")),
        header("user-agent", DEFAULT_TOKEN_USER_AGENT),
    ];
    let r = OutgoingRequest {
        method: HttpMethod::Post,
        url: joined(DEFAULT_BASE_URL, "/v1/oauth/token"),
        headers,
        body: Some(claude_code_exchange_body(stored, code)),
    };
    assert(request_view(r).headers =~= claude_exchange_request_of(*stored, code@).headers);
    r
}

/// The OpenAI code exchange: a form POST to the token endpoint of the issuer
/// the flow was started with.
pub open spec fn codex_exchange_request_of(stored: StoredOAuthState, code: Seq<char>) -> RequestView {
    RequestView {
        method: HttpMethod::Post,
        url: strip_trailing(or_default(clean_opt(stored.oauth_issuer), DEFAULT_CODEX_ISSUER@), '/')
            + "/oauth/token"@,
        headers: seq![
            ("content-type"@, "application/x-www-form-urlencoded"@),
            ("accept"@, "application/json"@),
            ("user-agent"@, DEFAULT_CODEX_USER_AGENT@),
        ],
        body: Some(codex_exchange_body_text(code, stored.redirect_uri@, stored.code_verifier@)),
    }
}

/// The OpenAI code exchange request.
pub fn codex_code_exchange_request(stored: &StoredOAuthState, code: &str) -> (r: OutgoingRequest)
    ensures
        request_view(r) == codex_exchange_request_of(*stored, code@),
{
    let headers = vec![
        header("content-type", "application/x-www-form-urlencoded"),
        header("accept", "application/json"),
        header("user-agent", DEFAULT_CODEX_USER_AGENT),
    ];
    let r = OutgoingRequest {
        method: HttpMethod::Post,
        url: codex_token_url(stored),
        headers,
        body: Some(codex_code_exchange_body(stored, code)),
    };
    assert(request_view(r).headers =~= codex_exchange_request_of(*stored, code@).headers);
    r
}

/// The Anthropic token refresh: a form POST to the token endpoint.
pub open spec fn claude_refresh_request_of(refresh_token: Seq<char>) -> RequestView {
    RequestView {
        method: HttpMethod::Post,
        url: DEFAULT_BASE_URL@ + "/v1/oauth/token"@,
        headers: anthropic_form_headers() + seq![("user-agent"@, DEFAULT_TOKEN_USER_AGENT@)],
        body: Some(claude_refresh_body_text(refresh_token)),
    }
}

/// The Anthropic token refresh request.
pub fn claude_refresh_request(refresh_token: &str) -> (r: OutgoingRequest)
    ensures
        request_view(r) == claude_refresh_request_of(refresh_token@),
{
    let headers = vec![
        header("anthropic-version", DEFAULT_ANTHROPIC_VERSION),
        header("anthropic-beta", DEFAULT_REQUIRED_BETA),
        header("content-type", "application/x-www-form-urlencoded"),
        header("accept", "application/json, text/plain, */*"),
        header("user-agent", DEFAULT_TOKEN_USER_AGENT),
    ];
    let r = OutgoingRequest {
        method: HttpMethod::Post,
        url: joined(DEFAULT_BASE_URL, "/v1/oauth/token"),
        headers,
        body: Some(claude_refresh_body(refresh_token)),
    };
    assert(request_view(r).headers =~= claude_refresh_request_of(refresh_token@).headers);
    r
}

/// The JSON escape of one character, as `serde_json` writes it in a string:
/// `\"`, `\\`, the short escapes of backspace, form feed, line feed, carriage
/// return and tab, `\u00xx` (lower-case hex) for other control characters, and
/// every other character as it is.
pub open spec fn json_escape_char(c: char) -> Seq<char> {
    if c == '"' {
        seq!['\\', '"']
    } else if c == '\\' {
        seq!['\\', '\\']
    } else if c == '\u{8}' {
        seq!['\\', 'b']
    } else if c == '\u{c}' {
        seq!['\\', 'f']
    } else if c == '\n' {
        seq!['\\', 'n']
    } else if c == '\r' {
        seq!['\\', 'r']
    } else if c == '\t' {
        seq!['\\', 't']
    } else if (c as u32) < 32 {
        seq!['\\', 'u', '0', '0', hex_lower((c as u32 / 16) as u8), hex_lower((c as u32 % 16) as u8)]
    } else {
        seq![c]
    }
}

/// A lower-case hexadecimal digit.
pub open spec fn hex_lower(n: u8) -> char {
    if n < 10 {
        (48 + n) as char
    } else {
        (87 + n) as char
    }
}

/// The JSON escape of a text.
pub open spec fn json_escape(s: Seq<char>) -> Seq<char>
    decreases s.len(),
{
    if s.len() == 0 {
        Seq::empty()
    } else {
        json_escape(s.drop_last()) + json_escape_char(s.last())
    }
}

/// Appends the JSON escape of a character.
fn push_escaped(out: &mut Vec<char>, c: char)
    ensures
        final(out)@ == old(out)@ + json_escape_char(c),
{
    let ghost before = out@;
    let u = c as u32;
    if c == '"' || c == '\\' {
        out.push('\\');
        out.push(c);
    } else if c == '\u{8}' {
        out.push('\\');
        out.push('b');
    } else if c == '\u{c}' {
        out.push('\\');
        out.push('f');
    } else if c == '\n' {
        out.push('\\');
        out.push('n');
    } else if c == '\r' {
        out.push('\\');
        out.push('r');
    } else if c == '\t' {
        out.push('\\');
        out.push('t');
    } else if u < 32 {
        let hi = (u / 16) as u8;
        let lo = (u % 16) as u8;
        out.push('\\');
        out.push('u');
        out.push('0');
        out.push('0');
        out.push(if hi < 10 { (48 + hi) as char } else { (87 + hi) as char });
        out.push(if lo < 10 { (48 + lo) as char } else { (87 + lo) as char });
    } else {
        out.push(c);
    }
    assert(out@ =~= before + json_escape_char(c));
}

/// The JSON escape of a text.
fn json_escaped(s: &str) -> (r: String)
    ensures
        r@ == json_escape(s@),
{
    let v = crate::text::chars_of(s);
    let n = v.len();
    let mut out: Vec<char> = Vec::new();
    let mut i: usize = 0;
    while i < n
        invariant
            n == v@.len(),
            v@ == s@,
            i <= n,
            out@ == json_escape(v@.subrange(0, i as int)),
        decreases n - i,
    {
        proof {
            let t = v@.subrange(0, i + 1);
            assert(t.drop_last() =~= v@.subrange(0, i as int));
            assert(t.last() == v@[i as int]);
        }
        push_escaped(&mut out, v[i]);
        i = i + 1;
    }
    assert(v@.subrange(0, n as int) =~= v@);
    string_from_chars(out.as_slice())
}

/// The JSON text of a Codex refresh body, as `serde_json` writes the object
/// `{"client_id", "grant_type", "refresh_token", "scope"}` (keys in order, no
/// spaces).
pub open spec fn codex_refresh_json(refresh_token: Seq<char>) -> Seq<char> {
    "{\"client_id\":\""@ + json_escape(CODEX_OAUTH_CLIENT_ID@)
        + "\",\"grant_type\":\"refresh_token\",\"refresh_token\":\""@ + json_escape(refresh_token)
        + "\",\"scope\":\"openid profile email\"}"@
}

/// The OpenAI token refresh: a JSON POST to the default issuer's token endpoint.
pub open spec fn codex_refresh_request_of(refresh_token: Seq<char>) -> RequestView {
    RequestView {
        method: HttpMethod::Post,
        url: DEFAULT_CODEX_ISSUER@ + "/oauth/token"@,
        headers: seq![
            ("content-type"@, "application/json"@),
            ("accept"@, "application/json"@),
            ("user-agent"@, DEFAULT_CODEX_USER_AGENT@),
        ],
        body: Some(codex_refresh_json(refresh_token)),
    }
}

/// The OpenAI token refresh request.
pub fn codex_refresh_request(refresh_token: &str) -> (r: OutgoingRequest)
    ensures
        request_view(r) == codex_refresh_request_of(refresh_token@),
{
    let mut body = String::from_str("{\"client_id\":\"");
    body.append(json_escaped(CODEX_OAUTH_CLIENT_ID).as_str());
    body.append("\",\"grant_type\":\"refresh_token\",\"refresh_token\":\"");
    body.append(json_escaped(refresh_token).as_str());
    body.append("\",\"scope\":\"openid profile email\"}");
    let headers = vec![
        header("content-type", "application/json"),
        header("accept", "application/json"),
        header("user-agent", DEFAULT_CODEX_USER_AGENT),
    ];
    let r = OutgoingRequest {
        method: HttpMethod::Post,
        url: joined(DEFAULT_CODEX_ISSUER, "/oauth/token"),
        headers,
        body: Some(body),
    };
    assert(request_view(r).headers =~= codex_refresh_request_of(refresh_token@).headers);
    r
}

/// A GET to Anthropic's OAuth API at `path` with an access token.
pub open spec fn anthropic_get_of(path: Seq<char>, access_token: Seq<char>) -> RequestView {
    RequestView {
        method: HttpMethod::Get,
        url: DEFAULT_BASE_URL@ + path,
        headers: seq![
            ("authorization"@, "Bearer "@ + access_token),
            ("accept"@, "application/json"@),
            ("anthropic-beta"@, DEFAULT_REQUIRED_BETA@),
            ("user-agent"@, DEFAULT_USER_AGENT@),
        ],
        body: None,
    }
}

/// A GET to Anthropic's OAuth API at `path` with an access token.
fn anthropic_get(path: &str, access_token: &str) -> (r: OutgoingRequest)
    ensures
        request_view(r) == anthropic_get_of(path@, access_token@),
{
    let headers = vec![
        (String::from_str("authorization"), joined("Bearer ", access_token)),
        header("accept", "application/json"),
        header("anthropic-beta", DEFAULT_REQUIRED_BETA),
        header("user-agent", DEFAULT_USER_AGENT),
    ];
    let r = OutgoingRequest {
        method: HttpMethod::Get,
        url: joined(DEFAULT_BASE_URL, path),
        headers,
        body: None,
    };
    assert(request_view(r).headers =~= anthropic_get_of(path@, access_token@).headers);
    r
}

/// The request for the Anthropic account profile of an access token.
pub fn profile_request(access_token: &str) -> (r: OutgoingRequest)
    ensures
        request_view(r) == anthropic_get_of("/api/oauth/profile"@, access_token@),
{
    anthropic_get("/api/oauth/profile", access_token)
}

/// The request for the Anthropic usage of an access token.
pub fn claude_usage_request(access_token: &str) -> (r: OutgoingRequest)
    ensures
        request_view(r) == anthropic_get_of("/api/oauth/usage"@, access_token@),
{
    anthropic_get("/api/oauth/usage", access_token)
}

/// The request for the Codex usage of an account.
pub open spec fn codex_usage_request_of(access_token: Seq<char>, account_id: Seq<char>) -> RequestView {
    RequestView {
        method: HttpMethod::Get,
        url: strip_suffix_all(DEFAULT_CODEX_BASE_URL@, "/codex"@) + "/wham/usage"@,
        headers: seq![
            ("authorization"@, "Bearer "@ + access_token),
            ("chatgpt-account-id"@, account_id),
            ("originator"@, DEFAULT_CODEX_ORIGINATOR@),
            ("user-agent"@, DEFAULT_CODEX_USER_AGENT@),
            ("accept"@, "application/json"@),
        ],
        body: None,
    }
}

/// The request for the Codex usage of an account.
pub fn codex_usage_request(access_token: &str, account_id: &str) -> (r: OutgoingRequest)
    ensures
        request_view(r) == codex_usage_request_of(access_token@, account_id@),
{
    let headers = vec![
        (String::from_str("authorization"), joined("Bearer ", access_token)),
        header("chatgpt-account-id", account_id),
        header("originator", DEFAULT_CODEX_ORIGINATOR),
        header("user-agent", DEFAULT_CODEX_USER_AGENT),
        header("accept", "application/json"),
    ];
    let r = OutgoingRequest { method: HttpMethod::Get, url: codex_usage_url(), headers, body: None };
    assert(request_view(r).headers =~= codex_usage_request_of(access_token@, account_id@).headers);
    r
}

} // verus!
