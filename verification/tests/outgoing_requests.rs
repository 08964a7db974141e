use sgproxy::config::{ChannelKind, StoredOAuthState};
use sgproxy::do_state::HttpMethod;
use sgproxy::requests::{
    claude_code_exchange_request, claude_refresh_request, claude_usage_request,
    codex_code_exchange_request, codex_refresh_request, codex_usage_request, profile_request,
    OutgoingRequest,
};

fn s(v: &str) -> String {
    v.to_string()
}

fn headers(v: &[(&str, &str)]) -> Vec<(String, String)> {
    v.iter().map(|(a, b)| (s(a), s(b))).collect()
}

fn stored() -> StoredOAuthState {
    StoredOAuthState {
        channel: ChannelKind::Codex,
        state_id: s("st"),
        code_verifier: s("ver"),
        redirect_uri: s("https://r.test/cb"),
        oauth_issuer: Some(s("https://issuer.test/")),
        created_at_unix_ms: 1,
    }
}

#[test]
fn anthropic_refresh_request() {
    assert_eq!(
        claude_refresh_request("r t"),
        OutgoingRequest {
            method: HttpMethod::Post,
            url: s("https://api.anthropic.com/v1/oauth/token"),
            headers: headers(&[
                ("anthropic-version", "2023-06-01"),
                ("anthropic-beta", "oauth-2025-04-20"),
                ("content-type", "application/x-www-form-urlencoded"),
                ("accept", "application/json, text/plain, */*"),
                ("user-agent", "axios/1.8.4"),
            ]),
            body: Some(s("grant_type=refresh_token&client_id=9d1c250a-e61b-44d9-88ed-5944d1962f5e&refresh_token=r+t")),
        }
    );
}

#[test]
fn codex_refresh_request_is_json() {
    let r = codex_refresh_request("a\"b\\c\nd\u{1}é");
    assert_eq!(r.method, HttpMethod::Post);
    assert_eq!(r.url, "https://auth.openai.com/oauth/token");
    assert_eq!(
        r.headers,
        headers(&[("content-type", "application/json"), ("accept", "application/json"), ("user-agent", "codex_cli_rs/0.46.0")])
    );
    let mut body = serde_json::Map::new();
    for (k, v) in [
        ("scope", "openid profile email"),
        ("refresh_token", "a\"b\\c\nd\u{1}é"),
        ("grant_type", "refresh_token"),
        ("client_id", "app_EMoamEEZ73f0CkXaXp7hrann"),
    ] {
        body.insert(s(k), serde_json::Value::String(s(v)));
    }
    let expected = serde_json::to_string(&serde_json::Value::Object(body)).unwrap();
    assert_eq!(r.body, Some(expected));
}

#[test]
fn code_exchange_requests() {
    let a = claude_code_exchange_request(&stored(), "c#x");
    assert_eq!(a.url, "https://api.anthropic.com/v1/oauth/token");
    assert_eq!(a.headers[4], (s("origin"), s("https://console.anthropic.com")));
    assert_eq!(a.headers[5], (s("referer"), s("https://console.anthropic.com/")));
    assert_eq!(a.headers.len(), 7);
    assert_eq!(
        a.body,
        Some(s("grant_type=authorization_code&client_id=9d1c250a-e61b-44d9-88ed-5944d1962f5e&code=c&redirect_uri=https%3A%2F%2Fr.test%2Fcb&code_verifier=ver&state=st"))
    );
    let o = codex_code_exchange_request(&stored(), "k");
    assert_eq!(o.url, "https://issuer.test/oauth/token");
    assert_eq!(o.headers.len(), 3);
    assert_eq!(o.method, HttpMethod::Post);
}

#[test]
fn profile_and_usage_requests() {
    let p = profile_request("tok");
    assert_eq!(p.method, HttpMethod::Get);
    assert_eq!(p.url, "https://api.anthropic.com/api/oauth/profile");
    assert_eq!(p.headers[0], (s("authorization"), s("Bearer tok")));
    assert_eq!(p.body, None);
    assert_eq!(claude_usage_request("tok").url, "https://api.anthropic.com/api/oauth/usage");
    let c = codex_usage_request("tok", "acc");
    assert_eq!(c.url, "https://chatgpt.com/backend-api/wham/usage");
    assert_eq!(
        c.headers,
        headers(&[
            ("authorization", "Bearer tok"),
            ("chatgpt-account-id", "acc"),
            ("originator", "codex_cli_rs"),
            ("user-agent", "codex_cli_rs/0.46.0"),
            ("accept", "application/json"),
        ])
    );
}
