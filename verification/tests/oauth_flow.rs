use base64::Engine as _;
use sha2::Digest as _;
use sgproxy::config::{ChannelKind, StoredOAuthState, CLAUDE_CODE_OAUTH_SCOPE, DEFAULT_REDIRECT_URI};
use sgproxy::oauth::{
    clean_opt_str, clean_string, claude_code_exchange_body, codex_base_url, codex_code_exchange_body,
    codex_token_url, extract_inline_query_value, extract_labeled_value, extract_manual_code,
    oauth_start_claudecode, oauth_start_codex, resolve_code_and_state, sanitize_oauth_code,
    CallbackError, OAuthCallbackInput, OAuthStartInput,
};

fn no_options() -> OAuthStartInput {
    OAuthStartInput { redirect_uri: None, scope: None, issuer: None, originator: None }
}

fn challenge_of(verifier: &str) -> String {
    base64::engine::general_purpose::URL_SAFE_NO_PAD.encode(sha2::Sha256::digest(verifier.as_bytes()))
}

fn callback(url: Option<&str>, code: Option<&str>, state: Option<&str>) -> OAuthCallbackInput {
    OAuthCallbackInput {
        callback_url: url.map(|s| s.to_string()),
        code: code.map(|s| s.to_string()),
        state: state.map(|s| s.to_string()),
    }
}

#[test]
fn clean_opt_str_trims_and_drops_blank() {
    assert_eq!(clean_opt_str("  abc \n"), Some("abc".to_string()));
    assert_eq!(clean_opt_str(" \t "), None);
    assert_eq!(clean_opt_str(""), None);
    assert_eq!(clean_string(" x y ".to_string()), Some("x y".to_string()));
}

#[test]
fn claude_start_uses_defaults_and_pkce() {
    let started = oauth_start_claudecode(no_options(), 1_700_000_000_000);
    let state = started.response.state.clone();
    let verifier = started.stored_state.code_verifier.clone();
    assert_eq!(started.response.redirect_uri, DEFAULT_REDIRECT_URI);
    assert_eq!(state.len(), 32);
    assert_eq!(verifier.len(), 43);
    assert_eq!(started.stored_state.state_id, state);
    assert_eq!(started.stored_state.channel, ChannelKind::ClaudeCode);
    assert!(started.stored_state.oauth_issuer.is_none());
    assert_eq!(started.stored_state.created_at_unix_ms, 1_700_000_000_000);
    assert!(state.chars().chain(verifier.chars()).all(|c| c.is_ascii_alphanumeric() || c == '-' || c == '_'));
    let expected = format!(
        "https://console.anthropic.com/oauth/authorize?code=true&client_id=9d1c250a-e61b-44d9-88ed-5944d1962f5e\
         &response_type=code&redirect_uri=https%3A%2F%2Fconsole.anthropic.com%2Foauth%2Fcode%2Fcallback\
         &scope=org%3Acreate_api_key+user%3Aprofile+user%3Ainference&code_challenge={}\
         &code_challenge_method=S256&state={}",
        challenge_of(&verifier),
        state
    );
    assert_eq!(started.response.auth_url, expected);
    assert_eq!(CLAUDE_CODE_OAUTH_SCOPE, "org:create_api_key user:profile user:inference");
}

#[test]
fn oauth_starts_draw_fresh_states() {
    let a = oauth_start_claudecode(no_options(), 1);
    let b = oauth_start_claudecode(no_options(), 1);
    assert_ne!(a.response.state, b.response.state);
    assert_ne!(a.stored_state.code_verifier, b.stored_state.code_verifier);
}

#[test]
fn codex_start_uses_given_issuer_and_options() {
    let started = oauth_start_codex(OAuthStartInput {
        redirect_uri: Some(" http://localhost:9999/cb ".to_string()),
        scope: Some("openid".to_string()),
        issuer: Some("https://auth.example.com/".to_string()),
        originator: None,
    }, 42);
    let state = started.response.state.clone();
    let verifier = started.stored_state.code_verifier.clone();
    assert_eq!(verifier.len(), 86);
    assert_eq!(started.response.redirect_uri, "http://localhost:9999/cb");
    assert_eq!(started.stored_state.oauth_issuer, Some("https://auth.example.com/".to_string()));
    assert_eq!(started.stored_state.channel, ChannelKind::Codex);
    assert_eq!(started.stored_state.created_at_unix_ms, 42);
    assert_eq!(state.len(), 32);
    let expected = format!(
        "https://auth.example.com/oauth/authorize?response_type=code&client_id=app_EMoamEEZ73f0CkXaXp7hrann\
         &redirect_uri=http%3A%2F%2Flocalhost%3A9999%2Fcb&scope=openid&code_challenge={}\
         &code_challenge_method=S256&id_token_add_organizations=true&codex_cli_simplified_flow=true\
         &state={}&originator=codex_cli_rs",
        challenge_of(&verifier),
        state
    );
    assert_eq!(started.response.auth_url, expected);
}

#[test]
fn codex_base_url_is_backend() {
    assert_eq!(codex_base_url(), "https://chatgpt.com/backend-api/codex");
}

#[test]
fn callback_explicit_code_and_state() {
    let r = resolve_code_and_state(&callback(None, Some(" abc "), Some("s1")));
    assert_eq!(r, Ok(("abc".to_string(), Some("s1".to_string()))));
}

#[test]
fn callback_url_query_gives_code_and_state() {
    let r = resolve_code_and_state(&callback(
        Some("http://localhost:1455/auth/callback?code=XYZ&state=ST"),
        None,
        None,
    ));
    assert_eq!(r, Ok(("XYZ".to_string(), Some("ST".to_string()))));
}

#[test]
fn callback_url_fragment_gives_code() {
    let r = resolve_code_and_state(&callback(
        Some("https://console.anthropic.com/oauth/code/callback#code=CODE123&state=S"),
        None,
        None,
    ));
    assert_eq!(r, Ok(("CODE123".to_string(), Some("S".to_string()))));
}

#[test]
fn callback_percent_encoded_value_is_decoded() {
    let r = resolve_code_and_state(&callback(Some("https://x.test/cb?code=a%2Fb%20c"), None, None));
    assert_eq!(r, Ok(("a/b c".to_string(), None)));
}

#[test]
fn callback_bare_code_is_the_code() {
    let r = resolve_code_and_state(&callback(Some("  abc123  "), None, None));
    assert_eq!(r, Ok(("abc123".to_string(), None)));
}

#[test]
fn callback_explicit_code_wins_over_url() {
    let r = resolve_code_and_state(&callback(Some("https://x.test/cb?code=B&state=T"), Some("A"), None));
    assert_eq!(r, Ok(("A".to_string(), Some("T".to_string()))));
}

#[test]
fn callback_without_code_is_refused() {
    assert_eq!(resolve_code_and_state(&callback(None, None, Some("s"))), Err(CallbackError::MissingCode));
    assert_eq!(CallbackError::MissingCode.message(), "missing code");
    assert_eq!(
        resolve_code_and_state(&callback(Some("https://h/cb?state=s1"), Some("   "), None)),
        Err(CallbackError::MissingCode)
    );
    assert_eq!(
        resolve_code_and_state(&callback(Some("https://x.test/cb?state=T"), Some("  "), None)),
        Err(CallbackError::MissingCode)
    );
}

#[test]
fn inline_query_value_stops_and_decodes() {
    assert_eq!(extract_inline_query_value("see code=a%20b&x=1", "code"), Some("a b".to_string()));
    assert_eq!(extract_inline_query_value("code=xyz\"rest", "code"), Some("xyz".to_string()));
    assert_eq!(extract_inline_query_value("code=&x", "code"), None);
    assert_eq!(extract_inline_query_value("nothing here", "code"), None);
}

#[test]
fn labeled_value_reads_lines_in_any_case() {
    assert_eq!(extract_labeled_value("Code: xyz\nstate=1", "code"), Some("xyz".to_string()));
    assert_eq!(extract_labeled_value("Code: xyz\nstate=1", "state"), Some("1".to_string()));
    assert_eq!(extract_labeled_value("code:   \nother", "code"), None);
}

#[test]
fn manual_code_rules() {
    assert_eq!(extract_manual_code("  abc  "), Some("abc".to_string()));
    assert_eq!(extract_manual_code("a b"), None);
    assert_eq!(extract_manual_code("x?y"), None);
    assert_eq!(extract_manual_code("https://a.b/c"), None);
    assert_eq!(extract_manual_code("code: q1"), Some("q1".to_string()));
}

#[test]
fn sanitize_cuts_fragment_and_params() {
    assert_eq!(sanitize_oauth_code(" abc#frag&x "), "abc");
    assert_eq!(sanitize_oauth_code("code&state=1"), "code");
    assert_eq!(sanitize_oauth_code("plain"), "plain");
}

#[test]
fn sanitize_is_idempotent_on_examples() {
    for code in [" a#b ", "x&y#z", "  q  ", "#", "a b&c"] {
        let once = sanitize_oauth_code(code);
        assert_eq!(sanitize_oauth_code(&once), once);
    }
}

fn stored(channel: ChannelKind, issuer: Option<&str>) -> StoredOAuthState {
    StoredOAuthState {
        channel,
        state_id: "st 1".to_string(),
        code_verifier: "ver".to_string(),
        redirect_uri: "https://r.test/cb".to_string(),
        oauth_issuer: issuer.map(|s| s.to_string()),
        created_at_unix_ms: 1,
    }
}

#[test]
fn claude_exchange_body_is_form_encoded() {
    let body = claude_code_exchange_body(&stored(ChannelKind::ClaudeCode, None), " c#x ");
    assert_eq!(
        body,
        "grant_type=authorization_code&client_id=9d1c250a-e61b-44d9-88ed-5944d1962f5e&code=c\
         &redirect_uri=https%3A%2F%2Fr.test%2Fcb&code_verifier=ver&state=st+1"
    );
}

#[test]
fn codex_exchange_body_and_token_url() {
    let s = stored(ChannelKind::Codex, Some(" https://issuer.test// "));
    assert_eq!(
        codex_code_exchange_body(&s, "k&z"),
        "grant_type=authorization_code&code=k&redirect_uri=https%3A%2F%2Fr.test%2Fcb\
         &client_id=app_EMoamEEZ73f0CkXaXp7hrann&code_verifier=ver"
    );
    assert_eq!(codex_token_url(&s), "https://issuer.test/oauth/token");
    assert_eq!(codex_token_url(&stored(ChannelKind::Codex, None)), "https://auth.openai.com/oauth/token");
}
