use sgproxy::config::{
    ChannelKind, CredentialConfig, CredentialStatus, CredentialUsageBucket, CredentialUsageSnapshot, DurableStateDoc,
};
use sgproxy::do_state::{api_request, usage_or_error};
use sgproxy::do_state::{
    authorize, bearer_token, error_body, proxy_transport_failure, channel_credentials, ensure_channel_credential, find_credential,
    find_existing, get_channel_credential, is_codex_review, proxy_follow_up, request_subagent_is_review,
    route, route_api, usage_fetch_failed_message, usage_fetch_plan, ApiRoute, AuthError, HttpMethod,
    ProxyFollowUp, Route, StateError, UsageFetch,
};

fn s(v: &str) -> String {
    v.to_string()
}

fn cred(id: &str, channel: ChannelKind) -> CredentialConfig {
    CredentialConfig {
        id: s(id),
        channel,
        enabled: true,
        order: 0,
        access_token: s("a"),
        refresh_token: s("r"),
        expires_at_unix_ms: 0,
        user_email: None,
        account_id: None,
        organization_uuid: None,
        subscription_type: None,
        rate_limit_tier: None,
        status: CredentialStatus::Healthy,
        cooldown_until_unix_ms: None,
        last_error: None,
        last_used_at_unix_ms: None,
    }
}

fn doc() -> DurableStateDoc {
    let mut second = cred("x", ChannelKind::ClaudeCode);
    second.order = 7;
    DurableStateDoc {
        credentials: vec![cred("x", ChannelKind::Codex), second, cred("y", ChannelKind::ClaudeCode), cred("x", ChannelKind::ClaudeCode)],
    }
}

#[test]
fn routes_of_paths() {
    assert_eq!(route(HttpMethod::Get, "/api/claudecode/public/credentials"), Route::PublicCredentials);
    assert_eq!(
        route(HttpMethod::Post, "/api/claudecode/public/credentials"),
        Route::Api(ChannelKind::ClaudeCode, s("/public/credentials"))
    );
    assert_eq!(route(HttpMethod::Get, "/api/codex/credentials"), Route::Api(ChannelKind::Codex, s("/credentials")));
    assert_eq!(route(HttpMethod::Post, "/v1/messages"), Route::Proxy(ChannelKind::ClaudeCode));
    assert_eq!(route(HttpMethod::Get, "/v1"), Route::Proxy(ChannelKind::ClaudeCode));
    assert_eq!(route(HttpMethod::Post, "/codex/v1/responses/input_tokens"), Route::CodexInputTokens);
    assert_eq!(route(HttpMethod::Get, "/codex/v1/responses/input_tokens"), Route::Proxy(ChannelKind::Codex));
    assert_eq!(route(HttpMethod::Post, "/codex/responses"), Route::Proxy(ChannelKind::Codex));
    assert_eq!(route(HttpMethod::Get, "/codex"), Route::Proxy(ChannelKind::Codex));
    assert_eq!(route(HttpMethod::Get, "/v2"), Route::NotFound);
    assert_eq!(route(HttpMethod::Get, "/codexx"), Route::NotFound);
}

#[test]
fn admin_api_routes() {
    assert_eq!(route_api(HttpMethod::Get, "/credentials"), ApiRoute::ListCredentials);
    assert_eq!(route_api(HttpMethod::Post, "/credentials"), ApiRoute::CreateCredential);
    assert_eq!(route_api(HttpMethod::Get, "/credentials/usage"), ApiRoute::ListUsage);
    assert_eq!(route_api(HttpMethod::Get, "/credentials/usage/abc"), ApiRoute::GetUsage(s("abc")));
    assert_eq!(
        route_api(HttpMethod::Get, "/credentials/usage//credentials/usage/abc"),
        ApiRoute::GetUsage(s("abc"))
    );
    assert_eq!(route_api(HttpMethod::Post, "/oauth/start"), ApiRoute::OAuthStart);
    assert_eq!(route_api(HttpMethod::Post, "/oauth/callback"), ApiRoute::OAuthCallback);
    assert_eq!(route_api(HttpMethod::Post, "/credentials/c1/enable"), ApiRoute::SetEnabled(s("c1"), true));
    assert_eq!(route_api(HttpMethod::Post, "/credentials/c1/disable"), ApiRoute::SetEnabled(s("c1"), false));
    assert_eq!(route_api(HttpMethod::Post, "/credentials/c1/enable/enable"), ApiRoute::SetEnabled(s("c1"), true));
    assert_eq!(route_api(HttpMethod::Put, "/credentials/c1"), ApiRoute::UpdateCredential(s("c1")));
    assert_eq!(route_api(HttpMethod::Delete, "/credentials/c1"), ApiRoute::DeleteCredential(s("c1")));
    assert_eq!(route_api(HttpMethod::Delete, "/credentials/c1/x"), ApiRoute::NotFound);
    assert_eq!(route_api(HttpMethod::Get, "/credentials/c1/enable"), ApiRoute::NotFound);
    assert_eq!(route_api(HttpMethod::Get, "/oauth/start"), ApiRoute::NotFound);
    assert_eq!(route_api(HttpMethod::Other, "/elsewhere"), ApiRoute::NotFound);
}

#[test]
fn bearer_tokens() {
    assert_eq!(bearer_token(Some("Bearer  tok ")), Some(s("tok")));
    assert_eq!(bearer_token(Some("Bearer    ")), None);
    assert_eq!(bearer_token(Some("bearer tok")), None);
    assert_eq!(bearer_token(None), None);
}

#[test]
fn admin_authorization() {
    assert_eq!(authorize(Some("secret"), Some("Bearer secret")), Ok(()));
    assert_eq!(authorize(Some("secret"), Some("Bearer other")), Err(AuthError::Unauthorized));
    assert_eq!(authorize(Some("secret"), None), Err(AuthError::Unauthorized));
    assert_eq!(authorize(None, Some("Bearer secret")), Err(AuthError::MissingSecret));
    assert_eq!(AuthError::MissingSecret.message(), "missing ADMIN_TOKEN secret");
    assert_eq!(AuthError::Unauthorized.message(), "unauthorized");
}

#[test]
fn review_subagent_header() {
    assert!(request_subagent_is_review(Some(" ReView ")));
    assert!(!request_subagent_is_review(Some("reviewing")));
    assert!(!request_subagent_is_review(None));
    assert!(is_codex_review(ChannelKind::Codex, Some("review")));
    assert!(!is_codex_review(ChannelKind::ClaudeCode, Some("review")));
}

#[test]
fn credential_lookup() {
    let d = doc();
    assert_eq!(find_credential(&d.credentials, ChannelKind::ClaudeCode, "x"), Some(1));
    assert_eq!(find_credential(&d.credentials, ChannelKind::Codex, "y"), None);
    assert!(ensure_channel_credential(&d, ChannelKind::Codex, "x").is_ok());
    let missing = ensure_channel_credential(&d, ChannelKind::Codex, "y");
    assert_eq!(missing, Err(StateError::CredentialNotFound(s("y"))));
    assert_eq!(StateError::CredentialNotFound(s("y")).message(), "credential not found: y");
    assert_eq!(get_channel_credential(&d.credentials, ChannelKind::ClaudeCode, "x").map(|c| c.order), Ok(7));
}

#[test]
fn existing_credential_prefers_path_id() {
    let d = doc();
    let by_path = find_existing(&d, ChannelKind::ClaudeCode, Some("y"), Some("x"));
    assert_eq!(by_path.map(|c| c.id), Some(s("y")));
    let by_input = find_existing(&d, ChannelKind::ClaudeCode, Some("nope"), Some("x"));
    assert_eq!(by_input.map(|c| c.order), Some(7));
    assert_eq!(find_existing(&d, ChannelKind::Codex, None, Some("y")), None);
    assert_eq!(find_existing(&d, ChannelKind::Codex, None, None), None);
}

#[test]
fn credentials_of_one_channel() {
    let d = doc();
    let ids: Vec<String> = channel_credentials(&d.credentials, ChannelKind::ClaudeCode).into_iter().map(|c| c.id).collect();
    assert_eq!(ids, vec![s("x"), s("y"), s("x")]);
    assert_eq!(channel_credentials(&d.credentials, ChannelKind::Codex).len(), 1);
}

#[test]
fn usage_fetch_plans() {
    assert_eq!(usage_fetch_plan(ChannelKind::ClaudeCode, None), UsageFetch::ClaudeCode);
    assert_eq!(usage_fetch_plan(ChannelKind::Codex, Some(" a1 ")), UsageFetch::Codex(s(" a1 ")));
    assert_eq!(usage_fetch_plan(ChannelKind::Codex, Some("  ")), UsageFetch::MissingAccountId);
    assert_eq!(usage_fetch_plan(ChannelKind::Codex, None), UsageFetch::MissingAccountId);
}

#[test]
fn proxy_follow_ups() {
    assert_eq!(proxy_follow_up(ChannelKind::Codex, 200, None), ProxyFollowUp::RecordSuccess);
    assert_eq!(proxy_follow_up(ChannelKind::ClaudeCode, 299, None), ProxyFollowUp::RecordSuccess);
    assert_eq!(
        proxy_follow_up(ChannelKind::ClaudeCode, 401, None),
        ProxyFollowUp::RecordInvalidAuth(s("upstream returned status 401"))
    );
    assert_eq!(
        proxy_follow_up(ChannelKind::Codex, 403, Some("a")),
        ProxyFollowUp::RecordInvalidAuth(s("upstream returned status 403"))
    );
    assert_eq!(proxy_follow_up(ChannelKind::ClaudeCode, 429, None), ProxyFollowUp::FetchClaudeUsage);
    assert_eq!(proxy_follow_up(ChannelKind::Codex, 429, Some("acc")), ProxyFollowUp::FetchCodexUsage(s("acc")));
    assert_eq!(
        proxy_follow_up(ChannelKind::Codex, 429, None),
        ProxyFollowUp::RecordRateLimited(s("upstream returned status 429; missing account_id"))
    );
    assert_eq!(
        proxy_follow_up(ChannelKind::Codex, 500, None),
        ProxyFollowUp::RecordTransient(s("upstream returned status 500"))
    );
    assert_eq!(
        proxy_follow_up(ChannelKind::ClaudeCode, 302, None),
        ProxyFollowUp::RecordTransient(s("upstream returned status 302"))
    );
    assert_eq!(
        usage_fetch_failed_message("timeout"),
        "upstream returned status 429; usage fetch failed: timeout"
    );
}

#[test]
fn transport_failure_answers_502() {
    use_error_body();
}

fn use_error_body() {
    let expected = sgproxy::json::JsonValue::Object(vec![(s("error"), sgproxy::json::JsonValue::String(s("timed out")))]);
    assert_eq!(error_body("timed out"), expected);
    let (follow, status, body) = proxy_transport_failure("timed out");
    assert_eq!(follow, ProxyFollowUp::RecordTransient(s("timed out")));
    assert_eq!(status, 502);
    assert_eq!(body, expected);
}

#[test]
fn management_calls_need_the_admin_token() {
    assert_eq!(api_request(HttpMethod::Get, "/credentials", Some("k"), Some("Bearer k")), Ok(ApiRoute::ListCredentials));
    assert_eq!(api_request(HttpMethod::Get, "/credentials", Some("k"), Some("Bearer x")), Err(AuthError::Unauthorized));
    assert_eq!(api_request(HttpMethod::Delete, "/credentials/c1", None, Some("Bearer k")), Err(AuthError::MissingSecret));
    assert_eq!(api_request(HttpMethod::Post, "/oauth/start", Some("k"), None), Err(AuthError::Unauthorized));
    assert_eq!(api_request(HttpMethod::Get, "/nowhere", Some("k"), None), Ok(ApiRoute::NotFound));
    assert_eq!(api_request(HttpMethod::Get, "/nowhere", None, None), Ok(ApiRoute::NotFound));
}

#[test]
fn failed_usage_fetches_keep_the_list() {
    let failed = usage_or_error(Err(s("timeout")));
    assert_eq!(failed.last_error, Some(s("timeout")));
    assert_eq!(failed.five_hour, CredentialUsageBucket { utilization_pct: None, resets_at: None });
    assert_eq!(failed.codex, None);
    let ok = CredentialUsageSnapshot {
        five_hour: CredentialUsageBucket { utilization_pct: Some(3), resets_at: None },
        seven_day: CredentialUsageBucket { utilization_pct: None, resets_at: None },
        seven_day_sonnet: CredentialUsageBucket { utilization_pct: None, resets_at: None },
        codex: None,
        last_error: None,
    };
    let same = usage_or_error(Ok(CredentialUsageSnapshot {
        five_hour: CredentialUsageBucket { utilization_pct: Some(3), resets_at: None },
        seven_day: CredentialUsageBucket { utilization_pct: None, resets_at: None },
        seven_day_sonnet: CredentialUsageBucket { utilization_pct: None, resets_at: None },
        codex: None,
        last_error: None,
    }));
    assert_eq!(same, ok);
    let skipped = UsageFetch::MissingAccountId.skipped_usage().unwrap();
    assert_eq!(skipped.last_error, Some(s("missing account_id")));
    assert_eq!(UsageFetch::ClaudeCode.skipped_usage(), None);
}
