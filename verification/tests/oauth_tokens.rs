use base64::Engine as _;
use sgproxy::config::{ChannelKind, CodexUsageWindow, CredentialConfig, CredentialStatus};
use sgproxy::json::{JsonNumber, JsonValue};
use sgproxy::oauth::{
    claude_refresh_body, claude_refresh_outcome, default_claude_headers, parse_u64_text, codex_refresh_body, codex_refresh_outcome,
    codex_refreshed_from_token, codex_usage_snapshot, codex_usage_url, expiry_from_now,
    id_token_payload, parse_codex_id_token_claims, parse_codex_import_profile, parse_codex_usage_window,
    parse_profile, refresh_gate, saturating_add_u64, saturating_mul_u64, upstream_status_check,
    ClaudeTokenResponse, CodexCreditsDetails, CodexIdTokenClaims, CodexRateLimitDetails,
    CodexRateLimitWindowPayload, CodexTokenResponse, CodexUsagePayload, OAuthProfile,
    OAuthProfileAccount, OAuthProfileOrg, OAuthProfileParsed, RefreshError, RefreshedCredential,
};

fn s(v: &str) -> String {
    v.to_string()
}

fn text(v: &str) -> JsonValue {
    JsonValue::String(s(v))
}

fn obj(members: Vec<(&str, JsonValue)>) -> JsonValue {
    JsonValue::Object(members.into_iter().map(|(k, v)| (s(k), v)).collect())
}

fn cred(access: &str, refresh: &str, expires: u64) -> CredentialConfig {
    CredentialConfig {
        id: s("c1"),
        channel: ChannelKind::ClaudeCode,
        enabled: true,
        order: 2,
        access_token: s(access),
        refresh_token: s(refresh),
        expires_at_unix_ms: expires,
        user_email: Some(s("u@x.test")),
        account_id: Some(s("acc")),
        organization_uuid: None,
        subscription_type: Some(s("old")),
        rate_limit_tier: None,
        status: CredentialStatus::Healthy,
        cooldown_until_unix_ms: None,
        last_error: None,
        last_used_at_unix_ms: None,
    }
}

fn claude_token(access: Option<&str>, refresh: Option<&str>, expires_in: Option<u64>) -> ClaudeTokenResponse {
    ClaudeTokenResponse {
        access_token: access.map(s),
        refresh_token: refresh.map(s),
        expires_in,
        subscription_type: Some(s("max")),
        rate_limit_tier: Some(s("tier4")),
        error: None,
        error_description: None,
        organization_uuid: None,
    }
}

fn codex_token(access: Option<&str>, refresh: Option<&str>) -> CodexTokenResponse {
    CodexTokenResponse {
        access_token: access.map(s),
        refresh_token: refresh.map(s),
        id_token: None,
        expires_in: Some(10),
        error: None,
        error_description: None,
    }
}

fn claims() -> CodexIdTokenClaims {
    CodexIdTokenClaims { email: Some(s("e@x.test")), plan: Some(s("plus")), account_id: Some(s("acc-9")) }
}

#[test]
fn saturating_arithmetic() {
    assert_eq!(saturating_add_u64(u64::MAX - 1, 5), u64::MAX);
    assert_eq!(saturating_add_u64(2, 3), 5);
    assert_eq!(saturating_mul_u64(u64::MAX / 2, 3), u64::MAX);
    assert_eq!(saturating_mul_u64(7, 1000), 7000);
    assert_eq!(saturating_mul_u64(0, u64::MAX), 0);
}

#[test]
fn expiry_defaults_to_an_hour() {
    assert_eq!(expiry_from_now(1_000, None), 3_601_000);
    assert_eq!(expiry_from_now(1_000, Some(60)), 61_000);
    assert_eq!(expiry_from_now(u64::MAX - 10, Some(1)), u64::MAX);
}

#[test]
fn refresh_gate_cases() {
    assert!(matches!(refresh_gate(&cred("a", "r", 200_000), 100_000), Ok(false)));
    assert!(matches!(refresh_gate(&cred("a", "r", 160_000), 100_000), Ok(true)));
    assert!(matches!(refresh_gate(&cred("  ", "r", u64::MAX), 0), Ok(true)));
    assert_eq!(
        refresh_gate(&cred("", " ", 0), 0),
        Err(RefreshError::InvalidCredential(s("missing refresh_token")))
    );
}

#[test]
fn claude_refresh_body_is_encoded() {
    assert_eq!(
        claude_refresh_body("a b/c"),
        "grant_type=refresh_token&client_id=9d1c250a-e61b-44d9-88ed-5944d1962f5e&refresh_token=a+b%2Fc"
    );
}

#[test]
fn claude_refresh_success_keeps_account_data() {
    let c = cred("old", "oldref", 0);
    let r = claude_refresh_outcome(200, Some(claude_token(Some(" new "), None, Some(100))), b"{}", &c, 5);
    assert_eq!(
        r,
        Ok(RefreshedCredential {
            access_token: s("new"),
            refresh_token: s("oldref"),
            expires_at_unix_ms: 100_005,
            user_email: Some(s("u@x.test")),
            account_id: Some(s("acc")),
            subscription_type: Some(s("max")),
            rate_limit_tier: Some(s("tier4")),
        })
    );
}

#[test]
fn claude_refresh_success_without_access_token() {
    let c = cred("old", "oldref", 0);
    let r = claude_refresh_outcome(200, Some(claude_token(Some("  "), Some("x"), None)), b"", &c, 5);
    assert_eq!(r, Err(RefreshError::Transient(s("missing access_token"))));
    let r2 = claude_refresh_outcome(204, None, b"", &c, 5);
    assert_eq!(r2, Err(RefreshError::Transient(s("missing access_token"))));
}

#[test]
fn claude_refresh_failures_classify_status() {
    let c = cred("old", "oldref", 0);
    let mut t = claude_token(None, None, None);
    t.error = Some(s("invalid_grant"));
    let r = claude_refresh_outcome(400, Some(t), b"ignored", &c, 5);
    assert_eq!(
        r,
        Err(RefreshError::InvalidCredential(s(
            "oauth token refresh failed: status=400 error=invalid_grant description="
        )))
    );
    let r2 = claude_refresh_outcome(502, None, b"bad \xff gateway", &c, 5);
    assert_eq!(
        r2,
        Err(RefreshError::Transient(s("oauth token refresh failed: status=502 body=bad \u{fffd} gateway")))
    );
}

#[test]
fn codex_token_to_refreshed() {
    let r = codex_refreshed_from_token(codex_token(Some(" a "), Some(" r ")), claims(), 1);
    assert_eq!(
        r,
        Ok(RefreshedCredential {
            access_token: s("a"),
            refresh_token: s("r"),
            expires_at_unix_ms: 10_001,
            user_email: Some(s("e@x.test")),
            account_id: Some(s("acc-9")),
            subscription_type: Some(s("plus")),
            rate_limit_tier: None,
        })
    );
    assert_eq!(codex_refreshed_from_token(codex_token(None, Some("r")), claims(), 1), Err(s("missing access_token")));
    assert_eq!(codex_refreshed_from_token(codex_token(Some("a"), Some(" ")), claims(), 1), Err(s("missing refresh_token")));
}

#[test]
fn codex_refresh_outcomes() {
    assert_eq!(
        codex_refresh_outcome(200, None, claims(), b"", "", 1),
        Err(RefreshError::Transient(s("missing token response")))
    );
    let mut t = codex_token(None, None);
    t.error = Some(obj(vec![("type", text("invalid_request")), ("message", text(" expired ")), ("code", text("c1"))]));
    t.error_description = Some(s("desc"));
    assert_eq!(
        codex_refresh_outcome(401, Some(t), claims(), b"", "{}", 1),
        Err(RefreshError::InvalidCredential(s(
            "oauth token refresh failed: status=401 invalid_request | expired | code=c1 | desc"
        )))
    );
    let mut t2 = codex_token(None, None);
    t2.error = Some(JsonValue::Number(JsonNumber::PosInt(5)));
    assert_eq!(
        codex_refresh_outcome(500, Some(t2), claims(), b"", "5", 1),
        Err(RefreshError::Transient(s("oauth token refresh failed: status=500 5")))
    );
    assert_eq!(
        codex_refresh_outcome(503, None, claims(), b"down", "", 1),
        Err(RefreshError::Transient(s("oauth token refresh failed: status=503 body=down")))
    );
}

#[test]
fn codex_refresh_body_members() {
    assert_eq!(
        codex_refresh_body("rt"),
        obj(vec![
            ("client_id", text("app_EMoamEEZ73f0CkXaXp7hrann")),
            ("grant_type", text("refresh_token")),
            ("refresh_token", text("rt")),
            ("scope", text("openid profile email")),
        ])
    );
}

#[test]
fn profile_subscription_rules() {
    let profile = |org_type: Option<&str>, max: bool, pro: bool| OAuthProfile {
        account: OAuthProfileAccount { email: Some(s("a@b.c")), has_claude_max: max, has_claude_pro: pro },
        organization: OAuthProfileOrg {
            uuid: Some(s("org")),
            organization_type: org_type.map(s),
            rate_limit_tier: Some(s("t")),
        },
    };
    assert_eq!(
        parse_profile(profile(Some("team"), true, false)),
        OAuthProfileParsed {
            email: Some(s("a@b.c")),
            account_id: None,
            subscription_type: Some(s("team")),
            rate_limit_tier: Some(s("t")),
            organization_uuid: Some(s("org")),
        }
    );
    assert_eq!(parse_profile(profile(Some(" "), true, true)).subscription_type, Some(s("claude_max")));
    assert_eq!(parse_profile(profile(None, false, true)).subscription_type, Some(s("claude_pro")));
    assert_eq!(parse_profile(profile(None, false, false)).subscription_type, None);
}

#[test]
fn id_token_payload_decodes_middle_part() {
    let payload = base64::engine::general_purpose::URL_SAFE_NO_PAD.encode(b"{\"a\":1}");
    assert_eq!(id_token_payload(&format!("h.{payload}.sig")), Some(b"{\"a\":1}".to_vec()));
    assert_eq!(id_token_payload("h..sig"), None);
    assert_eq!(id_token_payload("only.two"), None);
    assert_eq!(id_token_payload("h.!!!.sig"), None);
}

#[test]
fn id_token_claims_read_profile_and_auth() {
    let payload = obj(vec![
        ("https://api.openai.com/profile", obj(vec![("email", text("p@x.test"))])),
        (
            "https://api.openai.com/auth",
            obj(vec![("chatgpt_plan_type", text("pro")), ("chatgpt_account_id", text("A1"))]),
        ),
    ]);
    let c = parse_codex_id_token_claims(Some(&payload));
    assert_eq!(c, CodexIdTokenClaims { email: Some(s("p@x.test")), plan: Some(s("pro")), account_id: Some(s("A1")) });
    let direct = obj(vec![("email", text("d@x.test"))]);
    assert_eq!(parse_codex_id_token_claims(Some(&direct)).email, Some(s("d@x.test")));
    assert_eq!(
        parse_codex_import_profile(Some(&payload)),
        OAuthProfileParsed {
            email: Some(s("p@x.test")),
            account_id: Some(s("A1")),
            subscription_type: Some(s("pro")),
            rate_limit_tier: None,
            organization_uuid: None,
        }
    );
    assert_eq!(
        parse_codex_import_profile(None),
        OAuthProfileParsed { email: None, account_id: None, subscription_type: None, rate_limit_tier: None, organization_uuid: None }
    );
}

#[test]
fn usage_window_clamps() {
    let w = CodexRateLimitWindowPayload { used_percent: Some(150), limit_window_seconds: Some(18_000), reset_at_unix_secs: Some(1) };
    assert_eq!(
        parse_codex_usage_window(&w, Some(s(" 2024-01-01T00:00:00.000Z "))),
        CodexUsageWindow { used_percent: Some(100), window_duration_mins: Some(300), resets_at: Some(s("2024-01-01T00:00:00.000Z")) }
    );
    let neg = CodexRateLimitWindowPayload { used_percent: Some(-3), limit_window_seconds: Some(-60), reset_at_unix_secs: None };
    assert_eq!(
        parse_codex_usage_window(&neg, None),
        CodexUsageWindow { used_percent: Some(0), window_duration_mins: Some(0), resets_at: None }
    );
}

#[test]
fn usage_snapshot_from_report() {
    let payload = CodexUsagePayload {
        rate_limit: Some(CodexRateLimitDetails {
            primary_window: Some(CodexRateLimitWindowPayload { used_percent: Some(42), limit_window_seconds: Some(600), reset_at_unix_secs: None }),
            secondary_window: None,
        }),
        credits: Some(CodexCreditsDetails { has_credits: Some(true), unlimited: Some(false) }),
        plan_type: Some(s(" plus ")),
    };
    let snap = codex_usage_snapshot(payload, None, Some(s("ignored")));
    assert_eq!(snap.primary, CodexUsageWindow { used_percent: Some(42), window_duration_mins: Some(10), resets_at: None });
    assert_eq!(snap.secondary, CodexUsageWindow { used_percent: None, window_duration_mins: None, resets_at: None });
    assert_eq!(snap.plan_type, Some(s("plus")));
    assert_eq!(snap.has_credits, Some(true));
    assert_eq!(snap.credits_unlimited, Some(false));
}

#[test]
fn status_check_messages() {
    assert_eq!(upstream_status_check("oauth_profile_failed", 200, b"x"), Ok(()));
    assert_eq!(
        upstream_status_check("oauth_usage_failed", 429, b"slow \xfe down"),
        Err(s("oauth_usage_failed: status=429 body=slow \u{fffd} down"))
    );
}

#[test]
fn usage_url_drops_codex_suffix() {
    assert_eq!(codex_usage_url(), "https://chatgpt.com/backend-api/wham/usage");
}

#[test]
fn u64_texts() {
    assert_eq!(parse_u64_text(" 3600 "), Some(3600));
    assert_eq!(parse_u64_text("+7"), Some(7));
    assert_eq!(parse_u64_text("18446744073709551615"), Some(u64::MAX));
    assert_eq!(parse_u64_text("18446744073709551616"), None);
    assert_eq!(parse_u64_text("99999999999999999999x"), None);
    assert_eq!(parse_u64_text("-1"), None);
    assert_eq!(parse_u64_text("+"), None);
    assert_eq!(parse_u64_text(""), None);
    assert_eq!(parse_u64_text("1 2"), None);
    for t in ["0", "42", "+0010", "  123456789012 "] {
        assert_eq!(parse_u64_text(t), t.trim().parse::<u64>().ok());
    }
}

#[test]
fn default_anthropic_headers() {
    assert_eq!(
        default_claude_headers(),
        vec![(s("anthropic-version"), s("2023-06-01")), (s("anthropic-beta"), s("oauth-2025-04-20"))]
    );
}
