use sgproxy::config::{ChannelKind, CredentialConfig, CredentialStatus, CredentialUpsertInput};
use sgproxy::credential_input::{
    apply_profile, apply_refresh, claude_callback_input, claude_callback_tokens, codex_callback_input,
    draft_credential, finish_credential_input, needs_profile, needs_refresh, proxy_credential_step,
    refresh_candidate, refresh_error_message, refreshed_upsert_input, resolve_credential_step,
    start_credential_resolution, CallbackTokenError, CredentialDraft, ProxyCredentialStep, ResolveAction,
    ResolveError, ResolveEvent,
};
use sgproxy::oauth::{ClaudeTokenResponse, OAuthProfileParsed, RefreshError, RefreshedCredential};

fn s(v: &str) -> String {
    v.to_string()
}

fn o(v: &str) -> Option<String> {
    Some(s(v))
}

fn empty_input() -> CredentialUpsertInput {
    CredentialUpsertInput {
        id: None,
        channel: None,
        enabled: None,
        order: None,
        access_token: None,
        refresh_token: None,
        id_token: None,
        expires_at_unix_ms: None,
        user_email: None,
        account_id: None,
        organization_uuid: None,
        subscription_type: None,
        rate_limit_tier: None,
    }
}

fn stored() -> CredentialConfig {
    CredentialConfig {
        id: s("c1"),
        channel: ChannelKind::Codex,
        enabled: false,
        order: 3,
        access_token: s("stored-access"),
        refresh_token: s(""),
        expires_at_unix_ms: 500,
        user_email: o("old@x.test"),
        account_id: None,
        organization_uuid: o("org-1"),
        subscription_type: None,
        rate_limit_tier: o("t1"),
        status: CredentialStatus::RateLimited,
        cooldown_until_unix_ms: Some(9),
        last_error: o("e"),
        last_used_at_unix_ms: Some(1),
    }
}

fn refreshed() -> RefreshedCredential {
    RefreshedCredential {
        access_token: s("new-a"),
        refresh_token: s("new-r"),
        expires_at_unix_ms: 777,
        user_email: o("r@x.test"),
        account_id: o("acc-r"),
        subscription_type: o("plus"),
        rate_limit_tier: None,
    }
}

fn profile() -> OAuthProfileParsed {
    OAuthProfileParsed {
        email: o("p@x.test"),
        account_id: o("acc-p"),
        subscription_type: o("pro"),
        rate_limit_tier: o("tp"),
        organization_uuid: o("org-p"),
    }
}

fn draft(access: Option<&str>, refresh: Option<&str>, expires: Option<u64>) -> CredentialDraft {
    CredentialDraft {
        access_token: access.map(s),
        refresh_token: refresh.map(s),
        expires_at_unix_ms: expires,
        user_email: None,
        account_id: None,
        organization_uuid: o("org-d"),
        subscription_type: None,
        rate_limit_tier: None,
    }
}

fn token(access: Option<&str>, refresh: Option<&str>) -> ClaudeTokenResponse {
    ClaudeTokenResponse {
        access_token: access.map(s),
        refresh_token: refresh.map(s),
        expires_in: Some(10),
        subscription_type: None,
        rate_limit_tier: o("tier-t"),
        error: None,
        error_description: None,
        organization_uuid: o("org-t"),
    }
}

#[test]
fn claude_callback_needs_both_tokens() {
    assert_eq!(claude_callback_tokens(&token(Some(" a "), Some(" r "))), Ok((s("a"), s("r"))));
    assert_eq!(claude_callback_tokens(&token(Some(" "), Some("r"))), Err(CallbackTokenError::MissingAccessToken));
    assert_eq!(claude_callback_tokens(&token(Some("a"), None)), Err(CallbackTokenError::MissingRefreshToken));
    assert_eq!(CallbackTokenError::MissingAccessToken.message(), "missing_access_token");
    assert_eq!(CallbackTokenError::MissingRefreshToken.message(), "missing_refresh_token");
}

#[test]
fn claude_callback_credential() {
    let input = claude_callback_input(token(Some("a"), Some("r")), s("a"), s("r"), Some(profile()), 1_000);
    assert_eq!(
        input,
        CredentialUpsertInput {
            id: None,
            channel: Some(ChannelKind::ClaudeCode),
            enabled: Some(true),
            order: None,
            access_token: o("a"),
            refresh_token: o("r"),
            id_token: None,
            expires_at_unix_ms: Some(11_000),
            user_email: o("p@x.test"),
            account_id: None,
            organization_uuid: o("org-t"),
            subscription_type: o("pro"),
            rate_limit_tier: o("tier-t"),
        }
    );
    let without_profile = claude_callback_input(token(Some("a"), Some("r")), s("a"), s("r"), None, 0);
    assert_eq!(without_profile.user_email, None);
    assert_eq!(without_profile.subscription_type, None);
}

#[test]
fn codex_callback_credential() {
    let input = codex_callback_input(refreshed());
    assert_eq!(input.channel, Some(ChannelKind::Codex));
    assert_eq!(input.access_token, o("new-a"));
    assert_eq!(input.expires_at_unix_ms, Some(777));
    assert_eq!(input.account_id, o("acc-r"));
    assert_eq!(input.organization_uuid, None);
    assert_eq!(input.enabled, Some(true));
}

#[test]
fn refresh_is_stored_under_the_same_credential() {
    let sel = stored();
    let input = refreshed_upsert_input(&sel, refreshed(), ChannelKind::Codex);
    assert_eq!(
        input,
        CredentialUpsertInput {
            id: o("c1"),
            channel: Some(ChannelKind::Codex),
            enabled: Some(false),
            order: Some(3),
            access_token: o("new-a"),
            refresh_token: o("new-r"),
            id_token: None,
            expires_at_unix_ms: Some(777),
            user_email: o("r@x.test"),
            account_id: o("acc-r"),
            organization_uuid: o("org-1"),
            subscription_type: o("plus"),
            rate_limit_tier: o("t1"),
        }
    );
}

#[test]
fn proxy_credential_steps() {
    let sel = stored();
    assert!(matches!(proxy_credential_step(Ok(Some(refreshed())), &sel, ChannelKind::Codex), ProxyCredentialStep::Store(_)));
    assert_eq!(proxy_credential_step(Ok(None), &sel, ChannelKind::Codex), ProxyCredentialStep::UseSelected);
    assert_eq!(
        proxy_credential_step(Err(RefreshError::InvalidCredential(s("gone"))), &sel, ChannelKind::Codex),
        ProxyCredentialStep::MarkInvalid(s("gone"))
    );
    assert_eq!(
        proxy_credential_step(Err(RefreshError::Transient(s("later"))), &sel, ChannelKind::Codex),
        ProxyCredentialStep::MarkInvalid(s("later"))
    );
    assert_eq!(refresh_error_message(RefreshError::Transient(s("m"))), "m");
    assert_eq!(refresh_error_message(RefreshError::InvalidCredential(s("n"))), "n");
}

#[test]
fn draft_merges_request_stored_and_imported() {
    let mut input = empty_input();
    input.access_token = o("  ");
    input.refresh_token = o(" fresh ");
    input.user_email = o(" given@x.test ");
    let existing = stored();
    let d = draft_credential(&input, Some(&existing), Some(&profile())).unwrap();
    assert_eq!(
        d,
        CredentialDraft {
            access_token: o("stored-access"),
            refresh_token: o("fresh"),
            expires_at_unix_ms: Some(500),
            user_email: o("given@x.test"),
            account_id: o("acc-p"),
            organization_uuid: o("org-1"),
            subscription_type: o("pro"),
            rate_limit_tier: o("t1"),
        }
    );
}

#[test]
fn draft_without_tokens_is_refused() {
    let mut existing = stored();
    existing.access_token = s("");
    assert_eq!(draft_credential(&empty_input(), Some(&existing), None), Err(ResolveError::MissingTokens));
    assert_eq!(draft_credential(&empty_input(), None, None), Err(ResolveError::MissingTokens));
    assert_eq!(ResolveError::MissingTokens.message(), "missing access_token or refresh_token");
    assert_eq!(ResolveError::MissingAccessToken.message(), "missing access_token");
    assert_eq!(ResolveError::MissingAccountId.message(), "missing account_id");
}

#[test]
fn refresh_needed_when_expired_or_missing() {
    assert!(needs_refresh(&draft(None, Some("r"), None), 0));
    assert!(needs_refresh(&draft(Some("a"), Some("r"), Some(10)), 10));
    assert!(!needs_refresh(&draft(Some("a"), Some("r"), Some(11)), 10));
    assert!(!needs_refresh(&draft(None, None, None), 0));
    assert!(needs_refresh(&draft(Some("a"), Some("r"), None), 0));
}

#[test]
fn refresh_candidate_fields() {
    let c = refresh_candidate(&draft(None, Some("r"), None), None, ChannelKind::Codex);
    assert_eq!(c.id, "import");
    assert!(c.enabled);
    assert_eq!(c.order, 0);
    assert_eq!(c.access_token, "");
    assert_eq!(c.refresh_token, "r");
    assert_eq!(c.expires_at_unix_ms, 0);
    assert_eq!(c.organization_uuid, o("org-d"));
    assert_eq!(c.status, CredentialStatus::Healthy);
    let existing = stored();
    let c2 = refresh_candidate(&draft(Some("a"), Some("r"), Some(5)), Some(&existing), ChannelKind::Codex);
    assert_eq!((c2.id.as_str(), c2.enabled, c2.order, c2.expires_at_unix_ms), ("c1", false, 3, 5));
    assert_eq!(c2.cooldown_until_unix_ms, None);
    assert_eq!(c2.last_error, None);
}

#[test]
fn refresh_and_profile_fill_only_missing_fields() {
    let mut d = draft(None, Some("r"), None);
    d.user_email = o("kept@x.test");
    let after = apply_refresh(d, refreshed());
    assert_eq!(after.access_token, o("new-a"));
    assert_eq!(after.refresh_token, o("new-r"));
    assert_eq!(after.expires_at_unix_ms, Some(777));
    assert_eq!(after.user_email, o("kept@x.test"));
    assert_eq!(after.account_id, o("acc-r"));
    assert_eq!(after.subscription_type, o("plus"));
    assert!(needs_profile(ChannelKind::ClaudeCode, &after));
    assert!(!needs_profile(ChannelKind::Codex, &after));
    let full = apply_profile(after, profile());
    assert_eq!(full.user_email, o("kept@x.test"));
    assert_eq!(full.organization_uuid, o("org-d"));
    assert_eq!(full.subscription_type, o("plus"));
    assert_eq!(full.rate_limit_tier, o("tp"));
    assert_eq!(full.account_id, o("acc-r"));
    assert!(!needs_profile(ChannelKind::ClaudeCode, &full));
    assert!(!needs_profile(ChannelKind::ClaudeCode, &draft(None, Some("r"), None)));
}

#[test]
fn finished_input_rules() {
    let mut input = empty_input();
    input.enabled = Some(true);
    let existing = stored();
    let mut d = draft(Some("a"), None, None);
    d.account_id = o("acc");
    let done = finish_credential_input(ChannelKind::Codex, &input, Some(&existing), d).unwrap();
    assert_eq!(
        done,
        CredentialUpsertInput {
            id: o("c1"),
            channel: Some(ChannelKind::Codex),
            enabled: Some(true),
            order: Some(3),
            access_token: o("a"),
            refresh_token: None,
            id_token: None,
            expires_at_unix_ms: Some(0),
            user_email: None,
            account_id: o("acc"),
            organization_uuid: o("org-d"),
            subscription_type: None,
            rate_limit_tier: None,
        }
    );
    assert_eq!(
        finish_credential_input(ChannelKind::Codex, &input, None, draft(Some("a"), None, None)),
        Err(ResolveError::MissingAccountId)
    );
    assert_eq!(
        finish_credential_input(ChannelKind::ClaudeCode, &input, None, draft(None, Some("r"), None)),
        Err(ResolveError::MissingAccessToken)
    );
    let anthropic = finish_credential_input(ChannelKind::ClaudeCode, &empty_input(), None, draft(Some("a"), None, Some(9))).unwrap();
    assert_eq!((anthropic.id, anthropic.enabled, anthropic.order, anthropic.expires_at_unix_ms), (None, None, None, Some(9)));
}

#[test]
fn resolution_refreshes_then_profiles_then_stores() {
    let mut input = empty_input();
    input.refresh_token = o("r0");
    let first = start_credential_resolution(ChannelKind::ClaudeCode, &input, None, None, 100);
    let (draft, candidate) = match first {
        ResolveAction::Refresh(d, c) => (d, c),
        other => panic!("expected a refresh, got {other:?}"),
    };
    assert_eq!(candidate.id, "import");
    assert_eq!(candidate.refresh_token, "r0");
    let second = resolve_credential_step(ChannelKind::ClaudeCode, &input, None, draft, ResolveEvent::Refreshed(Some(refreshed())), 100);
    let (draft2, access) = match second {
        ResolveAction::FetchProfile(d, a) => (d, a),
        other => panic!("expected a profile fetch, got {other:?}"),
    };
    assert_eq!(access, "new-a");
    let third = resolve_credential_step(ChannelKind::ClaudeCode, &input, None, draft2, ResolveEvent::Profiled(profile()), 100);
    match third {
        ResolveAction::Store(x) => {
            assert_eq!(x.access_token, o("new-a"));
            assert_eq!(x.refresh_token, o("new-r"));
            assert_eq!(x.user_email, o("r@x.test"));
            assert_eq!(x.organization_uuid, o("org-p"));
            assert_eq!(x.rate_limit_tier, o("tp"));
            assert_eq!(x.expires_at_unix_ms, Some(777));
        }
        other => panic!("expected a store, got {other:?}"),
    }
}

#[test]
fn resolution_without_tokens_or_account_fails() {
    assert_eq!(
        start_credential_resolution(ChannelKind::Codex, &empty_input(), None, None, 0),
        ResolveAction::Fail(ResolveError::MissingTokens)
    );
    let mut input = empty_input();
    input.access_token = o("a");
    input.expires_at_unix_ms = Some(1_000);
    assert_eq!(
        start_credential_resolution(ChannelKind::Codex, &input, None, None, 10),
        ResolveAction::Fail(ResolveError::MissingAccountId)
    );
    input.account_id = o("acc");
    match start_credential_resolution(ChannelKind::Codex, &input, None, None, 10) {
        ResolveAction::Store(x) => assert_eq!((x.access_token, x.account_id, x.expires_at_unix_ms), (o("a"), o("acc"), Some(1_000))),
        other => panic!("expected a store, got {other:?}"),
    }
    let still_fresh = resolve_credential_step(ChannelKind::Codex, &input, None, draft(Some("a"), Some("r"), Some(5)), ResolveEvent::Refreshed(None), 10);
    assert_eq!(still_fresh, ResolveAction::Fail(ResolveError::MissingAccountId));
}

#[test]
fn failed_refresh_or_profile_ends_the_resolution() {
    let mut input = empty_input();
    input.refresh_token = o("r0");
    let d = draft(None, Some("r0"), None);
    assert_eq!(
        resolve_credential_step(ChannelKind::ClaudeCode, &input, None, d, ResolveEvent::RefreshFailed(RefreshError::Transient(s("down"))), 0),
        ResolveAction::Abort(s("down"))
    );
    let d2 = draft(Some("a"), Some("r0"), Some(u64::MAX));
    assert_eq!(
        resolve_credential_step(ChannelKind::ClaudeCode, &input, None, d2, ResolveEvent::RefreshFailed(RefreshError::InvalidCredential(s("gone"))), 0),
        ResolveAction::Abort(s("gone"))
    );
    let d3 = draft(Some("a"), None, None);
    assert_eq!(
        resolve_credential_step(ChannelKind::ClaudeCode, &input, None, d3, ResolveEvent::ProfileFailed(s("oauth_profile_failed: status=500 body=")), 0),
        ResolveAction::Abort(s("oauth_profile_failed: status=500 body="))
    );
}
