use sgproxy::config::ChannelKind;
use sgproxy::do_state::{authorize, bearer_token, proxy_follow_up, route, HttpMethod, ProxyFollowUp, Route};
use sgproxy::oauth::{clean_opt_str, expiry_from_now, id_token_payload};
use sgproxy::credential_input::{proxy_credential_step, ProxyCredentialStep};
use sgproxy::config::{CredentialConfig, CredentialStatus};
use sgproxy::oauth::RefreshError;
use sgproxy::proxy::{build_claudecode_upstream_headers, HeaderOp};

fn s(v: &str) -> String {
    v.to_string()
}

fn authorization_of(ops: &[HeaderOp]) -> Option<String> {
    ops.iter().find_map(|op| match op {
        HeaderOp::Replace(n, v) if n == "authorization" => Some(v.clone()),
        _ => None,
    })
}

#[test]
fn bearer_header_round_trips_to_admin_check() {
    for token in ["tok", "sk-ant-oat01-abc", "a.b.c"] {
        let ops = build_claudecode_upstream_headers(&vec![(s("Authorization"), s("Bearer client"))], token);
        let header = authorization_of(&ops).unwrap();
        assert_eq!(bearer_token(Some(&header)), Some(s(token)));
        assert_eq!(authorize(Some(token), Some(&header)), Ok(()));
    }
}

#[test]
fn claude_headers_never_forward_client_credentials() {
    let original = vec![
        (s("authorization"), s("Bearer x")),
        (s("COOKIE"), s("c")),
        (s("Host"), s("h")),
        (s("Content-Length"), s("3")),
        (s("Proxy-Authorization"), s("p")),
        (s("accept"), s("*/*")),
    ];
    let ops = build_claudecode_upstream_headers(&original, "t");
    let appended: Vec<&String> = ops
        .iter()
        .filter_map(|op| match op {
            HeaderOp::Append(n, _) => Some(n),
            _ => None,
        })
        .collect();
    assert_eq!(appended, vec!["accept"]);
    assert!(ops.contains(&HeaderOp::Replace(s("authorization"), s("Bearer t"))));
}

#[test]
fn required_beta_flag_always_sent_once() {
    for beta in ["", "oauth-2025-04-20", "x,oauth-2025-04-20, x"] {
        let ops = build_claudecode_upstream_headers(&vec![(s("anthropic-beta"), s(beta))], "t");
        let value = ops
            .iter()
            .find_map(|op| match op {
                HeaderOp::Replace(n, v) if n == "anthropic-beta" => Some(v.clone()),
                _ => None,
            })
            .unwrap();
        let flags: Vec<&str> = value.split(',').collect();
        assert_eq!(flags.iter().filter(|f| **f == "oauth-2025-04-20").count(), 1);
    }
}

#[test]
fn cleaning_twice_changes_nothing() {
    for v in ["  a b ", "x", "\t\n", " \u{3000}y\u{a0}"] {
        let once = clean_opt_str(v);
        if let Some(c) = &once {
            assert_eq!(clean_opt_str(c), once);
        }
    }
}

#[test]
fn expiry_is_never_in_the_past() {
    for (now, e) in [(0, None), (5, Some(0)), (u64::MAX, Some(1)), (u64::MAX - 1, None)] {
        assert!(expiry_from_now(now, e) >= now);
    }
}

#[test]
fn proxy_paths_by_prefix() {
    for p in ["/v1/", "/v1/messages", "/v1/messages/count_tokens"] {
        assert_eq!(route(HttpMethod::Post, p), Route::Proxy(ChannelKind::ClaudeCode));
    }
    for p in ["/codex/", "/codex/responses", "/codex/models/gpt-5"] {
        assert_eq!(route(HttpMethod::Get, p), Route::Proxy(ChannelKind::Codex));
    }
}

#[test]
fn rate_limits_are_never_successes() {
    for (c, a) in [(ChannelKind::ClaudeCode, None), (ChannelKind::Codex, Some("a")), (ChannelKind::Codex, None)] {
        let f = proxy_follow_up(c, 429, a);
        assert!(matches!(
            f,
            ProxyFollowUp::FetchClaudeUsage | ProxyFollowUp::FetchCodexUsage(_) | ProxyFollowUp::RecordRateLimited(_)
        ));
    }
}

#[test]
fn id_token_header_and_signature_do_not_matter() {
    let p = "eyJlbWFpbCI6ImFAYi5jIn0";
    assert_eq!(id_token_payload(&format!("h1.{p}.s1")), id_token_payload(&format!("other.{p}.sig")));
    assert_eq!(id_token_payload(&format!("h1.{p}.s1")), Some(b"{\"email\":\"a@b.c\"}".to_vec()));
}

#[test]
fn any_failed_refresh_marks_credential_dead() {
    let selected = CredentialConfig {
        id: s("c"),
        channel: ChannelKind::ClaudeCode,
        enabled: true,
        order: 0,
        access_token: s(""),
        refresh_token: s("r"),
        expires_at_unix_ms: 0,
        user_email: None,
        account_id: None,
        organization_uuid: None,
        subscription_type: None,
        rate_limit_tier: None,
        status: CredentialStatus::Healthy,
        cooldown_until_unix_ms: None,
        last_error: None,
        last_used_at_unix_ms: None,
    };
    for e in [RefreshError::Transient(s("t")), RefreshError::InvalidCredential(s("i"))] {
        assert!(matches!(proxy_credential_step(Err(e), &selected, ChannelKind::ClaudeCode), ProxyCredentialStep::MarkInvalid(_)));
    }
}
