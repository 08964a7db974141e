use sgproxy::config::{ChannelKind, CredentialConfig, CredentialStatus};
use sgproxy::json::{JsonNumber, JsonValue};
use sgproxy::proxy::{
    build_claudecode_upstream_headers, build_codex_upstream_headers, build_openai_model_get_body,
    build_openai_model_list_body, build_upstream_headers, build_upstream_url, codex_model_route,
    collect_beta_values, extract_upstream_error_message, filter_response_headers,
    find_model_in_openai_list, is_hop_by_hop, normalize_model_id, normalize_openai_model_list_value,
    normalize_openai_model_value, openai_model_error_body, request_user_agent_contains_codex,
    reshape_codex_model_body, reshaped_answer_header_ops, should_reshape_codex_models, CodexModelRoute, HeaderOp, ModelBodyError,
    ProxyError,
};

fn s(v: &str) -> String {
    v.to_string()
}

fn pairs(v: &[(&str, &str)]) -> Vec<(String, String)> {
    v.iter().map(|(a, b)| (s(a), s(b))).collect()
}

fn text(v: &str) -> JsonValue {
    JsonValue::String(s(v))
}

fn obj(members: Vec<(&str, JsonValue)>) -> JsonValue {
    JsonValue::Object(members.into_iter().map(|(k, v)| (s(k), v)).collect())
}

fn num(n: u64) -> JsonValue {
    JsonValue::Number(JsonNumber::PosInt(n))
}

fn credential(channel: ChannelKind, account_id: Option<&str>) -> CredentialConfig {
    CredentialConfig {
        id: s("c1"),
        channel,
        enabled: true,
        order: 0,
        access_token: s("tok"),
        refresh_token: s("ref"),
        expires_at_unix_ms: 0,
        user_email: None,
        account_id: account_id.map(s),
        organization_uuid: None,
        subscription_type: None,
        rate_limit_tier: None,
        status: CredentialStatus::Healthy,
        cooldown_until_unix_ms: None,
        last_error: None,
        last_used_at_unix_ms: None,
    }
}

fn error_body(message: &str, param: Option<&str>) -> JsonValue {
    obj(vec![(
        "error",
        obj(vec![
            ("message", text(message)),
            ("type", text("invalid_request_error")),
            ("param", match param {
                Some(p) => text(p),
                None => JsonValue::Null,
            }),
            ("code", text("upstream_error")),
        ]),
    )])
}

#[test]
fn hop_by_hop_names_in_any_case() {
    assert!(is_hop_by_hop("Connection"));
    assert!(is_hop_by_hop("TRANSFER-ENCODING"));
    assert!(is_hop_by_hop("te"));
    assert!(!is_hop_by_hop("content-type"));
    assert!(!is_hop_by_hop("tee"));
}

#[test]
fn beta_values_each_once_in_order() {
    let mut target = vec![s("x")];
    collect_beta_values(" a, b ,,a, x ,c", &mut target);
    assert_eq!(target, vec![s("x"), s("a"), s("b"), s("c")]);
    let mut empty: Vec<String> = Vec::new();
    collect_beta_values(" , ", &mut empty);
    assert!(empty.is_empty());
}

#[test]
fn claude_headers_replace_credentials() {
    let original = pairs(&[
        ("Host", "proxy.test"),
        ("Authorization", "Bearer client"),
        ("Content-Type", "application/json"),
        ("anthropic-beta", "a, b,a"),
        ("Connection", "keep-alive"),
        ("Cookie", "c=1"),
        ("X-Api-Key", "k"),
    ]);
    let ops = build_claudecode_upstream_headers(&original, "tok");
    assert_eq!(
        ops,
        vec![
            HeaderOp::Append(s("Content-Type"), s("application/json")),
            HeaderOp::Append(s("X-Api-Key"), s("k")),
            HeaderOp::Replace(s("authorization"), s("Bearer tok")),
            HeaderOp::Replace(s("user-agent"), s("anthropic-cli/1.0.0 (external, cli)")),
            HeaderOp::Replace(s("anthropic-version"), s("2023-06-01")),
            HeaderOp::Replace(s("anthropic-beta"), s("a,b,oauth-2025-04-20")),
        ]
    );
}

#[test]
fn claude_headers_keep_client_agent_and_version() {
    let original = pairs(&[
        ("User-Agent", "mine"),
        ("anthropic-version", "2024-01-01"),
        ("anthropic-beta", "oauth-2025-04-20"),
    ]);
    let ops = build_claudecode_upstream_headers(&original, "t");
    assert_eq!(
        ops,
        vec![
            HeaderOp::Append(s("User-Agent"), s("mine")),
            HeaderOp::Append(s("anthropic-version"), s("2024-01-01")),
            HeaderOp::Replace(s("authorization"), s("Bearer t")),
            HeaderOp::Replace(s("anthropic-beta"), s("oauth-2025-04-20")),
        ]
    );
}

#[test]
fn codex_headers_use_account() {
    let original = pairs(&[
        ("chatgpt-account-id", "other"),
        ("Originator", "x"),
        ("Accept", "text/event-stream"),
        ("Upgrade", "h2c"),
    ]);
    let ops = build_codex_upstream_headers(&original, &credential(ChannelKind::Codex, Some(" acc-1 ")));
    assert_eq!(
        ops,
        Ok(vec![
            HeaderOp::Append(s("Accept"), s("text/event-stream")),
            HeaderOp::Replace(s("authorization"), s("Bearer tok")),
            HeaderOp::Replace(s("chatgpt-account-id"), s("acc-1")),
            HeaderOp::Replace(s("originator"), s("codex_cli_rs")),
            HeaderOp::Replace(s("user-agent"), s("codex_cli_rs/0.46.0")),
        ])
    );
}

#[test]
fn codex_headers_need_account() {
    let none = build_codex_upstream_headers(&Vec::new(), &credential(ChannelKind::Codex, None));
    assert_eq!(none, Err(ProxyError::MissingAccountId));
    let blank = build_upstream_headers(&Vec::new(), &credential(ChannelKind::Codex, Some("  ")));
    assert_eq!(blank, Err(ProxyError::MissingAccountId));
    let anthropic = build_upstream_headers(&Vec::new(), &credential(ChannelKind::ClaudeCode, None));
    assert!(anthropic.is_ok());
}

#[test]
fn response_headers_drop_hop_by_hop() {
    let original = pairs(&[("content-type", "text/plain"), ("Keep-Alive", "5"), ("x-a", "1"), ("trailer", "t")]);
    assert_eq!(filter_response_headers(&original), pairs(&[("content-type", "text/plain"), ("x-a", "1")]));
}

#[test]
fn upstream_url_claude_keeps_path_and_query() {
    assert_eq!(
        build_upstream_url(ChannelKind::ClaudeCode, "/v1/messages", Some("beta=true")),
        Ok(s("https://api.anthropic.com/v1/messages?beta=true"))
    );
}

#[test]
fn upstream_url_codex_strips_prefix() {
    assert_eq!(
        build_upstream_url(ChannelKind::Codex, "/codex/responses", None),
        Ok(s("https://chatgpt.com/responses"))
    );
    assert_eq!(build_upstream_url(ChannelKind::Codex, "/codex", None), Ok(s("https://chatgpt.com/")));
}

#[test]
fn upstream_url_codex_models_get_client_version() {
    assert_eq!(
        build_upstream_url(ChannelKind::Codex, "/codex/models", None),
        Ok(s("https://chatgpt.com/models?client_version=0.46.0"))
    );
    assert_eq!(
        build_upstream_url(ChannelKind::Codex, "/codex/models", Some("a=1")),
        Ok(s("https://chatgpt.com/models?a=1&client_version=0.46.0"))
    );
    assert_eq!(
        build_upstream_url(ChannelKind::Codex, "/codex/models", Some("client_version=9")),
        Ok(s("https://chatgpt.com/models?client_version=9"))
    );
}

#[test]
fn model_routes() {
    assert_eq!(codex_model_route(ChannelKind::Codex, true, "/codex/models"), CodexModelRoute::List);
    assert_eq!(
        codex_model_route(ChannelKind::Codex, true, "/codex/models/gpt-5"),
        CodexModelRoute::Get(s("gpt-5"))
    );
    assert_eq!(codex_model_route(ChannelKind::Codex, false, "/codex/models"), CodexModelRoute::NotModel);
    assert_eq!(codex_model_route(ChannelKind::ClaudeCode, true, "/codex/models"), CodexModelRoute::NotModel);
    assert_eq!(codex_model_route(ChannelKind::Codex, true, "/codex/models/"), CodexModelRoute::NotModel);
}

#[test]
fn reshape_only_for_non_codex_clients() {
    assert!(request_user_agent_contains_codex(Some("Codex_CLI_RS/1.0")));
    assert!(!request_user_agent_contains_codex(None));
    let list = CodexModelRoute::List;
    assert!(should_reshape_codex_models(ChannelKind::Codex, Some("curl/8"), &list));
    assert!(!should_reshape_codex_models(ChannelKind::Codex, Some("codex"), &list));
    assert!(!should_reshape_codex_models(ChannelKind::ClaudeCode, None, &list));
    assert!(!should_reshape_codex_models(ChannelKind::Codex, None, &CodexModelRoute::NotModel));
}

#[test]
fn model_ids_are_normalized() {
    assert_eq!(normalize_model_id("  models/gpt-5 "), "gpt-5");
    assert_eq!(normalize_model_id("gpt-5"), "gpt-5");
    assert_eq!(normalize_model_id("models/models/x"), "models/x");
}

#[test]
fn codex_model_entry_becomes_openai_model() {
    let entry = obj(vec![("slug", text("models/gpt-5")), ("created", num(17))]);
    assert_eq!(
        normalize_openai_model_value(entry),
        Some(obj(vec![
            ("id", text("gpt-5")),
            ("object", text("model")),
            ("owned_by", text("openai")),
            ("created", num(17)),
        ]))
    );
    let already = obj(vec![("object", text("model")), ("id", text("x"))]);
    assert_eq!(normalize_openai_model_value(obj(vec![("object", text("model")), ("id", text("x"))])), Some(already));
    assert_eq!(normalize_openai_model_value(obj(vec![("name", text("x"))])), None);
}

#[test]
fn codex_model_list_becomes_openai_list() {
    let upstream = obj(vec![(
        "models",
        JsonValue::Array(vec![
            obj(vec![("slug", text("a")), ("owned_by", text("me"))]),
            obj(vec![("nothing", JsonValue::Null)]),
            obj(vec![("id", text("b")), ("created", num(3))]),
        ]),
    )]);
    let expected = obj(vec![
        ("object", text("list")),
        (
            "data",
            JsonValue::Array(vec![
                obj(vec![("id", text("a")), ("object", text("model")), ("owned_by", text("me")), ("created", num(0))]),
                obj(vec![("id", text("b")), ("object", text("model")), ("owned_by", text("openai")), ("created", num(3))]),
            ]),
        ),
    ]);
    assert_eq!(normalize_openai_model_list_value(upstream), Some(expected));
    assert_eq!(normalize_openai_model_list_value(obj(vec![("models", text("x"))])), None);
}

#[test]
fn find_model_matches_normalized_ids() {
    let list = obj(vec![
        ("object", text("list")),
        ("data", JsonValue::Array(vec![obj(vec![("id", text("a"))]), obj(vec![("id", text("models/b"))])])),
    ]);
    assert_eq!(find_model_in_openai_list(list, " b "), Some(obj(vec![("id", text("models/b"))])));
    let list2 = obj(vec![("object", text("list")), ("data", JsonValue::Array(vec![]))]);
    assert_eq!(find_model_in_openai_list(list2, "a"), None);
}

#[test]
fn upstream_error_messages_in_order() {
    let detail = obj(vec![("detail", obj(vec![("message", text("d"))])), ("message", text("m"))]);
    assert_eq!(extract_upstream_error_message(Some(&detail)), Some(s("d")));
    let nested = obj(vec![("error", obj(vec![("message", text("e"))]))]);
    assert_eq!(extract_upstream_error_message(Some(&nested)), Some(s("e")));
    let flat = obj(vec![("error", text("f"))]);
    assert_eq!(extract_upstream_error_message(Some(&flat)), Some(s("f")));
    let msg = obj(vec![("message", text("m"))]);
    assert_eq!(extract_upstream_error_message(Some(&msg)), Some(s("m")));
    assert_eq!(extract_upstream_error_message(Some(&num(1))), None);
    assert_eq!(extract_upstream_error_message(None), None);
}

#[test]
fn error_body_shape() {
    assert_eq!(openai_model_error_body(s("boom"), Some("model")), error_body("boom", Some("model")));
    assert_eq!(openai_model_error_body(s("boom"), None), error_body("boom", None));
}

#[test]
fn list_body_failures() {
    assert_eq!(
        build_openai_model_list_body(503, None),
        Ok((503, error_body("upstream status 503", None)))
    );
    assert_eq!(
        build_openai_model_list_body(401, Some(obj(vec![("error", text("bad"))]))),
        Ok((401, error_body("bad", None)))
    );
    assert_eq!(build_openai_model_list_body(200, None), Err(ModelBodyError::InvalidJson));
    assert_eq!(build_openai_model_list_body(200, Some(num(1))), Err(ModelBodyError::InvalidPayload));
}

#[test]
fn get_body_found_and_missing() {
    let upstream = || obj(vec![("models", JsonValue::Array(vec![obj(vec![("slug", text("gpt-5"))])]))]);
    assert_eq!(
        build_openai_model_get_body(200, Some(upstream()), "models/gpt-5"),
        Ok((
            200,
            obj(vec![
                ("id", text("gpt-5")),
                ("object", text("model")),
                ("owned_by", text("openai")),
                ("created", num(0)),
            ])
        ))
    );
    assert_eq!(
        build_openai_model_get_body(200, Some(upstream()), "o3"),
        Ok((404, error_body("model o3 not found", Some("model"))))
    );
    assert_eq!(
        build_openai_model_get_body(500, None, "o3"),
        Ok((500, error_body("upstream status 500", Some("model"))))
    );
}

#[test]
fn reshape_dispatches_on_route() {
    assert_eq!(reshape_codex_model_body(200, None, CodexModelRoute::NotModel), Err(ModelBodyError::InvalidRoute));
    assert_eq!(reshape_codex_model_body(200, None, CodexModelRoute::List), Err(ModelBodyError::InvalidJson));
    assert_eq!(
        reshape_codex_model_body(404, None, CodexModelRoute::Get(s("x"))),
        Ok((404, error_body("upstream status 404", Some("model"))))
    );
}

#[test]
fn reshaped_answer_headers() {
    assert_eq!(
        reshaped_answer_header_ops(),
        vec![
            HeaderOp::Delete(s("content-length")),
            HeaderOp::Delete(s("content-encoding")),
            HeaderOp::Replace(s("content-type"), s("application/json")),
        ]
    );
}
