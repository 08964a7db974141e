//! Channels, stored records and the fixed endpoints and client identities the
//! proxy talks to.
use vstd::prelude::*;

verus! {

/// OAuth client id of the ClaudeCode CLI.
pub const CLAUDE_CODE_OAUTH_CLIENT_ID: &'static str = "9d1c250a-e61b-44d9-88ed-5944d1962f5e";

/// Scopes requested for a ClaudeCode credential.
pub const CLAUDE_CODE_OAUTH_SCOPE: &'static str = "org:create_api_key user:profile user:inference";

/// Where Anthropic's authorize page sends the user back with a code.
pub const DEFAULT_REDIRECT_URI: &'static str = "https://console.anthropic.com/oauth/code/callback";

/// The origin that hosts the ClaudeCode authorize page.
pub const DEFAULT_CLAUDE_AI_BASE_URL: &'static str = "https://console.anthropic.com";

/// The Anthropic API origin.
pub const DEFAULT_BASE_URL: &'static str = "https://api.anthropic.com";

/// The `anthropic-version` header value sent when the client sends none.
pub const DEFAULT_ANTHROPIC_VERSION: &'static str = "2023-06-01";

/// The `anthropic-beta` flag that OAuth access tokens need.
pub const DEFAULT_REQUIRED_BETA: &'static str = "oauth-2025-04-20";

/// The user agent sent upstream for ClaudeCode when the client sends none.
pub const DEFAULT_USER_AGENT: &'static str = "anthropic-cli/1.0.0 (external, cli)";

/// The user agent of token requests to Anthropic.
pub const DEFAULT_TOKEN_USER_AGENT: &'static str = "axios/1.8.4";

/// OAuth client id of the Codex CLI.
pub const CODEX_OAUTH_CLIENT_ID: &'static str = "app_EMoamEEZ73f0CkXaXp7hrann";

/// The OpenAI OAuth issuer.
pub const DEFAULT_CODEX_ISSUER: &'static str = "https://auth.openai.com";

/// Where the OpenAI authorize page sends the user back with a code.
pub const DEFAULT_CODEX_REDIRECT_URI: &'static str = "http://localhost:1455/auth/callback";

/// Scopes requested for a Codex credential.
pub const DEFAULT_CODEX_SCOPE: &'static str = "openid profile email offline_access";

/// The `originator` the Codex backend expects.
pub const DEFAULT_CODEX_ORIGINATOR: &'static str = "codex_cli_rs";

/// The Codex backend base URL.
pub const DEFAULT_CODEX_BASE_URL: &'static str = "https://chatgpt.com/backend-api/codex";

/// The user agent sent to the Codex backend.
pub const DEFAULT_CODEX_USER_AGENT: &'static str = "codex_cli_rs/0.46.0";

/// The `client_version` the Codex model list is asked for.
pub const DEFAULT_CODEX_CLIENT_VERSION: &'static str = "0.46.0";

/// The two upstream services a credential belongs to.
#[derive(Clone, Copy, Debug, PartialEq, Eq, Structural)]
pub enum ChannelKind {
    ClaudeCode,
    Codex,
}

/// Health of a stored credential.
#[derive(Clone, Copy, Debug, PartialEq, Eq, Structural)]
pub enum CredentialStatus {
    Healthy,
    RateLimited,
    Dead,
}

/// What an OAuth start leaves behind for the matching callback.
#[derive(Debug, PartialEq)]
pub struct StoredOAuthState {
    pub channel: ChannelKind,
    pub state_id: String,
    pub code_verifier: String,
    pub redirect_uri: String,
    pub oauth_issuer: Option<String>,
    pub created_at_unix_ms: u64,
}

/// A stored credential.
#[derive(Debug, PartialEq)]
pub struct CredentialConfig {
    pub id: String,
    pub channel: ChannelKind,
    pub enabled: bool,
    pub order: i64,
    pub access_token: String,
    pub refresh_token: String,
    pub expires_at_unix_ms: u64,
    pub user_email: Option<String>,
    pub account_id: Option<String>,
    pub organization_uuid: Option<String>,
    pub subscription_type: Option<String>,
    pub rate_limit_tier: Option<String>,
    pub status: CredentialStatus,
    pub cooldown_until_unix_ms: Option<u64>,
    pub last_error: Option<String>,
    pub last_used_at_unix_ms: Option<u64>,
}

/// A request to create or change a credential: every field may be left out.
#[derive(Debug, PartialEq)]
pub struct CredentialUpsertInput {
    pub id: Option<String>,
    pub channel: Option<ChannelKind>,
    pub enabled: Option<bool>,
    pub order: Option<i64>,
    pub access_token: Option<String>,
    pub refresh_token: Option<String>,
    pub id_token: Option<String>,
    pub expires_at_unix_ms: Option<u64>,
    pub user_email: Option<String>,
    pub account_id: Option<String>,
    pub organization_uuid: Option<String>,
    pub subscription_type: Option<String>,
    pub rate_limit_tier: Option<String>,
}

/// The stored credentials.
#[derive(Debug, PartialEq)]
pub struct DurableStateDoc {
    pub credentials: Vec<CredentialConfig>,
}

/// One Codex rate-limit window.
#[derive(Debug, PartialEq)]
pub struct CodexUsageWindow {
    pub used_percent: Option<u32>,
    pub window_duration_mins: Option<u32>,
    pub resets_at: Option<String>,
}

/// Codex usage: both rate-limit windows, the plan and the credit flags.
#[derive(Debug, PartialEq)]
pub struct CodexUsageSnapshot {
    pub primary: CodexUsageWindow,
    pub secondary: CodexUsageWindow,
    pub plan_type: Option<String>,
    pub credits_unlimited: Option<bool>,
    pub has_credits: Option<bool>,
}

/// One usage window of an Anthropic credential: the share used, in percent,
/// and when it resets.
#[derive(Debug, PartialEq)]
pub struct CredentialUsageBucket {
    pub utilization_pct: Option<u32>,
    pub resets_at: Option<String>,
}

/// The usage of a credential: its Anthropic windows or its Codex report, and
/// the error of the fetch when it failed.
#[derive(Debug, PartialEq)]
pub struct CredentialUsageSnapshot {
    pub five_hour: CredentialUsageBucket,
    pub seven_day: CredentialUsageBucket,
    pub seven_day_sonnet: CredentialUsageBucket,
    pub codex: Option<CodexUsageSnapshot>,
    pub last_error: Option<String>,
}

/// A copy of an optional string that keeps it as it is.
pub fn clone_opt_string(o: &Option<String>) -> (r: Option<String>)
    ensures
        r == *o,
{
    match o {
        Some(s) => Some(s.clone()),
        None => None,
    }
}

/// A copy of a stored credential that keeps every field.
pub fn clone_credential(c: &CredentialConfig) -> (r: CredentialConfig)
    ensures
        r == *c,
{
    CredentialConfig {
        id: c.id.clone(),
        channel: c.channel,
        enabled: c.enabled,
        order: c.order,
        access_token: c.access_token.clone(),
        refresh_token: c.refresh_token.clone(),
        expires_at_unix_ms: c.expires_at_unix_ms,
        user_email: clone_opt_string(&c.user_email),
        account_id: clone_opt_string(&c.account_id),
        organization_uuid: clone_opt_string(&c.organization_uuid),
        subscription_type: clone_opt_string(&c.subscription_type),
        rate_limit_tier: clone_opt_string(&c.rate_limit_tier),
        status: c.status,
        cooldown_until_unix_ms: c.cooldown_until_unix_ms,
        last_error: clone_opt_string(&c.last_error),
        last_used_at_unix_ms: c.last_used_at_unix_ms,
    }
}

} // verus!
