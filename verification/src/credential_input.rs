//! How a credential to store is put together: from an OAuth callback's token
//! answer, from a refresh of a stored credential, and from an admin's create or
//! update request merged with what is already stored, refreshed and completed
//! with the account's profile where something is missing.
use vstd::prelude::*;
use crate::config::{clone_opt_string, ChannelKind, CredentialConfig, CredentialStatus, CredentialUpsertInput};
use crate::oauth::{
    clean_option, expiry_after, expiry_from_now, ClaudeTokenResponse, OAuthProfileParsed,
    RefreshError, RefreshedCredential,
};
use crate::text::{clean_opt, opt_view};

verus! {

/// The first of two options that is set.
pub open spec fn either<T>(a: Option<T>, b: Option<T>) -> Option<T> {
    match a {
        Some(x) => Some(x),
        None => b,
    }
}

/// The value behind an optional reference.
pub open spec fn opt_deref<T>(o: Option<&T>) -> Option<T> {
    match o {
        Some(x) => Some(*x),
        None => None,
    }
}

/// `a`, or else `b`.
fn either_string(a: Option<String>, b: Option<String>) -> (r: Option<String>)
    ensures
        r == either(a, b),
{
    match a {
        Some(x) => Some(x),
        None => b,
    }
}

/// Why the token answer of a ClaudeCode callback cannot be stored.
#[derive(Clone, Copy, Debug, PartialEq, Eq, Structural)]
pub enum CallbackTokenError {
    MissingAccessToken,
    MissingRefreshToken,
}

impl CallbackTokenError {
    /// The text of the error.
    pub fn message(&self) -> (r: String)
        ensures
            r@ == match self {
                CallbackTokenError::MissingAccessToken => "missing_access_token"@,
                CallbackTokenError::MissingRefreshToken => "missing_refresh_token"@,
            },
    {
        match self {
            CallbackTokenError::MissingAccessToken => String::from_str("missing_access_token"),
            CallbackTokenError::MissingRefreshToken => String::from_str("missing_refresh_token"),
        }
    }
}

/// The trimmed access and refresh tokens of a ClaudeCode token answer; both
/// must be there and not blank.
pub fn claude_callback_tokens(token: &ClaudeTokenResponse) -> (r: Result<(String, String), CallbackTokenError>)
    ensures
        clean_opt(token.access_token) is None ==> r == Err::<(String, String), CallbackTokenError>(
            CallbackTokenError::MissingAccessToken,
        ),
        clean_opt(token.access_token) is Some && clean_opt(token.refresh_token) is None ==> r == Err::<
            (String, String),
            CallbackTokenError,
        >(CallbackTokenError::MissingRefreshToken),
        clean_opt(token.access_token) is Some && clean_opt(token.refresh_token) is Some ==> (r matches Ok(
            (a, f),
        ) && Some(a@) == clean_opt(token.access_token) && Some(f@) == clean_opt(token.refresh_token)),
{
    let access = match clean_option(clone_opt_string(&token.access_token)) {
        Some(a) => a,
        None => {
            return Err(CallbackTokenError::MissingAccessToken);
        },
    };
    let refresh = match clean_option(clone_opt_string(&token.refresh_token)) {
        Some(f) => f,
        None => {
            return Err(CallbackTokenError::MissingRefreshToken);
        },
    };
    Ok((access, refresh))
}

/// The field of a fetched profile, if there is one.
pub open spec fn profile_email(p: Option<OAuthProfileParsed>) -> Option<String> {
    match p {
        Some(x) => x.email,
        None => None,
    }
}

/// The new ClaudeCode credential of a callback: its tokens, an expiry
/// `expires_in` seconds (an hour when unsaid) from `now`, the e-mail of the
/// profile, and the organization, plan and tier of the token answer, else of
/// the profile.
pub open spec fn claude_callback_input_of(
    token: ClaudeTokenResponse,
    access_token: String,
    refresh_token: String,
    profile: Option<OAuthProfileParsed>,
    now: u64,
) -> CredentialUpsertInput {
    CredentialUpsertInput {
        id: None,
        channel: Some(ChannelKind::ClaudeCode),
        enabled: Some(true),
        order: None,
        access_token: Some(access_token),
        refresh_token: Some(refresh_token),
        id_token: None,
        expires_at_unix_ms: Some(expiry_after(now, token.expires_in)),
        user_email: profile_email(profile),
        account_id: None,
        organization_uuid: either(
            token.organization_uuid,
            match profile {
                Some(p) => p.organization_uuid,
                None => None,
            },
        ),
        subscription_type: either(
            token.subscription_type,
            match profile {
                Some(p) => p.subscription_type,
                None => None,
            },
        ),
        rate_limit_tier: either(
            token.rate_limit_tier,
            match profile {
                Some(p) => p.rate_limit_tier,
                None => None,
            },
        ),
    }
}

/// The new ClaudeCode credential of a callback.
pub fn claude_callback_input(
    token: ClaudeTokenResponse,
    access_token: String,
    refresh_token: String,
    profile: Option<OAuthProfileParsed>,
    now: u64,
) -> (r: CredentialUpsertInput)
    ensures
        r == claude_callback_input_of(token, access_token, refresh_token, profile, now),
{
    let expires = expiry_from_now(now, token.expires_in);
    let (email, org, sub, tier) = match profile {
        Some(p) => (p.email, p.organization_uuid, p.subscription_type, p.rate_limit_tier),
        None => (None, None, None, None),
    };
    CredentialUpsertInput {
        id: None,
        channel: Some(ChannelKind::ClaudeCode),
        enabled: Some(true),
        order: None,
        access_token: Some(access_token),
        refresh_token: Some(refresh_token),
        id_token: None,
        expires_at_unix_ms: Some(expires),
        user_email: email,
        account_id: None,
        organization_uuid: either_string(token.organization_uuid, org),
        subscription_type: either_string(token.subscription_type, sub),
        rate_limit_tier: either_string(token.rate_limit_tier, tier),
    }
}

/// The new Codex credential of a callback: everything the token exchange gave.
pub open spec fn codex_callback_input_of(token: RefreshedCredential) -> CredentialUpsertInput {
    CredentialUpsertInput {
        id: None,
        channel: Some(ChannelKind::Codex),
        enabled: Some(true),
        order: None,
        access_token: Some(token.access_token),
        refresh_token: Some(token.refresh_token),
        id_token: None,
        expires_at_unix_ms: Some(token.expires_at_unix_ms),
        user_email: token.user_email,
        account_id: token.account_id,
        organization_uuid: None,
        subscription_type: token.subscription_type,
        rate_limit_tier: token.rate_limit_tier,
    }
}

/// The new Codex credential of a callback.
pub fn codex_callback_input(token: RefreshedCredential) -> (r: CredentialUpsertInput)
    ensures
        r == codex_callback_input_of(token),
{
    CredentialUpsertInput {
        id: None,
        channel: Some(ChannelKind::Codex),
        enabled: Some(true),
        order: None,
        access_token: Some(token.access_token),
        refresh_token: Some(token.refresh_token),
        id_token: None,
        expires_at_unix_ms: Some(token.expires_at_unix_ms),
        user_email: token.user_email,
        account_id: token.account_id,
        organization_uuid: None,
        subscription_type: token.subscription_type,
        rate_limit_tier: token.rate_limit_tier,
    }
}

/// The update that stores a refresh of a selected credential: same id, channel,
/// switch and order, the new tokens and expiry, and the new account data where
/// the refresh gave some (the organization is kept).
pub open spec fn refreshed_input_of(
    selected: CredentialConfig,
    refreshed: RefreshedCredential,
    channel: ChannelKind,
) -> CredentialUpsertInput {
    CredentialUpsertInput {
        id: Some(selected.id),
        channel: Some(channel),
        enabled: Some(selected.enabled),
        order: Some(selected.order),
        access_token: Some(refreshed.access_token),
        refresh_token: Some(refreshed.refresh_token),
        id_token: None,
        expires_at_unix_ms: Some(refreshed.expires_at_unix_ms),
        user_email: either(refreshed.user_email, selected.user_email),
        account_id: either(refreshed.account_id, selected.account_id),
        organization_uuid: selected.organization_uuid,
        subscription_type: either(refreshed.subscription_type, selected.subscription_type),
        rate_limit_tier: either(refreshed.rate_limit_tier, selected.rate_limit_tier),
    }
}

/// The update that stores a refresh of a selected credential.
pub fn refreshed_upsert_input(
    selected: &CredentialConfig,
    refreshed: RefreshedCredential,
    channel: ChannelKind,
) -> (r: CredentialUpsertInput)
    ensures
        r == refreshed_input_of(*selected, refreshed, channel),
{
    CredentialUpsertInput {
        id: Some(selected.id.clone()),
        channel: Some(channel),
        enabled: Some(selected.enabled),
        order: Some(selected.order),
        access_token: Some(refreshed.access_token),
        refresh_token: Some(refreshed.refresh_token),
        id_token: None,
        expires_at_unix_ms: Some(refreshed.expires_at_unix_ms),
        user_email: either_string(refreshed.user_email, clone_opt_string(&selected.user_email)),
        account_id: either_string(refreshed.account_id, clone_opt_string(&selected.account_id)),
        organization_uuid: clone_opt_string(&selected.organization_uuid),
        subscription_type: either_string(
            refreshed.subscription_type,
            clone_opt_string(&selected.subscription_type),
        ),
        rate_limit_tier: either_string(
            refreshed.rate_limit_tier,
            clone_opt_string(&selected.rate_limit_tier),
        ),
    }
}

/// What the proxy does with the credential it selected, once asked whether it
/// needed a refresh.
#[derive(Debug, PartialEq)]
pub enum ProxyCredentialStep {
    /// It was refreshed: store this update and use the result.
    Store(CredentialUpsertInput),
    /// It is fresh: use it as it is.
    UseSelected,
    /// The refresh failed: mark the credential dead with the error, and
    /// select another one.
    MarkInvalid(String),
}

/// The step for a refresh outcome: a refreshed credential is stored, a fresh
/// one used, and one whose refresh failed, for whatever reason, marked dead so
/// that the next one is tried.
pub open spec fn proxy_step_of(
    outcome: Result<Option<RefreshedCredential>, RefreshError>,
    selected: CredentialConfig,
    channel: ChannelKind,
) -> ProxyCredentialStep {
    match outcome {
        Ok(Some(refreshed)) => ProxyCredentialStep::Store(refreshed_input_of(selected, refreshed, channel)),
        Ok(None) => ProxyCredentialStep::UseSelected,
        Err(RefreshError::InvalidCredential(m)) => ProxyCredentialStep::MarkInvalid(m),
        Err(RefreshError::Transient(m)) => ProxyCredentialStep::MarkInvalid(m),
    }
}

/// What the proxy does with a selected credential after a refresh check.
pub fn proxy_credential_step(
    outcome: Result<Option<RefreshedCredential>, RefreshError>,
    selected: &CredentialConfig,
    channel: ChannelKind,
) -> (r: ProxyCredentialStep)
    ensures
        r == proxy_step_of(outcome, *selected, channel),
{
    match outcome {
        Ok(Some(refreshed)) => ProxyCredentialStep::Store(refreshed_upsert_input(selected, refreshed, channel)),
        Ok(None) => ProxyCredentialStep::UseSelected,
        Err(RefreshError::InvalidCredential(m)) => ProxyCredentialStep::MarkInvalid(m),
        Err(RefreshError::Transient(m)) => ProxyCredentialStep::MarkInvalid(m),
    }
}

/// The text of a refresh failure, whichever kind it is.
pub fn refresh_error_message(e: RefreshError) -> (r: String)
    ensures
        r == match e {
            RefreshError::InvalidCredential(m) => m,
            RefreshError::Transient(m) => m,
        },
{
    match e {
        RefreshError::InvalidCredential(m) => m,
        RefreshError::Transient(m) => m,
    }
}

/// A credential being put together from an admin's request: every field may
/// still be missing.
#[derive(Debug, PartialEq)]
pub struct CredentialDraft {
    pub access_token: Option<String>,
    pub refresh_token: Option<String>,
    pub expires_at_unix_ms: Option<u64>,
    pub user_email: Option<String>,
    pub account_id: Option<String>,
    pub organization_uuid: Option<String>,
    pub subscription_type: Option<String>,
    pub rate_limit_tier: Option<String>,
}

/// A draft as plain values.
pub struct DraftView {
    pub access_token: Option<Seq<char>>,
    pub refresh_token: Option<Seq<char>>,
    pub expires_at_unix_ms: Option<u64>,
    pub user_email: Option<Seq<char>>,
    pub account_id: Option<Seq<char>>,
    pub organization_uuid: Option<Seq<char>>,
    pub subscription_type: Option<Seq<char>>,
    pub rate_limit_tier: Option<Seq<char>>,
}

/// The plain values of a draft.
pub open spec fn draft_view(d: CredentialDraft) -> DraftView {
    DraftView {
        access_token: opt_view(d.access_token),
        refresh_token: opt_view(d.refresh_token),
        expires_at_unix_ms: d.expires_at_unix_ms,
        user_email: opt_view(d.user_email),
        account_id: opt_view(d.account_id),
        organization_uuid: opt_view(d.organization_uuid),
        subscription_type: opt_view(d.subscription_type),
        rate_limit_tier: opt_view(d.rate_limit_tier),
    }
}

/// A stored token, when it is not empty.
pub open spec fn stored_token(t: Seq<char>) -> Option<Seq<char>> {
    if t.len() > 0 {
        Some(t)
    } else {
        None
    }
}

/// A field of the stored credential, if there is one.
pub open spec fn stored_field(
    existing: Option<CredentialConfig>,
    field: spec_fn(CredentialConfig) -> Option<String>,
) -> Option<Seq<char>> {
    match existing {
        Some(e) => opt_view(field(e)),
        None => None,
    }
}

/// A field of the profile read from an imported ID token, if there is one.
pub open spec fn imported_field(
    import: Option<OAuthProfileParsed>,
    field: spec_fn(OAuthProfileParsed) -> Option<String>,
) -> Option<Seq<char>> {
    match import {
        Some(p) => opt_view(field(p)),
        None => None,
    }
}

/// The draft of a request: each field as the request gives it (trimmed, blank
/// as missing), else as stored (tokens only when not empty), else, for the
/// e-mail, account and plan, as the imported ID token says.
pub open spec fn draft_of(
    input: CredentialUpsertInput,
    existing: Option<CredentialConfig>,
    import: Option<OAuthProfileParsed>,
) -> DraftView {
    DraftView {
        access_token: either(
            clean_opt(input.access_token),
            match existing {
                Some(e) => stored_token(e.access_token@),
                None => None,
            },
        ),
        refresh_token: either(
            clean_opt(input.refresh_token),
            match existing {
                Some(e) => stored_token(e.refresh_token@),
                None => None,
            },
        ),
        expires_at_unix_ms: either(
            input.expires_at_unix_ms,
            match existing {
                Some(e) => Some(e.expires_at_unix_ms),
                None => None,
            },
        ),
        user_email: either(
            either(clean_opt(input.user_email), stored_field(existing, |e: CredentialConfig| e.user_email)),
            imported_field(import, |p: OAuthProfileParsed| p.email),
        ),
        account_id: either(
            either(clean_opt(input.account_id), stored_field(existing, |e: CredentialConfig| e.account_id)),
            imported_field(import, |p: OAuthProfileParsed| p.account_id),
        ),
        organization_uuid: either(
            clean_opt(input.organization_uuid),
            stored_field(existing, |e: CredentialConfig| e.organization_uuid),
        ),
        subscription_type: either(
            either(
                clean_opt(input.subscription_type),
                stored_field(existing, |e: CredentialConfig| e.subscription_type),
            ),
            imported_field(import, |p: OAuthProfileParsed| p.subscription_type),
        ),
        rate_limit_tier: either(
            clean_opt(input.rate_limit_tier),
            stored_field(existing, |e: CredentialConfig| e.rate_limit_tier),
        ),
    }
}

/// Why a create or update request cannot be stored.
#[derive(Clone, Copy, Debug, PartialEq, Eq, Structural)]
pub enum ResolveError {
    /// Neither an access token nor a refresh token, given or stored.
    MissingTokens,
    /// No access token, even after a refresh.
    MissingAccessToken,
    /// A Codex credential without an account id.
    MissingAccountId,
}

impl ResolveError {
    /// The text of the error.
    pub fn message(&self) -> (r: String)
        ensures
            r@ == match self {
                ResolveError::MissingTokens => "missing access_token or refresh_token"@,
                ResolveError::MissingAccessToken => "missing access_token"@,
                ResolveError::MissingAccountId => "missing account_id"@,
            },
    {
        match self {
            ResolveError::MissingTokens => String::from_str("missing access_token or refresh_token"),
            ResolveError::MissingAccessToken => String::from_str("missing access_token"),
            ResolveError::MissingAccountId => String::from_str("missing account_id"),
        }
    }
}

/// A stored token, when it is not empty.
fn stored_token_string(t: &String) -> (r: Option<String>)
    ensures
        opt_view(r) == stored_token(t@),
{
    if t.as_str().unicode_len() > 0 {
        Some(t.clone())
    } else {
        None
    }
}

/// The cleaned request field, else the stored one, else the imported one.
fn pick_field(
    given: &Option<String>,
    stored: Option<&Option<String>>,
    imported: Option<&Option<String>>,
) -> (r: Option<String>)
    ensures
        opt_view(r) == either(
            either(
                clean_opt(*given),
                match stored {
                    Some(s) => opt_view(*s),
                    None => None,
                },
            ),
            match imported {
                Some(s) => opt_view(*s),
                None => None,
            },
        ),
{
    if let Some(v) = clean_option(clone_opt_string(given)) {
        return Some(v);
    }
    if let Some(s) = stored {
        if let Some(v) = s {
            return Some(v.clone());
        }
    }
    match imported {
        Some(s) => clone_opt_string(s),
        None => None,
    }
}

/// The draft of a create or update request, or the error when it has no token
/// at all.
pub fn draft_credential(
    input: &CredentialUpsertInput,
    existing: Option<&CredentialConfig>,
    import: Option<&OAuthProfileParsed>,
) -> (r: Result<CredentialDraft, ResolveError>)
    ensures
        match r {
            Ok(d) => draft_view(d) == draft_of(*input, opt_deref(existing), opt_deref(import)) && (
            d.access_token is Some || d.refresh_token is Some),
            Err(e) => e == ResolveError::MissingTokens && draft_of(
                *input,
                opt_deref(existing),
                opt_deref(import),
            ).access_token is None && draft_of(
                *input,
                opt_deref(existing),
                opt_deref(import),
            ).refresh_token is None,
        },
{
    let access_token = match clean_option(clone_opt_string(&input.access_token)) {
        Some(v) => Some(v),
        None => match existing {
            Some(e) => stored_token_string(&e.access_token),
            None => None,
        },
    };
    let refresh_token = match clean_option(clone_opt_string(&input.refresh_token)) {
        Some(v) => Some(v),
        None => match existing {
            Some(e) => stored_token_string(&e.refresh_token),
            None => None,
        },
    };
    let expires_at_unix_ms = match input.expires_at_unix_ms {
        Some(x) => Some(x),
        None => match existing {
            Some(e) => Some(e.expires_at_unix_ms),
            None => None,
        },
    };
    let user_email = pick_field(
        &input.user_email,
        match existing {
            Some(e) => Some(&e.user_email),
            None => None,
        },
        match import {
            Some(p) => Some(&p.email),
            None => None,
        },
    );
    let account_id = pick_field(
        &input.account_id,
        match existing {
            Some(e) => Some(&e.account_id),
            None => None,
        },
        match import {
            Some(p) => Some(&p.account_id),
            None => None,
        },
    );
    let organization_uuid = pick_field(
        &input.organization_uuid,
        match existing {
            Some(e) => Some(&e.organization_uuid),
            None => None,
        },
        None,
    );
    let subscription_type = pick_field(
        &input.subscription_type,
        match existing {
            Some(e) => Some(&e.subscription_type),
            None => None,
        },
        match import {
            Some(p) => Some(&p.subscription_type),
            None => None,
        },
    );
    let rate_limit_tier = pick_field(
        &input.rate_limit_tier,
        match existing {
            Some(e) => Some(&e.rate_limit_tier),
            None => None,
        },
        None,
    );
    if access_token.is_none() && refresh_token.is_none() {
        return Err(ResolveError::MissingTokens);
    }
    let d = CredentialDraft {
        access_token,
        refresh_token,
        expires_at_unix_ms,
        user_email,
        account_id,
        organization_uuid,
        subscription_type,
        rate_limit_tier,
    };
    assert(draft_view(d) == draft_of(*input, opt_deref(existing), opt_deref(import)));
    Ok(d)
}

/// Whether a draft is refreshed before it is stored: it has a refresh token,
/// and no access token or one that has expired by `now` (an unknown expiry
/// counts as expired).
pub open spec fn draft_needs_refresh(d: DraftView, now: u64) -> bool {
    d.refresh_token is Some && (d.access_token is None || match d.expires_at_unix_ms {
        Some(x) => x,
        None => 0,
    } <= now)
}

/// Whether a draft is refreshed before it is stored.
pub fn needs_refresh(d: &CredentialDraft, now: u64) -> (r: bool)
    ensures
        r == draft_needs_refresh(draft_view(*d), now),
{
    let expires = match d.expires_at_unix_ms {
        Some(x) => x,
        None => 0,
    };
    d.refresh_token.is_some() && (d.access_token.is_none() || expires <= now)
}

/// `c` is the credential a draft is refreshed as: the stored one's id, switch
/// and order (`import`, on and 0 when there is none), the draft's tokens (an
/// empty access token when it has none), expiry (0 when unknown) and account
/// data, healthy.
pub open spec fn is_refresh_candidate(
    c: CredentialConfig,
    d: CredentialDraft,
    existing: Option<CredentialConfig>,
    channel: ChannelKind,
) -> bool {
    &&& c.id@ == match existing {
        Some(e) => e.id@,
        None => "import"@,
    }
    &&& c.channel == channel
    &&& c.enabled == match existing {
        Some(e) => e.enabled,
        None => true,
    }
    &&& c.order == match existing {
        Some(e) => e.order,
        None => 0,
    }
    &&& c.access_token@ == match d.access_token {
        Some(a) => a@,
        None => Seq::empty(),
    }
    &&& Some(c.refresh_token) == d.refresh_token
    &&& c.expires_at_unix_ms == match d.expires_at_unix_ms {
        Some(x) => x,
        None => 0,
    }
    &&& c.user_email == d.user_email
    &&& c.account_id == d.account_id
    &&& c.organization_uuid == d.organization_uuid
    &&& c.subscription_type == d.subscription_type
    &&& c.rate_limit_tier == d.rate_limit_tier
    &&& c.status == CredentialStatus::Healthy
    &&& c.cooldown_until_unix_ms is None
    &&& c.last_error is None
    &&& c.last_used_at_unix_ms is None
}

/// The credential a draft is refreshed as.
pub fn refresh_candidate(
    d: &CredentialDraft,
    existing: Option<&CredentialConfig>,
    channel: ChannelKind,
) -> (r: CredentialConfig)
    requires
        d.refresh_token is Some,
    ensures
        is_refresh_candidate(r, *d, opt_deref(existing), channel),
{
    let (id, enabled, order) = match existing {
        Some(e) => (e.id.clone(), e.enabled, e.order),
        None => (String::from_str("import"), true, 0i64),
    };
    let access_token = match &d.access_token {
        Some(a) => a.clone(),
        None => String::new(),
    };
    let refresh_token = match &d.refresh_token {
        Some(f) => f.clone(),
        None => String::new(),
    };
    CredentialConfig {
        id,
        channel,
        enabled,
        order,
        access_token,
        refresh_token,
        expires_at_unix_ms: match d.expires_at_unix_ms {
            Some(x) => x,
            None => 0,
        },
        user_email: clone_opt_string(&d.user_email),
        account_id: clone_opt_string(&d.account_id),
        organization_uuid: clone_opt_string(&d.organization_uuid),
        subscription_type: clone_opt_string(&d.subscription_type),
        rate_limit_tier: clone_opt_string(&d.rate_limit_tier),
        status: CredentialStatus::Healthy,
        cooldown_until_unix_ms: None,
        last_error: None,
        last_used_at_unix_ms: None,
    }
}

/// A draft after a refresh: the new tokens and expiry, and the refresh's
/// account data where the draft has none.
pub open spec fn refreshed_draft_of(d: CredentialDraft, refreshed: RefreshedCredential) -> CredentialDraft {
    CredentialDraft {
        access_token: Some(refreshed.access_token),
        refresh_token: Some(refreshed.refresh_token),
        expires_at_unix_ms: Some(refreshed.expires_at_unix_ms),
        user_email: either(d.user_email, refreshed.user_email),
        account_id: either(d.account_id, refreshed.account_id),
        organization_uuid: d.organization_uuid,
        subscription_type: either(d.subscription_type, refreshed.subscription_type),
        rate_limit_tier: either(d.rate_limit_tier, refreshed.rate_limit_tier),
    }
}

/// A draft after a refresh.
pub fn apply_refresh(d: CredentialDraft, refreshed: RefreshedCredential) -> (r: CredentialDraft)
    ensures
        r == refreshed_draft_of(d, refreshed),
{
    CredentialDraft {
        access_token: Some(refreshed.access_token),
        refresh_token: Some(refreshed.refresh_token),
        expires_at_unix_ms: Some(refreshed.expires_at_unix_ms),
        user_email: either_string(d.user_email, refreshed.user_email),
        account_id: either_string(d.account_id, refreshed.account_id),
        organization_uuid: d.organization_uuid,
        subscription_type: either_string(d.subscription_type, refreshed.subscription_type),
        rate_limit_tier: either_string(d.rate_limit_tier, refreshed.rate_limit_tier),
    }
}

/// Whether the account profile is fetched to complete a draft: a ClaudeCode
/// draft with an access token that lacks its e-mail, organization, plan or tier.
pub open spec fn draft_needs_profile(channel: ChannelKind, d: CredentialDraft) -> bool {
    &&& channel == ChannelKind::ClaudeCode
    &&& d.access_token is Some
    &&& (d.user_email is None || d.organization_uuid is None || d.subscription_type is None
        || d.rate_limit_tier is None)
}

/// Whether the account profile is fetched to complete a draft.
pub fn needs_profile(channel: ChannelKind, d: &CredentialDraft) -> (r: bool)
    ensures
        r == draft_needs_profile(channel, *d),
{
    channel == ChannelKind::ClaudeCode && d.access_token.is_some() && (d.user_email.is_none()
        || d.organization_uuid.is_none() || d.subscription_type.is_none()
        || d.rate_limit_tier.is_none())
}

/// A draft completed with a profile: each account field it lacks, from the
/// profile.
pub open spec fn profiled_draft_of(d: CredentialDraft, p: OAuthProfileParsed) -> CredentialDraft {
    CredentialDraft {
        user_email: either(d.user_email, p.email),
        organization_uuid: either(d.organization_uuid, p.organization_uuid),
        subscription_type: either(d.subscription_type, p.subscription_type),
        rate_limit_tier: either(d.rate_limit_tier, p.rate_limit_tier),
        ..d
    }
}

/// A draft completed with a profile.
pub fn apply_profile(d: CredentialDraft, p: OAuthProfileParsed) -> (r: CredentialDraft)
    ensures
        r == profiled_draft_of(d, p),
{
    CredentialDraft {
        access_token: d.access_token,
        refresh_token: d.refresh_token,
        expires_at_unix_ms: d.expires_at_unix_ms,
        user_email: either_string(d.user_email, p.email),
        account_id: d.account_id,
        organization_uuid: either_string(d.organization_uuid, p.organization_uuid),
        subscription_type: either_string(d.subscription_type, p.subscription_type),
        rate_limit_tier: either_string(d.rate_limit_tier, p.rate_limit_tier),
    }
}

/// The update a finished draft is stored with: the request's id, switch and
/// order, else the stored credential's; the draft's tokens and account data;
/// an unknown expiry as 0. It fails without an access token, and for Codex
/// without an account id.
pub open spec fn finished_input_of(
    channel: ChannelKind,
    input: CredentialUpsertInput,
    existing: Option<CredentialConfig>,
    d: CredentialDraft,
) -> Result<CredentialUpsertInput, ResolveError> {
    if d.access_token is None {
        Err(ResolveError::MissingAccessToken)
    } else if channel == ChannelKind::Codex && d.account_id is None {
        Err(ResolveError::MissingAccountId)
    } else {
        Ok(
            CredentialUpsertInput {
                id: either(
                    input.id,
                    match existing {
                        Some(e) => Some(e.id),
                        None => None,
                    },
                ),
                channel: Some(channel),
                enabled: either(
                    input.enabled,
                    match existing {
                        Some(e) => Some(e.enabled),
                        None => None,
                    },
                ),
                order: either(
                    input.order,
                    match existing {
                        Some(e) => Some(e.order),
                        None => None,
                    },
                ),
                access_token: d.access_token,
                refresh_token: d.refresh_token,
                id_token: None,
                expires_at_unix_ms: Some(
                    match d.expires_at_unix_ms {
                        Some(x) => x,
                        None => 0,
                    },
                ),
                user_email: d.user_email,
                account_id: d.account_id,
                organization_uuid: d.organization_uuid,
                subscription_type: d.subscription_type,
                rate_limit_tier: d.rate_limit_tier,
            },
        )
    }
}

/// The update a finished draft is stored with.
pub fn finish_credential_input(
    channel: ChannelKind,
    input: &CredentialUpsertInput,
    existing: Option<&CredentialConfig>,
    d: CredentialDraft,
) -> (r: Result<CredentialUpsertInput, ResolveError>)
    ensures
        r == finished_input_of(channel, *input, opt_deref(existing), d),
{
    if d.access_token.is_none() {
        return Err(ResolveError::MissingAccessToken);
    }
    if channel == ChannelKind::Codex && d.account_id.is_none() {
        return Err(ResolveError::MissingAccountId);
    }
    let id = match clone_opt_string(&input.id) {
        Some(i) => Some(i),
        None => match existing {
            Some(e) => Some(e.id.clone()),
            None => None,
        },
    };
    let enabled = match input.enabled {
        Some(b) => Some(b),
        None => match existing {
            Some(e) => Some(e.enabled),
            None => None,
        },
    };
    let order = match input.order {
        Some(o) => Some(o),
        None => match existing {
            Some(e) => Some(e.order),
            None => None,
        },
    };
    let expires = match d.expires_at_unix_ms {
        Some(x) => x,
        None => 0,
    };
    Ok(
        CredentialUpsertInput {
            id,
            channel: Some(channel),
            enabled,
            order,
            access_token: d.access_token,
            refresh_token: d.refresh_token,
            id_token: None,
            expires_at_unix_ms: Some(expires),
            user_email: d.user_email,
            account_id: d.account_id,
            organization_uuid: d.organization_uuid,
            subscription_type: d.subscription_type,
            rate_limit_tier: d.rate_limit_tier,
        },
    )
}

/// What has happened so far in resolving a create or update request.
#[derive(Debug, PartialEq)]
pub enum ResolveEvent {
    /// The request was merged with the stored credential into the draft.
    Merged,
    /// The refresh asked for has been done: the new tokens, or none when the
    /// credential was still fresh.
    Refreshed(Option<RefreshedCredential>),
    /// The account profile asked for has been fetched.
    Profiled(OAuthProfileParsed),
    /// The refresh asked for failed.
    RefreshFailed(RefreshError),
    /// The profile fetch asked for failed, with this error text.
    ProfileFailed(String),
}

/// What to do next in resolving a create or update request.
#[derive(Debug, PartialEq)]
pub enum ResolveAction {
    /// Refresh this credential (a refresh error ends the request with its
    /// text), then go on with the draft and a `Refreshed` event.
    Refresh(CredentialDraft, CredentialConfig),
    /// Fetch the account profile of this access token (a fetch error ends the
    /// request), then go on with the draft and a `Profiled` event.
    FetchProfile(CredentialDraft, String),
    /// Store this update.
    Store(CredentialUpsertInput),
    /// Refuse the request.
    Fail(ResolveError),
    /// End the request with the error text of a failed refresh or profile
    /// fetch.
    Abort(String),
}

/// The action that finishing a draft leads to.
pub open spec fn finish_action(r: Result<CredentialUpsertInput, ResolveError>) -> ResolveAction {
    match r {
        Ok(x) => ResolveAction::Store(x),
        Err(e) => ResolveAction::Fail(e),
    }
}

/// What follows once a draft has been refreshed, or needed no refresh: the
/// profile is fetched when the draft lacks account data, else it is finished.
pub open spec fn after_refresh_action(
    channel: ChannelKind,
    input: CredentialUpsertInput,
    existing: Option<CredentialConfig>,
    d: CredentialDraft,
) -> ResolveAction {
    if draft_needs_profile(channel, d) {
        ResolveAction::FetchProfile(d, d.access_token->Some_0)
    } else {
        finish_action(finished_input_of(channel, input, existing, d))
    }
}

/// The next action of a resolution, in its order: after the merge, a refresh
/// when the draft needs one; after the refresh (or none), the profile when the
/// draft lacks account data; after that, the finished update or its refusal.
/// A failed refresh or profile fetch ends the whole resolution with its error.
pub open spec fn resolve_step_ok(
    channel: ChannelKind,
    input: CredentialUpsertInput,
    existing: Option<CredentialConfig>,
    draft: CredentialDraft,
    event: ResolveEvent,
    now: u64,
    r: ResolveAction,
) -> bool {
    match event {
        ResolveEvent::Merged => if draft_needs_refresh(draft_view(draft), now) {
            r matches ResolveAction::Refresh(d, c) && d == draft && is_refresh_candidate(
                c,
                draft,
                existing,
                channel,
            )
        } else {
            r == after_refresh_action(channel, input, existing, draft)
        },
        ResolveEvent::Refreshed(Some(rf)) => r == after_refresh_action(
            channel,
            input,
            existing,
            refreshed_draft_of(draft, rf),
        ),
        ResolveEvent::Refreshed(None) => r == after_refresh_action(channel, input, existing, draft),
        ResolveEvent::Profiled(p) => r == finish_action(
            finished_input_of(channel, input, existing, profiled_draft_of(draft, p)),
        ),
        ResolveEvent::RefreshFailed(e) => r == ResolveAction::Abort(
            match e {
                RefreshError::InvalidCredential(m) => m,
                RefreshError::Transient(m) => m,
            },
        ),
        ResolveEvent::ProfileFailed(m) => r == ResolveAction::Abort(m),
    }
}

/// After a refresh, or none: fetch the profile or finish.
fn after_refresh(
    channel: ChannelKind,
    input: &CredentialUpsertInput,
    existing: Option<&CredentialConfig>,
    d: CredentialDraft,
) -> (r: ResolveAction)
    ensures
        r == after_refresh_action(channel, *input, opt_deref(existing), d),
{
    if needs_profile(channel, &d) {
        let access = match &d.access_token {
            Some(a) => a.clone(),
            None => String::new(),
        };
        ResolveAction::FetchProfile(d, access)
    } else {
        match finish_credential_input(channel, input, existing, d) {
            Ok(x) => ResolveAction::Store(x),
            Err(e) => ResolveAction::Fail(e),
        }
    }
}

/// The next step of resolving a create or update request of `channel` at time
/// `now`, from the draft so far and what has just happened.
pub fn resolve_credential_step(
    channel: ChannelKind,
    input: &CredentialUpsertInput,
    existing: Option<&CredentialConfig>,
    draft: CredentialDraft,
    event: ResolveEvent,
    now: u64,
) -> (r: ResolveAction)
    ensures
        resolve_step_ok(channel, *input, opt_deref(existing), draft, event, now, r),
{
    match event {
        ResolveEvent::Merged => {
            if needs_refresh(&draft, now) {
                let c = refresh_candidate(&draft, existing, channel);
                ResolveAction::Refresh(draft, c)
            } else {
                after_refresh(channel, input, existing, draft)
            }
        },
        ResolveEvent::Refreshed(Some(rf)) => after_refresh(
            channel,
            input,
            existing,
            apply_refresh(draft, rf),
        ),
        ResolveEvent::Refreshed(None) => after_refresh(channel, input, existing, draft),
        ResolveEvent::Profiled(p) => match finish_credential_input(
            channel,
            input,
            existing,
            apply_profile(draft, p),
        ) {
            Ok(x) => ResolveAction::Store(x),
            Err(e) => ResolveAction::Fail(e),
        },
        ResolveEvent::RefreshFailed(e) => ResolveAction::Abort(refresh_error_message(e)),
        ResolveEvent::ProfileFailed(m) => ResolveAction::Abort(m),
    }
}

/// The first step of resolving a create or update request: the request merged
/// with the stored credential and the imported ID token's profile, refused when
/// it has no token at all, else the step after the merge.
pub fn start_credential_resolution(
    channel: ChannelKind,
    input: &CredentialUpsertInput,
    existing: Option<&CredentialConfig>,
    import: Option<&OAuthProfileParsed>,
    now: u64,
) -> (r: ResolveAction)
    ensures
        draft_of(*input, opt_deref(existing), opt_deref(import)).access_token is None && draft_of(
            *input,
            opt_deref(existing),
            opt_deref(import),
        ).refresh_token is None ==> r == ResolveAction::Fail(ResolveError::MissingTokens),
        !(draft_of(*input, opt_deref(existing), opt_deref(import)).access_token is None && draft_of(
            *input,
            opt_deref(existing),
            opt_deref(import),
        ).refresh_token is None) ==> exists|d: CredentialDraft|
            draft_view(d) == draft_of(*input, opt_deref(existing), opt_deref(import))
                && resolve_step_ok(
                channel,
                *input,
                opt_deref(existing),
                d,
                ResolveEvent::Merged,
                now,
                r,
            ),
{
    match draft_credential(input, existing, import) {
        Err(e) => ResolveAction::Fail(e),
        Ok(d) => {
            let ghost gd = d;
            let r = resolve_credential_step(channel, input, existing, d, ResolveEvent::Merged, now);
            assert(resolve_step_ok(channel, *input, opt_deref(existing), gd, ResolveEvent::Merged, now, r));
            r
        },
    }
}

} // verus!
