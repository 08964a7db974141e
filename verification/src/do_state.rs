//! The decisions of the credential store's request handler: which handler a
//! request goes to, who may call it, which stored credential it names, and what
//! is recorded after a proxied request. The handler itself (storage, upstream
//! calls, responses) performs what these functions decide.
use vstd::prelude::*;
use crate::config::{
    clone_credential, clone_opt_string, ChannelKind, CredentialConfig, CredentialUsageBucket,
    CredentialUsageSnapshot, DurableStateDoc,
};
use crate::json::{json_str, JsonValue};
use crate::primitives::opt_str_view;
use crate::proxy::{strip_prefix_once, strip_prefix_string};
use crate::oauth::{strip_suffix_all, strip_suffix_len};
use crate::text::{
    chars_of, decimal, decimal_string, clean, contains_char, ends_with, has_prefix, has_suffix, index_of, lower_eq,
    lower_seq, opt_view, starts_with, str_equal, sub_string, trim, trim_str,
};

verus! {

/// The HTTP methods the handler tells apart.
#[derive(Clone, Copy, Debug, PartialEq, Eq, Structural)]
pub enum HttpMethod {
    Get,
    Post,
    Put,
    Delete,
    Other,
}

/// Where a request to the store goes.
#[derive(Debug, PartialEq)]
pub enum Route {
    /// The public usage list of ClaudeCode credentials.
    PublicCredentials,
    /// The admin API of a channel, with the rest of the path.
    Api(ChannelKind, String),
    /// A request to forward upstream with a credential of the channel.
    Proxy(ChannelKind),
    /// Counting the input tokens of a Responses request.
    CodexInputTokens,
    NotFound,
}

/// A route as plain values.
pub enum RouteView {
    PublicCredentials,
    Api(ChannelKind, Seq<char>),
    Proxy(ChannelKind),
    CodexInputTokens,
    NotFound,
}

/// The plain values of a route.
pub open spec fn route_view(r: Route) -> RouteView {
    match r {
        Route::PublicCredentials => RouteView::PublicCredentials,
        Route::Api(c, tail) => RouteView::Api(c, tail@),
        Route::Proxy(c) => RouteView::Proxy(c),
        Route::CodexInputTokens => RouteView::CodexInputTokens,
        Route::NotFound => RouteView::NotFound,
    }
}

/// The route of a request with this method and path; the first rule that
/// applies wins.
pub open spec fn route_of(method: HttpMethod, path: Seq<char>) -> RouteView {
    if path == "/api/claudecode/public/credentials"@ && method == HttpMethod::Get {
        RouteView::PublicCredentials
    } else if has_prefix(path, "/api/claudecode"@) {
        RouteView::Api(ChannelKind::ClaudeCode, strip_prefix_once(path, "/api/claudecode"@))
    } else if has_prefix(path, "/api/codex"@) {
        RouteView::Api(ChannelKind::Codex, strip_prefix_once(path, "/api/codex"@))
    } else if path == "/v1"@ || has_prefix(path, "/v1/"@) {
        RouteView::Proxy(ChannelKind::ClaudeCode)
    } else if method == HttpMethod::Post && path == "/codex/v1/responses/input_tokens"@ {
        RouteView::CodexInputTokens
    } else if path == "/codex"@ || has_prefix(path, "/codex/"@) {
        RouteView::Proxy(ChannelKind::Codex)
    } else {
        RouteView::NotFound
    }
}

/// Whether `s` begins with the text `p`.
fn has_text_prefix(s: &[char], p: &str) -> (r: bool)
    ensures
        r == has_prefix(s@, p@),
{
    let pc = chars_of(p);
    starts_with(s, pc.as_slice())
}

/// Whether `s` ends with the text `p`.
fn has_text_suffix(s: &[char], p: &str) -> (r: bool)
    ensures
        r == has_suffix(s@, p@),
{
    let pc = chars_of(p);
    ends_with(s, pc.as_slice())
}

/// Where a request goes.
pub fn route(method: HttpMethod, path: &str) -> (r: Route)
    ensures
        route_view(r) == route_of(method, path@),
{
    let pc = chars_of(path);
    let p = pc.as_slice();
    if str_equal(path, "/api/claudecode/public/credentials") && method == HttpMethod::Get {
        return Route::PublicCredentials;
    }
    if has_text_prefix(p, "/api/claudecode") {
        return Route::Api(ChannelKind::ClaudeCode, strip_prefix_string(p, "/api/claudecode"));
    }
    if has_text_prefix(p, "/api/codex") {
        return Route::Api(ChannelKind::Codex, strip_prefix_string(p, "/api/codex"));
    }
    if str_equal(path, "/v1") || has_text_prefix(p, "/v1/") {
        return Route::Proxy(ChannelKind::ClaudeCode);
    }
    if method == HttpMethod::Post && str_equal(path, "/codex/v1/responses/input_tokens") {
        return Route::CodexInputTokens;
    }
    if str_equal(path, "/codex") || has_text_prefix(p, "/codex/") {
        return Route::Proxy(ChannelKind::Codex);
    }
    Route::NotFound
}

/// An admin API call of a channel.
#[derive(Debug, PartialEq)]
pub enum ApiRoute {
    ListCredentials,
    CreateCredential,
    ListUsage,
    GetUsage(String),
    OAuthStart,
    OAuthCallback,
    SetEnabled(String, bool),
    UpdateCredential(String),
    DeleteCredential(String),
    NotFound,
}

/// An admin API call as plain values.
pub enum ApiRouteView {
    ListCredentials,
    CreateCredential,
    ListUsage,
    GetUsage(Seq<char>),
    OAuthStart,
    OAuthCallback,
    SetEnabled(Seq<char>, bool),
    UpdateCredential(Seq<char>),
    DeleteCredential(Seq<char>),
    NotFound,
}

/// The plain values of an admin API call.
pub open spec fn api_route_view(r: ApiRoute) -> ApiRouteView {
    match r {
        ApiRoute::ListCredentials => ApiRouteView::ListCredentials,
        ApiRoute::CreateCredential => ApiRouteView::CreateCredential,
        ApiRoute::ListUsage => ApiRouteView::ListUsage,
        ApiRoute::GetUsage(id) => ApiRouteView::GetUsage(id@),
        ApiRoute::OAuthStart => ApiRouteView::OAuthStart,
        ApiRoute::OAuthCallback => ApiRouteView::OAuthCallback,
        ApiRoute::SetEnabled(id, on) => ApiRouteView::SetEnabled(id@, on),
        ApiRoute::UpdateCredential(id) => ApiRouteView::UpdateCredential(id@),
        ApiRoute::DeleteCredential(id) => ApiRouteView::DeleteCredential(id@),
        ApiRoute::NotFound => ApiRouteView::NotFound,
    }
}

/// `s` with `p` removed from its front as often as it is there.
pub open spec fn strip_prefix_all(s: Seq<char>, p: Seq<char>) -> Seq<char>
    decreases s.len(),
{
    if p.len() > 0 && has_prefix(s, p) {
        strip_prefix_all(s.subrange(p.len() as int, s.len() as int), p)
    } else {
        s
    }
}

/// The call that an admin API path (after the channel's prefix) and method
/// make; the first rule that applies wins.
pub open spec fn api_route_of(method: HttpMethod, tail: Seq<char>) -> ApiRouteView {
    if tail == "/credentials"@ && method == HttpMethod::Get {
        ApiRouteView::ListCredentials
    } else if tail == "/credentials"@ && method == HttpMethod::Post {
        ApiRouteView::CreateCredential
    } else if tail == "/credentials/usage"@ && method == HttpMethod::Get {
        ApiRouteView::ListUsage
    } else if method == HttpMethod::Get && has_prefix(tail, "/credentials/usage/"@) {
        ApiRouteView::GetUsage(strip_prefix_all(tail, "/credentials/usage/"@))
    } else if tail == "/oauth/start"@ && method == HttpMethod::Post {
        ApiRouteView::OAuthStart
    } else if tail == "/oauth/callback"@ && method == HttpMethod::Post {
        ApiRouteView::OAuthCallback
    } else if has_prefix(tail, "/credentials/"@) {
        let id = strip_prefix_once(tail, "/credentials/"@);
        if has_suffix(id, "/enable"@) && method == HttpMethod::Post {
            ApiRouteView::SetEnabled(strip_suffix_all(id, "/enable"@), true)
        } else if has_suffix(id, "/disable"@) && method == HttpMethod::Post {
            ApiRouteView::SetEnabled(strip_suffix_all(id, "/disable"@), false)
        } else if index_of(id, '/') is None && method == HttpMethod::Put {
            ApiRouteView::UpdateCredential(id)
        } else if index_of(id, '/') is None && method == HttpMethod::Delete {
            ApiRouteView::DeleteCredential(id)
        } else {
            ApiRouteView::NotFound
        }
    } else {
        ApiRouteView::NotFound
    }
}

/// Where the front of `v` ends once every leading `p` is removed.
fn strip_prefix_start(v: &[char], p: &[char]) -> (r: usize)
    ensures
        r <= v@.len(),
        v@.subrange(r as int, v@.len() as int) == strip_prefix_all(v@, p@),
    decreases v@.len(),
{
    if p.len() > 0 && starts_with(v, p) {
        let rest = &v[p.len()..v.len()];
        assert(rest@ =~= v@.subrange(p@.len() as int, v@.len() as int));
        let r = strip_prefix_start(rest, p);
        assert(rest@.subrange(r as int, rest@.len() as int) =~= v@.subrange(
            (p.len() + r) as int,
            v@.len() as int,
        ));
        p.len() + r
    } else {
        assert(v@.subrange(0, v@.len() as int) =~= v@);
        0
    }
}

/// The admin API call of a path (after the channel's prefix) and method.
pub fn route_api(method: HttpMethod, tail: &str) -> (r: ApiRoute)
    ensures
        api_route_view(r) == api_route_of(method, tail@),
{
    let tc = chars_of(tail);
    let t = tc.as_slice();
    if str_equal(tail, "/credentials") && method == HttpMethod::Get {
        return ApiRoute::ListCredentials;
    }
    if str_equal(tail, "/credentials") && method == HttpMethod::Post {
        return ApiRoute::CreateCredential;
    }
    if str_equal(tail, "/credentials/usage") && method == HttpMethod::Get {
        return ApiRoute::ListUsage;
    }
    if method == HttpMethod::Get && has_text_prefix(t, "/credentials/usage/") {
        let pc = chars_of("/credentials/usage/");
        let start = strip_prefix_start(t, pc.as_slice());
        return ApiRoute::GetUsage(sub_string(t, start, t.len()));
    }
    if str_equal(tail, "/oauth/start") && method == HttpMethod::Post {
        return ApiRoute::OAuthStart;
    }
    if str_equal(tail, "/oauth/callback") && method == HttpMethod::Post {
        return ApiRoute::OAuthCallback;
    }
    if has_text_prefix(t, "/credentials/") {
        let id = strip_prefix_string(t, "/credentials/");
        let ic = chars_of(id.as_str());
        let i = ic.as_slice();
        if has_text_suffix(i, "/enable") && method == HttpMethod::Post {
            let sc = chars_of("/enable");
            let end = strip_suffix_len(i, sc.as_slice());
            return ApiRoute::SetEnabled(sub_string(i, 0, end), true);
        }
        if has_text_suffix(i, "/disable") && method == HttpMethod::Post {
            let sc = chars_of("/disable");
            let end = strip_suffix_len(i, sc.as_slice());
            return ApiRoute::SetEnabled(sub_string(i, 0, end), false);
        }
        let has_slash = contains_char(i, '/');
        if !has_slash && method == HttpMethod::Put {
            return ApiRoute::UpdateCredential(id);
        }
        if !has_slash && method == HttpMethod::Delete {
            return ApiRoute::DeleteCredential(id);
        }
        return ApiRoute::NotFound;
    }
    ApiRoute::NotFound
}

/// Why a request was refused before it was handled.
#[derive(Clone, Copy, Debug, PartialEq, Eq, Structural)]
pub enum AuthError {
    /// The store has no admin token configured.
    MissingSecret,
    /// The request does not carry the admin token.
    Unauthorized,
}

impl AuthError {
    /// The text of the refusal.
    pub fn message(&self) -> (r: String)
        ensures
            r@ == match self {
                AuthError::MissingSecret => "missing ADMIN_TOKEN secret"@,
                AuthError::Unauthorized => "unauthorized"@,
            },
    {
        match self {
            AuthError::MissingSecret => String::from_str("missing ADMIN_TOKEN secret"),
            AuthError::Unauthorized => String::from_str("unauthorized"),
        }
    }
}

/// The token of an `Authorization: Bearer ...` header: trimmed, and only when
/// it is not blank.
pub open spec fn bearer_of(header: Option<Seq<char>>) -> Option<Seq<char>> {
    match header {
        Some(h) => if has_prefix(h, "Bearer "@) {
            clean(strip_prefix_once(h, "Bearer "@))
        } else {
            None
        },
        None => None,
    }
}

/// The bearer token of an `Authorization` header value.
pub fn bearer_token(authorization: Option<&str>) -> (r: Option<String>)
    ensures
        opt_view(r) == bearer_of(opt_str_view(authorization)),
{
    match authorization {
        Some(h) => {
            let hc = chars_of(h);
            if !has_text_prefix(hc.as_slice(), "Bearer ") {
                return None;
            }
            let rest = strip_prefix_string(hc.as_slice(), "Bearer ");
            let t = trim_str(rest.as_str());
            if t.as_str().unicode_len() == 0 {
                None
            } else {
                Some(t)
            }
        },
        None => None,
    }
}

/// The outcome of checking a request's `Authorization` header against the
/// admin token (`expected`, as configured).
pub open spec fn authorized(expected: Option<Seq<char>>, authorization: Option<Seq<char>>) -> Result<
    (),
    AuthError,
> {
    match expected {
        None => Err(AuthError::MissingSecret),
        Some(token) => match bearer_of(authorization) {
            Some(provided) => if provided == token {
                Ok(())
            } else {
                Err(AuthError::Unauthorized)
            },
            None => Err(AuthError::Unauthorized),
        },
    }
}

/// Checks a request's `Authorization` header against the admin token.
pub fn authorize(expected: Option<&str>, authorization: Option<&str>) -> (r: Result<(), AuthError>)
    ensures
        r == authorized(opt_str_view(expected), opt_str_view(authorization)),
{
    let token = match expected {
        Some(t) => t,
        None => {
            return Err(AuthError::MissingSecret);
        },
    };
    match bearer_token(authorization) {
        Some(provided) => if str_equal(provided.as_str(), token) {
            Ok(())
        } else {
            Err(AuthError::Unauthorized)
        },
        None => Err(AuthError::Unauthorized),
    }
}

/// Whether a request is a Codex review: its `x-openai-subagent` header is
/// `review` in any ASCII case, blanks around it aside.
pub fn request_subagent_is_review(subagent: Option<&str>) -> (r: bool)
    ensures
        r == match subagent {
            Some(v) => lower_seq(trim(v@)) == "review"@,
            None => false,
        },
{
    match subagent {
        Some(v) => {
            let t = trim_str(v);
            let tc = chars_of(t.as_str());
            let rc = chars_of("review");
            lower_eq(tc.as_slice(), rc.as_slice())
        },
        None => false,
    }
}

/// Why a stored credential could not be used.
#[derive(Debug, PartialEq)]
pub enum StateError {
    /// No credential of the channel has this id.
    CredentialNotFound(String),
}

impl StateError {
    /// The text of the error.
    pub fn message(&self) -> (r: String)
        ensures
            r@ == match self {
                StateError::CredentialNotFound(id) => "credential not found: "@ + id@,
            },
    {
        match self {
            StateError::CredentialNotFound(id) => {
                let mut m = String::from_str("credential not found: ");
                m.append(id.as_str());
                m
            },
        }
    }
}

/// Whether a stored credential is the one of `channel` named `id`.
pub open spec fn names(c: CredentialConfig, channel: ChannelKind, id: Seq<char>) -> bool {
    c.channel == channel && c.id@ == id
}

/// Whether some stored credential is the one of `channel` named `id`.
pub open spec fn has_credential(creds: Seq<CredentialConfig>, channel: ChannelKind, id: Seq<char>) -> bool {
    exists|i: int| 0 <= i < creds.len() && names(#[trigger] creds[i], channel, id)
}

/// The first stored credential of `channel` named `id`.
pub open spec fn first_named(creds: Seq<CredentialConfig>, channel: ChannelKind, id: Seq<char>) -> Option<
    CredentialConfig,
>
    decreases creds.len(),
{
    if creds.len() == 0 {
        None
    } else if names(creds[0], channel, id) {
        Some(creds[0])
    } else {
        first_named(creds.drop_first(), channel, id)
    }
}

/// Skipping credentials that are not the one named.
proof fn lemma_first_named_skip(creds: Seq<CredentialConfig>, channel: ChannelKind, id: Seq<char>, i: int)
    requires
        0 <= i <= creds.len(),
        forall|j: int| 0 <= j < i ==> !names(#[trigger] creds[j], channel, id),
    ensures
        first_named(creds, channel, id) == first_named(creds.subrange(i, creds.len() as int), channel, id),
    decreases i,
{
    if i > 0 {
        lemma_first_named_skip(creds, channel, id, i - 1);
        let t = creds.subrange(i - 1, creds.len() as int);
        assert(t[0] == creds[i - 1]);
        assert(t.drop_first() =~= creds.subrange(i, creds.len() as int));
    } else {
        assert(creds.subrange(0, creds.len() as int) =~= creds);
    }
}

/// The index of the first credential of `channel` named `id`.
pub fn find_credential(creds: &Vec<CredentialConfig>, channel: ChannelKind, id: &str) -> (r: Option<usize>)
    ensures
        match r {
            Some(i) => i < creds@.len() && names(creds@[i as int], channel, id@) && first_named(
                creds@,
                channel,
                id@,
            ) == Some(creds@[i as int]),
            None => first_named(creds@, channel, id@) is None && !has_credential(creds@, channel, id@),
        },
{
    let n = creds.len();
    let mut i: usize = 0;
    while i < n
        invariant
            n == creds@.len(),
            i <= n,
            forall|j: int| 0 <= j < i ==> !names(#[trigger] creds@[j], channel, id@),
        decreases n - i,
    {
        if creds[i].channel == channel && str_equal(creds[i].id.as_str(), id) {
            proof {
                lemma_first_named_skip(creds@, channel, id@, i as int);
                assert(creds@.subrange(i as int, n as int)[0] == creds@[i as int]);
            }
            return Some(i);
        }
        i = i + 1;
    }
    proof {
        lemma_first_named_skip(creds@, channel, id@, n as int);
    }
    None
}

/// Succeeds when the store holds a credential of `channel` named `id`.
pub fn ensure_channel_credential(doc: &DurableStateDoc, channel: ChannelKind, id: &str) -> (r: Result<
    (),
    StateError,
>)
    ensures
        r is Ok <==> has_credential(doc.credentials@, channel, id@),
        r matches Err(StateError::CredentialNotFound(e)) ==> e@ == id@,
{
    match find_credential(&doc.credentials, channel, id) {
        Some(_) => Ok(()),
        None => Err(StateError::CredentialNotFound(String::from_str(id))),
    }
}

/// A copy of the credential of `channel` named `id`.
pub fn get_channel_credential(creds: &Vec<CredentialConfig>, channel: ChannelKind, id: &str) -> (r:
    Result<CredentialConfig, StateError>)
    ensures
        match first_named(creds@, channel, id@) {
            Some(c) => r == Ok::<CredentialConfig, StateError>(c),
            None => r matches Err(StateError::CredentialNotFound(e)) && e@ == id@,
        },
{
    match find_credential(creds, channel, id) {
        Some(i) => Ok(clone_credential(&creds[i])),
        None => Err(StateError::CredentialNotFound(String::from_str(id))),
    }
}

/// The stored credential an update or import names: the one named by the
/// path's id if there is one, else the one named by the payload's id.
pub open spec fn existing_of(
    creds: Seq<CredentialConfig>,
    channel: ChannelKind,
    forced_id: Option<Seq<char>>,
    input_id: Option<Seq<char>>,
) -> Option<CredentialConfig> {
    let forced = match forced_id {
        Some(id) => first_named(creds, channel, id),
        None => None,
    };
    match forced {
        Some(c) => Some(c),
        None => match input_id {
            Some(id) => first_named(creds, channel, id),
            None => None,
        },
    }
}

/// A copy of the stored credential an update or import names.
pub fn find_existing(
    doc: &DurableStateDoc,
    channel: ChannelKind,
    forced_id: Option<&str>,
    input_id: Option<&str>,
) -> (r: Option<CredentialConfig>)
    ensures
        r == existing_of(doc.credentials@, channel, opt_str_view(forced_id), opt_str_view(input_id)),
{
    if let Some(id) = forced_id {
        if let Some(i) = find_credential(&doc.credentials, channel, id) {
            return Some(clone_credential(&doc.credentials[i]));
        }
    }
    match input_id {
        Some(id) => match find_credential(&doc.credentials, channel, id) {
            Some(i) => Some(clone_credential(&doc.credentials[i])),
            None => None,
        },
        None => None,
    }
}

/// The credentials of one channel, in stored order.
pub open spec fn of_channel(creds: Seq<CredentialConfig>, channel: ChannelKind) -> Seq<CredentialConfig>
    decreases creds.len(),
{
    if creds.len() == 0 {
        Seq::empty()
    } else if creds.last().channel == channel {
        of_channel(creds.drop_last(), channel).push(creds.last())
    } else {
        of_channel(creds.drop_last(), channel)
    }
}

/// Copies of the credentials of one channel, in stored order.
pub fn channel_credentials(creds: &Vec<CredentialConfig>, channel: ChannelKind) -> (r: Vec<
    CredentialConfig,
>)
    ensures
        r@ == of_channel(creds@, channel),
{
    let mut out: Vec<CredentialConfig> = Vec::new();
    let n = creds.len();
    let mut i: usize = 0;
    while i < n
        invariant
            n == creds@.len(),
            i <= n,
            out@ == of_channel(creds@.subrange(0, i as int), channel),
        decreases n - i,
    {
        proof {
            let s = creds@.subrange(0, i + 1);
            assert(s.drop_last() =~= creds@.subrange(0, i as int));
            assert(s.last() == creds@[i as int]);
        }
        if creds[i].channel == channel {
            out.push(clone_credential(&creds[i]));
        }
        i = i + 1;
    }
    assert(creds@.subrange(0, n as int) =~= creds@);
    out
}

/// What the channel's usage is fetched with: ClaudeCode needs only the access
/// token, Codex also its account id, trimmed and not blank (sent as stored).
#[derive(Debug, PartialEq)]
pub enum UsageFetch {
    ClaudeCode,
    Codex(String),
    MissingAccountId,
}

/// The usage fetch of a credential as plain values.
pub enum UsageFetchView {
    ClaudeCode,
    Codex(Seq<char>),
    MissingAccountId,
}

/// The plain values of a usage fetch.
pub open spec fn usage_fetch_view(u: UsageFetch) -> UsageFetchView {
    match u {
        UsageFetch::ClaudeCode => UsageFetchView::ClaudeCode,
        UsageFetch::Codex(a) => UsageFetchView::Codex(a@),
        UsageFetch::MissingAccountId => UsageFetchView::MissingAccountId,
    }
}

/// How the usage of a credential of `channel` with this account id is fetched.
pub open spec fn usage_fetch_of(channel: ChannelKind, account_id: Option<Seq<char>>) -> UsageFetchView {
    match channel {
        ChannelKind::ClaudeCode => UsageFetchView::ClaudeCode,
        ChannelKind::Codex => match account_id {
            Some(a) => if trim(a).len() > 0 {
                UsageFetchView::Codex(a)
            } else {
                UsageFetchView::MissingAccountId
            },
            None => UsageFetchView::MissingAccountId,
        },
    }
}

/// How the usage of a credential is fetched.
pub fn usage_fetch_plan(channel: ChannelKind, account_id: Option<&str>) -> (r: UsageFetch)
    ensures
        usage_fetch_view(r) == usage_fetch_of(channel, opt_str_view(account_id)),
{
    match channel {
        ChannelKind::ClaudeCode => UsageFetch::ClaudeCode,
        ChannelKind::Codex => match account_id {
            Some(a) => {
                let t = trim_str(a);
                if t.as_str().unicode_len() > 0 {
                    UsageFetch::Codex(String::from_str(a))
                } else {
                    UsageFetch::MissingAccountId
                }
            },
            None => UsageFetch::MissingAccountId,
        },
    }
}

/// What is recorded of the credential once a proxied request has been answered
/// upstream, or what must be fetched first to record it.
#[derive(Debug, PartialEq)]
pub enum ProxyFollowUp {
    /// The answer was a success.
    RecordSuccess,
    /// The credential was refused; the error to record.
    RecordInvalidAuth(String),
    /// Rate limited: fetch the ClaudeCode usage, then record it.
    FetchClaudeUsage,
    /// Rate limited: fetch the Codex usage of this account, then record it.
    FetchCodexUsage(String),
    /// Rate limited with no usage to fetch; the error to record.
    RecordRateLimited(String),
    /// Any other answer; the error to record.
    RecordTransient(String),
}

/// A follow-up as plain values.
pub enum ProxyFollowUpView {
    RecordSuccess,
    RecordInvalidAuth(Seq<char>),
    FetchClaudeUsage,
    FetchCodexUsage(Seq<char>),
    RecordRateLimited(Seq<char>),
    RecordTransient(Seq<char>),
}

/// The plain values of a follow-up.
pub open spec fn follow_up_view(f: ProxyFollowUp) -> ProxyFollowUpView {
    match f {
        ProxyFollowUp::RecordSuccess => ProxyFollowUpView::RecordSuccess,
        ProxyFollowUp::RecordInvalidAuth(m) => ProxyFollowUpView::RecordInvalidAuth(m@),
        ProxyFollowUp::FetchClaudeUsage => ProxyFollowUpView::FetchClaudeUsage,
        ProxyFollowUp::FetchCodexUsage(a) => ProxyFollowUpView::FetchCodexUsage(a@),
        ProxyFollowUp::RecordRateLimited(m) => ProxyFollowUpView::RecordRateLimited(m@),
        ProxyFollowUp::RecordTransient(m) => ProxyFollowUpView::RecordTransient(m@),
    }
}

/// `upstream returned status N`.
pub open spec fn status_message(status: u16) -> Seq<char> {
    "upstream returned status "@ + decimal(status as nat)
}

/// The follow-up of an upstream answer with this status, for a credential of
/// `channel` with this account id: 2xx is a success, 401 and 403 a refused
/// credential, 429 a rate limit (with the usage fetched where it can be), any
/// other status a transient failure.
pub open spec fn follow_up_of(channel: ChannelKind, status: u16, account_id: Option<Seq<char>>) -> ProxyFollowUpView {
    if 200 <= status && status <= 299 {
        ProxyFollowUpView::RecordSuccess
    } else if status == 401 || status == 403 {
        ProxyFollowUpView::RecordInvalidAuth(status_message(status))
    } else if status == 429 {
        match usage_fetch_of(channel, account_id) {
            UsageFetchView::ClaudeCode => ProxyFollowUpView::FetchClaudeUsage,
            UsageFetchView::Codex(a) => ProxyFollowUpView::FetchCodexUsage(a),
            UsageFetchView::MissingAccountId => ProxyFollowUpView::RecordRateLimited(
                "upstream returned status 429; missing account_id"@,
            ),
        }
    } else {
        ProxyFollowUpView::RecordTransient(status_message(status))
    }
}

/// `upstream returned status N`.
fn status_text(status: u16) -> (r: String)
    ensures
        r@ == status_message(status),
{
    let mut m = String::from_str("upstream returned status ");
    let d = decimal_string(status as u64);
    m.append(d.as_str());
    m
}

/// The follow-up of an upstream answer.
pub fn proxy_follow_up(channel: ChannelKind, status: u16, account_id: Option<&str>) -> (r: ProxyFollowUp)
    ensures
        follow_up_view(r) == follow_up_of(channel, status, opt_str_view(account_id)),
{
    if 200 <= status && status <= 299 {
        ProxyFollowUp::RecordSuccess
    } else if status == 401 || status == 403 {
        ProxyFollowUp::RecordInvalidAuth(status_text(status))
    } else if status == 429 {
        match usage_fetch_plan(channel, account_id) {
            UsageFetch::ClaudeCode => ProxyFollowUp::FetchClaudeUsage,
            UsageFetch::Codex(a) => ProxyFollowUp::FetchCodexUsage(a),
            UsageFetch::MissingAccountId => ProxyFollowUp::RecordRateLimited(
                String::from_str("upstream returned status 429; missing account_id"),
            ),
        }
    } else {
        ProxyFollowUp::RecordTransient(status_text(status))
    }
}

/// The error recorded when the usage of a rate-limited credential could not be
/// fetched.
pub fn usage_fetch_failed_message(error: &str) -> (r: String)
    ensures
        r@ == "upstream returned status 429; usage fetch failed: "@ + error@,
{
    let mut m = String::from_str("upstream returned status 429; usage fetch failed: ");
    m.append(error);
    m
}

/// Whether a rate limit is recorded as one of Codex reviews: a Codex request
/// whose `x-openai-subagent` header says `review`.
pub fn is_codex_review(channel: ChannelKind, subagent: Option<&str>) -> (r: bool)
    ensures
        r == (channel == ChannelKind::Codex && match subagent {
            Some(v) => lower_seq(trim(v@)) == "review"@,
            None => false,
        }),
{
    channel == ChannelKind::Codex && request_subagent_is_review(subagent)
}

/// The body `{"error": message}` an error answer carries.
pub open spec fn is_error_answer(v: JsonValue, message: Seq<char>) -> bool {
    match v {
        JsonValue::Object(m) => m@.len() == 1 && m@[0].0@ == "error"@ && json_str(m@[0].1) == Some(
            message,
        ),
        _ => false,
    }
}

/// The body of an error answer.
pub fn error_body(message: &str) -> (r: JsonValue)
    ensures
        is_error_answer(r, message@),
{
    JsonValue::Object(vec![(String::from_str("error"), JsonValue::String(String::from_str(message)))])
}

/// What follows a proxied request that got no answer upstream: the error is
/// recorded as transient, and the client gets a 502 with the error.
pub fn proxy_transport_failure(error: &str) -> (r: (ProxyFollowUp, u16, JsonValue))
    ensures
        follow_up_view(r.0) == ProxyFollowUpView::RecordTransient(error@),
        r.1 == 502,
        is_error_answer(r.2, error@),
{
    (ProxyFollowUp::RecordTransient(String::from_str(error)), 502, error_body(error))
}

/// The admin API call of a request, once its admin token is checked: an
/// unknown call is answered "not found" without a check; every other call
/// goes through only when the request carries the configured admin token, and
/// is otherwise refused with the authorization error before anything else of
/// it (its body, the store, an upstream) is touched.
pub fn api_request(
    method: HttpMethod,
    tail: &str,
    expected: Option<&str>,
    authorization: Option<&str>,
) -> (r: Result<ApiRoute, AuthError>)
    ensures
        api_route_of(method, tail@) is NotFound ==> (r matches Ok(x) && x is NotFound),
        !(api_route_of(method, tail@) is NotFound) ==> (r is Ok <==> authorized(
            opt_str_view(expected),
            opt_str_view(authorization),
        ) is Ok),
        r matches Err(e) ==> Err::<(), AuthError>(e) == authorized(
            opt_str_view(expected),
            opt_str_view(authorization),
        ),
        r matches Ok(x) ==> api_route_view(x) == api_route_of(method, tail@),
{
    let call = route_api(method, tail);
    match call {
        ApiRoute::NotFound => Ok(call),
        _ => match authorize(expected, authorization) {
            Ok(()) => Ok(call),
            Err(e) => Err(e),
        },
    }
}

/// A usage window with nothing known.
pub open spec fn empty_bucket() -> CredentialUsageBucket {
    CredentialUsageBucket { utilization_pct: None, resets_at: None }
}

/// The usage shown for a credential whose usage could not be had: nothing
/// known, and the error.
pub open spec fn failed_usage_of(error: String) -> CredentialUsageSnapshot {
    CredentialUsageSnapshot {
        five_hour: empty_bucket(),
        seven_day: empty_bucket(),
        seven_day_sonnet: empty_bucket(),
        codex: None,
        last_error: Some(error),
    }
}

/// The usage shown for a credential whose usage could not be had.
pub fn failed_usage(error: String) -> (r: CredentialUsageSnapshot)
    ensures
        r == failed_usage_of(error),
{
    CredentialUsageSnapshot {
        five_hour: CredentialUsageBucket { utilization_pct: None, resets_at: None },
        seven_day: CredentialUsageBucket { utilization_pct: None, resets_at: None },
        seven_day_sonnet: CredentialUsageBucket { utilization_pct: None, resets_at: None },
        codex: None,
        last_error: Some(error),
    }
}

/// The usage shown for a credential in a usage list: what was fetched, or, when
/// the fetch failed, nothing known and the fetch's error; a failed fetch never
/// fails the list.
pub fn usage_or_error(fetched: Result<CredentialUsageSnapshot, String>) -> (r: CredentialUsageSnapshot)
    ensures
        match fetched {
            Ok(u) => r == u,
            Err(m) => r == failed_usage_of(m),
        },
{
    match fetched {
        Ok(u) => u,
        Err(m) => failed_usage(m),
    }
}

impl UsageFetch {
    /// The usage shown without any fetch: for a Codex credential without an
    /// account id, nothing known and the error `missing account_id`; nothing
    /// for a credential whose usage is fetched.
    pub fn skipped_usage(&self) -> (r: Option<CredentialUsageSnapshot>)
        ensures
            match self {
                UsageFetch::MissingAccountId => r matches Some(u) && u.last_error matches Some(e)
                    && e@ == "missing account_id"@ && u == failed_usage_of(e),
                _ => r is None,
            },
    {
        match self {
            UsageFetch::MissingAccountId => Some(failed_usage(String::from_str("missing account_id"))),
            _ => None,
        }
    }
}

} // verus!
