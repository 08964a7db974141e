//! Properties of the library as a whole: what holds across its functions and
//! for every input, each proved over the spec functions its contracts use.
use vstd::prelude::*;
use crate::config::{
    ChannelKind, CodexUsageWindow, CredentialConfig, CredentialUpsertInput, DEFAULT_REQUIRED_BETA,
};
use crate::credential_input::{
    draft_of, finished_input_of, profiled_draft_of, refreshed_draft_of, either, proxy_step_of, refreshed_input_of, resolve_step_ok, CredentialDraft, ResolveAction,
    ResolveEvent,
};
use crate::do_state::{authorized, bearer_of, follow_up_of, route_of, AuthError, HttpMethod, ProxyFollowUpView, RouteView};
use crate::json::{get_str, json_get, JsonValue};
use crate::primitives::base64_url_decoded;
use crate::oauth::{
    expiry_after, is_window_of, jwt_payload_part, report_window, CodexRateLimitDetails,
    CodexRateLimitWindowPayload, OAuthProfileParsed, resolved_code, RefreshError, resolved_state, sanitized_code, OAuthCallbackInput, RefreshedCredential,
};
use crate::proxy::{
    add_betas, appends, claude_dropped, collect_betas, split_on, claude_header_ops, claude_scan, codex_dropped, codex_forwarded,
    hop_by_hop, is_list_answer, join_with, list_normalizable, list_normalizes_to, response_kept,
    ModelBodyError, strip_prefix_once, HeaderOpView,
};
use crate::text::{
    after_char, before_char, clean, clean_opt, opt_view, has_prefix, index_of, lemma_before_char, lemma_trim_idempotent,
    lemma_trim_shape, is_ws, lemma_index_of_from_first, lemma_index_of_from_range, lemma_trim_end_skip,
    lemma_trim_start_skip, lower_seq, trim,
};
use crate::tokenizer::{counted_texts, input_texts, request_tokens, tokenizer_of, tokens_total, TokenizerKind};

verus! {

/// A token the proxy sends as `Authorization: Bearer <token>` is read back as
/// that token by the admin check, which then admits the request when it is the
/// configured one: for every token that is trimmed and not blank.
pub proof fn law_bearer_round_trip(token: Seq<char>)
    requires
        token.len() > 0,
        trim(token) == token,
    ensures
        bearer_of(Some("Bearer "@ + token)) == Some(token),
        authorized(Some(token), Some("Bearer "@ + token)) == Ok::<(), AuthError>(()),
{
    let h = "Bearer "@ + token;
    assert(h.subrange(0, "Bearer "@.len() as int) =~= "Bearer "@);
    assert(strip_prefix_once(h, "Bearer "@) =~= token);
}

/// The admin check admits a request only when an admin token is configured and
/// the request's bearer token is exactly that token.
pub proof fn law_admin_token_required(expected: Option<Seq<char>>, authorization: Option<Seq<char>>)
    ensures
        authorized(expected, authorization) is Ok <==> (expected is Some && bearer_of(authorization)
            == expected),
        expected is None ==> authorized(expected, authorization) == Err::<(), AuthError>(
            AuthError::MissingSecret,
        ),
{
}

/// Every request under `/v1/` is proxied to ClaudeCode.
pub proof fn law_claude_proxy_paths(method: HttpMethod, path: Seq<char>)
    requires
        has_prefix(path, "/v1/"@),
    ensures
        route_of(method, path) == RouteView::Proxy(ChannelKind::ClaudeCode),
{
    reveal_strlit("/v1/");
    reveal_strlit("/api/claudecode/public/credentials");
    reveal_strlit("/api/claudecode");
    reveal_strlit("/api/codex");
    assert(path.subrange(0, 4)[1] == path[1]);
    assert(path[1] == 'v');
    assert(path != "/api/claudecode/public/credentials"@) by {
        assert("/api/claudecode/public/credentials"@[1] == 'a');
    }
    assert(!has_prefix(path, "/api/claudecode"@)) by {
        if has_prefix(path, "/api/claudecode"@) {
            assert(path.subrange(0, "/api/claudecode"@.len() as int)[1] == path[1]);
        }
    }
    assert(!has_prefix(path, "/api/codex"@)) by {
        if has_prefix(path, "/api/codex"@) {
            assert(path.subrange(0, "/api/codex"@.len() as int)[1] == path[1]);
        }
    }
}

/// Every request under `/codex/` is proxied to Codex, but the POST that counts
/// input tokens.
pub proof fn law_codex_proxy_paths(method: HttpMethod, path: Seq<char>)
    requires
        has_prefix(path, "/codex/"@),
        !(method == HttpMethod::Post && path == "/codex/v1/responses/input_tokens"@),
    ensures
        route_of(method, path) == RouteView::Proxy(ChannelKind::Codex),
{
    reveal_strlit("/codex/");
    reveal_strlit("/api/claudecode/public/credentials");
    reveal_strlit("/api/claudecode");
    reveal_strlit("/api/codex");
    reveal_strlit("/v1");
    reveal_strlit("/v1/");
    assert(path.subrange(0, 7)[1] == path[1]);
    assert(path[1] == 'c');
    assert(path != "/api/claudecode/public/credentials"@) by {
        assert("/api/claudecode/public/credentials"@[1] == 'a');
    }
    assert(!has_prefix(path, "/api/claudecode"@)) by {
        if has_prefix(path, "/api/claudecode"@) {
            assert(path.subrange(0, "/api/claudecode"@.len() as int)[1] == path[1]);
        }
    }
    assert(!has_prefix(path, "/api/codex"@)) by {
        if has_prefix(path, "/api/codex"@) {
            assert(path.subrange(0, "/api/codex"@.len() as int)[1] == path[1]);
        }
    }
    assert(path != "/v1"@) by {
        assert("/v1"@[1] == 'v');
    }
    assert(!has_prefix(path, "/v1/"@)) by {
        if has_prefix(path, "/v1/"@) {
            assert(path.subrange(0, 4)[1] == path[1]);
        }
    }
}

/// A 2xx answer is always recorded as a success, and a 401 or 403 always as a
/// refused credential, whatever the channel.
pub proof fn law_status_classes(channel: ChannelKind, status: u16, account_id: Option<Seq<char>>)
    ensures
        200 <= status <= 299 ==> follow_up_of(channel, status, account_id)
            == ProxyFollowUpView::RecordSuccess,
        status == 401 || status == 403 ==> follow_up_of(channel, status, account_id) is RecordInvalidAuth,
{
}

/// A 429 answer is always recorded as a rate limit, so that the next request
/// rotates to another credential; it is never recorded as a success or as a
/// refused credential.
pub proof fn law_rate_limit_rotates(channel: ChannelKind, account_id: Option<Seq<char>>)
    ensures
        ({
            let f = follow_up_of(channel, 429, account_id);
            f is FetchClaudeUsage || f is FetchCodexUsage || f is RecordRateLimited
        }),
{
}

/// A stored refresh keeps the credential's identity: the same id, channel,
/// switch and order, and its organization.
pub proof fn law_refresh_keeps_identity(
    selected: CredentialConfig,
    refreshed: RefreshedCredential,
    channel: ChannelKind,
)
    ensures
        refreshed_input_of(selected, refreshed, channel).id == Some(selected.id),
        refreshed_input_of(selected, refreshed, channel).channel == Some(channel),
        refreshed_input_of(selected, refreshed, channel).enabled == Some(selected.enabled),
        refreshed_input_of(selected, refreshed, channel).order == Some(selected.order),
        refreshed_input_of(selected, refreshed, channel).organization_uuid
            == selected.organization_uuid,
        refreshed_input_of(selected, refreshed, channel).access_token == Some(refreshed.access_token),
{
}

/// An expiry computed from `now` is never before `now`.
pub proof fn law_expiry_not_in_past(now: u64, expires_in: Option<u64>)
    ensures
        expiry_after(now, expires_in) >= now,
{
}

/// Token counts add up: the total of two lists of texts one after the other is
/// the sum of their totals.
pub proof fn law_tokens_additive(kind: TokenizerKind, a: Seq<Seq<char>>, b: Seq<Seq<char>>)
    ensures
        tokens_total(kind, a + b) == tokens_total(kind, a) + tokens_total(kind, b),
    decreases b.len(),
{
    if b.len() > 0 {
        law_tokens_additive(kind, a, b.drop_last());
        assert((a + b).drop_last() =~= a + b.drop_last());
        assert((a + b).last() == b.last());
    } else {
        assert(a + b =~= a);
    }
}

/// No header that comes back to the client is hop-by-hop, and each one was
/// among the upstream's headers.
pub proof fn law_response_headers_not_hop_by_hop(entries: Seq<(Seq<char>, Seq<char>)>)
    ensures
        forall|i: int|
            0 <= i < response_kept(entries).len() ==> !hop_by_hop(
                lower_seq(#[trigger] response_kept(entries)[i].0),
            ) && entries.contains(response_kept(entries)[i]),
    decreases entries.len(),
{
    if entries.len() > 0 {
        law_response_headers_not_hop_by_hop(entries.drop_last());
        let prev = response_kept(entries.drop_last());
        assert forall|i: int| 0 <= i < response_kept(entries).len() implies !hop_by_hop(
            lower_seq(#[trigger] response_kept(entries)[i].0),
        ) && entries.contains(response_kept(entries)[i]) by {
            if i < prev.len() {
                assert(response_kept(entries)[i] == prev[i]);
                let j = choose|j: int| 0 <= j < entries.drop_last().len() && entries.drop_last()[j] == prev[i];
                assert(entries[j] == prev[i]);
            } else {
                assert(response_kept(entries)[i] == entries.last());
                assert(entries[entries.len() - 1] == entries.last());
            }
        }
    }
}

/// The Codex backend never gets the client's own credentials, cookies,
/// account header or hop-by-hop headers as they were sent.
pub proof fn law_codex_headers_not_forwarded(entries: Seq<(Seq<char>, Seq<char>)>)
    ensures
        forall|i: int|
            0 <= i < codex_forwarded(entries).len() ==> !codex_dropped(
                lower_seq(#[trigger] codex_forwarded(entries)[i].0),
            ),
    decreases entries.len(),
{
    if entries.len() > 0 {
        law_codex_headers_not_forwarded(entries.drop_last());
        let prev = codex_forwarded(entries.drop_last());
        assert forall|i: int| 0 <= i < codex_forwarded(entries).len() implies !codex_dropped(
            lower_seq(#[trigger] codex_forwarded(entries)[i].0),
        ) by {
            if i < prev.len() {
                assert(codex_forwarded(entries)[i] == prev[i]);
            }
        }
    }
}

/// The client headers that go to Anthropic as they are never include its own
/// credentials, cookies or hop-by-hop headers.
proof fn lemma_claude_scan_forwarded(entries: Seq<(Seq<char>, Seq<char>)>)
    ensures
        forall|i: int|
            0 <= i < claude_scan(entries).forwarded.len() ==> !claude_dropped(
                lower_seq(#[trigger] claude_scan(entries).forwarded[i].0),
            ),
    decreases entries.len(),
{
    if entries.len() > 0 {
        lemma_claude_scan_forwarded(entries.drop_last());
        let prev = claude_scan(entries.drop_last()).forwarded;
        assert forall|i: int| 0 <= i < claude_scan(entries).forwarded.len() implies !claude_dropped(
            lower_seq(#[trigger] claude_scan(entries).forwarded[i].0),
        ) by {
            if i < prev.len() {
                assert(claude_scan(entries).forwarded[i] == prev[i]);
            }
        }
    }
}

/// The ClaudeCode upstream request always carries the credential's bearer
/// token, and none of the client's own credentials, cookies or hop-by-hop
/// headers.
pub proof fn law_claude_headers_use_credential(
    entries: Seq<(Seq<char>, Seq<char>)>,
    access_token: Seq<char>,
)
    ensures
        claude_header_ops(entries, access_token).contains(
            HeaderOpView::Replace("authorization"@, "Bearer "@ + access_token),
        ),
        forall|i: int|
            0 <= i < claude_header_ops(entries, access_token).len() ==> match #[trigger] claude_header_ops(
                entries,
                access_token,
            )[i] {
                HeaderOpView::Append(name, _) => !claude_dropped(lower_seq(name)),
                _ => true,
            },
{
    lemma_claude_scan_forwarded(entries);
    let scan = claude_scan(entries);
    let ops = claude_header_ops(entries, access_token);
    let n = scan.forwarded.len();
    assert(ops[n as int] == HeaderOpView::Replace("authorization"@, "Bearer "@ + access_token));
    assert forall|i: int| 0 <= i < ops.len() implies match #[trigger] ops[i] {
        HeaderOpView::Append(name, _) => !claude_dropped(lower_seq(name)),
        _ => true,
    } by {
        if i < n {
            assert(ops[i] == appends(scan.forwarded)[i]);
            assert(appends(scan.forwarded)[i] == HeaderOpView::Append(
                scan.forwarded[i].0,
                scan.forwarded[i].1,
            ));
        } else {
            assert(!(ops[i] is Append));
        }
    }
}

/// What adding beta flags keeps: no flag twice, the flags already there first
/// and in order, and every non-blank part (trimmed) somewhere.
proof fn lemma_add_betas(acc: Seq<Seq<char>>, parts: Seq<Seq<char>>)
    requires
        acc.no_duplicates(),
    ensures
        add_betas(acc, parts).no_duplicates(),
        acc.len() <= add_betas(acc, parts).len(),
        add_betas(acc, parts).subrange(0, acc.len() as int) == acc,
        forall|j: int|
            0 <= j < parts.len() && trim(#[trigger] parts[j]).len() > 0 ==> add_betas(
                acc,
                parts,
            ).contains(trim(parts[j])),
    decreases parts.len(),
{
    if parts.len() > 0 {
        let t = trim(parts[0]);
        let next = if t.len() == 0 || acc.contains(t) {
            acc
        } else {
            acc.push(t)
        };
        assert(next.no_duplicates()) by {
            if !(t.len() == 0 || acc.contains(t)) {
                assert forall|i: int, k: int| 0 <= i < next.len() && 0 <= k < next.len() && i != k implies next[i] != next[k] by {
                    if i < acc.len() && k < acc.len() {
                    } else if i == acc.len() {
                        assert(next[k] == acc[k]);
                    } else {
                        assert(next[i] == acc[i]);
                    }
                }
            }
        }
        lemma_add_betas(next, parts.drop_first());
        let r = add_betas(acc, parts);
        assert(r == add_betas(next, parts.drop_first()));
        assert(r.subrange(0, acc.len() as int) =~= acc) by {
            assert(next.subrange(0, acc.len() as int) =~= acc);
            assert forall|i: int| 0 <= i < acc.len() implies r[i] == acc[i] by {
                assert(r.subrange(0, next.len() as int)[i] == next[i]);
            }
        }
        assert forall|j: int| 0 <= j < parts.len() && trim(#[trigger] parts[j]).len() > 0 implies r.contains(
            trim(parts[j]),
        ) by {
            if j == 0 {
                let k = if acc.contains(t) {
                    choose|k: int| 0 <= k < acc.len() && acc[k] == t
                } else {
                    acc.len() as int
                };
                assert(next[k] == t);
                assert(r.subrange(0, next.len() as int)[k] == next[k]);
                assert(r[k] == t);
            } else {
                assert(parts.drop_first()[j - 1] == parts[j]);
            }
        }
    } else {
        assert(acc.subrange(0, acc.len() as int) =~= acc);
    }
}

/// Collecting the beta flags of an `anthropic-beta` value adds each trimmed,
/// non-blank, comma-separated flag once: the result has no flag twice, starts
/// with the flags already collected, and holds every flag of the value.
pub proof fn law_beta_flags_each_once(acc: Seq<Seq<char>>, raw: Seq<char>)
    requires
        acc.no_duplicates(),
    ensures
        collect_betas(acc, raw).no_duplicates(),
        collect_betas(acc, raw).subrange(0, acc.len() as int) == acc,
        forall|j: int|
            0 <= j < split_on(raw, ',').len() && trim(#[trigger] split_on(raw, ',')[j]).len() > 0
                ==> collect_betas(acc, raw).contains(trim(split_on(raw, ',')[j])),
{
    lemma_add_betas(acc, split_on(raw, ','));
}

/// The beta flags of a ClaudeCode upstream request always include the flag
/// that OAuth access tokens need, and no flag twice.
pub proof fn law_required_beta_always_sent(acc: Seq<Seq<char>>)
    requires
        acc.no_duplicates(),
    ensures
        collect_betas(acc, DEFAULT_REQUIRED_BETA@).contains(DEFAULT_REQUIRED_BETA@),
        collect_betas(acc, DEFAULT_REQUIRED_BETA@).no_duplicates(),
{
    reveal_strlit("oauth-2025-04-20");
    let raw = DEFAULT_REQUIRED_BETA@;
    lemma_add_betas(acc, split_on(raw, ','));
    assert(index_of(raw, ',') is None) by {
        lemma_index_of_from_range(raw, ',', 0);
    }
    assert(split_on(raw, ',') == seq![raw]);
    assert(trim(raw) == raw) by {
        assert(!is_ws(raw[0]));
        assert(!is_ws(raw.last()));
        lemma_trim_start_skip(raw, 0);
        lemma_trim_end_skip(raw, raw.len() as int);
    }
    assert(split_on(raw, ',')[0] == raw);
}

/// Cleaning a cleaned value changes nothing: a value stored trimmed and
/// non-blank stays as it is when it is sent again.
pub proof fn law_clean_idempotent(s: Seq<char>)
    ensures
        trim(trim(s)) == trim(s),
        clean(s) matches Some(t) ==> clean(t) == Some(t),
{
    lemma_trim_idempotent(s);
}

/// Cleaning an authorization code twice is cleaning it once: a code already
/// cut at `#` and `&` and trimmed is kept as it is.
pub proof fn law_sanitize_idempotent(code: Seq<char>)
    ensures
        sanitized_code(sanitized_code(code)) == sanitized_code(code),
{
    let x1 = before_char(code, '#');
    let x = before_char(x1, '&');
    lemma_before_char(code, '#');
    lemma_before_char(x1, '&');
    assert forall|k: int| 0 <= k < x.len() implies x[k] != '#' by {
        assert(x[k] == x1[k]);
    }
    let u = trim(x);
    lemma_trim_shape(x);
    let a = choose|a: int| 0 <= a && a + u.len() <= x.len() && u == #[trigger] x.subrange(a, a + u.len());
    assert forall|k: int| 0 <= k < u.len() implies u[k] != '#' && u[k] != '&' by {
        assert(u[k] == x[a + k]);
    }
    lemma_before_char(u, '#');
    lemma_before_char(u, '&');
    lemma_trim_idempotent(x);
}

/// The beta flags a pass over the client's headers collects are each there once.
proof fn lemma_claude_scan_betas(entries: Seq<(Seq<char>, Seq<char>)>)
    ensures
        claude_scan(entries).betas.no_duplicates(),
    decreases entries.len(),
{
    if entries.len() > 0 {
        lemma_claude_scan_betas(entries.drop_last());
        let prev = claude_scan(entries.drop_last());
        lemma_add_betas(prev.betas, split_on(entries.last().1, ','));
    }
}

/// The ClaudeCode upstream request always sends an `anthropic-beta` header
/// whose flags, each there once, include the flag OAuth access tokens need.
pub proof fn law_claude_required_beta(entries: Seq<(Seq<char>, Seq<char>)>, access_token: Seq<char>)
    ensures
        ({
            let betas = collect_betas(claude_scan(entries).betas, DEFAULT_REQUIRED_BETA@);
            &&& betas.contains(DEFAULT_REQUIRED_BETA@)
            &&& betas.no_duplicates()
            &&& claude_header_ops(entries, access_token).contains(
                HeaderOpView::Replace("anthropic-beta"@, join_with(betas, ","@)),
            )
        }),
{
    lemma_claude_scan_betas(entries);
    let scan = claude_scan(entries);
    law_required_beta_always_sent(scan.betas);
    let betas = collect_betas(scan.betas, DEFAULT_REQUIRED_BETA@);
    let ops = claude_header_ops(entries, access_token);
    assert(betas.len() > 0);
    assert(ops.last() == HeaderOpView::Replace("anthropic-beta"@, join_with(betas, ","@)));
    assert(ops[ops.len() - 1] == ops.last());
}

/// A code or state given on its own wins over what the callback URL says.
pub proof fn law_explicit_code_wins(p: OAuthCallbackInput)
    ensures
        clean_opt(p.code) is Some ==> resolved_code(p) == clean_opt(p.code),
        clean_opt(p.state) is Some ==> resolved_state(p) == clean_opt(p.state),
        clean_opt(p.callback_url) is None ==> resolved_code(p) == clean_opt(p.code)
            && resolved_state(p) == clean_opt(p.state),
{
}

/// A request's token count is the count of its instructions plus the count of
/// the texts of its input.
pub proof fn law_request_tokens_split(body: JsonValue)
    ensures
        request_tokens(body) == tokens_total(
            tokenizer_of(get_str(body, "model"@)),
            match get_str(body, "instructions"@) {
                Some(t) => seq![t],
                None => Seq::<Seq<char>>::empty(),
            },
        ) + tokens_total(
            tokenizer_of(get_str(body, "model"@)),
            match json_get(body, "input"@) {
                Some(i) => input_texts(i),
                None => Seq::<Seq<char>>::empty(),
            },
        ),
{
    let kind = tokenizer_of(get_str(body, "model"@));
    let a = match get_str(body, "instructions"@) {
        Some(t) => seq![t],
        None => Seq::<Seq<char>>::empty(),
    };
    let b = match json_get(body, "input"@) {
        Some(i) => input_texts(i),
        None => Seq::<Seq<char>>::empty(),
    };
    assert(counted_texts(body) == a + b);
    law_tokens_additive(kind, a, b);
}

/// The first `.` of `a.b`, when `a` holds none, is right after `a`.
proof fn lemma_split_at_dot(a: Seq<char>, b: Seq<char>)
    requires
        forall|k: int| 0 <= k < a.len() ==> a[k] != '.',
    ensures
        before_char(a + "."@ + b, '.') == a,
        after_char(a + "."@ + b, '.') == Some(b),
{
    reveal_strlit(".");
    let t = a + "."@ + b;
    lemma_index_of_from_first(t, '.', 0);
    assert(t[a.len() as int] == '.');
    assert forall|k: int| 0 <= k < a.len() implies t[k] != '.' by {
        assert(t[k] == a[k]);
    }
    assert(index_of(t, '.') == Some(a.len() as int));
    assert(t.subrange(0, a.len() as int) =~= a);
    assert(t.subrange(a.len() as int + 1, t.len() as int) =~= b);
}

/// Splitting `x.y` at its first `.`: the first `.` of `x` if it has one, else
/// the one after `x`.
proof fn lemma_dot_concat(x: Seq<char>, y: Seq<char>)
    ensures
        before_char(x + "."@ + y, '.') == before_char(x, '.'),
        after_char(x + "."@ + y, '.') == Some(
            match after_char(x, '.') {
                Some(r) => r + "."@ + y,
                None => y,
            },
        ),
{
    reveal_strlit(".");
    let t = x + "."@ + y;
    lemma_index_of_from_first(x, '.', 0);
    lemma_index_of_from_first(t, '.', 0);
    assert forall|k: int| 0 <= k < x.len() implies t[k] == x[k] by {}
    assert(t[x.len() as int] == '.');
    match index_of(x, '.') {
        Some(i) => {
            assert(t[i] == '.');
            assert(index_of(t, '.') == Some(i));
            assert(t.subrange(0, i) =~= x.subrange(0, i));
            assert(t.subrange(i + 1, t.len() as int) =~= x.subrange(i + 1, x.len() as int) + "."@ + y);
        },
        None => {
            assert(index_of(t, '.') == Some(x.len() as int));
            assert(t.subrange(0, x.len() as int) =~= x);
            assert(t.subrange(x.len() as int + 1, t.len() as int) =~= y);
        },
    }
}

/// What the payload part of a token `h.p.s` is, for a header and a signature
/// without `.`: it depends on `p` alone (when `p` holds a `.`, the part after
/// it plays the signature).
pub open spec fn payload_part_of(p: Seq<char>) -> Option<Seq<char>> {
    let sig_ok = match after_char(p, '.') {
        Some(r) => before_char(r, '.').len() > 0,
        None => true,
    };
    if before_char(p, '.').len() > 0 && sig_ok {
        Some(before_char(p, '.'))
    } else {
        None
    }
}

/// The payload part of `h.p.s`.
proof fn lemma_token_payload(h: Seq<char>, p: Seq<char>, s: Seq<char>)
    requires
        h.len() > 0 && s.len() > 0,
        forall|k: int| 0 <= k < h.len() ==> h[k] != '.',
        forall|k: int| 0 <= k < s.len() ==> s[k] != '.',
    ensures
        jwt_payload_part(h + "."@ + p + "."@ + s) == payload_part_of(p),
{
    let rest = p + "."@ + s;
    assert(h + "."@ + p + "."@ + s =~= h + "."@ + rest);
    lemma_split_at_dot(h, rest);
    lemma_dot_concat(p, s);
    lemma_before_char(s, '.');
    match after_char(p, '.') {
        Some(r) => {
            lemma_dot_concat(r, s);
        },
        None => {},
    }
}

/// Only the payload part of an ID token decides what is read from it: two
/// tokens `h1.p.s1` and `h2.p.s2` with the same `p`, between non-empty headers
/// and signatures without `.`, give the same part to decode (for every `p`),
/// hence the same decoded bytes and the same claims; when `p` is non-empty and
/// holds no `.`, that part is `p` itself.
pub proof fn law_id_token_payload_decides(
    h1: Seq<char>,
    s1: Seq<char>,
    h2: Seq<char>,
    s2: Seq<char>,
    p: Seq<char>,
)
    requires
        h1.len() > 0 && s1.len() > 0 && h2.len() > 0 && s2.len() > 0,
        forall|k: int| 0 <= k < h1.len() ==> h1[k] != '.',
        forall|k: int| 0 <= k < h2.len() ==> h2[k] != '.',
        forall|k: int| 0 <= k < s1.len() ==> s1[k] != '.',
        forall|k: int| 0 <= k < s2.len() ==> s2[k] != '.',
    ensures
        jwt_payload_part(h1 + "."@ + p + "."@ + s1) == jwt_payload_part(h2 + "."@ + p + "."@ + s2),
        (match jwt_payload_part(h1 + "."@ + p + "."@ + s1) {
            Some(x) => base64_url_decoded(x),
            None => None,
        }) == (match jwt_payload_part(h2 + "."@ + p + "."@ + s2) {
            Some(x) => base64_url_decoded(x),
            None => None,
        }),
        p.len() > 0 && (forall|k: int| 0 <= k < p.len() ==> p[k] != '.') ==> jwt_payload_part(
            h1 + "."@ + p + "."@ + s1,
        ) == Some(p),
{
    lemma_token_payload(h1, p, s1);
    lemma_token_payload(h2, p, s2);
    lemma_before_char(p, '.');
    lemma_index_of_from_first(p, '.', 0);
}

/// Every failed refresh of the credential the proxy selected, whatever its
/// kind, marks that credential dead so that the next one is tried; a success
/// stores it and a fresh one is used as it is.
pub proof fn law_failed_refresh_marks_dead(
    outcome: Result<Option<RefreshedCredential>, RefreshError>,
    selected: CredentialConfig,
    channel: ChannelKind,
)
    ensures
        outcome is Err ==> proxy_step_of(outcome, selected, channel) is MarkInvalid,
        outcome matches Ok(Some(_)) ==> proxy_step_of(outcome, selected, channel) is Store,
        outcome matches Ok(None) ==> proxy_step_of(outcome, selected, channel) is UseSelected,
{
}

/// A request resolved without an access token is refreshed before anything else
/// happens to it, and one that is refreshed is never stored without its new
/// access token.
pub proof fn law_refresh_comes_first(
    channel: ChannelKind,
    input: CredentialUpsertInput,
    existing: Option<CredentialConfig>,
    draft: CredentialDraft,
    refreshed: RefreshedCredential,
    now: u64,
    r1: ResolveAction,
    r2: ResolveAction,
)
    requires
        draft.access_token is None,
        draft.refresh_token is Some,
        resolve_step_ok(channel, input, existing, draft, ResolveEvent::Merged, now, r1),
        resolve_step_ok(
            channel,
            input,
            existing,
            draft,
            ResolveEvent::Refreshed(Some(refreshed)),
            now,
            r2,
        ),
    ensures
        r1 is Refresh,
        r2 matches ResolveAction::Store(x) ==> x.access_token == Some(refreshed.access_token),
{
}

/// A client header name (lower-cased) that the Codex backend never gets as the
/// client sent it: the hop-by-hop headers, `host`, `content-length`, the
/// client's own `authorization` and `cookie`, and the `chatgpt-account-id` and
/// `originator` the proxy sets itself.
pub open spec fn codex_withheld(l: Seq<char>) -> bool {
    ||| l == "connection"@
    ||| l == "keep-alive"@
    ||| l == "proxy-authenticate"@
    ||| l == "proxy-authorization"@
    ||| l == "te"@
    ||| l == "trailer"@
    ||| l == "transfer-encoding"@
    ||| l == "upgrade"@
    ||| l == "host"@
    ||| l == "content-length"@
    ||| l == "authorization"@
    ||| l == "cookie"@
    ||| l == "chatgpt-account-id"@
    ||| l == "originator"@
}

/// Whether a client header is forwarded to Codex as it was sent.
pub open spec fn codex_keeps() -> spec_fn((Seq<char>, Seq<char>)) -> bool {
    |e: (Seq<char>, Seq<char>)| !codex_withheld(lower_seq(e.0))
}

/// The client headers the Codex backend gets as they were sent are exactly the
/// client's headers whose lower-cased name is not withheld, in their order:
/// every other client header (`content-type`, `accept`, ...) is forwarded
/// unchanged.
pub proof fn law_codex_forwards_every_other_header(entries: Seq<(Seq<char>, Seq<char>)>)
    ensures
        codex_forwarded(entries) == entries.filter(codex_keeps()),
        forall|i: int|
            0 <= i < entries.len() && !codex_withheld(lower_seq(#[trigger] entries[i].0))
                ==> codex_forwarded(entries).contains(entries[i]),
    decreases entries.len(),
{
    let keep = codex_keeps();
    if entries.len() == 0 {
        reveal(Seq::filter);
    }
    if entries.len() > 0 {
        law_codex_forwards_every_other_header(entries.drop_last());
        let e = entries.last();
        assert(codex_dropped(lower_seq(e.0)) == codex_withheld(lower_seq(e.0)));
        assert(keep(e) == !codex_withheld(lower_seq(e.0)));
        let sub = entries.drop_last().filter(keep);
        reveal(Seq::filter);
        assert(entries.filter(keep) == (if keep(e) {
            sub.push(e)
        } else {
            sub
        }));
        assert(codex_forwarded(entries) == (if codex_dropped(lower_seq(e.0)) {
            codex_forwarded(entries.drop_last())
        } else {
            codex_forwarded(entries.drop_last()).push(e)
        }));
    }
    assert forall|i: int|
        0 <= i < entries.len() && !codex_withheld(lower_seq(#[trigger] entries[i].0))
        implies codex_forwarded(entries).contains(entries[i]) by {
        entries.lemma_filter_contains(keep, i);
    }
}

/// A value whose `object` is `list` and whose `data` is an array is already an
/// OpenAI model list: normalizing it succeeds and gives the value itself, and
/// the answer to a model-list request that returns it with status 200 is that
/// value with status 200.
pub proof fn law_openai_list_kept(v: JsonValue, r: Result<(u16, JsonValue), ModelBodyError>)
    requires
        get_str(v, "object"@) == Some("list"@),
        json_get(v, "data"@) matches Some(JsonValue::Array(_)),
    ensures
        list_normalizable(v),
        forall|out: JsonValue| list_normalizes_to(v, out) <==> out == v,
        is_list_answer(200, Some(v), r) ==> r == Ok::<(u16, JsonValue), ModelBodyError>((200, v)),
{
}

/// The update a finished request is stored with takes its id, switch and
/// order from the request when the request gives them, and from the stored
/// credential only when it does not.
pub proof fn law_request_fields_win(
    channel: ChannelKind,
    input: CredentialUpsertInput,
    existing: Option<CredentialConfig>,
    d: CredentialDraft,
)
    ensures
        finished_input_of(channel, input, existing, d) matches Ok(x) ==> {
            &&& (input.order matches Some(o) ==> x.order == Some(o))
            &&& (input.order is None ==> x.order == (match existing {
                Some(e) => Some(e.order),
                None => None,
            }))
            &&& (input.enabled matches Some(b) ==> x.enabled == Some(b))
            &&& (input.enabled is None ==> x.enabled == (match existing {
                Some(e) => Some(e.enabled),
                None => None,
            }))
            &&& (input.id matches Some(i) ==> x.id == Some(i))
            &&& (input.id is None ==> x.id == (match existing {
                Some(e) => Some(e.id),
                None => None,
            }))
        },
{
}

/// The update that stores a refresh keeps the selected credential's e-mail,
/// account id, plan and tier whenever the refresh gives none: each is the
/// refresh's value if it has one, else the selected credential's.
pub proof fn law_refresh_keeps_account_data(
    selected: CredentialConfig,
    refreshed: RefreshedCredential,
    channel: ChannelKind,
)
    ensures
        ({
            let x = refreshed_input_of(selected, refreshed, channel);
            &&& (refreshed.user_email is Some ==> x.user_email == refreshed.user_email)
            &&& (refreshed.user_email is None ==> x.user_email == selected.user_email)
            &&& (refreshed.account_id is Some ==> x.account_id == refreshed.account_id)
            &&& (refreshed.account_id is None ==> x.account_id == selected.account_id)
            &&& (refreshed.subscription_type is Some ==> x.subscription_type
                == refreshed.subscription_type)
            &&& (refreshed.subscription_type is None ==> x.subscription_type
                == selected.subscription_type)
            &&& (refreshed.rate_limit_tier is Some ==> x.rate_limit_tier == refreshed.rate_limit_tier)
            &&& (refreshed.rate_limit_tier is None ==> x.rate_limit_tier == selected.rate_limit_tier)
        }),
{
}

/// A usage snapshot reads each window of the report on its own: the primary
/// window it reports is the report's primary window, and the secondary the
/// report's secondary window.
pub proof fn law_usage_windows_read_separately(rate_limit: Option<CodexRateLimitDetails>)
    ensures
        report_window(rate_limit, true) == (match rate_limit {
            Some(d) => d.primary_window,
            None => None,
        }),
        report_window(rate_limit, false) == (match rate_limit {
            Some(d) => d.secondary_window,
            None => None,
        }),
{
}

/// A lower-cased header name that is hop-by-hop (RFC 9110, section 7.6.1).
pub open spec fn hop_by_hop_name(l: Seq<char>) -> bool {
    ||| l == "connection"@
    ||| l == "keep-alive"@
    ||| l == "proxy-authenticate"@
    ||| l == "proxy-authorization"@
    ||| l == "te"@
    ||| l == "trailer"@
    ||| l == "transfer-encoding"@
    ||| l == "upgrade"@
}

/// Whether an upstream header comes back to the client.
pub open spec fn response_keeps() -> spec_fn((Seq<char>, Seq<char>)) -> bool {
    |e: (Seq<char>, Seq<char>)| !hop_by_hop_name(lower_seq(e.0))
}

/// The headers that come back to the client are exactly the upstream's
/// headers that are not hop-by-hop, in their order and unchanged.
pub proof fn law_response_headers_exact(entries: Seq<(Seq<char>, Seq<char>)>)
    ensures
        response_kept(entries) == entries.filter(response_keeps()),
    decreases entries.len(),
{
    let keep = response_keeps();
    reveal(Seq::filter);
    if entries.len() > 0 {
        law_response_headers_exact(entries.drop_last());
        let e = entries.last();
        assert(hop_by_hop(lower_seq(e.0)) == hop_by_hop_name(lower_seq(e.0)));
        assert(keep(e) == !hop_by_hop_name(lower_seq(e.0)));
    }
}

/// A client header name (lower-cased) that Anthropic never gets as the client
/// sent it: the hop-by-hop headers, `host`, `content-length`, the client's own
/// `authorization` and `cookie`, and `anthropic-beta`, whose flags are merged
/// into the one the proxy sets.
pub open spec fn claude_withheld(l: Seq<char>) -> bool {
    hop_by_hop_name(l) || l == "host"@ || l == "content-length"@ || l == "authorization"@ || l
        == "cookie"@ || l == "anthropic-beta"@
}

/// Whether a client header is forwarded to Anthropic as it was sent.
pub open spec fn claude_keeps() -> spec_fn((Seq<char>, Seq<char>)) -> bool {
    |e: (Seq<char>, Seq<char>)| !claude_withheld(lower_seq(e.0))
}

/// The client headers Anthropic gets as they were sent are exactly the
/// client's headers whose lower-cased name is not withheld, in their order.
pub proof fn law_claude_forwards_every_other_header(entries: Seq<(Seq<char>, Seq<char>)>)
    ensures
        claude_scan(entries).forwarded == entries.filter(claude_keeps()),
    decreases entries.len(),
{
    let keep = claude_keeps();
    reveal(Seq::filter);
    if entries.len() > 0 {
        law_claude_forwards_every_other_header(entries.drop_last());
        let e = entries.last();
        let l = lower_seq(e.0);
        assert(keep(e) == !claude_withheld(l));
        assert(claude_dropped(l) || l == "anthropic-beta"@ <==> claude_withheld(l));
    }
}

/// A field of a create or update request: what the request gives, trimmed,
/// when it is not blank; else what is stored; else what the imported ID token
/// gives.
pub proof fn law_draft_field_precedence(
    input: CredentialUpsertInput,
    existing: Option<CredentialConfig>,
    import: Option<OAuthProfileParsed>,
)
    ensures
        ({
            let d = draft_of(input, existing, import);
            &&& (clean_opt(input.access_token) is Some ==> d.access_token == clean_opt(input.access_token))
            &&& (clean_opt(input.refresh_token) is Some ==> d.refresh_token == clean_opt(
                input.refresh_token,
            ))
            &&& (input.expires_at_unix_ms is Some ==> d.expires_at_unix_ms == input.expires_at_unix_ms)
            &&& (clean_opt(input.user_email) is Some ==> d.user_email == clean_opt(input.user_email))
            &&& (clean_opt(input.account_id) is Some ==> d.account_id == clean_opt(input.account_id))
            &&& (clean_opt(input.organization_uuid) is Some ==> d.organization_uuid == clean_opt(
                input.organization_uuid,
            ))
            &&& (clean_opt(input.subscription_type) is Some ==> d.subscription_type == clean_opt(
                input.subscription_type,
            ))
            &&& (clean_opt(input.rate_limit_tier) is Some ==> d.rate_limit_tier == clean_opt(
                input.rate_limit_tier,
            ))
            &&& (clean_opt(input.account_id) is None ==> match existing {
                Some(e) => match e.account_id {
                    Some(a) => d.account_id == Some(a@),
                    None => true,
                },
                None => match import {
                    Some(p) => d.account_id == opt_view(p.account_id),
                    None => d.account_id is None,
                },
            })
            &&& (clean_opt(input.access_token) is None ==> match existing {
                Some(e) => (e.access_token@.len() > 0 ==> d.access_token == Some(e.access_token@)) && (
                e.access_token@.len() == 0 ==> d.access_token is None),
                None => d.access_token is None,
            })
            &&& (input.expires_at_unix_ms is None ==> d.expires_at_unix_ms == match existing {
                Some(e) => Some(e.expires_at_unix_ms),
                None => None,
            })
        }),
{
}

/// A refresh gives a draft its new tokens and expiry, and fills only the
/// account fields the draft lacks; a profile fills only the account fields
/// the draft lacks and changes nothing else.
pub proof fn law_refresh_and_profile_fill_gaps(
    d: CredentialDraft,
    refreshed: RefreshedCredential,
    p: OAuthProfileParsed,
)
    ensures
        ({
            let r = refreshed_draft_of(d, refreshed);
            &&& r.access_token == Some(refreshed.access_token)
            &&& r.refresh_token == Some(refreshed.refresh_token)
            &&& r.expires_at_unix_ms == Some(refreshed.expires_at_unix_ms)
            &&& (d.user_email is Some ==> r.user_email == d.user_email)
            &&& (d.user_email is None ==> r.user_email == refreshed.user_email)
            &&& (d.account_id is Some ==> r.account_id == d.account_id)
            &&& (d.account_id is None ==> r.account_id == refreshed.account_id)
            &&& (d.subscription_type is Some ==> r.subscription_type == d.subscription_type)
            &&& (d.subscription_type is None ==> r.subscription_type == refreshed.subscription_type)
            &&& (d.rate_limit_tier is Some ==> r.rate_limit_tier == d.rate_limit_tier)
            &&& (d.rate_limit_tier is None ==> r.rate_limit_tier == refreshed.rate_limit_tier)
            &&& r.organization_uuid == d.organization_uuid
        }),
        ({
            let q = profiled_draft_of(d, p);
            &&& q.access_token == d.access_token
            &&& q.refresh_token == d.refresh_token
            &&& q.expires_at_unix_ms == d.expires_at_unix_ms
            &&& q.account_id == d.account_id
            &&& (d.user_email is Some ==> q.user_email == d.user_email)
            &&& (d.user_email is None ==> q.user_email == p.email)
            &&& (d.organization_uuid is Some ==> q.organization_uuid == d.organization_uuid)
            &&& (d.organization_uuid is None ==> q.organization_uuid == p.organization_uuid)
            &&& (d.subscription_type is Some ==> q.subscription_type == d.subscription_type)
            &&& (d.subscription_type is None ==> q.subscription_type == p.subscription_type)
            &&& (d.rate_limit_tier is Some ==> q.rate_limit_tier == d.rate_limit_tier)
            &&& (d.rate_limit_tier is None ==> q.rate_limit_tier == p.rate_limit_tier)
        }),
{
}

/// A usage window reads its own percentage, clamped to 0..=100, and its own
/// length in whole minutes.
pub proof fn law_usage_window_values(
    r: CodexUsageWindow,
    w: CodexRateLimitWindowPayload,
    reset_text: Option<String>,
)
    requires
        is_window_of(r, w, reset_text),
    ensures
        w.used_percent matches Some(v) ==> r.used_percent matches Some(u) && u <= 100 && (0 <= v
            <= 100 ==> u == v) && (v < 0 ==> u == 0) && (v > 100 ==> u == 100),
        w.used_percent is None ==> r.used_percent is None,
        w.limit_window_seconds matches Some(v) ==> r.window_duration_mins matches Some(m) && (0
            <= v <= u32::MAX ==> m == v / 60) && (v < 0 ==> m == 0),
        w.limit_window_seconds is None ==> r.window_duration_mins is None,
{
}

} // verus!
