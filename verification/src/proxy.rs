//! Shaping a proxied request and its answer: which headers go upstream and
//! which come back, where the request is sent, and how the Codex model list is
//! rewritten for OpenAI clients.
use vstd::prelude::*;
use crate::config::{
    ChannelKind, CredentialConfig, DEFAULT_ANTHROPIC_VERSION, DEFAULT_BASE_URL,
    DEFAULT_CODEX_BASE_URL, DEFAULT_CODEX_CLIENT_VERSION, DEFAULT_CODEX_ORIGINATOR,
    DEFAULT_CODEX_USER_AGENT, DEFAULT_REQUIRED_BETA, DEFAULT_USER_AGENT,
};
use crate::json::{
    entries_get, get_str, get_string, json_get, json_str, json_u64, lemma_entries_get_skip,
    opt_get_str,
    JsonNumber, JsonValue,
};
use crate::oauth::{codex_base_url, or_default};
use crate::primitives::{
    opt_str_view, pair_views, url_append_pair, url_set_path_and_query, url_with_pair,
    url_with_path_and_query,
};
use crate::text::{
    before_char_len, chars_of, contains_chars, contains_seq, has_prefix, index_of, index_of_char,
    decimal, decimal_string, lemma_index_of_from_range, lower_eq, lower_seq, opt_view, starts_with, str_equal,
    sub_string, trim, trim_str, views,
};

verus! {

/// A change to an outgoing header list: add a value, replace all values, drop a name.
#[derive(Debug, PartialEq)]
pub enum HeaderOp {
    Append(String, String),
    Replace(String, String),
    Delete(String),
}

/// A header change as texts.
pub enum HeaderOpView {
    Append(Seq<char>, Seq<char>),
    Replace(Seq<char>, Seq<char>),
    Delete(Seq<char>),
}

/// The view of a header change.
pub open spec fn op_view(op: HeaderOp) -> HeaderOpView {
    match op {
        HeaderOp::Append(n, v) => HeaderOpView::Append(n@, v@),
        HeaderOp::Replace(n, v) => HeaderOpView::Replace(n@, v@),
        HeaderOp::Delete(n) => HeaderOpView::Delete(n@),
    }
}

/// The view of a list of header changes.
pub open spec fn ops_view(ops: Seq<HeaderOp>) -> Seq<HeaderOpView> {
    ops.map_values(|op: HeaderOp| op_view(op))
}

/// A lower-cased header name of a hop-by-hop header, which a proxy must not forward.
pub open spec fn hop_by_hop(l: Seq<char>) -> bool {
    ||| l == "connection"@
    ||| l == "keep-alive"@
    ||| l == "proxy-authenticate"@
    ||| l == "proxy-authorization"@
    ||| l == "te"@
    ||| l == "trailer"@
    ||| l == "transfer-encoding"@
    ||| l == "upgrade"@
}

/// The parts of `s` between the separators `c`, as `str::split`.
pub open spec fn split_on(s: Seq<char>, c: char) -> Seq<Seq<char>>
    decreases s.len(),
{
    match index_of(s, c) {
        Some(i) => if 0 <= i < s.len() {
            seq![s.subrange(0, i)] + split_on(s.subrange(i + 1, s.len() as int), c)
        } else {
            seq![s]
        },
        None => seq![s],
    }
}

/// The beta flags `acc` collects from comma-separated parts: each part trimmed,
/// blank ones and ones already there left out, in order.
pub open spec fn add_betas(acc: Seq<Seq<char>>, parts: Seq<Seq<char>>) -> Seq<Seq<char>>
    decreases parts.len(),
{
    if parts.len() == 0 {
        acc
    } else {
        let t = trim(parts[0]);
        let next = if t.len() == 0 || acc.contains(t) {
            acc
        } else {
            acc.push(t)
        };
        add_betas(next, parts.drop_first())
    }
}

/// The flags `acc` collects from one `anthropic-beta` value.
pub open spec fn collect_betas(acc: Seq<Seq<char>>, raw: Seq<char>) -> Seq<Seq<char>> {
    add_betas(acc, split_on(raw, ','))
}

/// Texts joined with `sep`.
pub open spec fn join_with(parts: Seq<Seq<char>>, sep: Seq<char>) -> Seq<char>
    decreases parts.len(),
{
    if parts.len() == 0 {
        Seq::empty()
    } else if parts.len() == 1 {
        parts[0]
    } else {
        join_with(parts.drop_last(), sep) + sep + parts.last()
    }
}

/// Whether `is_hop_by_hop` holds of a header name, in any case.
pub fn is_hop_by_hop(name: &str) -> (r: bool)
    ensures
        r == hop_by_hop(lower_seq(name@)),
{
    let n = chars_of(name);
    let s = n.as_slice();
    lower_eq(s, chars_of("connection").as_slice()) || lower_eq(s, chars_of("keep-alive").as_slice())
        || lower_eq(s, chars_of("proxy-authenticate").as_slice()) || lower_eq(
        s,
        chars_of("proxy-authorization").as_slice(),
    ) || lower_eq(s, chars_of("te").as_slice()) || lower_eq(s, chars_of("trailer").as_slice())
        || lower_eq(s, chars_of("transfer-encoding").as_slice()) || lower_eq(
        s,
        chars_of("upgrade").as_slice(),
    )
}

/// Whether `list` holds `t`.
fn contains_string(list: &Vec<String>, t: &str) -> (r: bool)
    ensures
        r == views(list@).contains(t@),
{
    let n = list.len();
    let mut i: usize = 0;
    while i < n
        invariant
            n == list@.len(),
            i <= n,
            forall|j: int| 0 <= j < i ==> (#[trigger] list@[j])@ != t@,
        decreases n - i,
    {
        if str_equal(list[i].as_str(), t) {
            assert(views(list@)[i as int] == t@);
            return true;
        }
        i = i + 1;
    }
    assert forall|j: int| 0 <= j < views(list@).len() implies views(list@)[j] != t@ by {
        assert(views(list@)[j] == list@[j]@);
    }
    false
}

/// Adds the trimmed part to `target` unless it is blank or already there.
fn add_beta(part: &[char], target: &mut Vec<String>)
    ensures
        views(final(target)@) == {
            let t = trim(part@);
            if t.len() == 0 || views(old(target)@).contains(t) {
                views(old(target)@)
            } else {
                views(old(target)@).push(t)
            }
        },
{
    let t = crate::text::trimmed_string(part);
    if t.as_str().unicode_len() == 0 {
        return;
    }
    if contains_string(target, t.as_str()) {
        return;
    }
    let ghost before = views(target@);
    target.push(t);
    assert(views(target@) =~= before.push(trim(part@)));
}

/// Adds the comma-separated flags of `raw` to `target`.
fn collect_beta_chars(raw: &[char], target: &mut Vec<String>)
    ensures
        views(final(target)@) == add_betas(views(old(target)@), split_on(raw@, ',')),
    decreases raw@.len(),
{
    proof {
        lemma_index_of_from_range(raw@, ',', 0);
    }
    match index_of_char(raw, ',') {
        Some(i) => {
            let ghost before = views(target@);
            add_beta(&raw[0..i], target);
            let ghost mid = views(target@);
            collect_beta_chars(&raw[i + 1..raw.len()], target);
            proof {
                let parts = split_on(raw@, ',');
                assert(parts == seq![raw@.subrange(0, i as int)] + split_on(
                    raw@.subrange(i + 1, raw@.len() as int),
                    ',',
                ));
                assert(parts[0] == raw@.subrange(0, i as int));
                assert(parts.drop_first() =~= split_on(raw@.subrange(i + 1, raw@.len() as int), ','));
                assert(add_betas(before, parts) == add_betas(mid, parts.drop_first()));
            }
        },
        None => {
            let ghost before = views(target@);
            add_beta(raw, target);
            let ghost mid = views(target@);
            proof {
                let parts = split_on(raw@, ',');
                assert(parts == seq![raw@]);
                assert(parts.drop_first() =~= Seq::<Seq<char>>::empty());
                assert(add_betas(before, parts) == add_betas(mid, parts.drop_first()));
            }
        },
    }
}

/// Adds the trimmed, non-blank, comma-separated flags of `raw` to `target`,
/// each once, in order.
pub fn collect_beta_values(raw: &str, target: &mut Vec<String>)
    ensures
        views(final(target)@) == collect_betas(views(old(target)@), raw@),
{
    let v = chars_of(raw);
    collect_beta_chars(v.as_slice(), target);
}

/// Why a request cannot be sent upstream.
#[derive(Debug, PartialEq, Eq, Structural)]
pub enum ProxyError {
    MissingAccountId,
    InvalidUrl,
}

/// What a pass over the client's headers gathers for ClaudeCode: the headers
/// forwarded as they are, whether a user agent and an API version were among
/// them, and the beta flags asked for.
pub struct ClaudeHeaderScan {
    pub forwarded: Seq<(Seq<char>, Seq<char>)>,
    pub seen_user_agent: bool,
    pub seen_version: bool,
    pub betas: Seq<Seq<char>>,
}

/// A lower-cased header name that is never forwarded to Anthropic as it is.
pub open spec fn claude_dropped(l: Seq<char>) -> bool {
    hop_by_hop(l) || l == "host"@ || l == "content-length"@ || l == "authorization"@ || l
        == "cookie"@
}

/// A lower-cased header name that is never forwarded to the Codex backend.
pub open spec fn codex_dropped(l: Seq<char>) -> bool {
    hop_by_hop(l) || l == "host"@ || l == "content-length"@ || l == "authorization"@ || l
        == "cookie"@ || l == "chatgpt-account-id"@ || l == "originator"@
}

/// The pass over the client's headers for ClaudeCode.
pub open spec fn claude_scan(entries: Seq<(Seq<char>, Seq<char>)>) -> ClaudeHeaderScan
    decreases entries.len(),
{
    if entries.len() == 0 {
        ClaudeHeaderScan {
            forwarded: Seq::empty(),
            seen_user_agent: false,
            seen_version: false,
            betas: Seq::empty(),
        }
    } else {
        let prev = claude_scan(entries.drop_last());
        let name = entries.last().0;
        let value = entries.last().1;
        let l = lower_seq(name);
        if claude_dropped(l) {
            prev
        } else if l == "anthropic-beta"@ {
            ClaudeHeaderScan { betas: collect_betas(prev.betas, value), ..prev }
        } else {
            ClaudeHeaderScan {
                forwarded: prev.forwarded.push((name, value)),
                seen_user_agent: prev.seen_user_agent || l == "user-agent"@,
                seen_version: prev.seen_version || l == "anthropic-version"@,
                betas: prev.betas,
            }
        }
    }
}

/// The client's headers that go to the Codex backend as they are.
pub open spec fn codex_forwarded(entries: Seq<(Seq<char>, Seq<char>)>) -> Seq<
    (Seq<char>, Seq<char>),
>
    decreases entries.len(),
{
    if entries.len() == 0 {
        Seq::empty()
    } else {
        let prev = codex_forwarded(entries.drop_last());
        if codex_dropped(lower_seq(entries.last().0)) {
            prev
        } else {
            prev.push(entries.last())
        }
    }
}

/// The upstream headers that come back to the client: all but hop-by-hop ones.
pub open spec fn response_kept(entries: Seq<(Seq<char>, Seq<char>)>) -> Seq<
    (Seq<char>, Seq<char>),
>
    decreases entries.len(),
{
    if entries.len() == 0 {
        Seq::empty()
    } else {
        let prev = response_kept(entries.drop_last());
        if hop_by_hop(lower_seq(entries.last().0)) {
            prev
        } else {
            prev.push(entries.last())
        }
    }
}

/// Adding each header as it is.
pub open spec fn appends(entries: Seq<(Seq<char>, Seq<char>)>) -> Seq<HeaderOpView> {
    entries.map_values(|e: (Seq<char>, Seq<char>)| HeaderOpView::Append(e.0, e.1))
}

/// The header changes that make the ClaudeCode upstream request: the client's
/// headers less the dropped ones and `anthropic-beta`, the credential's bearer
/// token, a default user agent and API version when the client sent none, and
/// the client's beta flags with the OAuth flag, each once.
pub open spec fn claude_header_ops(
    entries: Seq<(Seq<char>, Seq<char>)>,
    access_token: Seq<char>,
) -> Seq<HeaderOpView> {
    let scan = claude_scan(entries);
    let betas = collect_betas(scan.betas, DEFAULT_REQUIRED_BETA@);
    appends(scan.forwarded) + seq![
        HeaderOpView::Replace("authorization"@, "Bearer "@ + access_token),
    ] + (if scan.seen_user_agent {
        Seq::empty()
    } else {
        seq![HeaderOpView::Replace("user-agent"@, DEFAULT_USER_AGENT@)]
    }) + (if scan.seen_version {
        Seq::empty()
    } else {
        seq![HeaderOpView::Replace("anthropic-version"@, DEFAULT_ANTHROPIC_VERSION@)]
    }) + (if betas.len() == 0 {
        Seq::empty()
    } else {
        seq![HeaderOpView::Replace("anthropic-beta"@, join_with(betas, ","@))]
    })
}

/// The header changes that make the Codex upstream request.
pub open spec fn codex_header_ops(
    entries: Seq<(Seq<char>, Seq<char>)>,
    access_token: Seq<char>,
    account_id: Seq<char>,
) -> Seq<HeaderOpView> {
    appends(codex_forwarded(entries)) + seq![
        HeaderOpView::Replace("authorization"@, "Bearer "@ + access_token),
        HeaderOpView::Replace("chatgpt-account-id"@, account_id),
        HeaderOpView::Replace("originator"@, DEFAULT_CODEX_ORIGINATOR@),
        HeaderOpView::Replace("user-agent"@, DEFAULT_CODEX_USER_AGENT@),
    ]
}

/// The account id a Codex credential is sent with: trimmed, empty when unset.
pub open spec fn codex_account(c: CredentialConfig) -> Seq<char> {
    trim(
        match c.account_id {
            Some(a) => a@,
            None => Seq::empty(),
        },
    )
}

/// Texts joined with `sep`.
pub fn join_strings(parts: &Vec<String>, sep: &str) -> (r: String)
    ensures
        r@ == join_with(views(parts@), sep@),
{
    let n = parts.len();
    if n == 0 {
        return String::new();
    }
    let mut out = parts[0].clone();
    let ghost pv = views(parts@);
    assert(pv.take(1).drop_last() =~= Seq::<Seq<char>>::empty());
    assert(join_with(pv.take(1), sep@) == pv[0]);
    let mut i: usize = 1;
    while i < n
        invariant
            n == parts@.len(),
            pv == views(parts@),
            1 <= i <= n,
            out@ == join_with(pv.take(i as int), sep@),
        decreases n - i,
    {
        out.append(sep);
        out.append(parts[i].as_str());
        assert(pv.take(i + 1).drop_last() =~= pv.take(i as int));
        assert(pv.take(i + 1).last() == parts@[i as int]@);
        i = i + 1;
    }
    assert(pv.take(n as int) =~= pv);
    out
}

/// Whether a name, lower-cased, equals a lower-case literal.
fn name_is(name: &[char], lit: &str) -> (r: bool)
    ensures
        r == (lower_seq(name@) == lit@),
{
    lower_eq(name, chars_of(lit).as_slice())
}

/// The header changes that make the ClaudeCode upstream request.
pub fn build_claudecode_upstream_headers(
    original: &Vec<(String, String)>,
    access_token: &str,
) -> (r: Vec<HeaderOp>)
    ensures
        ops_view(r@) == claude_header_ops(pair_views(original@), access_token@),
{
    let ghost pv = pair_views(original@);
    let mut ops: Vec<HeaderOp> = Vec::new();
    let mut seen_user_agent = false;
    let mut seen_version = false;
    let mut betas: Vec<String> = Vec::new();
    let n = original.len();
    let mut i: usize = 0;
    while i < n
        invariant
            n == original@.len(),
            pv == pair_views(original@),
            i <= n,
            ops_view(ops@) == appends(claude_scan(pv.take(i as int)).forwarded),
            seen_user_agent == claude_scan(pv.take(i as int)).seen_user_agent,
            seen_version == claude_scan(pv.take(i as int)).seen_version,
            views(betas@) == claude_scan(pv.take(i as int)).betas,
        decreases n - i,
    {
        let name = &original[i].0;
        let value = &original[i].1;
        let nc = chars_of(name.as_str());
        let ns = nc.as_slice();
        proof {
            assert(pv.take(i + 1).drop_last() =~= pv.take(i as int));
            assert(pv.take(i + 1).last() == (name@, value@));
        }
        let dropped = is_hop_by_hop(name.as_str()) || name_is(ns, "host") || name_is(
            ns,
            "content-length",
        ) || name_is(ns, "authorization") || name_is(ns, "cookie");
        if dropped {
        } else if name_is(ns, "anthropic-beta") {
            collect_beta_values(value.as_str(), &mut betas);
        } else {
            if name_is(ns, "user-agent") {
                seen_user_agent = true;
            }
            if name_is(ns, "anthropic-version") {
                seen_version = true;
            }
            let ghost before = ops_view(ops@);
            ops.push(HeaderOp::Append(name.clone(), value.clone()));
            proof {
                let prev = claude_scan(pv.take(i as int));
                assert(ops_view(ops@) =~= before.push(HeaderOpView::Append(name@, value@)));
                assert(appends(prev.forwarded.push((name@, value@))) =~= appends(
                    prev.forwarded,
                ).push(HeaderOpView::Append(name@, value@)));
            }
        }
        i = i + 1;
    }
    assert(pv.take(n as int) =~= pv);
    collect_beta_values(DEFAULT_REQUIRED_BETA, &mut betas);
    let ghost fwd = ops_view(ops@);
    let mut bearer = String::from_str("Bearer ");
    bearer.append(access_token);
    ops.push(HeaderOp::Replace(String::from_str("authorization"), bearer));
    let ghost after_auth = ops_view(ops@);
    assert(after_auth =~= fwd + seq![
        HeaderOpView::Replace("authorization"@, "Bearer "@ + access_token@),
    ]);
    if !seen_user_agent {
        ops.push(HeaderOp::Replace(String::from_str("user-agent"), String::from_str(DEFAULT_USER_AGENT)));
    }
    let ghost after_ua = ops_view(ops@);
    assert(after_ua =~= after_auth + (if seen_user_agent {
        Seq::empty()
    } else {
        seq![HeaderOpView::Replace("user-agent"@, DEFAULT_USER_AGENT@)]
    }));
    if !seen_version {
        ops.push(
            HeaderOp::Replace(
                String::from_str("anthropic-version"),
                String::from_str(DEFAULT_ANTHROPIC_VERSION),
            ),
        );
    }
    let ghost after_version = ops_view(ops@);
    assert(after_version =~= after_ua + (if seen_version {
        Seq::empty()
    } else {
        seq![HeaderOpView::Replace("anthropic-version"@, DEFAULT_ANTHROPIC_VERSION@)]
    }));
    if betas.len() > 0 {
        let joined = join_strings(&betas, ",");
        ops.push(HeaderOp::Replace(String::from_str("anthropic-beta"), joined));
    }
    assert(ops_view(ops@) =~= after_version + (if views(betas@).len() == 0 {
        Seq::empty()
    } else {
        seq![HeaderOpView::Replace("anthropic-beta"@, join_with(views(betas@), ","@))]
    }));
    ops
}

/// The header changes that make the Codex upstream request; the credential must
/// have an account id.
pub fn build_codex_upstream_headers(
    original: &Vec<(String, String)>,
    credential: &CredentialConfig,
) -> (r: Result<Vec<HeaderOp>, ProxyError>)
    ensures
        codex_account(*credential).len() == 0 <==> r is Err,
        r matches Err(e) ==> e == ProxyError::MissingAccountId,
        r matches Ok(ops) ==> ops_view(ops@) == codex_header_ops(
            pair_views(original@),
            credential.access_token@,
            codex_account(*credential),
        ),
{
    let account_id = match &credential.account_id {
        Some(a) => trim_str(a.as_str()),
        None => {
            assert(trim(Seq::<char>::empty()) =~= Seq::<char>::empty());
            String::new()
        },
    };
    if account_id.as_str().unicode_len() == 0 {
        return Err(ProxyError::MissingAccountId);
    }
    let ghost pv = pair_views(original@);
    let mut ops: Vec<HeaderOp> = Vec::new();
    let n = original.len();
    let mut i: usize = 0;
    while i < n
        invariant
            n == original@.len(),
            pv == pair_views(original@),
            i <= n,
            ops_view(ops@) == appends(codex_forwarded(pv.take(i as int))),
        decreases n - i,
    {
        let name = &original[i].0;
        let value = &original[i].1;
        let nc = chars_of(name.as_str());
        let ns = nc.as_slice();
        proof {
            assert(pv.take(i + 1).drop_last() =~= pv.take(i as int));
            assert(pv.take(i + 1).last() == (name@, value@));
        }
        let dropped = is_hop_by_hop(name.as_str()) || name_is(ns, "host") || name_is(
            ns,
            "content-length",
        ) || name_is(ns, "authorization") || name_is(ns, "cookie") || name_is(
            ns,
            "chatgpt-account-id",
        ) || name_is(ns, "originator");
        if !dropped {
            let ghost before = ops_view(ops@);
            ops.push(HeaderOp::Append(name.clone(), value.clone()));
            proof {
                let prev = codex_forwarded(pv.take(i as int));
                assert(ops_view(ops@) =~= before.push(HeaderOpView::Append(name@, value@)));
                assert(appends(prev.push((name@, value@))) =~= appends(prev).push(
                    HeaderOpView::Append(name@, value@),
                ));
            }
        }
        i = i + 1;
    }
    assert(pv.take(n as int) =~= pv);
    let ghost fwd = ops_view(ops@);
    let mut bearer = String::from_str("Bearer ");
    bearer.append(credential.access_token.as_str());
    ops.push(HeaderOp::Replace(String::from_str("authorization"), bearer));
    ops.push(HeaderOp::Replace(String::from_str("chatgpt-account-id"), account_id));
    ops.push(
        HeaderOp::Replace(String::from_str("originator"), String::from_str(DEFAULT_CODEX_ORIGINATOR)),
    );
    ops.push(
        HeaderOp::Replace(String::from_str("user-agent"), String::from_str(DEFAULT_CODEX_USER_AGENT)),
    );
    assert(ops_view(ops@) =~= fwd + seq![
        HeaderOpView::Replace("authorization"@, "Bearer "@ + credential.access_token@),
        HeaderOpView::Replace("chatgpt-account-id"@, codex_account(*credential)),
        HeaderOpView::Replace("originator"@, DEFAULT_CODEX_ORIGINATOR@),
        HeaderOpView::Replace("user-agent"@, DEFAULT_CODEX_USER_AGENT@),
    ]);
    Ok(ops)
}

/// The header changes that make the upstream request of a credential's channel.
pub fn build_upstream_headers(
    original: &Vec<(String, String)>,
    credential: &CredentialConfig,
) -> (r: Result<Vec<HeaderOp>, ProxyError>)
    ensures
        credential.channel == ChannelKind::ClaudeCode ==> (r matches Ok(ops) && ops_view(ops@)
            == claude_header_ops(pair_views(original@), credential.access_token@)),
        credential.channel == ChannelKind::Codex ==> (codex_account(*credential).len() == 0
            <==> r is Err),
        credential.channel == ChannelKind::Codex ==> (r matches Err(e) ==> e
            == ProxyError::MissingAccountId),
        credential.channel == ChannelKind::Codex ==> (r matches Ok(ops) ==> ops_view(ops@)
            == codex_header_ops(
            pair_views(original@),
            credential.access_token@,
            codex_account(*credential),
        )),
{
    match credential.channel {
        ChannelKind::ClaudeCode => Ok(
            build_claudecode_upstream_headers(original, credential.access_token.as_str()),
        ),
        ChannelKind::Codex => build_codex_upstream_headers(original, credential),
    }
}

/// The upstream headers that come back to the client: all but hop-by-hop ones.
pub fn filter_response_headers(original: &Vec<(String, String)>) -> (r: Vec<(String, String)>)
    ensures
        pair_views(r@) == response_kept(pair_views(original@)),
{
    let ghost pv = pair_views(original@);
    let mut kept: Vec<(String, String)> = Vec::new();
    let n = original.len();
    let mut i: usize = 0;
    while i < n
        invariant
            n == original@.len(),
            pv == pair_views(original@),
            i <= n,
            pair_views(kept@) == response_kept(pv.take(i as int)),
        decreases n - i,
    {
        let name = &original[i].0;
        let value = &original[i].1;
        proof {
            assert(pv.take(i + 1).drop_last() =~= pv.take(i as int));
            assert(pv.take(i + 1).last() == (name@, value@));
        }
        if !is_hop_by_hop(name.as_str()) {
            let ghost before = pair_views(kept@);
            kept.push((name.clone(), value.clone()));
            assert(pair_views(kept@) =~= before.push((name@, value@)));
        }
        i = i + 1;
    }
    assert(pv.take(n as int) =~= pv);
    kept
}

/// Which Codex model request a proxied request is.
#[derive(Debug, PartialEq)]
pub enum CodexModelRoute {
    NotModel,
    List,
    Get(String),
}

/// `s` with `p` removed from its front once, if it is there.
pub open spec fn strip_prefix_once(s: Seq<char>, p: Seq<char>) -> Seq<char> {
    if has_prefix(s, p) {
        s.subrange(p.len() as int, s.len() as int)
    } else {
        s
    }
}

/// The model route of a request: only Codex GETs of `/models` (the list) and
/// `/models/{id}` (one model), after a leading `/codex`.
pub open spec fn model_route_of(channel: ChannelKind, is_get: bool, path: Seq<char>) -> Option<
    Option<Seq<char>>,
> {
    if channel != ChannelKind::Codex || !is_get {
        None
    } else {
        let p = strip_prefix_once(path, "/codex"@);
        if p == "/models"@ {
            Some(None)
        } else if has_prefix(p, "/models/"@) && p.len() > "/models/"@.len() {
            Some(Some(p.subrange("/models/"@.len() as int, p.len() as int)))
        } else {
            None
        }
    }
}

/// The view of a model route: nothing, the list (`Some(None)`), or one model.
pub open spec fn route_view(r: CodexModelRoute) -> Option<Option<Seq<char>>> {
    match r {
        CodexModelRoute::NotModel => None,
        CodexModelRoute::List => Some(None),
        CodexModelRoute::Get(id) => Some(Some(id@)),
    }
}

/// The upstream path of a request: as it is for ClaudeCode; for Codex without
/// its leading `/codex`, and `/` when nothing is left.
pub open spec fn upstream_path(channel: ChannelKind, source_path: Seq<char>) -> Seq<char> {
    match channel {
        ChannelKind::ClaudeCode => source_path,
        ChannelKind::Codex => {
            let p = strip_prefix_once(source_path, "/codex"@);
            if p.len() == 0 {
                "/"@
            } else {
                p
            }
        },
    }
}

/// Whether the Codex model list must be asked for a client version.
pub open spec fn needs_client_version(
    channel: ChannelKind,
    path: Seq<char>,
    query: Option<Seq<char>>,
) -> bool {
    channel == ChannelKind::Codex && path == "/models"@ && match query {
        None => true,
        Some(q) => !contains_seq(q, "client_version="@),
    }
}

/// The upstream URL of a request.
pub open spec fn upstream_url(
    channel: ChannelKind,
    source_path: Seq<char>,
    source_query: Option<Seq<char>>,
) -> Option<Seq<char>> {
    let base = match channel {
        ChannelKind::ClaudeCode => DEFAULT_BASE_URL@,
        ChannelKind::Codex => DEFAULT_CODEX_BASE_URL@,
    };
    let path = upstream_path(channel, source_path);
    match url_with_path_and_query(base, path, source_query) {
        None => None,
        Some(u) => if needs_client_version(channel, path, source_query) {
            url_with_pair(u, "client_version"@, DEFAULT_CODEX_CLIENT_VERSION@)
        } else {
            Some(u)
        },
    }
}

/// `s` without `p` at its front, once.
pub(crate) fn strip_prefix_string(s: &[char], p: &str) -> (r: String)
    ensures
        r@ == strip_prefix_once(s@, p@),
{
    let pc = chars_of(p);
    if starts_with(s, pc.as_slice()) {
        sub_string(s, pc.len(), s.len())
    } else {
        sub_string(s, 0, s.len())
    }
}

/// Which Codex model request a proxied request is.
pub fn codex_model_route(channel: ChannelKind, is_get: bool, path: &str) -> (r: CodexModelRoute)
    ensures
        route_view(r) == model_route_of(channel, is_get, path@),
{
    if channel != ChannelKind::Codex || !is_get {
        return CodexModelRoute::NotModel;
    }
    let pc = chars_of(path);
    let p = strip_prefix_string(pc.as_slice(), "/codex");
    if str_equal(p.as_str(), "/models") {
        return CodexModelRoute::List;
    }
    let v = chars_of(p.as_str());
    let prefix = chars_of("/models/");
    if starts_with(v.as_slice(), prefix.as_slice()) && v.len() > prefix.len() {
        return CodexModelRoute::Get(sub_string(v.as_slice(), prefix.len(), v.len()));
    }
    CodexModelRoute::NotModel
}

/// Whether the client's user agent mentions Codex, in any case.
pub fn request_user_agent_contains_codex(user_agent: Option<&str>) -> (r: bool)
    ensures
        r == match user_agent {
            Some(ua) => contains_seq(lower_seq(ua@), "codex"@),
            None => false,
        },
{
    match user_agent {
        Some(ua) => {
            let v = chars_of(ua);
            let mut lowered: Vec<char> = Vec::new();
            let n = v.len();
            let mut i: usize = 0;
            while i < n
                invariant
                    n == v@.len(),
                    i <= n,
                    lowered@ == lower_seq(v@).take(i as int),
                decreases n - i,
            {
                lowered.push(crate::text::to_lower(v[i]));
                assert(lower_seq(v@).take(i + 1) =~= lower_seq(v@).take(i as int).push(
                    crate::text::lower(v@[i as int]),
                ));
                i = i + 1;
            }
            assert(lower_seq(v@).take(n as int) =~= lower_seq(v@));
            contains_chars(lowered.as_slice(), chars_of("codex").as_slice())
        },
        None => false,
    }
}

/// Whether the Codex model answer must be rewritten for an OpenAI client: a Codex
/// model request from a client that is not Codex itself.
pub fn should_reshape_codex_models(
    channel: ChannelKind,
    user_agent: Option<&str>,
    route: &CodexModelRoute,
) -> (r: bool)
    ensures
        r == (channel == ChannelKind::Codex && !match user_agent {
            Some(ua) => contains_seq(lower_seq(ua@), "codex"@),
            None => false,
        } && route_view(*route) is Some),
{
    let is_none = match route {
        CodexModelRoute::NotModel => true,
        _ => false,
    };
    channel == ChannelKind::Codex && !request_user_agent_contains_codex(user_agent) && !is_none
}

/// The upstream URL of a request with the given path and query.
pub fn build_upstream_url(channel: ChannelKind, source_path: &str, source_query: Option<&str>) -> (r:
    Result<String, ProxyError>)
    ensures
        match upstream_url(channel, source_path@, opt_str_view(source_query)) {
            Some(u) => r matches Ok(s) && s@ == u,
            None => r == Err::<String, ProxyError>(ProxyError::InvalidUrl),
        },
{
    let base = match channel {
        ChannelKind::ClaudeCode => DEFAULT_BASE_URL,
        ChannelKind::Codex => codex_base_url(),
    };
    let path = match channel {
        ChannelKind::ClaudeCode => String::from_str(source_path),
        ChannelKind::Codex => {
            let pc = chars_of(source_path);
            let p = strip_prefix_string(pc.as_slice(), "/codex");
            if p.as_str().unicode_len() == 0 {
                String::from_str("/")
            } else {
                p
            }
        },
    };
    let url = match url_set_path_and_query(base, path.as_str(), source_query) {
        Some(u) => u,
        None => {
            return Err(ProxyError::InvalidUrl);
        },
    };
    let wants_version = channel == ChannelKind::Codex && str_equal(path.as_str(), "/models")
        && match source_query {
        None => true,
        Some(q) => !contains_chars(
            chars_of(q).as_slice(),
            chars_of("client_version=").as_slice(),
        ),
    };
    if wants_version {
        match url_append_pair(url.as_str(), "client_version", DEFAULT_CODEX_CLIENT_VERSION) {
            Some(u) => Ok(u),
            None => Err(ProxyError::InvalidUrl),
        }
    } else {
        Ok(url)
    }
}

/// Why a Codex model answer could not be rewritten.
#[derive(Debug, PartialEq, Eq, Structural)]
pub enum ModelBodyError {
    InvalidJson,
    InvalidPayload,
    InvalidRoute,
}

/// An OpenAI model list: `object` is `list` and `data` is an array.
pub open spec fn is_model_list(v: JsonValue) -> bool {
    get_str(v, "object"@) == Some("list"@) && json_get(v, "data"@) matches Some(
        JsonValue::Array(_),
    )
}

/// An OpenAI model: `object` is `model` and it has a string `id`.
pub open spec fn is_model_value(v: JsonValue) -> bool {
    get_str(v, "object"@) == Some("model"@) && get_str(v, "id"@) is Some
}

/// The id of a Codex model: its `id`, else its `slug`.
pub open spec fn model_id_of(v: JsonValue) -> Option<Seq<char>> {
    match get_str(v, "id"@) {
        Some(i) => Some(i),
        None => get_str(v, "slug"@),
    }
}

/// A model id trimmed and without a leading `models/`.
pub open spec fn normalized_id(s: Seq<char>) -> Seq<char> {
    strip_prefix_once(trim(s), "models/"@)
}

/// A string member of an object.
pub open spec fn is_string_member(m: (String, JsonValue), key: Seq<char>, value: Seq<char>) -> bool {
    m.0@ == key && json_str(m.1) == Some(value)
}

/// The OpenAI model object made from an id, an owner and a creation time.
pub open spec fn is_model_object(out: JsonValue, id: Seq<char>, owned_by: Seq<char>, created: u64) -> bool {
    out matches JsonValue::Object(m) && m@.len() == 4 && is_string_member(
        m@[0],
        "id"@,
        normalized_id(id),
    ) && is_string_member(m@[1], "object"@, "model"@) && is_string_member(
        m@[2],
        "owned_by"@,
        owned_by,
    ) && m@[3].0@ == "created"@ && m@[3].1 == JsonValue::Number(JsonNumber::PosInt(created))
}

/// The creation time of a Codex model, 0 when it is not a non-negative integer.
pub open spec fn model_created(v: JsonValue) -> u64 {
    match json_get(v, "created"@) {
        Some(c) => match json_u64(c) {
            Some(n) => n,
            None => 0,
        },
        None => 0,
    }
}

/// A model entry that can be shown to an OpenAI client.
pub open spec fn normalizable(v: JsonValue) -> bool {
    is_model_value(v) || model_id_of(v) is Some
}

/// `out` is the OpenAI form of the model entry `v`: `v` itself when it already is
/// one, else a model object with its id, owner (`openai` when unsaid) and time.
pub open spec fn normalizes_to(v: JsonValue, out: JsonValue) -> bool {
    if is_model_value(v) {
        out == v
    } else {
        model_id_of(v) matches Some(id) && is_model_object(
            out,
            id,
            or_default(get_str(v, "owned_by"@), "openai"@),
            model_created(v),
        )
    }
}

/// `outs` are the OpenAI forms of the normalizable entries of `ins`, in order.
pub open spec fn normalized_models(outs: Seq<JsonValue>, ins: Seq<JsonValue>) -> bool
    decreases ins.len(),
{
    if ins.len() == 0 {
        outs.len() == 0
    } else if normalizable(ins.last()) {
        outs.len() > 0 && normalizes_to(ins.last(), outs.last()) && normalized_models(
            outs.drop_last(),
            ins.drop_last(),
        )
    } else {
        normalized_models(outs, ins.drop_last())
    }
}

/// A model answer that can be shown as an OpenAI model list.
pub open spec fn list_normalizable(v: JsonValue) -> bool {
    is_model_list(v) || json_get(v, "models"@) matches Some(JsonValue::Array(_))
}

/// `out` is the OpenAI model list of `v`: `v` itself when it already is one, else
/// a list of the OpenAI forms of its `models`.
pub open spec fn list_normalizes_to(v: JsonValue, out: JsonValue) -> bool {
    if is_model_list(v) {
        out == v
    } else {
        match json_get(v, "models"@) {
            Some(JsonValue::Array(items)) => match out {
                JsonValue::Object(m) => m@.len() == 2 && is_string_member(
                    m@[0],
                    "object"@,
                    "list"@,
                ) && m@[1].0@ == "data"@ && match m@[1].1 {
                    JsonValue::Array(d) => normalized_models(d@, items@),
                    _ => false,
                },
                _ => false,
            },
            _ => false,
        }
    }
}

/// Whether a model entry's id matches a wanted id, both normalized.
pub open spec fn id_matches(item: JsonValue, target: Seq<char>) -> bool {
    get_str(item, "id"@) matches Some(id) && normalized_id(id) == normalized_id(target)
}

/// The first entry whose id matches.
pub open spec fn first_matching(items: Seq<JsonValue>, target: Seq<char>) -> Option<JsonValue>
    decreases items.len(),
{
    if items.len() == 0 {
        None
    } else if id_matches(items[0], target) {
        Some(items[0])
    } else {
        first_matching(items.drop_first(), target)
    }
}

/// The entry of a model list whose id matches.
pub open spec fn model_in_list(list: JsonValue, target: Seq<char>) -> Option<JsonValue> {
    match json_get(list, "data"@) {
        Some(JsonValue::Array(items)) => first_matching(items@, target),
        _ => None,
    }
}

/// The message of an upstream error answer: `detail.message`, `error.message`,
/// `error` or `message`, the first that is a string.
pub open spec fn upstream_error_message(p: Option<JsonValue>) -> Option<Seq<char>> {
    match p {
        None => None,
        Some(v) => match opt_get_str(json_get(v, "detail"@), "message"@) {
            Some(m) => Some(m),
            None => match opt_get_str(json_get(v, "error"@), "message"@) {
                Some(m) => Some(m),
                None => match get_str(v, "error"@) {
                    Some(m) => Some(m),
                    None => get_str(v, "message"@),
                },
            },
        },
    }
}

/// `out` is an OpenAI error answer with this message and parameter.
pub open spec fn is_error_body(out: JsonValue, message: Seq<char>, param: Option<Seq<char>>) -> bool {
    match out {
        JsonValue::Object(top) => top@.len() == 1 && top@[0].0@ == "error"@ && match top@[0].1 {
            JsonValue::Object(e) => e@.len() == 4 && is_string_member(e@[0], "message"@, message)
                && is_string_member(e@[1], "type"@, "invalid_request_error"@) && e@[2].0@
                == "param"@ && match param {
                Some(p) => json_str(e@[2].1) == Some(p),
                None => e@[2].1 is Null,
            } && is_string_member(e@[3], "code"@, "upstream_error"@),
            _ => false,
        },
        _ => false,
    }
}

/// The message of a failed model answer: the upstream one, or its status.
pub open spec fn failure_message(status: u16, parsed: Option<JsonValue>) -> Seq<char> {
    or_default(upstream_error_message(parsed), "upstream status "@ + decimal(status as nat))
}

/// Takes the member `key` out of an object.
fn into_member(v: JsonValue, key: &str) -> (r: Option<JsonValue>)
    ensures
        r == json_get(v, key@),
{
    let ghost gv = v;
    match v {
        JsonValue::Object(mut entries) => {
            let ghost orig = entries@;
            assert(json_get(gv, key@) == entries_get(orig, key@));
            let n = entries.len();
            let mut i: usize = 0;
            while i < n
                invariant
                    gv == v,
                    json_get(gv, key@) == entries_get(orig, key@),
                    entries@ == orig,
                    n == orig.len(),
                    i <= n,
                    forall|j: int| 0 <= j < i ==> (#[trigger] orig[j]).0@ != key@,
                decreases n - i,
            {
                if str_equal(entries[i].0.as_str(), key) {
                    proof {
                        lemma_entries_get_skip(orig, key@, i as int);
                        let sub = orig.subrange(i as int, n as int);
                        assert(sub[0] == orig[i as int]);
                        assert(sub[0].0@ == key@);
                        assert(entries_get(sub, key@) == Some(orig[i as int].1));
                    }
                    let pair = entries.remove(i);
                    assert(pair == orig[i as int]);
                    return Some(pair.1);
                }
                i = i + 1;
            }
            proof {
                lemma_entries_get_skip(orig, key@, n as int);
            }
            None
        },
        _ => None,
    }
}

/// A model id trimmed and without a leading `models/`.
pub fn normalize_model_id(value: &str) -> (r: String)
    ensures
        r@ == normalized_id(value@),
{
    let t = trim_str(value);
    let tc = chars_of(t.as_str());
    strip_prefix_string(tc.as_slice(), "models/")
}

/// Whether `v` is an OpenAI model list.
fn is_openai_model_list(v: &JsonValue) -> (r: bool)
    ensures
        r == is_model_list(*v),
{
    let is_list = match get_string(v, "object") {
        Some(o) => str_equal(o.as_str(), "list"),
        None => false,
    };
    let has_data = match v.get("data") {
        Some(d) => d.as_array().is_some(),
        None => false,
    };
    is_list && has_data
}

/// Whether `v` is an OpenAI model.
fn is_openai_model_value(v: &JsonValue) -> (r: bool)
    ensures
        r == is_model_value(*v),
{
    let is_model = match get_string(v, "object") {
        Some(o) => str_equal(o.as_str(), "model"),
        None => false,
    };
    is_model && get_string(v, "id").is_some()
}

/// A string member of an object.
fn string_member(key: &str, value: String) -> (r: (String, JsonValue))
    ensures
        is_string_member(r, key@, value@),
{
    (String::from_str(key), JsonValue::String(value))
}

/// The OpenAI form of a Codex model entry, if it has one.
pub fn normalize_openai_model_value(value: JsonValue) -> (r: Option<JsonValue>)
    ensures
        r is Some <==> normalizable(value),
        r matches Some(out) ==> normalizes_to(value, out),
{
    if is_openai_model_value(&value) {
        return Some(value);
    }
    let id = match get_string(&value, "id") {
        Some(i) => i,
        None => match get_string(&value, "slug") {
            Some(s) => s,
            None => {
                return None;
            },
        },
    };
    let created = match value.get("created") {
        Some(c) => match c.as_u64() {
            Some(n) => n,
            None => 0,
        },
        None => 0,
    };
    let owned_by = match get_string(&value, "owned_by") {
        Some(o) => o,
        None => String::from_str("openai"),
    };
    let members = vec![
        string_member("id", normalize_model_id(id.as_str())),
        string_member("object", String::from_str("model")),
        string_member("owned_by", owned_by),
        (String::from_str("created"), JsonValue::Number(JsonNumber::PosInt(created))),
    ];
    Some(JsonValue::Object(members))
}

/// The OpenAI model list of a Codex model answer, if it has one.
pub fn normalize_openai_model_list_value(value: JsonValue) -> (r: Option<JsonValue>)
    ensures
        r is Some <==> list_normalizable(value),
        r matches Some(out) ==> list_normalizes_to(value, out),
{
    if is_openai_model_list(&value) {
        return Some(value);
    }
    let ghost v0 = value;
    let models = into_member(value, "models");
    let mut items = match models {
        Some(JsonValue::Array(items)) => items,
        _ => {
            return None;
        },
    };
    let ghost orig = items@;
    let mut data: Vec<JsonValue> = Vec::new();
    let n = items.len();
    let mut k: usize = 0;
    assert(orig.skip(0) =~= orig);
    while k < n
        invariant
            n == orig.len(),
            k <= n,
            items@ == orig.skip(k as int),
            normalized_models(data@, orig.take(k as int)),
        decreases n - k,
    {
        let item = items.remove(0);
        proof {
            assert(item == orig[k as int]);
            assert(items@ =~= orig.skip(k + 1));
            assert(orig.take(k + 1).drop_last() =~= orig.take(k as int));
            assert(orig.take(k + 1).last() == orig[k as int]);
        }
        let ghost before = data@;
        match normalize_openai_model_value(item) {
            Some(model) => {
                data.push(model);
                assert(data@.drop_last() =~= before);
            },
            None => {},
        }
        k = k + 1;
    }
    assert(orig.take(n as int) =~= orig);
    let members = vec![
        string_member("object", String::from_str("list")),
        (String::from_str("data"), JsonValue::Array(data)),
    ];
    Some(JsonValue::Object(members))
}

/// Whether a model entry's id matches a wanted id.
fn model_id_matches(item: &JsonValue, target: &str) -> (r: bool)
    ensures
        r == id_matches(*item, target@),
{
    match get_string(item, "id") {
        Some(id) => {
            let a = normalize_model_id(id.as_str());
            let b = normalize_model_id(target);
            str_equal(a.as_str(), b.as_str())
        },
        None => false,
    }
}

/// Skipping entries that do not match keeps the first that does.
proof fn lemma_first_matching_skip(items: Seq<JsonValue>, target: Seq<char>, i: int)
    requires
        0 <= i <= items.len(),
        forall|j: int| 0 <= j < i ==> !id_matches(#[trigger] items[j], target),
    ensures
        first_matching(items, target) == first_matching(items.subrange(i, items.len() as int), target),
    decreases i,
{
    if i > 0 {
        lemma_first_matching_skip(items, target, i - 1);
        let t = items.subrange(i - 1, items.len() as int);
        assert(t[0] == items[i - 1]);
        assert(t.drop_first() =~= items.subrange(i, items.len() as int));
    } else {
        assert(items.subrange(0, items.len() as int) =~= items);
    }
}

/// The entry of a model list whose id matches.
pub fn find_model_in_openai_list(list: JsonValue, target: &str) -> (r: Option<JsonValue>)
    ensures
        r == model_in_list(list, target@),
{
    let ghost gl = list;
    let mut items = match into_member(list, "data") {
        Some(JsonValue::Array(items)) => items,
        _ => {
            return None;
        },
    };
    let ghost orig = items@;
    assert(model_in_list(gl, target@) == first_matching(orig, target@));
    let n = items.len();
    let mut i: usize = 0;
    while i < n
        invariant
            gl == list,
            model_in_list(gl, target@) == first_matching(orig, target@),
            items@ == orig,
            n == orig.len(),
            i <= n,
            forall|j: int| 0 <= j < i ==> !id_matches(#[trigger] orig[j], target@),
        decreases n - i,
    {
        if model_id_matches(&items[i], target) {
            proof {
                lemma_first_matching_skip(orig, target@, i as int);
                assert(orig.subrange(i as int, n as int)[0] == orig[i as int]);
            }
            return Some(items.remove(i));
        }
        i = i + 1;
    }
    proof {
        lemma_first_matching_skip(orig, target@, n as int);
    }
    None
}

/// The message of an upstream error answer.
pub fn extract_upstream_error_message(parsed: Option<&JsonValue>) -> (r: Option<String>)
    ensures
        opt_view(r) == upstream_error_message(
            match parsed {
                Some(v) => Some(*v),
                None => None,
            },
        ),
{
    let v = match parsed {
        Some(v) => v,
        None => {
            return None;
        },
    };
    if let Some(detail) = v.get("detail") {
        if let Some(m) = get_string(detail, "message") {
            return Some(m);
        }
    }
    if let Some(error) = v.get("error") {
        if let Some(m) = get_string(error, "message") {
            return Some(m);
        }
    }
    if let Some(m) = get_string(v, "error") {
        return Some(m);
    }
    get_string(v, "message")
}

/// An OpenAI error answer with this message and parameter.
pub fn openai_model_error_body(message: String, param: Option<&str>) -> (r: JsonValue)
    ensures
        is_error_body(r, message@, opt_str_view(param)),
{
    let param_value = match param {
        Some(p) => JsonValue::String(String::from_str(p)),
        None => JsonValue::Null,
    };
    let inner = vec![
        string_member("message", message),
        string_member("type", String::from_str("invalid_request_error")),
        (String::from_str("param"), param_value),
        string_member("code", String::from_str("upstream_error")),
    ];
    let top = vec![(String::from_str("error"), JsonValue::Object(inner))];
    JsonValue::Object(top)
}

/// The message of a failed model answer.
fn failure_text(status: u16, parsed: &Option<JsonValue>) -> (r: String)
    ensures
        r@ == failure_message(status, *parsed),
{
    let found = match parsed {
        Some(v) => extract_upstream_error_message(Some(v)),
        None => extract_upstream_error_message(None),
    };
    match found {
        Some(m) => m,
        None => {
            let mut m = String::from_str("upstream status ");
            m.append(decimal_string(status as u64).as_str());
            m
        },
    }
}

/// The OpenAI answer to a model-list request, from the upstream status and body
/// (`parsed` is the body as JSON, missing when it is not JSON): an error answer
/// with the upstream status when that is not 200, else the OpenAI model list.
pub open spec fn is_list_answer(
    status: u16,
    parsed: Option<JsonValue>,
    r: Result<(u16, JsonValue), ModelBodyError>,
) -> bool {
    &&& status != 200 ==> (r matches Ok((code, body)) && code == status && is_error_body(
        body,
        failure_message(status, parsed),
        None,
    ))
    &&& status == 200 ==> match parsed {
        None => r == Err::<(u16, JsonValue), ModelBodyError>(ModelBodyError::InvalidJson),
        Some(v) => if list_normalizable(v) {
            r matches Ok((code, body)) && code == 200 && list_normalizes_to(v, body)
        } else {
            r == Err::<(u16, JsonValue), ModelBodyError>(ModelBodyError::InvalidPayload)
        },
    }
}

/// The OpenAI answer to a one-model request: an error answer with the upstream
/// status when that is not 200, a 404 error answer when the list lacks the model,
/// else the model.
pub open spec fn is_get_answer(
    status: u16,
    parsed: Option<JsonValue>,
    target: Seq<char>,
    r: Result<(u16, JsonValue), ModelBodyError>,
) -> bool {
    &&& status != 200 ==> (r matches Ok((code, body)) && code == status && is_error_body(
        body,
        failure_message(status, parsed),
        Some("model"@),
    ))
    &&& status == 200 ==> match parsed {
        None => r == Err::<(u16, JsonValue), ModelBodyError>(ModelBodyError::InvalidJson),
        Some(v) => if list_normalizable(v) {
            exists|list: JsonValue|
                list_normalizes_to(v, list) && match model_in_list(list, target) {
                    Some(m) => r == Ok::<(u16, JsonValue), ModelBodyError>((200, m)),
                    None => r matches Ok((code, body)) && code == 404 && is_error_body(
                        body,
                        "model "@ + target + " not found"@,
                        Some("model"@),
                    ),
                }
        } else {
            r == Err::<(u16, JsonValue), ModelBodyError>(ModelBodyError::InvalidPayload)
        },
    }
}

/// The OpenAI answer to a model-list request.
pub fn build_openai_model_list_body(status: u16, parsed: Option<JsonValue>) -> (r: Result<
    (u16, JsonValue),
    ModelBodyError,
>)
    ensures
        is_list_answer(status, parsed, r),
{
    if status != 200 {
        let message = failure_text(status, &parsed);
        return Ok((status, openai_model_error_body(message, None)));
    }
    let value = match parsed {
        Some(v) => v,
        None => {
            return Err(ModelBodyError::InvalidJson);
        },
    };
    match normalize_openai_model_list_value(value) {
        Some(list) => Ok((status, list)),
        None => Err(ModelBodyError::InvalidPayload),
    }
}

/// The OpenAI answer to a one-model request.
pub fn build_openai_model_get_body(status: u16, parsed: Option<JsonValue>, target: &str) -> (r:
    Result<(u16, JsonValue), ModelBodyError>)
    ensures
        is_get_answer(status, parsed, target@, r),
{
    if status != 200 {
        let message = failure_text(status, &parsed);
        return Ok((status, openai_model_error_body(message, Some("model"))));
    }
    let value = match parsed {
        Some(v) => v,
        None => {
            return Err(ModelBodyError::InvalidJson);
        },
    };
    let ghost v0 = value;
    let list = match normalize_openai_model_list_value(value) {
        Some(list) => list,
        None => {
            return Err(ModelBodyError::InvalidPayload);
        },
    };
    let ghost l0 = list;
    match find_model_in_openai_list(list, target) {
        Some(model) => Ok((status, model)),
        None => {
            let mut message = String::from_str("model ");
            message.append(target);
            message.append(" not found");
            let r = Ok((404, openai_model_error_body(message, Some("model"))));
            assert(list_normalizes_to(v0, l0));
            r
        },
    }
}

/// The rewritten body of a Codex model answer for the request's model route.
pub fn reshape_codex_model_body(
    status: u16,
    parsed: Option<JsonValue>,
    route: CodexModelRoute,
) -> (r: Result<(u16, JsonValue), ModelBodyError>)
    ensures
        match route {
            CodexModelRoute::NotModel => r == Err::<(u16, JsonValue), ModelBodyError>(
                ModelBodyError::InvalidRoute,
            ),
            CodexModelRoute::List => is_list_answer(status, parsed, r),
            CodexModelRoute::Get(target) => is_get_answer(status, parsed, target@, r),
        },
{
    match route {
        CodexModelRoute::NotModel => Err(ModelBodyError::InvalidRoute),
        CodexModelRoute::List => build_openai_model_list_body(status, parsed),
        CodexModelRoute::Get(target) => build_openai_model_get_body(status, parsed, target.as_str()),
    }
}

/// The header changes of a rewritten Codex model answer, made to the headers
/// kept from upstream: its length and encoding no longer hold, and it is JSON.
pub fn reshaped_answer_header_ops() -> (r: Vec<HeaderOp>)
    ensures
        ops_view(r@) == seq![
            HeaderOpView::Delete("content-length"@),
            HeaderOpView::Delete("content-encoding"@),
            HeaderOpView::Replace("content-type"@, "application/json"@),
        ],
{
    let r = vec![
        HeaderOp::Delete(String::from_str("content-length")),
        HeaderOp::Delete(String::from_str("content-encoding")),
        HeaderOp::Replace(String::from_str("content-type"), String::from_str("application/json")),
    ];
    assert(ops_view(r@) =~= seq![
        HeaderOpView::Delete("content-length"@),
        HeaderOpView::Delete("content-encoding"@),
        HeaderOpView::Replace("content-type"@, "application/json"@),
    ]);
    r
}

} // verus!
