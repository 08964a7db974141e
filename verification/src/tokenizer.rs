//! Counting the input tokens of an OpenAI Responses request: which texts are
//! counted, with which encoding, and the answer that reports their sum.
use vstd::prelude::*;
use crate::json::{get_str, get_string, json_get, JsonNumber, JsonValue};
use crate::oauth::or_default;
use crate::primitives::{cl100k_count, cl100k_token_count, o200k_count, o200k_token_count, opt_str_view};
use crate::text::{chars_of, has_prefix, starts_with, trim, trim_str, views};

verus! {

/// The BPE encoding a model's text is counted with.
#[derive(Clone, Copy, Debug, PartialEq, Eq, Structural)]
pub enum TokenizerKind {
    Cl100k,
    O200k,
}

/// Why a count could not be answered.
#[derive(Clone, Copy, Debug, PartialEq, Eq, Structural)]
pub enum TokenCountError {
    /// The sum does not fit the answer's integer.
    TotalTooLarge,
    /// The tokenizer's regex engine gave up on one of the texts.
    Unencodable,
}

/// Models counted with `o200k_base`: the GPT-5, GPT-4.1, GPT-4o and o-series.
pub open spec fn is_o200k(model: Seq<char>) -> bool {
    ||| has_prefix(model, "gpt-5"@)
    ||| has_prefix(model, "gpt-4.1"@)
    ||| has_prefix(model, "gpt-4o"@)
    ||| has_prefix(model, "o1"@)
    ||| has_prefix(model, "o3"@)
    ||| has_prefix(model, "o4"@)
}

/// The encoding for a request's model (trimmed); `cl100k_base` when unknown.
pub open spec fn tokenizer_of(model: Option<Seq<char>>) -> TokenizerKind {
    if is_o200k(trim(or_default(model, Seq::empty()))) {
        TokenizerKind::O200k
    } else {
        TokenizerKind::Cl100k
    }
}

/// The number of tokens of a text in an encoding, if it can be encoded.
pub open spec fn text_tokens(kind: TokenizerKind, text: Seq<char>) -> Option<nat> {
    match kind {
        TokenizerKind::Cl100k => cl100k_token_count(text),
        TokenizerKind::O200k => o200k_token_count(text),
    }
}

/// The text a content part is counted by: its `text`, else its `refusal`.
pub open spec fn part_texts(part: JsonValue) -> Seq<Seq<char>> {
    match get_str(part, "text"@) {
        Some(t) => seq![t],
        None => match get_str(part, "refusal"@) {
            Some(t) => seq![t],
            None => Seq::empty(),
        },
    }
}

/// The texts of a list of content parts, in order.
pub open spec fn parts_texts(parts: Seq<JsonValue>) -> Seq<Seq<char>>
    decreases parts.len(),
{
    if parts.len() == 0 {
        Seq::empty()
    } else {
        parts_texts(parts.drop_last()) + part_texts(parts.last())
    }
}

/// The texts of a `content` or `output` value: a string, or a list of parts.
pub open spec fn content_texts(v: JsonValue) -> Seq<Seq<char>> {
    match v {
        JsonValue::String(s) => seq![s@],
        JsonValue::Array(items) => parts_texts(items@),
        _ => Seq::empty(),
    }
}

/// The texts of an input item: of its `content`, else of its `output`.
pub open spec fn item_texts(item: JsonValue) -> Seq<Seq<char>> {
    match json_get(item, "content"@) {
        Some(c) => content_texts(c),
        None => match json_get(item, "output"@) {
            Some(o) => content_texts(o),
            None => Seq::empty(),
        },
    }
}

/// The texts of a list of input items, in order.
pub open spec fn items_texts(items: Seq<JsonValue>) -> Seq<Seq<char>>
    decreases items.len(),
{
    if items.len() == 0 {
        Seq::empty()
    } else {
        items_texts(items.drop_last()) + item_texts(items.last())
    }
}

/// The texts of a request's `input`: a string, or a list of items.
pub open spec fn input_texts(v: JsonValue) -> Seq<Seq<char>> {
    match v {
        JsonValue::String(s) => seq![s@],
        JsonValue::Array(items) => items_texts(items@),
        _ => Seq::empty(),
    }
}

/// Every text of a request that is counted: its `instructions`, then its `input`.
pub open spec fn counted_texts(body: JsonValue) -> Seq<Seq<char>> {
    (match get_str(body, "instructions"@) {
        Some(t) => seq![t],
        None => Seq::empty(),
    }) + (match json_get(body, "input"@) {
        Some(i) => input_texts(i),
        None => Seq::empty(),
    })
}

/// The sum of the token counts of some texts.
pub open spec fn tokens_total(kind: TokenizerKind, texts: Seq<Seq<char>>) -> nat
    decreases texts.len(),
{
    if texts.len() == 0 {
        0
    } else {
        tokens_total(kind, texts.drop_last()) + match text_tokens(kind, texts.last()) {
            Some(n) => n,
            None => 0,
        }
    }
}

/// Whether every one of some texts can be encoded.
pub open spec fn encodable(kind: TokenizerKind, texts: Seq<Seq<char>>) -> bool {
    forall|i: int| 0 <= i < texts.len() ==> (#[trigger] text_tokens(kind, texts[i])) is Some
}

/// The sum of some counts.
pub open spec fn counts_total(counts: Seq<usize>) -> nat
    decreases counts.len(),
{
    if counts.len() == 0 {
        0
    } else {
        counts_total(counts.drop_last()) + counts.last() as nat
    }
}

/// The answer `{"object": "response.input_tokens", "input_tokens": total}`.
pub open spec fn is_token_answer(v: JsonValue, total: nat) -> bool {
    match v {
        JsonValue::Object(members) => {
            &&& members@.len() == 2
            &&& members@[0].0@ == "object"@
            &&& members@[0].1 == JsonValue::String(members@[0].1->String_0)
            &&& (members@[0].1->String_0)@ == "response.input_tokens"@
            &&& members@[1].0@ == "input_tokens"@
            &&& members@[1].1 == JsonValue::Number(JsonNumber::PosInt(total as u64))
        },
        _ => false,
    }
}

/// The total a request's answer reports.
pub open spec fn request_tokens(body: JsonValue) -> nat {
    tokens_total(tokenizer_of(get_str(body, "model"@)), counted_texts(body))
}

/// Whether every counted text of a request can be encoded.
pub open spec fn request_encodable(body: JsonValue) -> bool {
    encodable(tokenizer_of(get_str(body, "model"@)), counted_texts(body))
}

/// Whether a (trimmed) model name is counted with `o200k_base`.
pub fn is_o200k_model(model: &str) -> (r: bool)
    ensures
        r == is_o200k(model@),
{
    let m = chars_of(model);
    let s = m.as_slice();
    starts_with(s, chars_of("gpt-5").as_slice()) || starts_with(s, chars_of("gpt-4.1").as_slice())
        || starts_with(s, chars_of("gpt-4o").as_slice()) || starts_with(
        s,
        chars_of("o1").as_slice(),
    ) || starts_with(s, chars_of("o3").as_slice()) || starts_with(s, chars_of("o4").as_slice())
}

/// The encoding for a request's model.
pub fn tokenizer_for_model(model: Option<&str>) -> (r: TokenizerKind)
    ensures
        r == tokenizer_of(opt_str_view(model)),
{
    let empty = String::new();
    let source: &str = match model {
        Some(m) => m,
        None => empty.as_str(),
    };
    let t = trim_str(source);
    if is_o200k_model(t.as_str()) {
        TokenizerKind::O200k
    } else {
        TokenizerKind::Cl100k
    }
}

/// The number of tokens of a text in an encoding, or nothing when the
/// tokenizer cannot encode it.
pub fn count_text(kind: TokenizerKind, text: &str) -> (r: Option<usize>)
    ensures
        match r {
            Some(n) => text_tokens(kind, text@) == Some(n as nat),
            None => text_tokens(kind, text@) is None,
        },
{
    match kind {
        TokenizerKind::Cl100k => cl100k_count(text),
        TokenizerKind::O200k => o200k_count(text),
    }
}

/// Appends the text of a content part, if it has one.
fn push_part_texts(part: &JsonValue, out: &mut Vec<String>)
    ensures
        views(final(out)@) == views(old(out)@) + part_texts(*part),
{
    let ghost before = views(out@);
    match get_string(part, "text") {
        Some(t) => {
            out.push(t);
            assert(views(out@) =~= before + part_texts(*part));
        },
        None => match get_string(part, "refusal") {
            Some(t) => {
                out.push(t);
                assert(views(out@) =~= before + part_texts(*part));
            },
            None => {
                assert(views(out@) =~= before + part_texts(*part));
            },
        },
    }
}

/// Appends the texts of a list of content parts.
fn push_parts_texts(parts: &Vec<JsonValue>, out: &mut Vec<String>)
    ensures
        views(final(out)@) == views(old(out)@) + parts_texts(parts@),
{
    let ghost before = views(out@);
    let n = parts.len();
    let mut i: usize = 0;
    assert(parts@.subrange(0, 0).len() == 0);
    assert(views(out@) =~= before + parts_texts(parts@.subrange(0, 0)));
    while i < n
        invariant
            n == parts@.len(),
            i <= n,
            views(out@) == before + parts_texts(parts@.subrange(0, i as int)),
        decreases n - i,
    {
        push_part_texts(&parts[i], out);
        proof {
            let s = parts@.subrange(0, i + 1);
            assert(s.drop_last() =~= parts@.subrange(0, i as int));
            assert(s.last() == parts@[i as int]);
            assert(views(out@) =~= before + parts_texts(s));
        }
        i = i + 1;
    }
    assert(parts@.subrange(0, n as int) =~= parts@);
}

/// Appends the texts of a `content` or `output` value.
fn push_content_texts(v: &JsonValue, out: &mut Vec<String>)
    ensures
        views(final(out)@) == views(old(out)@) + content_texts(*v),
{
    let ghost before = views(out@);
    match v {
        JsonValue::String(s) => {
            out.push(s.clone());
            assert(views(out@) =~= before + content_texts(*v));
        },
        JsonValue::Array(items) => {
            push_parts_texts(items, out);
        },
        _ => {
            assert(views(out@) =~= before + content_texts(*v));
        },
    }
}

/// Appends the texts of an input item.
fn push_item_texts(item: &JsonValue, out: &mut Vec<String>)
    ensures
        views(final(out)@) == views(old(out)@) + item_texts(*item),
{
    let ghost before = views(out@);
    match item.get("content") {
        Some(c) => push_content_texts(c, out),
        None => match item.get("output") {
            Some(o) => push_content_texts(o, out),
            None => {
                assert(views(out@) =~= before + item_texts(*item));
            },
        },
    }
}

/// Appends the texts of a list of input items.
fn push_items_texts(items: &Vec<JsonValue>, out: &mut Vec<String>)
    ensures
        views(final(out)@) == views(old(out)@) + items_texts(items@),
{
    let ghost before = views(out@);
    let n = items.len();
    let mut i: usize = 0;
    assert(views(out@) =~= before + items_texts(items@.subrange(0, 0)));
    while i < n
        invariant
            n == items@.len(),
            i <= n,
            views(out@) == before + items_texts(items@.subrange(0, i as int)),
        decreases n - i,
    {
        push_item_texts(&items[i], out);
        proof {
            let s = items@.subrange(0, i + 1);
            assert(s.drop_last() =~= items@.subrange(0, i as int));
            assert(s.last() == items@[i as int]);
            assert(views(out@) =~= before + items_texts(s));
        }
        i = i + 1;
    }
    assert(items@.subrange(0, n as int) =~= items@);
}

/// The texts of a request that are counted, in order: its `instructions`, then
/// each text of its `input`.
pub fn token_texts(body: &JsonValue) -> (r: Vec<String>)
    ensures
        views(r@) == counted_texts(*body),
{
    let mut out: Vec<String> = Vec::new();
    let ghost first = match get_str(*body, "instructions"@) {
        Some(t) => seq![t],
        None => Seq::<Seq<char>>::empty(),
    };
    match get_string(body, "instructions") {
        Some(t) => out.push(t),
        None => {},
    }
    assert(views(out@) =~= first);
    match body.get("input") {
        Some(input) => match input {
            JsonValue::String(s) => {
                out.push(s.clone());
                assert(views(out@) =~= counted_texts(*body));
            },
            JsonValue::Array(items) => {
                push_items_texts(items, &mut out);
            },
            _ => {
                assert(views(out@) =~= counted_texts(*body));
            },
        },
        None => {
            assert(views(out@) =~= counted_texts(*body));
        },
    }
    out
}

/// A prefix never sums to more than the whole.
proof fn lemma_counts_total_prefix(counts: Seq<usize>, j: int, k: int)
    requires
        0 <= j <= k <= counts.len(),
    ensures
        counts_total(counts.subrange(0, j)) <= counts_total(counts.subrange(0, k)),
    decreases k - j,
{
    if j < k {
        lemma_counts_total_prefix(counts, j, k - 1);
        assert(counts.subrange(0, k).drop_last() =~= counts.subrange(0, k - 1));
    }
}

/// The answer for some per-text counts: their sum, or an error when it does not
/// fit an `i64`.
pub fn input_tokens_answer(counts: &[usize]) -> (r: Result<JsonValue, TokenCountError>)
    ensures
        match r {
            Ok(v) => counts_total(counts@) <= i64::MAX && is_token_answer(v, counts_total(counts@)),
            Err(e) => counts_total(counts@) > i64::MAX && e == TokenCountError::TotalTooLarge,
        },
{
    let n = counts.len();
    let mut total: u64 = 0;
    let mut i: usize = 0;
    while i < n
        invariant
            n == counts@.len(),
            i <= n,
            total == counts_total(counts@.subrange(0, i as int)),
            total <= i64::MAX,
        decreases n - i,
    {
        proof {
            let s = counts@.subrange(0, i + 1);
            assert(s.drop_last() =~= counts@.subrange(0, i as int));
        }
        let c = counts[i];
        if c as u64 > 9223372036854775807u64 - total {
            proof {
                lemma_counts_total_prefix(counts@, i + 1, n as int);
                assert(counts@.subrange(0, n as int) =~= counts@);
            }
            return Err(TokenCountError::TotalTooLarge);
        }
        total = total + c as u64;
        i = i + 1;
    }
    assert(counts@.subrange(0, n as int) =~= counts@);
    let members = vec![
        (String::from_str("object"), JsonValue::String(String::from_str("response.input_tokens"))),
        (String::from_str("input_tokens"), JsonValue::Number(JsonNumber::PosInt(total))),
    ];
    Ok(JsonValue::Object(members))
}

/// Counts equal to the texts' token counts sum to their total.
proof fn lemma_counts_match(kind: TokenizerKind, counts: Seq<usize>, texts: Seq<Seq<char>>)
    requires
        counts.len() == texts.len(),
        forall|j: int|
            0 <= j < counts.len() ==> text_tokens(kind, #[trigger] texts[j]) == Some(counts[j] as nat),
    ensures
        counts_total(counts) == tokens_total(kind, texts),
    decreases counts.len(),
{
    if counts.len() > 0 {
        let c = counts.drop_last();
        let t = texts.drop_last();
        assert forall|j: int| 0 <= j < c.len() implies text_tokens(kind, #[trigger] t[j]) == Some(
            c[j] as nat,
        ) by {
            assert(c[j] == counts[j]);
            assert(t[j] == texts[j]);
        }
        lemma_counts_match(kind, c, t);
        assert(counts.last() == counts[counts.len() - 1]);
    }
}

/// Counts the input tokens of an OpenAI Responses request: the tokens of its
/// `instructions` and of every text in its `input`, with the encoding of its
/// model, answered as `{"object": "response.input_tokens", "input_tokens": n}`.
pub fn count_openai_response_input_tokens(body: &JsonValue) -> (r: Result<JsonValue, TokenCountError>)
    ensures
        !request_encodable(*body) ==> r == Err::<JsonValue, TokenCountError>(
            TokenCountError::Unencodable,
        ),
        request_encodable(*body) ==> match r {
            Ok(v) => request_tokens(*body) <= i64::MAX && is_token_answer(v, request_tokens(*body)),
            Err(e) => request_tokens(*body) > i64::MAX && e == TokenCountError::TotalTooLarge,
        },
{
    let model: Option<&str> = match body.get("model") {
        Some(m) => m.as_str(),
        None => None,
    };
    let kind = tokenizer_for_model(model);
    let texts = token_texts(body);
    let ghost tv = views(texts@);
    let n = texts.len();
    let mut counts: Vec<usize> = Vec::new();
    let mut i: usize = 0;
    while i < n
        invariant
            n == texts@.len(),
            tv == views(texts@),
            tv == counted_texts(*body),
            kind == tokenizer_of(get_str(*body, "model"@)),
            tv.len() == n,
            i <= n,
            counts@.len() == i,
            forall|j: int|
                0 <= j < i ==> text_tokens(kind, #[trigger] tv[j]) == Some(counts@[j] as nat),
        decreases n - i,
    {
        match count_text(kind, texts[i].as_str()) {
            Some(c) => counts.push(c),
            None => {
                assert(!encodable(kind, tv)) by {
                    assert(tv[i as int] == texts@[i as int]@);
                }
                return Err(TokenCountError::Unencodable);
            },
        }
        i = i + 1;
    }
    proof {
        assert(encodable(kind, tv)) by {
            assert forall|j: int| 0 <= j < tv.len() implies (#[trigger] text_tokens(kind, tv[j])) is Some by {
                assert(text_tokens(kind, tv[j]) == Some(counts@[j] as nat));
            }
        }
        lemma_counts_match(kind, counts@, tv);
    }
    input_tokens_answer(counts.as_slice())
}

} // verus!
