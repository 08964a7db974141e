use sgproxy::json::{JsonNumber, JsonValue};
use sgproxy::tokenizer::{
    count_openai_response_input_tokens, count_text, input_tokens_answer, is_o200k_model, token_texts,
    tokenizer_for_model, TokenCountError, TokenizerKind,
};

fn s(v: &str) -> String {
    v.to_string()
}

fn text(v: &str) -> JsonValue {
    JsonValue::String(s(v))
}

fn obj(members: Vec<(&str, JsonValue)>) -> JsonValue {
    JsonValue::Object(members.into_iter().map(|(k, v)| (s(k), v)).collect())
}

fn answer(n: u64) -> JsonValue {
    obj(vec![
        ("object", text("response.input_tokens")),
        ("input_tokens", JsonValue::Number(JsonNumber::PosInt(n))),
    ])
}

fn cl100k(t: &str) -> usize {
    tiktoken_rs::cl100k_base_singleton().encode_ordinary(t).len()
}

fn o200k(t: &str) -> usize {
    tiktoken_rs::o200k_base_singleton().encode_ordinary(t).len()
}

const MULTILINGUAL: &str = "こんにちは世界、これはトークン数のテストです。Привет мир! 🎉🎉";

#[test]
fn o200k_model_names() {
    for m in ["gpt-5", "gpt-5-codex", "gpt-4.1-mini", "gpt-4o", "o1-preview", "o3", "o4-mini"] {
        assert!(is_o200k_model(m), "{m}");
    }
    for m in ["gpt-4", "gpt-3.5-turbo", "o2", " gpt-5", ""] {
        assert!(!is_o200k_model(m), "{m}");
    }
}

#[test]
fn tokenizer_choice_trims_model() {
    assert_eq!(tokenizer_for_model(Some("  gpt-5  ")), TokenizerKind::O200k);
    assert_eq!(tokenizer_for_model(Some("gpt-4")), TokenizerKind::Cl100k);
    assert_eq!(tokenizer_for_model(None), TokenizerKind::Cl100k);
}

#[test]
fn counts_follow_the_encoding() {
    assert_ne!(cl100k(MULTILINGUAL), o200k(MULTILINGUAL));
    assert_eq!(count_text(TokenizerKind::Cl100k, MULTILINGUAL), Some(cl100k(MULTILINGUAL)));
    assert_eq!(count_text(TokenizerKind::O200k, MULTILINGUAL), Some(o200k(MULTILINGUAL)));
    assert_eq!(count_text(TokenizerKind::Cl100k, "hello world"), Some(2));
    assert_eq!(count_text(TokenizerKind::O200k, ""), Some(0));
    assert_eq!(count_text(TokenizerKind::Cl100k, "a <|endoftext|> b"), Some(cl100k("a <|endoftext|> b")));
}

#[test]
fn texts_of_a_request_in_order() {
    let body = obj(vec![
        ("model", text("gpt-5")),
        ("instructions", text("I")),
        (
            "input",
            JsonValue::Array(vec![
                obj(vec![("content", text("a"))]),
                obj(vec![(
                    "content",
                    JsonValue::Array(vec![
                        obj(vec![("text", text("b"))]),
                        obj(vec![("refusal", text("c"))]),
                        obj(vec![("text", JsonValue::Null), ("refusal", text("c2"))]),
                        obj(vec![("other", text("z"))]),
                    ]),
                )]),
                obj(vec![("output", text("d"))]),
                obj(vec![("output", JsonValue::Array(vec![obj(vec![("text", text("e"))])]))]),
                obj(vec![("content", JsonValue::Null), ("output", text("skipped"))]),
                obj(vec![("role", text("user"))]),
                text("not an item"),
            ]),
        ),
    ]);
    assert_eq!(token_texts(&body), vec![s("I"), s("a"), s("b"), s("c"), s("c2"), s("d"), s("e")]);
    let plain = obj(vec![("input", text("just this"))]);
    assert_eq!(token_texts(&plain), vec![s("just this")]);
    assert!(token_texts(&obj(vec![("input", JsonValue::Null)])).is_empty());
    assert!(token_texts(&text("x")).is_empty());
}

#[test]
fn request_count_answer() {
    let body = obj(vec![
        ("model", text("gpt-4o")),
        ("instructions", text(MULTILINGUAL)),
        ("input", JsonValue::Array(vec![obj(vec![("content", text("hello world"))])])),
    ]);
    let expected = (o200k(MULTILINGUAL) + o200k("hello world")) as u64;
    assert_eq!(count_openai_response_input_tokens(&body), Ok(answer(expected)));
    let legacy = obj(vec![("model", text("gpt-4")), ("input", text(MULTILINGUAL))]);
    assert_eq!(count_openai_response_input_tokens(&legacy), Ok(answer(cl100k(MULTILINGUAL) as u64)));
    assert_eq!(count_openai_response_input_tokens(&obj(vec![])), Ok(answer(0)));
}

#[test]
fn counts_add_up_across_texts() {
    let both = obj(vec![("instructions", text("hello world")), ("input", text(MULTILINGUAL))]);
    let first = obj(vec![("instructions", text("hello world"))]);
    let second = obj(vec![("input", text(MULTILINGUAL))]);
    let total = |v: &JsonValue| match count_openai_response_input_tokens(v) {
        Ok(JsonValue::Object(m)) => match &m[1].1 {
            JsonValue::Number(JsonNumber::PosInt(n)) => *n,
            _ => panic!("not a count"),
        },
        _ => panic!("no answer"),
    };
    assert_eq!(total(&both), total(&first) + total(&second));
}

#[test]
fn answer_of_counts() {
    assert_eq!(input_tokens_answer(&[]), Ok(answer(0)));
    assert_eq!(input_tokens_answer(&[1, 2, 3]), Ok(answer(6)));
    assert_eq!(input_tokens_answer(&[i64::MAX as usize]), Ok(answer(i64::MAX as u64)));
    assert_eq!(input_tokens_answer(&[i64::MAX as usize, 1]), Err(TokenCountError::TotalTooLarge));
    assert_eq!(input_tokens_answer(&[usize::MAX]), Err(TokenCountError::TotalTooLarge));
}
