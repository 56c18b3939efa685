use realtime_translation::deepl::{
    translation_of, DeepLClient, DeepLConfig, TranslateReply, TranslationContext,
};

#[test]
fn context_starts_empty() {
    let mut ctx = TranslationContext::new(4);
    assert_eq!(ctx.push_and_context("hello"), "");
}

#[test]
fn context_accumulates_prior_sentences() {
    let mut ctx = TranslationContext::new(4);
    ctx.push_and_context("sentence one.");
    let c = ctx.push_and_context("sentence two.");
    assert_eq!(c, "sentence one.");
    let c = ctx.push_and_context("sentence three.");
    assert_eq!(c, "sentence one.\nsentence two.");
}

#[test]
fn context_evicts_oldest_when_full() {
    let mut ctx = TranslationContext::new(2);
    ctx.push_and_context("a");
    ctx.push_and_context("b");
    ctx.push_and_context("c");
    let c = ctx.push_and_context("d");
    assert_eq!(c, "b\nc");
}

#[test]
fn free_key_uses_free_endpoint() {
    let cfg = DeepLConfig::new("abc:fx".into(), None, "de");
    assert!(cfg.endpoint.contains("api-free"), "expected free endpoint, got {}", cfg.endpoint);
}

#[test]
fn paid_key_uses_paid_endpoint() {
    let cfg = DeepLConfig::new("abcdef".into(), None, "de");
    assert!(!cfg.endpoint.contains("api-free"), "expected paid endpoint, got {}", cfg.endpoint);
}

#[test]
fn target_lang_uppercased() {
    let cfg = DeepLConfig::new("key".into(), None, "de");
    assert_eq!(cfg.target_lang, "DE");
}

#[test]
fn source_lang_none_by_default() {
    let cfg = DeepLConfig::new("key".into(), None, "de");
    assert!(cfg.source_lang.is_none());
}

#[test]
fn source_lang_explicit_uppercased() {
    let cfg = DeepLConfig::new("key".into(), Some("en"), "de");
    assert_eq!(cfg.source_lang, Some("EN".into()));
}

#[test]
fn uppercase_is_that_of_unicode() {
    let cfg = DeepLConfig::new("key".into(), Some("straße"), "pt-br");
    assert_eq!(cfg.source_lang, Some("STRASSE".into()));
    assert_eq!(cfg.target_lang, "PT-BR");
    assert_eq!(cfg.model_type, "latency_optimized");
    assert_eq!(cfg.context_sentences, 5);
}

#[test]
fn a_window_of_no_sentences_stays_empty() {
    let mut ctx = TranslationContext::new(0);
    assert_eq!(ctx.push_and_context("a"), "");
    assert_eq!(ctx.push_and_context("b"), "");
}

#[test]
fn requests_leave_out_an_empty_context() {
    let client = DeepLClient::new(DeepLConfig::new("k:fx".into(), None, "de"));
    assert_eq!(client.url(), "https://api-free.deepl.com/v2/translate");
    assert_eq!(client.auth_header(), "DeepL-Auth-Key k:fx");
    let r = client.request("hi", "");
    assert_eq!(r.text, vec!["hi"]);
    assert_eq!(r.target_lang, "DE");
    assert!(r.source_lang.is_none() && r.context.is_none());
    let r = client.request("hi", "before");
    assert_eq!(r.context, Some("before".into()));
}

#[test]
fn replies_are_read() {
    let list = TranslateReply::Translations(vec!["eins".into(), "zwei".into()]);
    assert_eq!(translation_of(list), Ok("eins".into()));
    assert_eq!(translation_of(TranslateReply::Translations(vec![])), Ok(String::new()));
    let refused = TranslateReply::Refused { status: "403 Forbidden".into(), body: "no".into() };
    assert_eq!(translation_of(refused), Err("DeepL HTTP 403 Forbidden: no".into()));
}
