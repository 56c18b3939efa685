//! Translation over HTTP: the parameters, the request, the reply, and the
//! rolling context of prior sentences.

use crate::text::{has_suffix, text_view};
use std::collections::VecDeque;
use vstd::prelude::*;
use vstd::string::*;

verus! {

broadcast use vstd::string::group_string_axioms;

/// Parameters of the translation service.
#[derive(Debug, Clone)]
pub struct DeepLConfig {
    pub api_key: String,
    /// `None` lets the service detect the source language.
    pub source_lang: Option<String>,
    pub target_lang: String,
    pub model_type: String,
    pub endpoint: String,
    /// How many prior source sentences to keep in the context window.
    pub context_sentences: usize,
}

/// The uppercase form of a text.
pub uninterp spec fn uppercase(s: Seq<char>) -> Seq<char>;

/// The uppercase form of an ASCII character.
pub open spec fn ascii_upper(c: char) -> char {
    if 'a' <= c <= 'z' {
        (c as u32 - 32) as char
    } else {
        c
    }
}

/// `str::to_uppercase`: the Unicode uppercase form, which is a function of the
/// text alone and is named [`uppercase`]. In ASCII text it maps the letters
/// `a` to `z` to `A` to `Z` and keeps every other character.
#[verifier::external_body]
pub(crate) fn to_upper(s: &str) -> (r: String)
    ensures
        r@ == uppercase(s@),
        vstd::utf8::is_ascii_chars(s@) ==> r@ == s@.map_values(|c: char| ascii_upper(c)),
{
    s.to_uppercase()
}

/// A language code in uppercase: that of its ASCII letters, or the Unicode
/// form where it is not ASCII.
pub open spec fn upper_code(code: Seq<char>) -> Seq<char> {
    if vstd::utf8::is_ascii_chars(code) {
        code.map_values(|c: char| ascii_upper(c))
    } else {
        uppercase(code)
    }
}

/// A language code in uppercase.
pub fn code_to_upper(code: &str) -> (r: String)
    ensures
        r@ == upper_code(code@),
{
    to_upper(code)
}

/// The address of the service: keys that end in `:fx` belong to the free tier.
pub open spec fn endpoint_of(api_key: Seq<char>) -> Seq<char> {
    if ":fx"@.is_suffix_of(api_key) {
        "https://api-free.deepl.com/v2"@
    } else {
        "https://api.deepl.com/v2"@
    }
}

/// Whether a configuration has the default parameters, with the given key and languages.
pub open spec fn default_translation(
    cfg: DeepLConfig,
    api_key: Seq<char>,
    source_lang: Option<Seq<char>>,
    target_lang: Seq<char>,
) -> bool {
    &&& cfg.api_key@ == api_key
    &&& text_view(cfg.source_lang) == source_lang
    &&& cfg.target_lang@ == target_lang
    &&& cfg.model_type@ == "latency_optimized"@
    &&& cfg.endpoint@ == endpoint_of(api_key)
    &&& cfg.context_sentences == 5
}

impl DeepLConfig {
    /// Default parameters, with the language codes put in uppercase.
    pub fn new(api_key: String, source_lang: Option<&str>, target_lang: &str) -> (r: DeepLConfig)
        ensures
            default_translation(
                r,
                api_key@,
                match source_lang {
                    Some(s) => Some(upper_code(s@)),
                    None => None,
                },
                upper_code(target_lang@),
            ),
    {
        let source: Option<String> = match source_lang {
            Some(s) => Some(code_to_upper(s)),
            None => None,
        };
        DeepLConfig::with_codes(api_key, source, code_to_upper(target_lang))
    }

    /// Default parameters, with the language codes as they are given.
    pub fn with_codes(api_key: String, source_lang: Option<String>, target_lang: String) -> (r:
        DeepLConfig)
        ensures
            default_translation(
                r,
                api_key@,
                text_view(source_lang),
                target_lang@,
            ),
    {
        let endpoint: String = if has_suffix(api_key.as_str(), ":fx") {
            "https://api-free.deepl.com/v2".to_owned()
        } else {
            "https://api.deepl.com/v2".to_owned()
        };
        DeepLConfig {
            api_key,
            source_lang,
            target_lang,
            model_type: "latency_optimized".to_owned(),
            endpoint,
            context_sentences: 5,
        }
    }
}

/// The last sentences that were translated, passed along as context. The
/// sentence being translated is not part of its own context.
pub struct TranslationContext {
    sentences: VecDeque<String>,
    capacity: usize,
}

/// What a [`TranslationContext`] holds, the oldest sentence first.
pub struct ContextModel {
    pub sentences: Seq<Seq<char>>,
    pub capacity: nat,
}

impl View for TranslationContext {
    type V = ContextModel;

    closed spec fn view(&self) -> ContextModel {
        ContextModel {
            sentences: self.sentences@.map_values(|s: String| s@),
            capacity: self.capacity as nat,
        }
    }
}

impl ContextModel {
    /// The context of the next sentence: the prior ones, one to a line.
    pub open spec fn context(self) -> Seq<char> {
        crate::text::joined(self.sentences, "\n"@)
    }

    /// The window after one more sentence: the oldest leaves when it is full.
    pub open spec fn pushed(self, sentence: Seq<char>) -> ContextModel {
        let all = self.sentences.push(sentence);
        ContextModel {
            sentences: if all.len() > self.capacity {
                all.skip(1)
            } else {
                all
            },
            ..self
        }
    }

    /// An empty window.
    pub open spec fn empty(capacity: nat) -> ContextModel {
        ContextModel { sentences: Seq::empty(), capacity }
    }
}

impl TranslationContext {
    /// An empty window for `capacity` sentences.
    pub fn new(capacity: usize) -> (r: TranslationContext)
        ensures
            r@ == ContextModel::empty(capacity as nat),
    {
        let r = TranslationContext { sentences: VecDeque::new(), capacity };
        assert(r@.sentences =~= Seq::empty());
        r
    }

    /// The context of `sentence`, which then joins the window.
    pub fn push_and_context(&mut self, sentence: &str) -> (r: String)
        ensures
            r@ == old(self)@.context(),
            final(self)@ == old(self)@.pushed(sentence@),
    {
        let ghost before = self@.sentences;
        let mut ctx: String = String::new();
        let n: usize = self.sentences.len();
        let mut i: usize = 0;
        assert(before.take(0) =~= Seq::empty());
        while i < n
            invariant
                i <= n,
                n == self.sentences@.len(),
                before == self.sentences@.map_values(|s: String| s@),
                ctx@ == crate::text::joined(before.take(i as int), "\n"@),
            decreases n - i,
        {
            proof {
                assert(before.take(i + 1) =~= before.take(i as int).push(before[i as int]));
                crate::text::lemma_joined_push(before.take(i as int), "\n"@, before[i as int]);
            }
            if i > 0 {
                ctx.append("\n");
            }
            ctx.append(self.sentences[i].as_str());
            assert(i == 0 ==> ctx@ =~= before[0]);
            i = i + 1;
        }
        assert(before.take(n as int) =~= before);
        self.sentences.push_back(sentence.to_owned());
        assert(self@.sentences =~= before.push(sentence@));
        if self.sentences.len() > self.capacity {
            let _ = self.sentences.pop_front();
            assert(self@.sentences =~= before.push(sentence@).skip(1));
        }
        ctx
    }
}

/// The window after a sequence of sentences.
pub open spec fn context_after(capacity: nat, sentences: Seq<Seq<char>>) -> ContextModel
    decreases sentences.len(),
{
    if sentences.len() == 0 {
        ContextModel::empty(capacity)
    } else {
        context_after(capacity, sentences.drop_last()).pushed(sentences.last())
    }
}

/// The window holds the most recent sentences, as many as fit, in their order.
pub proof fn context_is_most_recent(capacity: nat, sentences: Seq<Seq<char>>)
    ensures
        context_after(capacity, sentences).capacity == capacity,
        context_after(capacity, sentences).sentences == if sentences.len() <= capacity {
            sentences
        } else {
            sentences.skip(sentences.len() - capacity)
        },
    decreases sentences.len(),
{
    if sentences.len() > 0 {
        context_is_most_recent(capacity, sentences.drop_last());
        let before = context_after(capacity, sentences.drop_last());
        let all = before.sentences.push(sentences.last());
        if sentences.len() <= capacity {
            assert(all =~= sentences);
        } else if sentences.len() == capacity + 1 {
            assert(all =~= sentences);
        } else {
            assert(all.skip(1) =~= sentences.skip(sentences.len() - capacity));
        }
    } else {
        assert(ContextModel::empty(capacity).sentences =~= sentences);
    }
}

/// The body of a translation request.
#[derive(Debug)]
pub struct TranslateRequest {
    pub text: Vec<String>,
    pub source_lang: Option<String>,
    pub target_lang: String,
    pub model_type: String,
    pub context: Option<String>,
}

/// The reply to a translation request.
#[derive(Debug)]
pub enum TranslateReply {
    /// The translations of the texts, in their order.
    Translations(Vec<String>),
    /// The service refused, with this status and body.
    Refused { status: String, body: String },
}

/// The client of the translation service.
#[derive(Debug)]
pub struct DeepLClient {
    pub cfg: DeepLConfig,
}

impl DeepLClient {
    /// A client with the given parameters.
    pub fn new(cfg: DeepLConfig) -> (r: DeepLClient)
        ensures
            r.cfg == cfg,
    {
        DeepLClient { cfg }
    }

    /// The address that requests go to.
    pub fn url(&self) -> (r: String)
        ensures
            r@ == self.cfg.endpoint@ + "/translate"@,
    {
        let mut out: String = self.cfg.endpoint.clone();
        out.append("/translate");
        out
    }

    /// The authorization header of a request.
    pub fn auth_header(&self) -> (r: String)
        ensures
            r@ == "DeepL-Auth-Key "@ + self.cfg.api_key@,
    {
        let mut out: String = "DeepL-Auth-Key ".to_owned();
        out.append(self.cfg.api_key.as_str());
        out
    }

    /// The request to translate `text`, with the prior sentences as context
    /// unless there are none.
    pub fn request(&self, text: &str, context: &str) -> (r: TranslateRequest)
        ensures
            r.text@.len() == 1,
            r.text@[0]@ == text@,
            text_view(r.source_lang) == text_view(self.cfg.source_lang),
            r.target_lang@ == self.cfg.target_lang@,
            r.model_type@ == self.cfg.model_type@,
            text_view(r.context) == if context@.len() == 0 {
                None
            } else {
                Some(context@)
            },
    {
        let mut list: Vec<String> = Vec::new();
        list.push(text.to_owned());
        TranslateRequest {
            text: list,
            source_lang: match &self.cfg.source_lang {
                Some(s) => Some(s.clone()),
                None => None,
            },
            target_lang: self.cfg.target_lang.clone(),
            model_type: self.cfg.model_type.clone(),
            context: if context.is_empty() {
                None
            } else {
                Some(context.to_owned())
            },
        }
    }
}

/// The translation that a reply holds: the first one, or nothing where the
/// list is empty. A refusal is an error that tells its status and body.
pub fn translation_of(reply: TranslateReply) -> (r: Result<String, String>)
    ensures
        match reply {
            TranslateReply::Translations(texts) => r matches Ok(t) && t@ == if texts@.len() > 0 {
                texts@[0]@
            } else {
                Seq::empty()
            },
            TranslateReply::Refused { status, body } => r matches Err(e) && e@ == "DeepL HTTP "@
                + status@ + ": "@ + body@,
        },
{
    match reply {
        TranslateReply::Translations(texts) => {
            if texts.len() > 0 {
                Ok(texts[0].clone())
            } else {
                Ok(String::new())
            }
        },
        TranslateReply::Refused { status, body } => {
            let mut e: String = "DeepL HTTP ".to_owned();
            e.append(status.as_str());
            e.append(": ");
            e.append(body.as_str());
            Err(e)
        },
    }
}

/// A sentence is translated with the ones before it as context, one to a line
/// and without itself; then it joins them, and the oldest leaves where there
/// is no more room.
pub proof fn context_is_what_came_before(
    c: &mut TranslationContext,
    sentence: &str,
    context: String,
)
    requires
        call_ensures(TranslationContext::push_and_context, (c, sentence), context),
        old(c)@.sentences.len() <= old(c)@.capacity,
    ensures
        context@ == crate::text::joined(old(c)@.sentences, "\n"@),
        final(c)@.capacity == old(c)@.capacity,
        old(c)@.sentences.len() < old(c)@.capacity ==> final(c)@.sentences
            == old(c)@.sentences.push(sentence@),
        old(c)@.sentences.len() == old(c)@.capacity ==> final(c)@.sentences
            == old(c)@.sentences.push(sentence@).skip(1),
        final(c)@.sentences.len() <= final(c)@.capacity,
{
}

/// A new window is empty and has the room it was given.
pub proof fn new_context_is_empty(capacity: usize, c: TranslationContext)
    requires
        call_ensures(TranslationContext::new, (capacity,), c),
    ensures
        c@.sentences.len() == 0,
        c@.capacity == capacity,
{
}

/// A request asks for the translation of one text, into the target language of
/// the client and out of its source language, where it has one; the context is
/// sent along, unless it is empty. It goes to the client's service with the
/// client's key.
pub proof fn request_asks_for_one_translation(
    c: &DeepLClient,
    text: &str,
    context: &str,
    r: TranslateRequest,
    url: String,
    auth: String,
)
    requires
        call_ensures(DeepLClient::request, (c, text, context), r),
        call_ensures(DeepLClient::url, (c,), url),
        call_ensures(DeepLClient::auth_header, (c,), auth),
    ensures
        r.text@.len() == 1 && r.text@[0]@ == text@,
        r.target_lang@ == c.cfg.target_lang@,
        text_view(r.source_lang) == text_view(c.cfg.source_lang),
        r.model_type@ == c.cfg.model_type@,
        context@.len() == 0 ==> r.context is None,
        context@.len() > 0 ==> text_view(r.context) == Some(context@),
        url@ == c.cfg.endpoint@ + "/translate"@,
        auth@ == "DeepL-Auth-Key "@ + c.cfg.api_key@,
{
}

/// The translation is the first one of the reply; a refusal is an error that
/// tells why.
pub proof fn reply_is_read(
    texts: Vec<String>,
    status: String,
    body: String,
    translated: Result<String, String>,
    refused: Result<String, String>,
)
    requires
        call_ensures(translation_of, (TranslateReply::Translations(texts),), translated),
        call_ensures(translation_of, (TranslateReply::Refused { status, body },), refused),
    ensures
        translated is Ok,
        texts@.len() > 0 ==> translated->Ok_0@ == texts@[0]@,
        texts@.len() == 0 ==> translated->Ok_0@.len() == 0,
        refused is Err,
        refused->Err_0@ == "DeepL HTTP "@ + status@ + ": "@ + body@,
{
}

/// A client talks to the free service exactly where its key ends in `:fx`, and
/// has the languages it was given, in uppercase.
pub proof fn key_decides_the_service(
    key: String,
    source: Option<&str>,
    target: &str,
    r: DeepLConfig,
)
    requires
        call_ensures(DeepLConfig::new, (key, source, target), r),
    ensures
        r.api_key@ == key@,
        r.endpoint@ == if key@.len() >= 3 && key@.skip(key@.len() - 3) == seq![':', 'f', 'x'] {
            "https://api-free.deepl.com/v2"@
        } else {
            "https://api.deepl.com/v2"@
        },
        r.target_lang@ == upper_code(target@),
        source is None ==> r.source_lang is None,
        source matches Some(s) ==> text_view(r.source_lang) == Some(upper_code(s@)),
        r.model_type@ == "latency_optimized"@,
        r.context_sentences == 5,
{
    reveal_strlit(":fx");
    assert(":fx"@ =~= seq![':', 'f', 'x']);
    if key@.len() >= 3 {
        assert(key@.skip(key@.len() - 3) =~= key@.subrange(key@.len() - 3, key@.len() as int));
    }
}

/// Uppercase letters stand for the lowercase ones of an ASCII code, place by
/// place, and every other character stays.
pub proof fn ascii_codes_are_put_in_uppercase(code: &str, r: String, i: int)
    requires
        call_ensures(code_to_upper, (code,), r),
        vstd::utf8::is_ascii_chars(code@),
        0 <= i < code@.len(),
    ensures
        r@.len() == code@.len(),
        'a' <= code@[i] <= 'z' ==> r@[i] as int == code@[i] as int - ('a' as int - 'A' as int),
        !('a' <= code@[i] <= 'z') ==> r@[i] == code@[i],
{
}

} // verus!
