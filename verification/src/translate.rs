//! Translation through an OpenAI-style chat-completions service: cleaning
//! the configured key and root, the request, and reading the reply.

use vstd::prelude::*;
use crate::model::AiJobConfig;
use crate::text::{chars_eq, chars_of, has_prefix, lower_ascii, lower_ascii_vec, push_str, starts_with, string_of_range, strip_end, strip_end_str, strip_start, strip_start_str, trim, trim_str, CharPat};

verus! {

/// The key as it goes in the `Authorization` header: trimmed, without leading
/// byte-order marks, and without a pasted `Bearer ` or `bearer ` prefix.
pub open spec fn clean_api_key(key: Seq<char>) -> Seq<char> {
    let s = strip_start(trim(key), CharPat::Exactly('\u{feff}'));
    if starts_with(s, "Bearer "@) {
        trim(s.subrange(7, s.len() as int))
    } else if starts_with(s, "bearer "@) {
        trim(s.subrange(7, s.len() as int))
    } else {
        s
    }
}

/// The key as it goes in the `Authorization` header.
pub fn sanitize_api_key(key: &str) -> (r: String)
    ensures
        r@ == clean_api_key(key@),
{
    let t = trim_str(key);
    let s = strip_start_str(t.as_str(), CharPat::Exactly('\u{feff}'));
    let v = chars_of(s.as_str());
    let upper = chars_of("Bearer ");
    let lower = chars_of("bearer ");
    proof {
        reveal_strlit("Bearer ");
        reveal_strlit("bearer ");
    }
    assert(upper@.len() == 7 && lower@.len() == 7);
    if has_prefix(v.as_slice(), upper.as_slice()) || has_prefix(v.as_slice(), lower.as_slice()) {
        let rest = string_of_range(v.as_slice(), 7, v.len());
        trim_str(rest.as_str())
    } else {
        s
    }
}

/// Whether two texts are equal but for ASCII case (`str::eq_ignore_ascii_case`).
pub open spec fn eq_ignore_case(a: Seq<char>, b: Seq<char>) -> bool {
    lower_ascii(a) == lower_ascii(b)
}

fn eq_ignore_case_exec(a: &[char], b: &str) -> (r: bool)
    ensures
        r == eq_ignore_case(a@, b@),
{
    let la = lower_ascii_vec(a);
    let bv = chars_of(b);
    let lb = lower_ascii_vec(bv.as_slice());
    chars_eq(la.as_slice(), lb.as_slice())
}

/// The chat-completions root: trimmed, trailing slashes removed, and `/v1`
/// added to a bare xAI root.
pub open spec fn chat_base_of(base: Seq<char>) -> Seq<char> {
    let s = strip_end(trim(base), CharPat::Exactly('/'));
    if eq_ignore_case(s, "https://api.x.ai"@) || eq_ignore_case(s, "http://api.x.ai"@) {
        s + "/v1"@
    } else {
        s
    }
}

/// The chat-completions root.
pub fn normalize_chat_api_base(base: &str) -> (r: String)
    ensures
        r@ == chat_base_of(base@),
{
    let t = trim_str(base);
    let mut s = strip_end_str(t.as_str(), CharPat::Exactly('/'));
    let v = chars_of(s.as_str());
    if eq_ignore_case_exec(v.as_slice(), "https://api.x.ai") || eq_ignore_case_exec(
        v.as_slice(),
        "http://api.x.ai",
    ) {
        push_str(&mut s, "/v1");
    }
    s
}

/// The instruction that asks for a translation of `text`.
pub open spec fn translation_prompt(text: Seq<char>) -> Seq<char> {
    "将以下推文内容翻译成简体中文，只输出译文，不要解释或引号：\n\n"@ + text
}

/// What a translation request sends.
#[derive(Debug)]
pub struct TranslationRequest {
    pub url: String,
    pub api_key: String,
    pub model: String,
    pub prompt: String,
}

/// The request that translates `text`, or `None` when translation is off or
/// no key is configured, in which case the text stands as it is.
pub fn plan_translation(ai: &AiJobConfig, text: &str) -> (r: Option<TranslationRequest>)
    ensures
        (!ai.enabled || clean_api_key(ai.api_key@).len() == 0) <==> r is None,
        r matches Some(q) ==> {
            &&& q.url@ == strip_end(chat_base_of(ai.api_base@), CharPat::Exactly('/'))
                + "/chat/completions"@
            &&& q.api_key@ == clean_api_key(ai.api_key@)
            &&& q.model@ == ai.model@
            &&& q.prompt@ == translation_prompt(text@)
        },
{
    let key = sanitize_api_key(ai.api_key.as_str());
    if !ai.enabled || key.as_str().unicode_len() == 0 {
        return None;
    }
    let base = normalize_chat_api_base(ai.api_base.as_str());
    let mut url = strip_end_str(base.as_str(), CharPat::Exactly('/'));
    push_str(&mut url, "/chat/completions");
    let mut prompt = String::new();
    push_str(&mut prompt, "将以下推文内容翻译成简体中文，只输出译文，不要解释或引号：\n\n");
    push_str(&mut prompt, text);
    Some(TranslationRequest { url, api_key: key, model: ai.model.clone(), prompt })
}

/// The translation in a reply: the first choice's content, trimmed, when it
/// is there and not blank; else the error that no translation came.
pub fn translation_from_choices(contents: &Vec<Option<String>>) -> (r: Result<String, String>)
    ensures
        match (if contents@.len() > 0 {
            contents@[0]
        } else {
            None
        }) {
            Some(c) if trim(c@).len() > 0 => r matches Ok(t) && t@ == trim(c@),
            _ => r matches Err(m) && m@ == "API 未返回译文"@,
        },
{
    let mut m = String::new();
    push_str(&mut m, "API 未返回译文");
    if contents.len() == 0 {
        return Err(m);
    }
    match &contents[0] {
        Some(c) => {
            let t = trim_str(c.as_str());
            if t.as_str().unicode_len() > 0 {
                Ok(t)
            } else {
                Err(m)
            }
        },
        None => Err(m),
    }
}

/// The error of an unsuccessful reply: its status line and its body.
pub fn translation_http_error(status: &str, body: &str) -> (r: String)
    ensures
        r@ == "HTTP "@ + status@ + ": "@ + body@,
{
    let mut m = String::new();
    push_str(&mut m, "HTTP ");
    push_str(&mut m, status);
    push_str(&mut m, ": ");
    push_str(&mut m, body);
    m
}

} // verus!
