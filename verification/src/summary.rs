//! Summaries from an OpenAI-compatible chat service: the endpoint, the
//! prompts, and the reading of the reply.

use vstd::prelude::*;
use crate::config::{AppConfig, opt_view};
use crate::json::{Json, get, at, as_str, get_exec, at_exec};
use crate::text::{
    chars_of, string_of, ends_with, ends_with_exec, extend_str, extend_chars, owned, byte_len,
    boundary, boundary_exec, lemma_boundary, lemma_boundary_whole, sub_chars, lemma_byte_len_le_whole,
};

verus! {

broadcast use vstd::string::group_string_axioms;

/// `s` without its trailing `/` characters (`trim_end_matches('/')`).
pub open spec fn trim_slashes(s: Seq<char>) -> Seq<char>
    decreases s.len(),
{
    if s.len() > 0 && s.last() == '/' {
        trim_slashes(s.drop_last())
    } else {
        s
    }
}

/// The chat-completions endpoint for a configured URL: kept when it already
/// ends with `/chat/completions`, else the path is appended to the base.
pub open spec fn api_url_of(url: Seq<char>) -> Seq<char> {
    if ends_with(url, "/chat/completions"@) {
        url
    } else {
        trim_slashes(url) + "/chat/completions"@
    }
}

/// Completes a base URL to the chat-completions endpoint.
pub fn resolve_api_url(url: &str) -> (r: String)
    ensures
        r@ == api_url_of(url@),
{
    let cs = chars_of(url);
    let suffix = chars_of("/chat/completions");
    if ends_with_exec(cs.as_slice(), suffix.as_slice()) {
        return string_of(cs.as_slice());
    }
    let mut n: usize = cs.len();
    assert(cs@.take(cs@.len() as int) =~= cs@);
    while n > 0 && cs[n - 1] == '/'
        invariant
            n <= cs@.len(),
            trim_slashes(cs@) == trim_slashes(cs@.take(n as int)),
        decreases n,
    {
        assert(cs@.take(n as int).drop_last() =~= cs@.take(n - 1));
        n -= 1;
    }
    assert(cs@.take(cs@.len() as int) =~= cs@);
    let mut v = sub_chars(cs.as_slice(), 0, n);
    assert(v@ =~= cs@.take(n as int));
    extend_str(&mut v, "/chat/completions");
    string_of(v.as_slice())
}

/// The instruction given to the summary model.
pub open spec fn base_system_prompt() -> Seq<char> {
    "你是一个视频摘要助手。请对以下转录文本生成结构化摘要，包含：1) 核心观点 2) 主要论点 3) 关键结论。用中文回复，简洁明了。"@
}

/// The system prompt: the base instruction, plus a non-empty extra one.
pub open spec fn system_prompt_of(prompt: Option<Seq<char>>) -> Seq<char> {
    match prompt {
        Some(p) => if p.len() > 0 {
            base_system_prompt() + "\n\n额外要求："@ + p
        } else {
            base_system_prompt()
        },
        None => base_system_prompt(),
    }
}

/// The transcript can be cut at its first 30000 bytes: it is shorter, or
/// byte 30000 falls between characters.
pub open spec fn transcript_cuttable(t: Seq<char>) -> bool {
    byte_len(t) <= 30000 || boundary(t, 30000) is Some
}

/// The part of the transcript sent: its first 30000 bytes.
pub open spec fn sent_transcript(t: Seq<char>) -> Seq<char> {
    if byte_len(t) <= 30000 {
        t
    } else {
        t.take(boundary(t, 30000).unwrap())
    }
}

/// The user message: optional non-empty context, the title and the sent
/// part of the transcript.
pub open spec fn user_prompt_of(
    title: Seq<char>,
    transcript: Seq<char>,
    context: Option<Seq<char>>,
) -> Seq<char> {
    let body = "视频标题："@ + title + "\n\n转录文本：\n"@ + sent_transcript(transcript);
    match context {
        Some(c) => if c.len() > 0 {
            "上下文信息："@ + c + "\n\n"@ + body
        } else {
            body
        },
        None => body,
    }
}

/// What is sent to the summary service.
#[derive(Debug)]
pub struct SummaryRequest {
    /// The chat-completions endpoint.
    pub url: String,
    pub system: String,
    pub user: String,
    pub max_tokens: u32,
}

/// Prepares the summary request for a video's transcript.
pub fn summary_request(
    title: &str,
    transcript: &str,
    api_url: &str,
    prompt: Option<&str>,
    context: Option<&str>,
) -> (r: SummaryRequest)
    requires
        transcript_cuttable(transcript@),
    ensures
        r.url@ == api_url_of(api_url@),
        r.system@ == system_prompt_of(
            match prompt {
                Some(p) => Some(p@),
                None => None,
            },
        ),
        r.user@ == user_prompt_of(
            title@,
            transcript@,
            match context {
                Some(c) => Some(c@),
                None => None,
            },
        ),
        r.max_tokens == 1024,
{
    let mut system: Vec<char> = Vec::new();
    extend_str(
        &mut system,
        "你是一个视频摘要助手。请对以下转录文本生成结构化摘要，包含：1) 核心观点 2) 主要论点 3) 关键结论。用中文回复，简洁明了。",
    );
    match prompt {
        Some(p) => if !p.is_empty() {
            extend_str(&mut system, "\n\n额外要求：");
            extend_str(&mut system, p);
        },
        None => {},
    }
    let t = chars_of(transcript);
    proof {
        lemma_boundary(t@, 30000);
        lemma_boundary_whole(t@);
    }
    let cut = match boundary_exec(t.as_slice(), 30000) {
        Some(k) => k,
        None => t.len(),
    };
    proof {
        if byte_len(t@) <= 30000 {
            if byte_len(t@) < 30000 {
                if let Some(j) = boundary(t@, 30000) {
                    lemma_byte_len_le_whole(t@, j);
                }
            }
        }
    }
    let sent = sub_chars(t.as_slice(), 0, cut);
    assert(sent@ =~= sent_transcript(transcript@)) by {
        assert(t@.take(t@.len() as int) =~= t@);
    }
    let mut user: Vec<char> = Vec::new();
    match context {
        Some(c) => if !c.is_empty() {
            extend_str(&mut user, "上下文信息：");
            extend_str(&mut user, c);
            extend_str(&mut user, "\n\n");
        },
        None => {},
    }
    extend_str(&mut user, "视频标题：");
    extend_str(&mut user, title);
    extend_str(&mut user, "\n\n转录文本：\n");
    extend_chars(&mut user, sent.as_slice());
    SummaryRequest {
        url: resolve_api_url(api_url),
        system: string_of(system.as_slice()),
        user: string_of(user.as_slice()),
        max_tokens: 1024,
    }
}

/// The summary in a chat-completions reply:
/// `choices[0].message.content`, which must be a string.
pub open spec fn summary_of_reply(data: Json) -> Option<Seq<char>> {
    as_str(get(get(at(get(data, "choices"@), 0), "message"@), "content"@))
}

/// Reads the summary out of a chat-completions reply.
pub fn summary_from_response(data: &Json) -> (r: Result<String, String>)
    ensures
        match r {
            Ok(s) => summary_of_reply(*data) == Some(s@),
            Err(e) => summary_of_reply(*data) is None && e@ == "Invalid API response format"@,
        },
{
    let content = get_exec(get_exec(at_exec(get_exec(data, "choices"), 0), "message"), "content");
    match content {
        Json::Str(s) => Ok(s.clone()),
        _ => Err(owned("Invalid API response format")),
    }
}

/// The error for a reply whose HTTP status is not a success.
pub open spec fn summary_http_error_of(status: Seq<char>, body: Seq<char>) -> Seq<char> {
    "AI 摘要 API 请求失败 ("@ + status + "): "@ + body
}

/// Builds the error for a failed summary request.
pub fn summary_http_error(status: &str, body: &str) -> (r: String)
    ensures
        r@ == summary_http_error_of(status@, body@),
{
    let mut v: Vec<char> = Vec::new();
    extend_str(&mut v, "AI 摘要 API 请求失败 (");
    extend_str(&mut v, status);
    extend_str(&mut v, "): ");
    extend_str(&mut v, body);
    string_of(v.as_slice())
}

/// Message when no summary key is configured.
pub open spec fn no_ai_key_message() -> Seq<char> {
    "未配置 AI 摘要 API Key"@
}

/// The summary key: the configured one when it is not empty.
pub open spec fn ai_key_of(c: AppConfig) -> Option<Seq<char>> {
    match opt_view(c.ai_summary.api_key) {
        Some(k) => if k.len() > 0 {
            Some(k)
        } else {
            None
        },
        None => None,
    }
}

/// The summary key, or the error when none is configured.
pub fn require_ai_key(c: &AppConfig) -> (r: Result<String, String>)
    ensures
        match r {
            Ok(k) => ai_key_of(*c) == Some(k@),
            Err(e) => ai_key_of(*c) is None && e@ == no_ai_key_message(),
        },
{
    match &c.ai_summary.api_key {
        Some(k) => if k.as_str().is_empty() {
            Err(owned("未配置 AI 摘要 API Key"))
        } else {
            Ok(k.clone())
        },
        None => Err(owned("未配置 AI 摘要 API Key")),
    }
}

/// A per-request text when given and non-empty, else the configured default
/// when non-empty, else none.
pub open spec fn override_or_default(given: Option<Seq<char>>, default: Seq<char>) -> Option<
    Seq<char>,
> {
    match given {
        Some(g) => if g.len() > 0 {
            Some(g)
        } else if default.len() > 0 {
            Some(default)
        } else {
            None
        },
        None => if default.len() > 0 {
            Some(default)
        } else {
            None
        },
    }
}

/// A per-request text wins when it is not empty; otherwise the configured
/// default is used when it is not empty; otherwise there is none.
pub proof fn law_override_then_default(given: Option<Seq<char>>, default: Seq<char>)
    ensures
        (given matches Some(g) && g.len() > 0) ==> override_or_default(given, default) == given,
        !(given matches Some(g) && g.len() > 0) && default.len() > 0 ==> override_or_default(
            given,
            default,
        ) == Some(default),
        !(given matches Some(g) && g.len() > 0) && default.len() == 0 ==> override_or_default(
            given,
            default,
        ) is None,
{
}

/// Chooses between a per-request text and its configured default.
pub fn override_or_default_exec(given: Option<&str>, default: &str) -> (r: Option<String>)
    ensures
        opt_view(r) == override_or_default(
            match given {
                Some(g) => Some(g@),
                None => None,
            },
            default@,
        ),
{
    match given {
        Some(g) => if !g.is_empty() {
            return Some(owned(g));
        },
        None => {},
    }
    if default.is_empty() {
        None
    } else {
        Some(owned(default))
    }
}

/// Completing an endpoint twice changes nothing more: the completed URL
/// already ends with `/chat/completions`.
pub proof fn law_api_url_idempotent(url: Seq<char>)
    ensures
        ends_with(api_url_of(url), "/chat/completions"@),
        api_url_of(api_url_of(url)) == api_url_of(url),
{
    let sfx = "/chat/completions"@;
    if !ends_with(url, sfx) {
        let x = trim_slashes(url);
        assert((x + sfx).subrange(x.len() as int, (x + sfx).len() as int) =~= sfx);
    }
}

/// What is sent of a transcript is a prefix of it of at most 30000 bytes;
/// a transcript of at most 30000 bytes is sent whole.
pub proof fn law_sent_transcript_bounded(t: Seq<char>)
    requires
        transcript_cuttable(t),
    ensures
        sent_transcript(t).len() <= t.len(),
        sent_transcript(t) == t.take(sent_transcript(t).len() as int),
        byte_len(sent_transcript(t)) <= 30000,
        byte_len(t) <= 30000 ==> sent_transcript(t) == t,
{
    if byte_len(t) > 30000 {
        lemma_boundary(t, 30000);
    } else {
        assert(t.take(t.len() as int) =~= t);
    }
}

} // verus!
