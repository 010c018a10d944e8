//! Transcription: the choice between a Bilibili subtitle and Whisper, and
//! the Whisper request and reply.

use vstd::prelude::*;
use crate::config::{AppConfig, opt_view, whisper_config_error, whisper_config_error_of};
use crate::download::opt_str;
use crate::json::{Json, get, as_str, get_exec};
use crate::text::{extend_str, owned, string_of, str_eq};
use crate::outside::{extension, path_extension, file_name, path_file_name};
use crate::summary::{override_or_default, override_or_default_exec};

verus! {

broadcast use vstd::string::group_string_axioms;

/// The result of a transcription.
#[derive(Debug)]
pub struct TranscriptResult {
    pub text: String,
    /// `cc`, `ai` or `whisper`.
    pub source: String,
    pub language: Option<String>,
}

/// What the subtitle lookup of a video gave.
#[derive(Debug)]
pub enum SubtitleLookup {
    /// A subtitle was fetched; `fits` tells whether its length agrees with
    /// the video's (or could not be checked).
    Found { content: String, source: String, language: String, fits: bool },
    /// The video has no subtitle.
    NotFound,
    /// The lookup failed.
    Failed,
}

/// The transcript taken from a subtitle: only when subtitles are not
/// skipped, one was found, and its length fits the video.
pub open spec fn subtitle_transcript(skip: bool, lookup: SubtitleLookup) -> Option<
    (Seq<char>, Seq<char>, Seq<char>),
> {
    if skip {
        None
    } else {
        match lookup {
            SubtitleLookup::Found { content, source, language, fits } => if fits {
                Some((content@, source@, language@))
            } else {
                None
            },
            _ => None,
        }
    }
}

/// Decides whether a subtitle stands as the transcript; `None` means that
/// Whisper must transcribe the audio.
pub fn subtitle_result(skip: bool, lookup: SubtitleLookup) -> (r: Option<TranscriptResult>)
    ensures
        match r {
            Some(t) => subtitle_transcript(skip, lookup) == Some((t.text@, t.source@, t.language.unwrap()@))
                && t.language is Some,
            None => subtitle_transcript(skip, lookup) is None,
        },
{
    if skip {
        return None;
    }
    match lookup {
        SubtitleLookup::Found { content, source, language, fits } => if fits {
            Some(TranscriptResult { text: content, source, language: Some(language) })
        } else {
            None
        },
        _ => None,
    }
}

/// The transcript made by Whisper.
pub fn whisper_result(text: String) -> (r: TranscriptResult)
    ensures
        r.text == text,
        r.source@ == "whisper"@,
        r.language is None,
{
    TranscriptResult { text, source: owned("whisper"), language: None }
}

/// An OpenAI-compatible Whisper client (hosted or local server).
#[derive(Debug)]
pub struct OpenAIWhisperClient {
    pub api_url: String,
    pub api_key: Option<String>,
    pub model: String,
    pub prompt: Option<String>,
    pub language: Option<String>,
}

impl OpenAIWhisperClient {
    /// A client for the given endpoint, key, model, prompt and language.
    pub fn new(
        api_url: String,
        api_key: Option<String>,
        model: String,
        prompt: Option<String>,
        language: Option<String>,
    ) -> (c: Self)
        ensures
            c.api_url == api_url,
            c.api_key == api_key,
            c.model == model,
            c.prompt == prompt,
            c.language == language,
    {
        OpenAIWhisperClient { api_url, api_key, model, prompt, language }
    }
}

/// The language sent to Whisper: the given one when not empty.
pub open spec fn language_sent(language: Option<Seq<char>>) -> Option<Seq<char>> {
    match language {
        Some(l) => if l.len() > 0 {
            Some(l)
        } else {
            None
        },
        None => None,
    }
}

/// `c` is the client for one transcription: the configured endpoint, key and
/// model; the per-request prompt, else the configured one; the per-request
/// language when not empty.
pub open spec fn is_client_for(
    c: OpenAIWhisperClient,
    config: AppConfig,
    prompt_override: Option<Seq<char>>,
    language: Option<Seq<char>>,
) -> bool {
    &&& c.api_url@ == config.whisper.api_url@
    &&& opt_view(c.api_key) == opt_view(config.whisper.api_key)
    &&& c.model@ == config.whisper.model@
    &&& opt_view(c.prompt) == override_or_default(prompt_override, config.whisper.prompt@)
    &&& opt_view(c.language) == language_sent(language)
}

/// The Whisper prompt: a non-empty per-request prompt is sent; without one
/// (absent or empty) the configured prompt is sent when it is not empty;
/// otherwise no prompt is sent.
pub proof fn law_whisper_prompt_choice(
    c: OpenAIWhisperClient,
    config: AppConfig,
    prompt_override: Option<Seq<char>>,
    language: Option<Seq<char>>,
)
    requires
        is_client_for(c, config, prompt_override, language),
    ensures
        (prompt_override matches Some(p) && p.len() > 0) ==> opt_view(c.prompt) == prompt_override,
        !(prompt_override matches Some(p) && p.len() > 0) && config.whisper.prompt@.len() > 0
            ==> opt_view(c.prompt) == Some(config.whisper.prompt@),
        !(prompt_override matches Some(p) && p.len() > 0) && config.whisper.prompt@.len() == 0
            ==> c.prompt is None,
        (language matches Some(l) && l.len() > 0) ==> opt_view(c.language) == language,
        !(language matches Some(l) && l.len() > 0) ==> c.language is None,
        c.api_url@ == config.whisper.api_url@,
        opt_view(c.api_key) == opt_view(config.whisper.api_key),
        c.model@ == config.whisper.model@,
{
}

/// The client used for one transcription: the configured endpoint, key and
/// model; the per-request prompt, else the configured one; the per-request
/// language when not empty.
pub fn whisper_client_for(
    config: &AppConfig,
    prompt_override: Option<&str>,
    language: Option<&str>,
) -> (c: OpenAIWhisperClient)
    ensures
        is_client_for(c, *config, opt_str(prompt_override), opt_str(language)),
{
    let prompt = override_or_default_exec(prompt_override, config.whisper.prompt.as_str());
    let lang = match language {
        Some(l) => if l.is_empty() {
            None
        } else {
            Some(owned(l))
        },
        None => None,
    };
    let key = match &config.whisper.api_key {
        Some(k) => Some(k.clone()),
        None => None,
    };
    OpenAIWhisperClient::new(
        config.whisper.api_url.clone(),
        key,
        config.whisper.model.clone(),
        prompt,
        lang,
    )
}

/// The text fields of the multipart request besides the audio file: the
/// model, then a non-empty prompt, then a non-empty language.
pub open spec fn form_fields_of(c: OpenAIWhisperClient) -> Seq<(Seq<char>, Seq<char>)> {
    let base = seq![("model"@, c.model@)];
    let with_prompt = match c.prompt {
        Some(p) => if p@.len() > 0 {
            base.push(("prompt"@, p@))
        } else {
            base
        },
        None => base,
    };
    match c.language {
        Some(l) => if l@.len() > 0 {
            with_prompt.push(("language"@, l@))
        } else {
            with_prompt
        },
        None => with_prompt,
    }
}

/// The views of a list of text fields.
pub open spec fn field_views(v: Seq<(String, String)>) -> Seq<(Seq<char>, Seq<char>)> {
    v.map_values(|p: (String, String)| (p.0@, p.1@))
}

/// Builds the text fields of the multipart request.
pub fn form_fields(c: &OpenAIWhisperClient) -> (r: Vec<(String, String)>)
    ensures
        field_views(r@) == form_fields_of(*c),
{
    let mut r: Vec<(String, String)> = Vec::new();
    r.push((owned("model"), c.model.clone()));
    assert(field_views(r@) =~= seq![("model"@, c.model@)]);
    match &c.prompt {
        Some(p) => if !p.as_str().is_empty() {
            let ghost before = r@;
            r.push((owned("prompt"), p.clone()));
            assert(field_views(r@) =~= field_views(before).push(("prompt"@, p@)));
        },
        None => {},
    }
    match &c.language {
        Some(l) => if !l.as_str().is_empty() {
            let ghost before = r@;
            r.push((owned("language"), l.clone()));
            assert(field_views(r@) =~= field_views(before).push(("language"@, l@)));
        },
        None => {},
    }
    r
}

/// The `Authorization` header value for a non-empty key.
pub open spec fn bearer_of(key: Option<Seq<char>>) -> Option<Seq<char>> {
    match key {
        Some(k) => if k.len() > 0 {
            Some("Bearer "@ + k)
        } else {
            None
        },
        None => None,
    }
}

/// Builds the `Authorization` header value, if a key is set.
pub fn bearer_header(key: Option<&str>) -> (r: Option<String>)
    ensures
        opt_view(r) == bearer_of(
            match key {
                Some(k) => Some(k@),
                None => None,
            },
        ),
{
    match key {
        Some(k) => if k.is_empty() {
            None
        } else {
            let mut v: Vec<char> = Vec::new();
            extend_str(&mut v, "Bearer ");
            extend_str(&mut v, k);
            Some(string_of(v.as_slice()))
        },
        None => None,
    }
}

/// The MIME type of an audio file, by extension (WAV when unknown).
pub open spec fn mime_of(path: Seq<char>) -> Seq<char> {
    match path_extension(path) {
        Some(e) => if e == "wav"@ {
            "audio/wav"@
        } else if e == "mp3"@ {
            "audio/mpeg"@
        } else if e == "m4a"@ {
            "audio/mp4"@
        } else if e == "ogg"@ {
            "audio/ogg"@
        } else if e == "flac"@ {
            "audio/flac"@
        } else {
            "audio/wav"@
        },
        None => "audio/wav"@,
    }
}

/// Chooses the MIME type of an audio file.
pub fn audio_mime(path: &str) -> (r: String)
    ensures
        r@ == mime_of(path@),
{
    match extension(path) {
        Some(e) => {
            let e = e.as_str();
            if str_eq(e, "wav") {
                owned("audio/wav")
            } else if str_eq(e, "mp3") {
                owned("audio/mpeg")
            } else if str_eq(e, "m4a") {
                owned("audio/mp4")
            } else if str_eq(e, "ogg") {
                owned("audio/ogg")
            } else if str_eq(e, "flac") {
                owned("audio/flac")
            } else {
                owned("audio/wav")
            }
        },
        None => owned("audio/wav"),
    }
}

/// The file name sent with the audio (`audio.wav` when it has none).
pub open spec fn upload_name_of(path: Seq<char>) -> Seq<char> {
    match path_file_name(path) {
        Some(n) => n,
        None => "audio.wav"@,
    }
}

/// Chooses the file name sent with the audio.
pub fn upload_name(path: &str) -> (r: String)
    ensures
        r@ == upload_name_of(path@),
{
    match file_name(path) {
        Some(n) => n,
        None => owned("audio.wav"),
    }
}

/// The transcript in a Whisper reply: its `text`, which must be a string.
pub fn whisper_text_from_response(data: &Json) -> (r: Result<String, String>)
    ensures
        match r {
            Ok(t) => as_str(get(*data, "text"@)) == Some(t@),
            Err(e) => as_str(get(*data, "text"@)) is None
                && e@ == "Invalid response format: missing 'text' field"@,
        },
{
    match get_exec(data, "text") {
        Json::Str(t) => Ok(t.clone()),
        _ => Err(owned("Invalid response format: missing 'text' field")),
    }
}

/// The error for a Whisper reply whose HTTP status is not a success.
pub open spec fn whisper_http_error_of(status: Seq<char>, body: Seq<char>) -> Seq<char> {
    "Whisper API 请求失败 ("@ + status + "): "@ + body
}

/// Builds the error for a failed Whisper request.
pub fn whisper_http_error(status: &str, body: &str) -> (r: String)
    ensures
        r@ == whisper_http_error_of(status@, body@),
{
    let mut v: Vec<char> = Vec::new();
    extend_str(&mut v, "Whisper API 请求失败 (");
    extend_str(&mut v, status);
    extend_str(&mut v, "): ");
    extend_str(&mut v, body);
    string_of(v.as_slice())
}

/// The four bytes of `x` in little-endian order.
pub open spec fn le32(x: nat) -> Seq<u8> {
    seq![(x % 256) as u8, ((x / 256) % 256) as u8, ((x / 65536) % 256) as u8, ((x / 16777216) % 256) as u8]
}

/// The two bytes of `x` in little-endian order.
pub open spec fn le16(x: nat) -> Seq<u8> {
    seq![(x % 256) as u8, ((x / 256) % 256) as u8]
}

/// The bytes of an ASCII tag.
pub open spec fn tag4(a: u8, b: u8, c: u8, d: u8) -> Seq<u8> {
    seq![a, b, c, d]
}

/// The header of a 16 kHz, 16-bit, mono PCM WAV file with `data_size`
/// bytes of samples.
pub open spec fn wav_header(data_size: nat) -> Seq<u8> {
    tag4(82, 73, 70, 70) + le32(36 + data_size) + tag4(87, 65, 86, 69)  // "RIFF" size "WAVE"
     + tag4(102, 109, 116, 32) + le32(16) + le16(1) + le16(1)  // "fmt " chunk, PCM, mono
     + le32(16000) + le32(32000) + le16(2) + le16(16)  // rate, byte rate, align, bits
     + tag4(100, 97, 116, 97) + le32(data_size)  // "data" size

}

fn push_le32(v: &mut Vec<u8>, x: u32)
    ensures
        final(v)@ == old(v)@ + le32(x as nat),
{
    v.push((x % 256) as u8);
    v.push(((x / 256) % 256) as u8);
    v.push(((x / 65536) % 256) as u8);
    v.push(((x / 16777216) % 256) as u8);
    assert(v@ =~= old(v)@ + le32(x as nat));
}

fn push_le16(v: &mut Vec<u8>, x: u16)
    ensures
        final(v)@ == old(v)@ + le16(x as nat),
{
    v.push((x % 256) as u8);
    v.push(((x / 256) % 256) as u8);
    assert(v@ =~= old(v)@ + le16(x as nat));
}

fn push_tag(v: &mut Vec<u8>, a: u8, b: u8, c: u8, d: u8)
    ensures
        final(v)@ == old(v)@ + tag4(a, b, c, d),
{
    v.push(a);
    v.push(b);
    v.push(c);
    v.push(d);
    assert(v@ =~= old(v)@ + tag4(a, b, c, d));
}

/// A tenth of a second of silence as a 16 kHz, 16-bit, mono WAV file: the
/// header followed by 3200 zero bytes (1600 samples).
pub fn create_test_wav() -> (r: Vec<u8>)
    ensures
        r@ == wav_header(3200) + Seq::new(3200, |i: int| 0u8),
{
    let mut v: Vec<u8> = Vec::new();
    push_tag(&mut v, 82, 73, 70, 70);
    push_le32(&mut v, 36 + 3200);
    push_tag(&mut v, 87, 65, 86, 69);
    push_tag(&mut v, 102, 109, 116, 32);
    push_le32(&mut v, 16);
    push_le16(&mut v, 1);
    push_le16(&mut v, 1);
    push_le32(&mut v, 16000);
    push_le32(&mut v, 32000);
    push_le16(&mut v, 2);
    push_le16(&mut v, 16);
    push_tag(&mut v, 100, 97, 116, 97);
    push_le32(&mut v, 3200);
    let ghost header = v@;
    assert(header =~= wav_header(3200));
    let mut i: usize = 0;
    while i < 3200
        invariant
            i <= 3200,
            v@ == header + Seq::new(i as nat, |k: int| 0u8),
        decreases 3200 - i,
    {
        v.push(0u8);
        assert(header + Seq::new((i + 1) as nat, |k: int| 0u8) =~= (header + Seq::new(
            i as nat,
            |k: int| 0u8,
        )).push(0u8));
        i += 1;
    }
    v
}

/// A fitting subtitle stands as the transcript, and Whisper is used only
/// when subtitles are skipped, none is found, the lookup fails or the
/// subtitle does not fit the video.
pub proof fn law_subtitle_before_whisper(skip: bool, lookup: SubtitleLookup)
    ensures
        subtitle_transcript(skip, lookup) is None <==> (skip || !(lookup is Found) || !lookup->fits),
        !skip ==> (lookup matches SubtitleLookup::Found { content, source, language, fits } ==> (
        fits ==> subtitle_transcript(skip, lookup) == Some((content@, source@, language@)))),
{
}

// ---------------------------------------------------------------------------
// The transcription pipeline: subtitles first, else Whisper
// ---------------------------------------------------------------------------

/// Where a transcription stands.
#[derive(Debug, Clone, Copy, PartialEq, Eq, Structural)]
pub enum PipelineState {
    Start,
    LookingUp,
    Extracting,
    Transcribing,
    Done,
}

/// The outcome of the last outside step of a transcription.
#[derive(Debug)]
pub enum PipelineEvent {
    Begin,
    SubtitleLooked(SubtitleLookup),
    AudioReady,
    AudioFailed(String),
    TextReady(String),
    TranscribeFailed(String),
}

/// What the runner of a transcription does next.
#[derive(Debug)]
pub enum PipelineAction {
    /// Look for a Bilibili subtitle of the video.
    LookUpSubtitle,
    /// Download the audio and convert it for Whisper.
    ExtractAudio,
    /// Send the extracted audio to Whisper with this client.
    Transcribe(OpenAIWhisperClient),
    /// The transcription ends with this result.
    Finish(TranscriptResult),
    /// The transcription ends with this error.
    Fail(String),
    /// The outcome does not belong to this state; nothing to do.
    Ignore,
}

/// The state after outcome `e` in state `s`.
pub open spec fn pipeline_next(
    s: PipelineState,
    e: PipelineEvent,
    skip: bool,
    config: AppConfig,
) -> PipelineState {
    let after_subtitle = if whisper_config_error_of(config) is Some {
        PipelineState::Done
    } else {
        PipelineState::Extracting
    };
    match (s, e) {
        (PipelineState::Start, PipelineEvent::Begin) => if skip {
            after_subtitle
        } else {
            PipelineState::LookingUp
        },
        (PipelineState::LookingUp, PipelineEvent::SubtitleLooked(l)) => if subtitle_transcript(
            false,
            l,
        ) is Some {
            PipelineState::Done
        } else {
            after_subtitle
        },
        (PipelineState::Extracting, PipelineEvent::AudioReady) => PipelineState::Transcribing,
        (PipelineState::Extracting, PipelineEvent::AudioFailed(_)) => PipelineState::Done,
        (PipelineState::Transcribing, PipelineEvent::TextReady(_)) => PipelineState::Done,
        (PipelineState::Transcribing, PipelineEvent::TranscribeFailed(_)) => PipelineState::Done,
        _ => s,
    }
}

/// The action when no subtitle stands: the settings error, else the audio.
pub open spec fn whisper_or_fail(config: AppConfig, a: PipelineAction) -> bool {
    match whisper_config_error_of(config) {
        Some(m) => a matches PipelineAction::Fail(err) && err@ == m,
        None => a is ExtractAudio,
    }
}

/// `a` is the action for outcome `e` in state `s`.
pub open spec fn pipeline_action_is(
    s: PipelineState,
    e: PipelineEvent,
    skip: bool,
    config: AppConfig,
    prompt: Option<Seq<char>>,
    language: Option<Seq<char>>,
    a: PipelineAction,
) -> bool {
    match (s, e) {
        (PipelineState::Start, PipelineEvent::Begin) => if skip {
            whisper_or_fail(config, a)
        } else {
            a is LookUpSubtitle
        },
        (PipelineState::LookingUp, PipelineEvent::SubtitleLooked(l)) => match subtitle_transcript(
            false,
            l,
        ) {
            Some((text, source, lang)) => a matches PipelineAction::Finish(t) && t.text@ == text
                && t.source@ == source && t.language is Some && t.language.unwrap()@ == lang,
            None => whisper_or_fail(config, a),
        },
        (PipelineState::Extracting, PipelineEvent::AudioReady) => a matches PipelineAction::Transcribe(
            c,
        ) && is_client_for(c, config, prompt, language),
        (PipelineState::Extracting, PipelineEvent::AudioFailed(m)) => a matches PipelineAction::Fail(
            err,
        ) && err@ == m@,
        (PipelineState::Transcribing, PipelineEvent::TextReady(text)) => a matches PipelineAction::Finish(
            t,
        ) && t.text@ == text@ && t.source@ == "whisper"@ && t.language is None,
        (PipelineState::Transcribing, PipelineEvent::TranscribeFailed(m)) => a matches PipelineAction::Fail(
            err,
        ) && err@ == m@,
        _ => a is Ignore,
    }
}

fn whisper_or_fail_exec(config: &AppConfig) -> (r: (PipelineState, PipelineAction))
    ensures
        whisper_or_fail(*config, r.1),
        r.0 == (if whisper_config_error_of(*config) is Some {
            PipelineState::Done
        } else {
            PipelineState::Extracting
        }),
{
    match whisper_config_error(config) {
        Some(m) => (PipelineState::Done, PipelineAction::Fail(m)),
        None => (PipelineState::Extracting, PipelineAction::ExtractAudio),
    }
}

/// One step of a transcription: subtitles unless skipped; a standing
/// subtitle ends it; otherwise the Whisper settings are checked before any
/// audio is downloaded, then the audio goes to Whisper.
pub fn pipeline_step(
    s: PipelineState,
    e: PipelineEvent,
    skip: bool,
    config: &AppConfig,
    prompt: Option<&str>,
    language: Option<&str>,
) -> (r: (PipelineState, PipelineAction))
    ensures
        r.0 == pipeline_next(s, e, skip, *config),
        pipeline_action_is(s, e, skip, *config, opt_str(prompt), opt_str(language), r.1),
{
    match (s, e) {
        (PipelineState::Start, PipelineEvent::Begin) => if skip {
            whisper_or_fail_exec(config)
        } else {
            (PipelineState::LookingUp, PipelineAction::LookUpSubtitle)
        },
        (PipelineState::LookingUp, PipelineEvent::SubtitleLooked(l)) => match subtitle_result(
            false,
            l,
        ) {
            Some(t) => (PipelineState::Done, PipelineAction::Finish(t)),
            None => whisper_or_fail_exec(config),
        },
        (PipelineState::Extracting, PipelineEvent::AudioReady) => (
            PipelineState::Transcribing,
            PipelineAction::Transcribe(whisper_client_for(config, prompt, language)),
        ),
        (PipelineState::Extracting, PipelineEvent::AudioFailed(m)) => (
            PipelineState::Done,
            PipelineAction::Fail(m),
        ),
        (PipelineState::Transcribing, PipelineEvent::TextReady(text)) => (
            PipelineState::Done,
            PipelineAction::Finish(whisper_result(text)),
        ),
        (PipelineState::Transcribing, PipelineEvent::TranscribeFailed(m)) => (
            PipelineState::Done,
            PipelineAction::Fail(m),
        ),
        (s, _) => (s, PipelineAction::Ignore),
    }
}

/// Audio is downloaded only when the Whisper settings allow a
/// transcription: whatever the state and outcome, an `ExtractAudio` action
/// comes only with no settings error.
pub proof fn law_no_audio_without_key(
    s: PipelineState,
    e: PipelineEvent,
    skip: bool,
    config: AppConfig,
    prompt: Option<Seq<char>>,
    language: Option<Seq<char>>,
    a: PipelineAction,
)
    requires
        pipeline_action_is(s, e, skip, config, prompt, language, a),
        a is ExtractAudio,
    ensures
        whisper_config_error_of(config) is None,
{
}

/// With subtitles skipped no subtitle is looked up: the first action is the
/// settings error or the audio download.
pub proof fn law_skip_means_no_lookup(
    config: AppConfig,
    prompt: Option<Seq<char>>,
    language: Option<Seq<char>>,
    a: PipelineAction,
)
    requires
        pipeline_action_is(PipelineState::Start, PipelineEvent::Begin, true, config, prompt, language, a),
    ensures
        !(a is LookUpSubtitle),
        a is ExtractAudio || a is Fail,
{
}

} // verus!
