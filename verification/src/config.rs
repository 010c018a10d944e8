//! Application configuration: its defaults and the migration of files
//! written in the older single-directory layout.

use vstd::prelude::*;
use crate::text::{owned, concat2, str_eq};

verus! {

broadcast use vstd::string::group_string_axioms;

/// Main application configuration.
#[derive(Debug)]
pub struct AppConfig {
    pub whisper: WhisperConfig,
    pub bilibili: BilibiliConfig,
    pub ai_summary: AiSummaryConfig,
}

/// Speech-to-text service settings.
#[derive(Debug)]
pub struct WhisperConfig {
    pub mode: String,
    pub api_url: String,
    pub api_key: Option<String>,
    pub model: String,
    /// Default transcription prompt (empty for none).
    pub prompt: String,
}

/// Bilibili settings.
#[derive(Debug)]
pub struct BilibiliConfig {
    pub cookie: String,
    /// Video download directory.
    pub video_dir: String,
    /// Audio download directory.
    pub audio_dir: String,
    /// Transcript directory.
    pub transcript_dir: String,
    /// AI analysis directory.
    pub ai_analysis_dir: String,
    /// Former single output directory, kept for old files.
    pub output_dir: String,
}

/// Summary service settings.
#[derive(Debug)]
pub struct AiSummaryConfig {
    pub enabled: bool,
    pub api_url: String,
    pub api_key: Option<String>,
    pub model: String,
    /// Default extra instruction for summaries (empty for none).
    pub prompt: String,
    /// Default context text for summaries (empty for none).
    pub context: String,
}

/// The view of an optional string.
pub open spec fn opt_view(o: Option<String>) -> Option<Seq<char>> {
    match o {
        Some(s) => Some(s@),
        None => None,
    }
}

/// The default video directory.
pub open spec fn default_video_dir() -> Seq<char> {
    "~/Downloads/bilibili-transcript-app/bilibili-video"@
}

/// The default audio directory.
pub open spec fn default_audio_dir() -> Seq<char> {
    "~/Downloads/bilibili-transcript-app/bilibili-audio"@
}

/// The default transcript directory.
pub open spec fn default_transcript_dir() -> Seq<char> {
    "~/Downloads/bilibili-transcript-app/bilibili-transfer"@
}

/// The default AI analysis directory.
pub open spec fn default_ai_analysis_dir() -> Seq<char> {
    "~/Downloads/bilibili-transcript-app/bilibili-ai-analysis"@
}

/// `c` holds the default Whisper settings.
pub open spec fn is_default_whisper(c: WhisperConfig) -> bool {
    &&& c.mode@ == "openai"@
    &&& c.api_url@ == "https://api.openai.com/v1/audio/transcriptions"@
    &&& c.api_key is None
    &&& c.model@ == "whisper-1"@
    &&& c.prompt@ == ""@
}

/// `c` holds the default summary settings.
pub open spec fn is_default_ai(c: AiSummaryConfig) -> bool {
    &&& !c.enabled
    &&& c.api_url@ == "https://api.openai.com/v1/chat/completions"@
    &&& c.api_key is None
    &&& c.model@ == "gpt-4o-mini"@
    &&& c.prompt@ == ""@
    &&& c.context@ == ""@
}

/// `c` holds the default configuration.
pub open spec fn is_default_config(c: AppConfig) -> bool {
    &&& is_default_whisper(c.whisper)
    &&& c.bilibili.cookie@ == ""@
    &&& c.bilibili.video_dir@ == default_video_dir()
    &&& c.bilibili.audio_dir@ == default_audio_dir()
    &&& c.bilibili.transcript_dir@ == default_transcript_dir()
    &&& c.bilibili.ai_analysis_dir@ == default_ai_analysis_dir()
    &&& c.bilibili.output_dir@ == ""@
    &&& is_default_ai(c.ai_summary)
}

impl Default for AppConfig {
    fn default() -> (c: Self)
        ensures
            is_default_config(c),
    {
        AppConfig {
            whisper: WhisperConfig {
                mode: owned("openai"),
                api_url: owned("https://api.openai.com/v1/audio/transcriptions"),
                api_key: None,
                model: owned("whisper-1"),
                prompt: owned(""),
            },
            bilibili: BilibiliConfig {
                cookie: owned(""),
                video_dir: owned("~/Downloads/bilibili-transcript-app/bilibili-video"),
                audio_dir: owned("~/Downloads/bilibili-transcript-app/bilibili-audio"),
                transcript_dir: owned("~/Downloads/bilibili-transcript-app/bilibili-transfer"),
                ai_analysis_dir: owned("~/Downloads/bilibili-transcript-app/bilibili-ai-analysis"),
                output_dir: owned(""),
            },
            ai_summary: AiSummaryConfig {
                enabled: false,
                api_url: owned("https://api.openai.com/v1/chat/completions"),
                api_key: None,
                model: owned("gpt-4o-mini"),
                prompt: owned(""),
                context: owned(""),
            },
        }
    }
}

/// The fields read from a configuration file in the older layout; each is
/// `None` when absent or not of the expected kind.
#[derive(Debug)]
pub struct LegacyConfig {
    pub cookie: Option<String>,
    pub output_dir: Option<String>,
    pub whisper_mode: Option<String>,
    pub whisper_api_url: Option<String>,
    pub whisper_api_key: Option<String>,
    pub whisper_model: Option<String>,
    pub ai_enabled: Option<bool>,
    pub ai_api_url: Option<String>,
    pub ai_api_key: Option<String>,
    pub ai_model: Option<String>,
}

/// A text setting taken from the old file when present, else `d`.
pub open spec fn or_default(o: Option<String>, d: Seq<char>) -> Seq<char> {
    match o {
        Some(s) => s@,
        None => d,
    }
}

/// An API key taken from the old file: only a non-empty one counts.
pub open spec fn migrated_key(o: Option<String>) -> Option<Seq<char>> {
    match o {
        Some(k) => if k@.len() > 0 {
            Some(k@)
        } else {
            None
        },
        None => None,
    }
}

/// `c` is the migration of the old settings `old`: settings found are kept;
/// the old output directory becomes the transcript directory with `video`
/// and `audio` subdirectories; everything else takes its default.
pub open spec fn is_migration_of(c: AppConfig, old: LegacyConfig) -> bool {
    &&& c.bilibili.cookie@ == or_default(old.cookie, ""@)
    &&& match old.output_dir {
        Some(d) => {
            &&& c.bilibili.transcript_dir@ == d@
            &&& c.bilibili.video_dir@ == d@ + "/video"@
            &&& c.bilibili.audio_dir@ == d@ + "/audio"@
        },
        None => {
            &&& c.bilibili.transcript_dir@ == default_transcript_dir()
            &&& c.bilibili.video_dir@ == default_video_dir()
            &&& c.bilibili.audio_dir@ == default_audio_dir()
        },
    }
    &&& c.bilibili.ai_analysis_dir@ == default_ai_analysis_dir()
    &&& c.bilibili.output_dir@ == ""@
    &&& c.whisper.mode@ == or_default(old.whisper_mode, "openai"@)
    &&& c.whisper.api_url@ == or_default(
        old.whisper_api_url,
        "https://api.openai.com/v1/audio/transcriptions"@,
    )
    &&& opt_view(c.whisper.api_key) == migrated_key(old.whisper_api_key)
    &&& c.whisper.model@ == or_default(old.whisper_model, "whisper-1"@)
    &&& c.whisper.prompt@ == ""@
    &&& c.ai_summary.enabled == match old.ai_enabled {
        Some(b) => b,
        None => false,
    }
    &&& c.ai_summary.api_url@ == or_default(
        old.ai_api_url,
        "https://api.openai.com/v1/chat/completions"@,
    )
    &&& opt_view(c.ai_summary.api_key) == migrated_key(old.ai_api_key)
    &&& c.ai_summary.model@ == or_default(old.ai_model, "gpt-4o-mini"@)
    &&& c.ai_summary.prompt@ == ""@
    &&& c.ai_summary.context@ == ""@
}

/// Migration keeps every setting found in the old file: the cookie, the
/// endpoints, models, mode, non-empty keys and the summary switch; the old
/// output directory becomes the transcript directory.
pub proof fn law_migration_keeps_settings(c: AppConfig, old: LegacyConfig)
    requires
        is_migration_of(c, old),
    ensures
        old.cookie matches Some(v) ==> c.bilibili.cookie@ == v@,
        old.output_dir matches Some(d) ==> c.bilibili.transcript_dir@ == d@,
        old.whisper_mode matches Some(v) ==> c.whisper.mode@ == v@,
        old.whisper_api_url matches Some(v) ==> c.whisper.api_url@ == v@,
        old.whisper_model matches Some(v) ==> c.whisper.model@ == v@,
        (old.whisper_api_key matches Some(k) && k@.len() > 0) ==> opt_view(c.whisper.api_key)
            == Some(old.whisper_api_key.unwrap()@),
        old.ai_enabled matches Some(b) ==> c.ai_summary.enabled == b,
        old.ai_api_url matches Some(v) ==> c.ai_summary.api_url@ == v@,
        old.ai_model matches Some(v) ==> c.ai_summary.model@ == v@,
        (old.ai_api_key matches Some(k) && k@.len() > 0) ==> opt_view(c.ai_summary.api_key)
            == Some(old.ai_api_key.unwrap()@),
{
}

fn take_or(o: &Option<String>, d: &str) -> (r: String)
    ensures
        r@ == or_default(*o, d@),
{
    match o {
        Some(s) => s.clone(),
        None => owned(d),
    }
}

fn take_key(o: &Option<String>) -> (r: Option<String>)
    ensures
        opt_view(r) == migrated_key(*o),
{
    match o {
        Some(k) => if k.as_str().is_empty() {
            None
        } else {
            Some(k.clone())
        },
        None => None,
    }
}

/// Builds the configuration for a file in the older layout.
pub fn migrate_config(old: &LegacyConfig) -> (c: AppConfig)
    ensures
        is_migration_of(c, *old),
{
    let mut c = AppConfig::default();
    c.bilibili.cookie = take_or(&old.cookie, "");
    match &old.output_dir {
        Some(d) => {
            c.bilibili.transcript_dir = d.clone();
            c.bilibili.video_dir = concat2(d.as_str(), "/video");
            c.bilibili.audio_dir = concat2(d.as_str(), "/audio");
        },
        None => {},
    }
    c.whisper.mode = take_or(&old.whisper_mode, "openai");
    c.whisper.api_url = take_or(&old.whisper_api_url, "https://api.openai.com/v1/audio/transcriptions");
    c.whisper.api_key = take_key(&old.whisper_api_key);
    c.whisper.model = take_or(&old.whisper_model, "whisper-1");
    c.ai_summary.enabled = match old.ai_enabled {
        Some(b) => b,
        None => false,
    };
    c.ai_summary.api_url = take_or(&old.ai_api_url, "https://api.openai.com/v1/chat/completions");
    c.ai_summary.api_key = take_key(&old.ai_api_key);
    c.ai_summary.model = take_or(&old.ai_model, "gpt-4o-mini");
    c
}

/// Message when transcription would need a Whisper key that is missing.
pub open spec fn whisper_key_missing_message() -> Seq<char> {
    "未配置 Whisper API Key，请在设置中配置"@
}

/// Transcription with the hosted service (`mode == "openai"`) needs a key;
/// an empty key counts as none.
pub open spec fn whisper_config_error_of(c: AppConfig) -> Option<Seq<char>> {
    let missing = match c.whisper.api_key {
        Some(k) => k@.len() == 0,
        None => true,
    };
    if missing && c.whisper.mode@ == "openai"@ {
        Some(whisper_key_missing_message())
    } else {
        None
    }
}

/// Checks that the Whisper settings allow a transcription.
pub fn whisper_config_error(c: &AppConfig) -> (r: Option<String>)
    ensures
        opt_view(r) == whisper_config_error_of(*c),
{
    let missing = match &c.whisper.api_key {
        Some(k) => k.as_str().is_empty(),
        None => true,
    };
    if missing && str_eq(c.whisper.mode.as_str(), "openai") {
        Some(owned("未配置 Whisper API Key，请在设置中配置"))
    } else {
        None
    }
}

/// `shown` is `c` with its credentials removed: no cookie and no API keys,
/// every other setting unchanged.
pub open spec fn is_redaction_of(shown: AppConfig, c: AppConfig) -> bool {
    &&& shown.bilibili.cookie@ == Seq::<char>::empty()
    &&& shown.whisper.api_key is None
    &&& shown.ai_summary.api_key is None
    &&& shown.whisper.mode@ == c.whisper.mode@
    &&& shown.whisper.api_url@ == c.whisper.api_url@
    &&& shown.whisper.model@ == c.whisper.model@
    &&& shown.whisper.prompt@ == c.whisper.prompt@
    &&& shown.bilibili.video_dir@ == c.bilibili.video_dir@
    &&& shown.bilibili.audio_dir@ == c.bilibili.audio_dir@
    &&& shown.bilibili.transcript_dir@ == c.bilibili.transcript_dir@
    &&& shown.bilibili.ai_analysis_dir@ == c.bilibili.ai_analysis_dir@
    &&& shown.bilibili.output_dir@ == c.bilibili.output_dir@
    &&& shown.ai_summary.enabled == c.ai_summary.enabled
    &&& shown.ai_summary.api_url@ == c.ai_summary.api_url@
    &&& shown.ai_summary.model@ == c.ai_summary.model@
    &&& shown.ai_summary.prompt@ == c.ai_summary.prompt@
    &&& shown.ai_summary.context@ == c.ai_summary.context@
}

/// The settings as shown to the user interface: credentials stay in the
/// backend.
pub fn redacted_config(c: &AppConfig) -> (r: AppConfig)
    ensures
        is_redaction_of(r, *c),
{
    AppConfig {
        whisper: WhisperConfig {
            mode: c.whisper.mode.clone(),
            api_url: c.whisper.api_url.clone(),
            api_key: None,
            model: c.whisper.model.clone(),
            prompt: c.whisper.prompt.clone(),
        },
        bilibili: BilibiliConfig {
            cookie: String::new(),
            video_dir: c.bilibili.video_dir.clone(),
            audio_dir: c.bilibili.audio_dir.clone(),
            transcript_dir: c.bilibili.transcript_dir.clone(),
            ai_analysis_dir: c.bilibili.ai_analysis_dir.clone(),
            output_dir: c.bilibili.output_dir.clone(),
        },
        ai_summary: AiSummaryConfig {
            enabled: c.ai_summary.enabled,
            api_url: c.ai_summary.api_url.clone(),
            api_key: None,
            model: c.ai_summary.model.clone(),
            prompt: c.ai_summary.prompt.clone(),
            context: c.ai_summary.context.clone(),
        },
    }
}

} // verus!
