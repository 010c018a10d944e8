use bilibili_transcript::commands::require_cookie;
use bilibili_transcript::config::{
    migrate_config, redacted_config, whisper_config_error, AppConfig, LegacyConfig,
};
use bilibili_transcript::download::cookie_file_wanted;
use bilibili_transcript::summary::require_ai_key;

fn legacy_empty() -> LegacyConfig {
    LegacyConfig {
        cookie: None,
        output_dir: None,
        whisper_mode: None,
        whisper_api_url: None,
        whisper_api_key: None,
        whisper_model: None,
        ai_enabled: None,
        ai_api_url: None,
        ai_api_key: None,
        ai_model: None,
    }
}

#[test]
fn default_configuration() {
    let c = AppConfig::default();
    assert_eq!(c.whisper.mode, "openai");
    assert_eq!(c.whisper.api_url, "https://api.openai.com/v1/audio/transcriptions");
    assert_eq!(c.whisper.api_key, None);
    assert_eq!(c.whisper.model, "whisper-1");
    assert_eq!(c.whisper.prompt, "");
    assert_eq!(c.bilibili.cookie, "");
    assert_eq!(c.bilibili.video_dir, "~/Downloads/bilibili-transcript-app/bilibili-video");
    assert_eq!(c.bilibili.audio_dir, "~/Downloads/bilibili-transcript-app/bilibili-audio");
    assert_eq!(c.bilibili.transcript_dir, "~/Downloads/bilibili-transcript-app/bilibili-transfer");
    assert_eq!(c.bilibili.ai_analysis_dir, "~/Downloads/bilibili-transcript-app/bilibili-ai-analysis");
    assert_eq!(c.bilibili.output_dir, "");
    assert!(!c.ai_summary.enabled);
    assert_eq!(c.ai_summary.api_url, "https://api.openai.com/v1/chat/completions");
    assert_eq!(c.ai_summary.api_key, None);
    assert_eq!(c.ai_summary.model, "gpt-4o-mini");
    assert_eq!(c.ai_summary.prompt, "");
    assert_eq!(c.ai_summary.context, "");
}

#[test]
fn migrating_an_old_configuration() {
    let old = LegacyConfig {
        cookie: Some("SESSDATA=1".to_string()),
        output_dir: Some("/data/out".to_string()),
        whisper_mode: Some("local".to_string()),
        whisper_api_url: Some("http://localhost:9000/asr".to_string()),
        whisper_api_key: Some("".to_string()),
        whisper_model: None,
        ai_enabled: Some(true),
        ai_api_url: None,
        ai_api_key: Some("sk-1".to_string()),
        ai_model: Some("qwen".to_string()),
    };
    let c = migrate_config(&old);
    assert_eq!(c.bilibili.cookie, "SESSDATA=1");
    assert_eq!(c.bilibili.transcript_dir, "/data/out");
    assert_eq!(c.bilibili.video_dir, "/data/out/video");
    assert_eq!(c.bilibili.audio_dir, "/data/out/audio");
    assert_eq!(c.bilibili.ai_analysis_dir, "~/Downloads/bilibili-transcript-app/bilibili-ai-analysis");
    assert_eq!(c.whisper.mode, "local");
    assert_eq!(c.whisper.api_url, "http://localhost:9000/asr");
    // an empty key is not migrated
    assert_eq!(c.whisper.api_key, None);
    assert_eq!(c.whisper.model, "whisper-1");
    assert!(c.ai_summary.enabled);
    assert_eq!(c.ai_summary.api_url, "https://api.openai.com/v1/chat/completions");
    assert_eq!(c.ai_summary.api_key, Some("sk-1".to_string()));
    assert_eq!(c.ai_summary.model, "qwen");

    let d = migrate_config(&legacy_empty());
    let def = AppConfig::default();
    assert_eq!(d.bilibili.video_dir, def.bilibili.video_dir);
    assert_eq!(d.bilibili.transcript_dir, def.bilibili.transcript_dir);
    assert_eq!(d.whisper.mode, "openai");
    assert!(!d.ai_summary.enabled);
}

#[test]
fn whisper_needs_a_key_only_for_the_hosted_service() {
    let mut c = AppConfig::default();
    assert_eq!(whisper_config_error(&c), Some("未配置 Whisper API Key，请在设置中配置".to_string()));
    c.whisper.mode = "local".to_string();
    assert_eq!(whisper_config_error(&c), None);
    c.whisper.mode = "openai".to_string();
    c.whisper.api_key = Some(String::new());
    assert_eq!(whisper_config_error(&c), Some("未配置 Whisper API Key，请在设置中配置".to_string()));
    c.whisper.api_key = Some("sk".to_string());
    assert_eq!(whisper_config_error(&c), None);
}

#[test]
fn summary_needs_a_non_empty_key() {
    let mut c = AppConfig::default();
    assert_eq!(require_ai_key(&c), Err("未配置 AI 摘要 API Key".to_string()));
    c.ai_summary.api_key = Some(String::new());
    assert_eq!(require_ai_key(&c), Err("未配置 AI 摘要 API Key".to_string()));
    c.ai_summary.api_key = Some("sk-2".to_string());
    assert_eq!(require_ai_key(&c), Ok("sk-2".to_string()));
}

#[test]
fn favourites_need_a_cookie() {
    let mut c = AppConfig::default();
    assert!(require_cookie(&c).is_err());
    c.bilibili.cookie = "SESSDATA=1".to_string();
    assert_eq!(require_cookie(&c), Ok("SESSDATA=1".to_string()));
}

#[test]
fn credentials_are_not_shown() {
    let mut c = AppConfig::default();
    c.bilibili.cookie = "SESSDATA=1".to_string();
    c.whisper.api_key = Some("sk-w".to_string());
    c.ai_summary.api_key = Some("sk-a".to_string());
    c.ai_summary.enabled = true;
    c.bilibili.video_dir = "/v".to_string();
    let shown = redacted_config(&c);
    assert_eq!(shown.bilibili.cookie, "");
    assert_eq!(shown.whisper.api_key, None);
    assert_eq!(shown.ai_summary.api_key, None);
    assert!(shown.ai_summary.enabled);
    assert_eq!(shown.bilibili.video_dir, "/v");
    assert_eq!(shown.whisper.model, "whisper-1");
}

#[test]
fn cookie_file_only_with_a_cookie() {
    assert!(cookie_file_wanted("SESSDATA=1"));
    assert!(!cookie_file_wanted(""));
}
