use bilibili_transcript::config::AppConfig;
use bilibili_transcript::transcribe::{
    pipeline_step, PipelineAction, PipelineEvent, PipelineState, SubtitleLookup,
};
use bilibili_transcript::flow::{
    download_step, summary_step, transcribe_step, DownloadAction, DownloadEvent, DownloadState,
    SummaryAction, SummaryEvent, SummaryState, TranscribeAction, TranscribeEvent, TranscribeState,
};

#[test]
fn transcription_with_summary_runs_to_the_end() {
    let (s, a) = transcribe_step(
        TranscribeState::Start,
        TranscribeEvent::ConfigLoaded { url: "https://b23.tv/BV1xx411c7mD?p=1".to_string(), ai_enabled: true },
    );
    assert_eq!(s, TranscribeState::FetchingInfo { ai: true });
    match a {
        TranscribeAction::FetchVideoInfo { bvid } => assert_eq!(bvid, "BV1xx411c7mD"),
        other => panic!("unexpected {:?}", other),
    }
    let (s, a) = transcribe_step(s, TranscribeEvent::InfoFetched);
    assert_eq!(s, TranscribeState::Transcribing { ai: true });
    assert!(matches!(a, TranscribeAction::Transcribe));
    let (s, a) = transcribe_step(s, TranscribeEvent::Transcribed { source: "cc".to_string(), secs: 65 });
    assert_eq!(s, TranscribeState::Completed { summarizing: true });
    match a {
        TranscribeAction::Complete { note, summarize } => {
            assert_eq!(note, "CC字幕 · 耗时1分5秒");
            assert!(summarize);
        }
        other => panic!("unexpected {:?}", other),
    }
    let (s, a) = transcribe_step(s, TranscribeEvent::SummaryDone);
    assert_eq!(s, TranscribeState::Completed { summarizing: false });
    assert!(matches!(a, TranscribeAction::SaveSummary));
}

#[test]
fn a_failed_summary_keeps_the_transcription_completed() {
    let (s, a) = transcribe_step(
        TranscribeState::Completed { summarizing: true },
        TranscribeEvent::SummaryFailed("timeout".to_string()),
    );
    assert_eq!(s, TranscribeState::Completed { summarizing: false });
    match a {
        TranscribeAction::LogSummaryFailure { message } => {
            assert_eq!(message, "AI 摘要生成失败（不影响转录结果）: timeout")
        }
        other => panic!("unexpected {:?}", other),
    }
}

#[test]
fn transcription_without_summary_and_failures() {
    let (s, a) = transcribe_step(
        TranscribeState::Transcribing { ai: false },
        TranscribeEvent::Transcribed { source: "whisper".to_string(), secs: 3 },
    );
    assert_eq!(s, TranscribeState::Completed { summarizing: false });
    match a {
        TranscribeAction::Complete { note, summarize } => {
            assert_eq!(note, "Whisper · 耗时3秒");
            assert!(!summarize);
        }
        other => panic!("unexpected {:?}", other),
    }
    let fail = |s: TranscribeState, e: TranscribeEvent| match transcribe_step(s, e) {
        (TranscribeState::Failed, TranscribeAction::Fail { error }) => error,
        other => panic!("unexpected {:?}", other),
    };
    assert_eq!(fail(TranscribeState::Start, TranscribeEvent::ConfigFailed("io".to_string())), "加载配置失败: io");
    assert_eq!(
        fail(TranscribeState::Start, TranscribeEvent::ConfigLoaded { url: "https://www.bilibili.com".to_string(), ai_enabled: true }),
        "无法从 URL 中提取 BVid"
    );
    assert_eq!(
        fail(TranscribeState::FetchingInfo { ai: false }, TranscribeEvent::InfoFailed("-404".to_string())),
        "获取视频信息失败: -404"
    );
    assert_eq!(
        fail(TranscribeState::Transcribing { ai: true }, TranscribeEvent::TranscribeFailed("no key".to_string())),
        "no key"
    );
    // an outcome that does not belong to the state changes nothing
    let (s, a) = transcribe_step(TranscribeState::Completed { summarizing: false }, TranscribeEvent::SummaryDone);
    assert_eq!(s, TranscribeState::Completed { summarizing: false });
    assert!(matches!(a, TranscribeAction::Ignore));
}

#[test]
fn summary_task_steps() {
    let (s, a) = summary_step(SummaryState::Start, SummaryEvent::ConfigLoaded { api_key: Some("sk".to_string()) });
    assert_eq!(s, SummaryState::OpeningDb { key_ok: true });
    assert!(matches!(a, SummaryAction::OpenDb));
    let (s, a) = summary_step(s, SummaryEvent::DbOpened);
    assert_eq!(s, SummaryState::LoadingRecord { key_ok: true });
    assert!(matches!(a, SummaryAction::LoadRecord));
    let (s, a) = summary_step(s, SummaryEvent::RecordFound { title: "标题".to_string() });
    assert_eq!(s, SummaryState::Summarizing);
    match a {
        SummaryAction::Summarize { title } => assert_eq!(title, "标题"),
        other => panic!("unexpected {:?}", other),
    }
    let (s, a) = summary_step(s, SummaryEvent::SummaryDone);
    assert_eq!(s, SummaryState::Completed);
    assert!(matches!(a, SummaryAction::Complete));

    // an empty key is refused once the record is found
    let (s, _) = summary_step(SummaryState::Start, SummaryEvent::ConfigLoaded { api_key: Some(String::new()) });
    assert_eq!(s, SummaryState::OpeningDb { key_ok: false });
    let (s, a) = summary_step(SummaryState::LoadingRecord { key_ok: false }, SummaryEvent::RecordFound { title: "t".to_string() });
    assert_eq!(s, SummaryState::Failed);
    match a {
        SummaryAction::MissingKey { title, error } => {
            assert_eq!(title, "t");
            assert_eq!(error, "未配置 AI 摘要 API Key，请在设置中配置");
        }
        other => panic!("unexpected {:?}", other),
    }
    let fail = |s: SummaryState, e: SummaryEvent| match summary_step(s, e) {
        (SummaryState::Failed, SummaryAction::Fail { error }) => error,
        other => panic!("unexpected {:?}", other),
    };
    assert_eq!(fail(SummaryState::Start, SummaryEvent::ConfigFailed("x".to_string())), "加载配置失败: x");
    assert_eq!(fail(SummaryState::OpeningDb { key_ok: true }, SummaryEvent::DbFailed("locked".to_string())), "数据库打开失败: locked");
    assert_eq!(
        fail(SummaryState::LoadingRecord { key_ok: true }, SummaryEvent::RecordMissing),
        "未找到该视频的转录记录，请先转录"
    );
    assert_eq!(fail(SummaryState::LoadingRecord { key_ok: true }, SummaryEvent::RecordFailed("sql".to_string())), "查询失败: sql");
    assert_eq!(fail(SummaryState::Summarizing, SummaryEvent::SummaryFailed("500".to_string())), "500");
}

#[test]
fn download_task_steps() {
    let (s, a) = download_step(DownloadState::Start, DownloadEvent::ConfigLoaded);
    assert_eq!(s, DownloadState::Downloading);
    assert!(matches!(a, DownloadAction::Download));
    let (s, a) = download_step(s, DownloadEvent::Downloaded { path: "/v/My Title.mp4".to_string(), size: Some(1536) });
    assert_eq!(s, DownloadState::Completed);
    match a {
        DownloadAction::Complete { title, path, file_size } => {
            assert_eq!(title, "My Title");
            assert_eq!(path, "/v/My Title.mp4");
            assert_eq!(file_size, Some("1.5 KB".to_string()));
        }
        other => panic!("unexpected {:?}", other),
    }
    match download_step(DownloadState::Downloading, DownloadEvent::DownloadFailed("yt-dlp 下载失败: x".to_string())) {
        (DownloadState::Failed, DownloadAction::Fail { error }) => assert_eq!(error, "yt-dlp 下载失败: x"),
        other => panic!("unexpected {:?}", other),
    }
    match download_step(DownloadState::Start, DownloadEvent::ConfigFailed("io".to_string())) {
        (DownloadState::Failed, DownloadAction::Fail { error }) => assert_eq!(error, "加载配置失败: io"),
        other => panic!("unexpected {:?}", other),
    }
}

fn keyed_config() -> AppConfig {
    let mut c = AppConfig::default();
    c.whisper.api_key = Some("sk".to_string());
    c
}

#[test]
fn pipeline_prefers_a_fitting_subtitle() {
    let c = keyed_config();
    let (s, a) = pipeline_step(PipelineState::Start, PipelineEvent::Begin, false, &c, None, None);
    assert_eq!(s, PipelineState::LookingUp);
    assert!(matches!(a, PipelineAction::LookUpSubtitle));
    let found = SubtitleLookup::Found {
        content: "字幕".to_string(),
        source: "ai".to_string(),
        language: "中文".to_string(),
        fits: true,
    };
    let (s, a) = pipeline_step(s, PipelineEvent::SubtitleLooked(found), false, &c, None, None);
    assert_eq!(s, PipelineState::Done);
    match a {
        PipelineAction::Finish(r) => {
            assert_eq!(r.text, "字幕");
            assert_eq!(r.source, "ai");
            assert_eq!(r.language, Some("中文".to_string()));
        }
        other => panic!("unexpected {:?}", other),
    }
}

#[test]
fn pipeline_falls_back_to_whisper() {
    let c = keyed_config();
    let (s, a) = pipeline_step(
        PipelineState::LookingUp,
        PipelineEvent::SubtitleLooked(SubtitleLookup::Failed),
        false,
        &c,
        Some("提示"),
        Some("ja"),
    );
    assert_eq!(s, PipelineState::Extracting);
    assert!(matches!(a, PipelineAction::ExtractAudio));
    let (s, a) = pipeline_step(s, PipelineEvent::AudioReady, false, &c, Some("提示"), Some("ja"));
    assert_eq!(s, PipelineState::Transcribing);
    match a {
        PipelineAction::Transcribe(client) => {
            assert_eq!(client.api_key, Some("sk".to_string()));
            assert_eq!(client.prompt, Some("提示".to_string()));
            assert_eq!(client.language, Some("ja".to_string()));
        }
        other => panic!("unexpected {:?}", other),
    }
    let (s, a) = pipeline_step(s, PipelineEvent::TextReady("text".to_string()), false, &c, None, None);
    assert_eq!(s, PipelineState::Done);
    match a {
        PipelineAction::Finish(r) => {
            assert_eq!(r.text, "text");
            assert_eq!(r.source, "whisper");
            assert_eq!(r.language, None);
        }
        other => panic!("unexpected {:?}", other),
    }
}

#[test]
fn pipeline_skipping_subtitles_and_missing_key() {
    // skipped subtitles: no lookup, straight to the audio
    let c = keyed_config();
    let (s, a) = pipeline_step(PipelineState::Start, PipelineEvent::Begin, true, &c, None, None);
    assert_eq!(s, PipelineState::Extracting);
    assert!(matches!(a, PipelineAction::ExtractAudio));
    // a missing or empty key fails before any audio is downloaded
    for key in [None, Some(String::new())] {
        let mut c = AppConfig::default();
        c.whisper.api_key = key;
        for (state, event) in [
            (PipelineState::Start, PipelineEvent::Begin),
            (PipelineState::LookingUp, PipelineEvent::SubtitleLooked(SubtitleLookup::NotFound)),
        ] {
            let skip = matches!(event, PipelineEvent::Begin);
            match pipeline_step(state, event, skip, &c, None, None) {
                (PipelineState::Done, PipelineAction::Fail(e)) => {
                    assert_eq!(e, "未配置 Whisper API Key，请在设置中配置")
                }
                other => panic!("unexpected {:?}", other),
            }
        }
    }
    match pipeline_step(PipelineState::Extracting, PipelineEvent::AudioFailed("boom".to_string()), false, &c, None, None) {
        (PipelineState::Done, PipelineAction::Fail(e)) => assert_eq!(e, "boom"),
        other => panic!("unexpected {:?}", other),
    }
}
