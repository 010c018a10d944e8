use bilibili_transcript::bilibili::types::VideoInfo;
use bilibili_transcript::json::Json;
use bilibili_transcript::logs::{level_name, push_log, LogEntry, LogLevel};
use bilibili_transcript::storage::{render_txt, sanitize_filename, TranscriptRecord};
use bilibili_transcript::summary::{
    override_or_default_exec, resolve_api_url, summary_from_response, summary_http_error,
    summary_request,
};
use bilibili_transcript::task::{
    completed_event, failed_event, format_elapsed, format_file_size, summary_task_url,
    title_from_path, transcribe_note, transcript_record_for, video_minutes, TaskRegistry,
};
use bilibili_transcript::transcribe::TranscriptResult;

fn record(summary: Option<&str>) -> TranscriptRecord {
    TranscriptRecord {
        id: 1,
        bvid: "BV1xx".to_string(),
        url: "https://www.bilibili.com/video/BV1xx".to_string(),
        title: "My: Video / Test".to_string(),
        author: "Up  Zhu".to_string(),
        duration: "2:05".to_string(),
        upload_date: "2023-11-14".to_string(),
        transcript_source: "cc".to_string(),
        transcript_text: "全文".to_string(),
        summary: summary.map(|s| s.to_string()),
        status: "transcribed".to_string(),
        created_at: "2024-01-01 10:00:00".to_string(),
        updated_at: String::new(),
    }
}

#[test]
fn file_names_are_sanitized() {
    assert_eq!(sanitize_filename("My: Video / Test"), "My-Video-Test");
    assert_eq!(sanitize_filename("  a\tb\nc  "), "a-b-c");
    assert_eq!(sanitize_filename("<>|?*\"\\"), "");
    assert_eq!(sanitize_filename("标题【中文】"), "标题【中文】");
    for name in ["x : y", " / ", "a|b c", "\u{3000}全角\u{3000}空格"] {
        let s = sanitize_filename(name);
        assert!(s.chars().all(|c| !c.is_whitespace() && !"\\/:*?\"<>|".contains(c)), "{:?}", s);
    }
}

#[test]
fn transcript_document_layout() {
    let d = render_txt(&record(None), "/out", true);
    assert_eq!(d.dir, "/out/2023/11");
    assert_eq!(d.path, "/out/2023/11/My-Video-Test_Up-Zhu_2023-11-14_BV1xx.txt");
    let expected = "================================================================================\nB站视频转录文档\n================================================================================\n\n📹 视频标题：My: Video / Test\n🔗 B站链接：https://www.bilibili.com/video/BV1xx\n👤 作者：Up  Zhu\n📅 发布时间：2023-11-14\n⏱️  视频时长：2:05\n📝 转录来源：cc\n⏰ 转录时间：2024-01-01 10:00:00\n\n================================================================================\n第一部分：视频摘要（AI生成）\n================================================================================\n\n【AI待处理：请阅读全文后，替换此行，写结构化摘要】\n\n================================================================================\n第二部分：完整原文\n================================================================================\n\n全文\n================================================================================\n文档结束\n================================================================================\n";
    assert_eq!(d.content, expected);
    let with_summary = render_txt(&record(Some("要点")), "/out", false);
    assert!(with_summary.content.contains("\n\n要点\n\n"));
    assert!(!with_summary.content.contains("AI待处理"));
    // a short date gives a short month directory
    let mut r = record(None);
    r.upload_date = "2023-1".to_string();
    assert_eq!(render_txt(&r, "/out", true).dir, "/out/2023/1");
    // with summaries disabled the document says so
    let off = render_txt(&record(None), "/out", false);
    assert!(off.content.contains("\n\n【AI 摘要未启用：可在设置中开启 AI 摘要】\n\n"));
    assert!(!off.content.contains("AI待处理"));
}

#[test]
fn summary_endpoint_is_completed() {
    assert_eq!(resolve_api_url("https://api.x.com/v1"), "https://api.x.com/v1/chat/completions");
    assert_eq!(resolve_api_url("https://api.x.com/v1//"), "https://api.x.com/v1/chat/completions");
    assert_eq!(
        resolve_api_url("https://api.x.com/v1/chat/completions"),
        "https://api.x.com/v1/chat/completions"
    );
    let once = resolve_api_url("http://h/");
    assert_eq!(resolve_api_url(&once), once);
}

#[test]
fn summary_request_content() {
    let base = "你是一个视频摘要助手。请对以下转录文本生成结构化摘要，包含：1) 核心观点 2) 主要论点 3) 关键结论。用中文回复，简洁明了。";
    let r = summary_request("标题", "文本", "https://h/v1", Some("列三点"), Some("背景"));
    assert_eq!(r.url, "https://h/v1/chat/completions");
    assert_eq!(r.system, format!("{}\n\n额外要求：列三点", base));
    assert_eq!(r.user, "上下文信息：背景\n\n视频标题：标题\n\n转录文本：\n文本");
    assert_eq!(r.max_tokens, 1024);
    let r = summary_request("t", "x", "u", Some(""), None);
    assert_eq!(r.system, base);
    assert_eq!(r.user, "视频标题：t\n\n转录文本：\nx");
    // only the first 30000 bytes of the transcript are sent
    let long = "ab".repeat(20000);
    let r = summary_request("t", &long, "u", None, Some(""));
    assert_eq!(r.user, format!("视频标题：t\n\n转录文本：\n{}", &long[..30000]));
    // three-byte characters: 30000 is a character boundary
    let wide = "字".repeat(10001);
    let r = summary_request("t", &wide, "u", None, None);
    assert_eq!(r.user, format!("视频标题：t\n\n转录文本：\n{}", "字".repeat(10000)));
}

#[test]
fn summary_replies() {
    let reply = Json::Object(vec![(
        "choices".to_string(),
        Json::Array(vec![Json::Object(vec![(
            "message".to_string(),
            Json::Object(vec![("content".to_string(), Json::Str("摘要".to_string()))]),
        )])]),
    )]);
    assert_eq!(summary_from_response(&reply), Ok("摘要".to_string()));
    assert_eq!(summary_from_response(&Json::Null), Err("Invalid API response format".to_string()));
    assert_eq!(summary_http_error("500", "oops"), "AI 摘要 API 请求失败 (500): oops");
    assert_eq!(override_or_default_exec(Some("p"), "d"), Some("p".to_string()));
    assert_eq!(override_or_default_exec(Some(""), "d"), Some("d".to_string()));
    assert_eq!(override_or_default_exec(None, ""), None);
}

#[test]
fn task_labels() {
    assert_eq!(format_elapsed(0), "0秒");
    assert_eq!(format_elapsed(59), "59秒");
    assert_eq!(format_elapsed(60), "1分0秒");
    assert_eq!(format_elapsed(3725), "62分5秒");
    assert_eq!(transcribe_note("cc", 5), "CC字幕 · 耗时5秒");
    assert_eq!(transcribe_note("ai", 61), "AI字幕 · 耗时1分1秒");
    assert_eq!(transcribe_note("whisper", 120), "Whisper · 耗时2分0秒");
    assert_eq!(video_minutes(125), "2:05");
    assert_eq!(video_minutes(3600), "60:00");
    assert_eq!(video_minutes(7), "0:07");
    assert_eq!(title_from_path("/v/My Title.mp4"), "My Title");
    assert_eq!(title_from_path("/"), "");
    assert_eq!(summary_task_url("BV1"), "https://www.bilibili.com/video/BV1");
}

#[test]
fn file_sizes_like_float_formatting() {
    assert_eq!(format_file_size(0), "0 B");
    assert_eq!(format_file_size(1023), "1023 B");
    assert_eq!(format_file_size(1024), "1.0 KB");
    for size in [1536u64, 1280, 1331, 1_048_575, 1_310_720, 5_000_000, 1_073_741_824, 1_610_612_736, 123_456_789_012] {
        let expected = if size >= 1024 * 1024 * 1024 {
            format!("{:.1} GB", size as f64 / (1024.0 * 1024.0 * 1024.0))
        } else if size >= 1024 * 1024 {
            format!("{:.1} MB", size as f64 / (1024.0 * 1024.0))
        } else {
            format!("{:.1} KB", size as f64 / 1024.0)
        };
        assert_eq!(format_file_size(size), expected, "size {}", size);
    }
    assert_eq!(format_file_size(1280), "1.2 KB");
}

#[test]
fn finished_transcription_record_and_events() {
    let info = VideoInfo {
        bvid: "BV1".to_string(),
        aid: 1,
        cid: 2,
        title: "标题".to_string(),
        author: "作者".to_string(),
        duration: 185,
        description: String::new(),
        cover_url: String::new(),
        upload_date: "2024-02-03".to_string(),
    };
    let result = TranscriptResult { text: "全文".to_string(), source: "ai".to_string(), language: None };
    let r = transcript_record_for("BV1", "https://b/BV1", &info, &result);
    assert_eq!(r.id, 0);
    assert_eq!(r.bvid, "BV1");
    assert_eq!(r.url, "https://b/BV1");
    assert_eq!(r.title, "标题");
    assert_eq!(r.author, "作者");
    assert_eq!(r.duration, "3:05");
    assert_eq!(r.upload_date, "2024-02-03");
    assert_eq!(r.transcript_source, "ai");
    assert_eq!(r.transcript_text, "全文");
    assert_eq!(r.summary, None);
    assert_eq!(r.status, "transcribed");
    assert_eq!(r.created_at, "");

    let e = completed_event(7, "video_download", "t", Some("/v/t.mp4"), Some("1.0 MB"));
    assert_eq!(e.task_id, 7);
    assert_eq!(e.task_type, "video_download");
    assert_eq!(e.status, "completed");
    assert_eq!(e.title, "t");
    assert_eq!(e.output_path, Some("/v/t.mp4".to_string()));
    assert_eq!(e.error, None);
    assert_eq!(e.file_size, Some("1.0 MB".to_string()));
    let f = failed_event(8, "transcribe", "boom");
    assert_eq!(f.status, "failed");
    assert_eq!(f.title, "");
    assert_eq!(f.output_path, None);
    assert_eq!(f.error, Some("boom".to_string()));
    assert_eq!(f.file_size, None);
}

#[test]
fn cancelling_running_tasks() {
    let mut reg: TaskRegistry<&str> = TaskRegistry::new();
    assert!(!reg.is_running(1));
    reg.insert(1, "job-1");
    reg.insert(2, "job-2");
    assert!(reg.is_running(1));
    assert_eq!(reg.cancel(1), Ok("job-1"));
    assert!(!reg.is_running(1));
    assert!(reg.is_running(2));
    assert_eq!(reg.cancel(1), Err("任务不存在或已完成".to_string()));
    assert_eq!(reg.finish(2), Some("job-2"));
    assert_eq!(reg.finish(2), None);
    assert_eq!(reg.cancel(2), Err("任务不存在或已完成".to_string()));
}

#[test]
fn log_buffer_keeps_the_latest_five_hundred() {
    let mut buf: Vec<LogEntry> = Vec::new();
    for i in 0..505 {
        push_log(&mut buf, format!("t{}", i), "INFO", &format!("m{}", i));
    }
    assert_eq!(buf.len(), 500);
    assert_eq!(buf[0].message, "m5");
    assert_eq!(buf[0].timestamp, "t5");
    assert_eq!(buf[499].message, "m504");
    assert_eq!(buf[499].level, "INFO");
    assert_eq!(level_name(LogLevel::Error), "ERROR");
    assert_eq!(level_name(LogLevel::Warn), "WARN");
    assert_eq!(level_name(LogLevel::Info), "INFO");
    assert_eq!(level_name(LogLevel::Debug), "DEBUG");
    assert_eq!(level_name(LogLevel::Trace), "TRACE");
}
