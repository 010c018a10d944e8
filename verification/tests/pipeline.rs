use bilibili_transcript::download::{
    audio_download_args, clean_format_suffix, destination_from_output, downloaded_audio_file,
    find_downloaded_file, printed_path,
    list_formats_args, name_without_suffix, needs_wav_conversion, newest_with_extension, output_template,
    parse_download_path, tool_failure, video_download_args, wav_args, wav_path,
};
use bilibili_transcript::config::AppConfig;
use bilibili_transcript::json::Json;
use bilibili_transcript::transcribe::{
    audio_mime, bearer_header, create_test_wav, form_fields, subtitle_result, upload_name,
    whisper_client_for, whisper_http_error, whisper_result, whisper_text_from_response,
    OpenAIWhisperClient, SubtitleLookup,
};

const UA: &str = "Mozilla/5.0 (Macintosh; Intel Mac OS X 10_15_7) AppleWebKit/537.36 (KHTML, like Gecko) Chrome/126.0.0.0 Safari/537.36";

#[test]
fn video_download_arguments() {
    assert_eq!(output_template("/v"), "/v/%(title)s.%(ext)s");
    assert_eq!(
        video_download_args("/v/%(title)s.%(ext)s", "30080", Some("/tmp/c"), "URL"),
        vec![
            "-o", "/v/%(title)s.%(ext)s", "--no-playlist", "--restrict-filenames", "--user-agent", UA,
            "--referer", "https://www.bilibili.com", "-f", "30080", "--cookies", "/tmp/c", "URL",
        ]
    );
    // an empty format or `best` lets yt-dlp choose
    for f in ["", "best"] {
        assert_eq!(
            video_download_args("T", f, None, "URL"),
            vec!["-o", "T", "--no-playlist", "--restrict-filenames", "--user-agent", UA, "--referer", "https://www.bilibili.com", "URL"]
        );
    }
}

#[test]
fn audio_download_arguments() {
    assert_eq!(
        audio_download_args("T", Some("/tmp/c"), Some("/opt/homebrew/bin/ffmpeg"), "URL"),
        vec![
            "-x", "--audio-format", "mp3", "-o", "T", "--no-playlist", "--restrict-filenames",
            "--print", "after_move:filepath", "--user-agent", UA, "--referer",
            "https://www.bilibili.com", "--cookies", "/tmp/c",
            "--ffmpeg-location", "/opt/homebrew/bin/ffmpeg", "URL",
        ]
    );
    assert_eq!(
        audio_download_args("T", None, None, "URL"),
        vec![
            "-x", "--audio-format", "mp3", "-o", "T", "--no-playlist", "--restrict-filenames",
            "--print", "after_move:filepath", "--user-agent", UA, "--referer",
            "https://www.bilibili.com", "URL",
        ]
    );
    assert_eq!(
        list_formats_args(None, "URL"),
        vec!["-F", "--dump-json", "--user-agent", UA, "--referer", "https://www.bilibili.com", "URL"]
    );
}

#[test]
fn wav_conversion() {
    assert_eq!(wav_path("/a/song.mp3"), "/a/song.wav");
    assert_eq!(
        wav_args("/a/song.mp3", "/a/song.wav"),
        vec!["-y", "-i", "/a/song.mp3", "-ar", "16000", "-ac", "1", "-c:a", "pcm_s16le", "/a/song.wav"]
    );
    assert!(needs_wav_conversion("/a/song.mp3"));
    assert!(needs_wav_conversion("/a/song"));
    assert!(!needs_wav_conversion("/a/song.wav"));
}

#[test]
fn tool_failures_prefer_stderr() {
    assert_eq!(tool_failure("yt-dlp 下载失败: ", "ERROR: x", "out"), "yt-dlp 下载失败: ERROR: x");
    assert_eq!(tool_failure("yt-dlp 下载失败: ", "", "out"), "yt-dlp 下载失败: out");
}

#[test]
fn downloaded_file_from_output() {
    let out = "[info] x\n[download] Destination: /v/My.Title.f30080.mp4 \n[download] 100%";
    assert_eq!(parse_download_path(out), Some("/v/My.Title.f30080.mp4".to_string()));
    assert_eq!(destination_from_output(out), Some("/v/My.Title.f30080.mp4".to_string()));
    let again = "[download] /v/Old.mp4 has already been downloaded\n";
    assert_eq!(parse_download_path(again), Some("/v/Old.mp4".to_string()));
    assert_eq!(destination_from_output(again), None);
    assert_eq!(parse_download_path("nothing here"), None);
}

#[test]
fn format_suffix_is_removed() {
    assert_eq!(clean_format_suffix("/dir/Title.f30033.mp4"), "/dir/Title.mp4");
    assert_eq!(clean_format_suffix("/dir/Title.mp4"), "/dir/Title.mp4");
    assert_eq!(clean_format_suffix("/dir/Title.fx.mp4"), "/dir/Title.fx.mp4");
    assert_eq!(clean_format_suffix("/dir/noext"), "/dir/noext");
    assert_eq!(name_without_suffix("Title.f30033", "mp4", "Title", ".f30033"), "Title.mp4");
    assert_eq!(name_without_suffix("a.f1.b", "mkv", "a", ".f1"), "a.b.mkv");
}

#[test]
fn newest_matching_file_is_the_fallback() {
    let files = vec![
        ("/a/old.mp3".to_string(), 10u128),
        ("/a/video.mp4".to_string(), 99),
        ("/a/new.mp3".to_string(), 20),
        ("/a/same.mp3".to_string(), 20),
    ];
    assert_eq!(newest_with_extension(&files, "mp3"), Some(2));
    assert_eq!(newest_with_extension(&files, "wav"), None);
    assert_eq!(find_downloaded_file("no marker", &files, "mp3"), Some("/a/new.mp3".to_string()));
    assert_eq!(
        find_downloaded_file("[ExtractAudio] Destination: /a/x.mp3", &files, "mp3"),
        Some("/a/x.mp3".to_string())
    );
    assert_eq!(find_downloaded_file("", &vec![], "mp3"), None);
}

#[test]
fn subtitles_stand_in_for_whisper() {
    let found = || SubtitleLookup::Found {
        content: "字幕".to_string(),
        source: "cc".to_string(),
        language: "中文".to_string(),
        fits: true,
    };
    let r = subtitle_result(false, found()).expect("the subtitle is used");
    assert_eq!(r.text, "字幕");
    assert_eq!(r.source, "cc");
    assert_eq!(r.language, Some("中文".to_string()));
    assert!(subtitle_result(true, found()).is_none());
    let misfit = SubtitleLookup::Found {
        content: "x".to_string(),
        source: "ai".to_string(),
        language: "中文".to_string(),
        fits: false,
    };
    assert!(subtitle_result(false, misfit).is_none());
    assert!(subtitle_result(false, SubtitleLookup::NotFound).is_none());
    assert!(subtitle_result(false, SubtitleLookup::Failed).is_none());
    let w = whisper_result("text".to_string());
    assert_eq!(w.source, "whisper");
    assert_eq!(w.language, None);
}

#[test]
fn whisper_requests() {
    let mut config = AppConfig::default();
    config.whisper.api_key = Some("sk".to_string());
    config.whisper.prompt = "默认提示".to_string();
    let c = whisper_client_for(&config, Some(""), Some("zh"));
    assert_eq!(c.api_url, "https://api.openai.com/v1/audio/transcriptions");
    assert_eq!(c.api_key, Some("sk".to_string()));
    assert_eq!(c.model, "whisper-1");
    assert_eq!(c.prompt, Some("默认提示".to_string()));
    assert_eq!(c.language, Some("zh".to_string()));
    assert_eq!(
        form_fields(&c),
        vec![
            ("model".to_string(), "whisper-1".to_string()),
            ("prompt".to_string(), "默认提示".to_string()),
            ("language".to_string(), "zh".to_string()),
        ]
    );
    let c = whisper_client_for(&config, Some("专有名词"), Some(""));
    assert_eq!(c.prompt, Some("专有名词".to_string()));
    assert_eq!(c.language, None);

    let bare = OpenAIWhisperClient::new("u".to_string(), None, "m".to_string(), Some(String::new()), None);
    assert_eq!(form_fields(&bare), vec![("model".to_string(), "m".to_string())]);

    assert_eq!(bearer_header(Some("sk")), Some("Bearer sk".to_string()));
    assert_eq!(bearer_header(Some("")), None);
    assert_eq!(bearer_header(None), None);
}

#[test]
fn audio_upload_names_and_types() {
    assert_eq!(audio_mime("/a/b.wav"), "audio/wav");
    assert_eq!(audio_mime("/a/b.mp3"), "audio/mpeg");
    assert_eq!(audio_mime("/a/b.m4a"), "audio/mp4");
    assert_eq!(audio_mime("/a/b.ogg"), "audio/ogg");
    assert_eq!(audio_mime("/a/b.flac"), "audio/flac");
    assert_eq!(audio_mime("/a/b.aac"), "audio/wav");
    assert_eq!(audio_mime("/a/b"), "audio/wav");
    assert_eq!(upload_name("/a/b.wav"), "b.wav");
    assert_eq!(upload_name("/"), "audio.wav");
}

#[test]
fn whisper_replies() {
    let ok = Json::Object(vec![("text".to_string(), Json::Str("你好".to_string()))]);
    assert_eq!(whisper_text_from_response(&ok), Ok("你好".to_string()));
    assert_eq!(
        whisper_text_from_response(&Json::Object(vec![])),
        Err("Invalid response format: missing 'text' field".to_string())
    );
    assert_eq!(
        whisper_http_error("401 Unauthorized", "no key"),
        "Whisper API 请求失败 (401 Unauthorized): no key"
    );
}

#[test]
fn test_audio_is_a_tenth_of_a_second_of_silence() {
    let wav = create_test_wav();
    assert_eq!(wav.len(), 44 + 3200);
    assert_eq!(&wav[0..4], b"RIFF");
    assert_eq!(u32::from_le_bytes([wav[4], wav[5], wav[6], wav[7]]), 36 + 3200);
    assert_eq!(&wav[8..16], b"WAVEfmt ");
    assert_eq!(u32::from_le_bytes([wav[16], wav[17], wav[18], wav[19]]), 16);
    assert_eq!(u16::from_le_bytes([wav[20], wav[21]]), 1);
    assert_eq!(u16::from_le_bytes([wav[22], wav[23]]), 1);
    assert_eq!(u32::from_le_bytes([wav[24], wav[25], wav[26], wav[27]]), 16000);
    assert_eq!(u32::from_le_bytes([wav[28], wav[29], wav[30], wav[31]]), 32000);
    assert_eq!(u16::from_le_bytes([wav[32], wav[33]]), 2);
    assert_eq!(u16::from_le_bytes([wav[34], wav[35]]), 16);
    assert_eq!(&wav[36..40], b"data");
    assert_eq!(u32::from_le_bytes([wav[40], wav[41], wav[42], wav[43]]), 3200);
    assert!(wav[44..].iter().all(|b| *b == 0));
}

#[test]
fn audio_file_from_the_printed_path() {
    assert_eq!(printed_path("/a/Song.mp3\n"), Some("/a/Song.mp3".to_string()));
    assert_eq!(printed_path("noise\n  /a/x y.mp3  \n\n  \n"), Some("/a/x y.mp3".to_string()));
    assert_eq!(printed_path(" \n\n"), None);
    let files = vec![("/a/old.mp3".to_string(), 1u128), ("/a/new.mp3".to_string(), 2)];
    assert_eq!(downloaded_audio_file("/a/printed.mp3\n", &files, "mp3"), Some("/a/printed.mp3".to_string()));
    assert_eq!(downloaded_audio_file("\n", &files, "mp3"), Some("/a/new.mp3".to_string()));
    assert_eq!(downloaded_audio_file("", &vec![], "mp3"), None);
}
