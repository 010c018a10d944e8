use bilibili_transcript::utils::{resolve_ffmpeg_path, resolve_ytdlp_path, tool_candidates};

// The tools installed with Homebrew on Apple Silicon, as the README asks
// (`brew install yt-dlp ffmpeg`), with no `YT_DLP_PATH`/`FFMPEG_PATH` set
// and `which` not finding them (an app bundle's PATH).
fn homebrew_install() -> Vec<String> {
    vec!["/opt/homebrew/bin/yt-dlp".to_string(), "/opt/homebrew/bin/ffmpeg".to_string()]
}

#[test]
fn test_resolve_ytdlp_path() {
    let existing = homebrew_install();
    let path = resolve_ytdlp_path(None, None, &existing).expect("yt-dlp should be installed");
    assert!(existing.contains(&path), "yt-dlp not found at {:?}", path);
}

#[test]
fn test_resolve_ffmpeg_path() {
    let existing = homebrew_install();
    let path = resolve_ffmpeg_path(None, None, &existing).expect("ffmpeg should be installed");
    assert!(existing.contains(&path), "ffmpeg not found at {:?}", path);
}

#[test]
fn tool_search_order_prefers_env_then_which() {
    let c = tool_candidates("yt-dlp", Some("/custom/yt-dlp"), Some("  /usr/bin/yt-dlp\n"));
    assert_eq!(
        c,
        vec![
            "/custom/yt-dlp".to_string(),
            "/usr/bin/yt-dlp".to_string(),
            "/opt/homebrew/bin/yt-dlp".to_string(),
            "/usr/local/bin/yt-dlp".to_string(),
            "/usr/bin/yt-dlp".to_string(),
            "/home/linuxbrew/.linuxbrew/bin/yt-dlp".to_string(),
        ]
    );
    let existing = vec!["/usr/local/bin/yt-dlp".to_string(), "/custom/yt-dlp".to_string()];
    assert_eq!(
        resolve_ytdlp_path(Some("/custom/yt-dlp"), None, &existing),
        Ok("/custom/yt-dlp".to_string())
    );
    assert_eq!(
        resolve_ytdlp_path(Some("/missing"), Some(""), &existing),
        Ok("/usr/local/bin/yt-dlp".to_string())
    );
}

#[test]
fn missing_tool_gives_install_hint() {
    assert_eq!(
        resolve_ffmpeg_path(None, None, &vec![]),
        Err("未找到 ffmpeg，请先安装: brew install ffmpeg".to_string())
    );
}
