use bilibili_transcript::commands::{
    browser_cookie_string, browser_export_args, browser_export_failed, browser_import_done,
    cover_data_url, folder_request, format_duration, parse_cookie_content, require_cookie,
};
use bilibili_transcript::bilibili::api::{extract_uid_from_cookie, favorites_url};
use bilibili_transcript::config::AppConfig;

#[test]
fn cookie_export_is_read_by_field() {
    let content = "# Netscape HTTP Cookie File\n\n.bilibili.com\tTRUE\t/\tFALSE\t0\tSESSDATA\ts1\n  .bilibili.com\tTRUE\t/\tFALSE\t0\tDedeUserID\t42  \n.bilibili.com\tTRUE\t/\tFALSE\t0\tbili_jct\tj\n.bilibili.com\tTRUE\t/\tFALSE\t0\tother\tz\nshort\tline\n";
    assert_eq!(
        parse_cookie_content(content),
        Ok(("s1".to_string(), "42".to_string(), "j".to_string()))
    );
    // later lines win
    let twice = ".b\tTRUE\t/\tFALSE\t0\tSESSDATA\ta\n.b\tTRUE\t/\tFALSE\t0\tSESSDATA\tb\n.b\tTRUE\t/\tFALSE\t0\tDedeUserID\t1";
    assert_eq!(parse_cookie_content(twice), Ok(("b".to_string(), "1".to_string(), String::new())));
    // commented lines (such as #HttpOnly_ ones) are skipped
    let http_only = "#HttpOnly_.bilibili.com\tTRUE\t/\tFALSE\t0\tSESSDATA\ts\n.b\tTRUE\t/\tFALSE\t0\tDedeUserID\t1";
    assert_eq!(parse_cookie_content(http_only), Err("未找到 SESSDATA 或 DedeUserID".to_string()));
    assert_eq!(parse_cookie_content(""), Err("未找到 SESSDATA 或 DedeUserID".to_string()));
}

#[test]
fn browser_import_messages_and_arguments() {
    assert_eq!(browser_cookie_string("s", "1", "j"), "SESSDATA=s; DedeUserID=1; bili_jct=j");
    assert_eq!(
        browser_export_args("chrome", "/tmp/c.txt"),
        vec![
            "--cookies-from-browser", "chrome", "--cookies", "/tmp/c.txt", "--skip-download",
            "--print", "", "https://www.bilibili.com/video/BV1xx411c7mD",
        ]
    );
    assert_eq!(
        browser_export_failed("safari", "denied"),
        "无法从 safari 读取 Cookie。请确保：\n1. 浏览器中已登录 B站\n2. yt-dlp 版本支持该浏览器\n\n错误信息: denied"
    );
    assert_eq!(browser_import_done("firefox", "42"), "成功从 firefox 读取 Cookie (用户: 42)");
}

#[test]
fn favourite_requests_are_checked() {
    assert_eq!(
        require_cookie(&AppConfig::default()),
        Err("未配置 B站 Cookie，请先在设置中导入 Cookie".to_string())
    );
    assert_eq!(folder_request("123", Some(3)), Ok((123, 3)));
    assert_eq!(folder_request("123", None), Ok((123, 1)));
    assert_eq!(folder_request("-7", None), Ok((-7, 1)));
    assert_eq!(folder_request("12a", None), Err("无效的收藏夹 ID".to_string()));
    assert_eq!(folder_request("", Some(2)), Err("无效的收藏夹 ID".to_string()));
}

#[test]
fn durations_in_history() {
    assert_eq!(format_duration(0), "00:00");
    assert_eq!(format_duration(59), "00:59");
    assert_eq!(format_duration(61), "01:01");
    assert_eq!(format_duration(3600), "01:00:00");
    assert_eq!(format_duration(3725), "01:02:05");
    assert_eq!(format_duration(36000 * 10), "100:00:00");
}

#[test]
fn cover_images_become_data_urls() {
    assert_eq!(cover_data_url(&b"Man".to_vec()), "data:image/jpeg;base64,TWFu");
    assert_eq!(cover_data_url(&b"Ma".to_vec()), "data:image/jpeg;base64,TWE=");
    assert_eq!(cover_data_url(&b"M".to_vec()), "data:image/jpeg;base64,TQ==");
    assert_eq!(cover_data_url(&vec![]), "data:image/jpeg;base64,");
    assert_eq!(cover_data_url(&vec![0xfb, 0xff, 0xbf, 0x00]), "data:image/jpeg;base64,+/+/AA==");
}

#[test]
fn imported_cookie_names_the_user() {
    let c = browser_cookie_string("abc,def", "42", "jct;x");
    assert_eq!(extract_uid_from_cookie(&c), Some("42".to_string()));
    assert_eq!(
        favorites_url(&c),
        Ok("https://api.bilibili.com/x/v3/fav/folder/created/list-all?up_mid=42".to_string())
    );
    // a session value holding `;DedeUserID=` names another user
    let c = browser_cookie_string("x;DedeUserID=7", "42", "j");
    assert_eq!(extract_uid_from_cookie(&c), Some("7".to_string()));
}
