use bilibili_transcript::bilibili::api::{
    check_api_response, favorite_folders_from_response, favorite_page_from_response,
    favorite_videos_url, favorites_url, https_link_exec, netscape_cookie_file, upload_date,
    video_info_from_response, video_info_url,
};
use bilibili_transcript::bilibili::cookie::{get_cookie, has_cookie, save_cookie};
use bilibili_transcript::bilibili::subtitle::{
    choose_subtitle, parse_srt, subtitle_download_url, subtitle_items_from_response,
    subtitle_list_url, subtitle_source, subtitle_text_from_body,
};
use bilibili_transcript::bilibili::types::SubtitleItem;
use bilibili_transcript::config::AppConfig;
use bilibili_transcript::json::Json;

fn s(t: &str) -> Json {
    Json::Str(t.to_string())
}

fn n(v: i64) -> Json {
    Json::Number(Some(v))
}

fn obj(pairs: Vec<(&str, Json)>) -> Json {
    Json::Object(pairs.into_iter().map(|(k, v)| (k.to_string(), v)).collect())
}

fn track(lan: &str, url: &str) -> SubtitleItem {
    SubtitleItem { lan: lan.to_string(), subtitle_url: url.to_string(), lan_doc: format!("doc-{}", lan) }
}

#[test]
fn netscape_cookie_file_lists_each_pair() {
    assert_eq!(
        netscape_cookie_file(" SESSDATA = abc ; bili_jct=x=y;junk; DedeUserID=42"),
        "# Netscape HTTP Cookie File\n.bilibili.com\tTRUE\t/\tFALSE\t0\tSESSDATA\tabc\n.bilibili.com\tTRUE\t/\tFALSE\t0\tbili_jct\tx=y\n.bilibili.com\tTRUE\t/\tFALSE\t0\tDedeUserID\t42"
    );
    assert_eq!(netscape_cookie_file(""), "# Netscape HTTP Cookie File");
}

#[test]
fn api_reply_codes() {
    assert_eq!(check_api_response(&obj(vec![("code", n(0))])), Ok(()));
    assert_eq!(
        check_api_response(&obj(vec![("code", n(-101)), ("message", s("账号未登录"))])),
        Err("B站 API 错误 (-101): 账号未登录".to_string())
    );
    assert_eq!(check_api_response(&Json::Null), Err("B站 API 错误 (-1): Unknown error".to_string()));
}

#[test]
fn video_info_is_read_from_the_reply() {
    assert_eq!(video_info_url("BV1xx"), "https://api.bilibili.com/x/web-interface/view?bvid=BV1xx");
    let data = obj(vec![
        ("code", n(0)),
        (
            "data",
            obj(vec![
                ("aid", n(7)),
                ("cid", n(8)),
                ("title", s("标题")),
                ("owner", obj(vec![("name", s("UP主"))])),
                ("duration", n(125)),
                ("desc", s("简介")),
                ("pic", s("http://i0.hdslb.com/a.jpg")),
                ("pubdate", n(1700000000)),
            ]),
        ),
    ]);
    let v = video_info_from_response("BV1xx", &data);
    assert_eq!(v.bvid, "BV1xx");
    assert_eq!(v.aid, 7);
    assert_eq!(v.cid, 8);
    assert_eq!(v.title, "标题");
    assert_eq!(v.author, "UP主");
    assert_eq!(v.duration, 125);
    assert_eq!(v.description, "简介");
    assert_eq!(v.cover_url, "https://i0.hdslb.com/a.jpg");
    assert_eq!(v.upload_date, "2023-11-14");

    let empty = video_info_from_response("BV2", &obj(vec![]));
    assert_eq!(empty.aid, 0);
    assert_eq!(empty.title, "");
    assert_eq!(empty.upload_date, "");
}

#[test]
fn upload_dates_in_utc() {
    assert_eq!(upload_date(1700000000), "2023-11-14");
    assert_eq!(upload_date(86400), "1970-01-02");
    assert_eq!(upload_date(0), "");
    assert_eq!(upload_date(-5), "");
}

#[test]
fn cover_links_are_made_https() {
    assert_eq!(https_link_exec("http://a/http://b"), "https://a/https://b");
    assert_eq!(https_link_exec("https://a"), "https://a");
}

#[test]
fn favourites_need_a_user_id() {
    assert_eq!(
        favorites_url("SESSDATA=1; DedeUserID=99"),
        Ok("https://api.bilibili.com/x/v3/fav/folder/created/list-all?up_mid=99".to_string())
    );
    assert_eq!(
        favorites_url("SESSDATA=1"),
        Err("无法从 Cookie 中提取用户 ID (DedeUserID)，请检查 Cookie 是否正确".to_string())
    );
    let folders = favorite_folders_from_response(&obj(vec![(
        "data",
        obj(vec![(
            "list",
            Json::Array(vec![
                obj(vec![("id", n(1)), ("title", s("默认收藏夹")), ("media_count", n(3))]),
                obj(vec![]),
            ]),
        )]),
    )]));
    assert_eq!(folders.len(), 2);
    assert_eq!(folders[0].id, 1);
    assert_eq!(folders[0].title, "默认收藏夹");
    assert_eq!(folders[0].media_count, 3);
    assert_eq!(folders[1].id, 0);
    assert_eq!(folders[1].title, "");
    assert!(favorite_folders_from_response(&Json::Null).is_empty());
}

#[test]
fn favourite_pages() {
    assert_eq!(
        favorite_videos_url(123, 2),
        "https://api.bilibili.com/x/v3/fav/resource/list?media_id=123&ps=20&pn=2"
    );
    let page = favorite_page_from_response(
        &obj(vec![(
            "data",
            obj(vec![
                ("has_more", Json::Bool(true)),
                (
                    "medias",
                    Json::Array(vec![obj(vec![
                        ("bvid", s("BV9")),
                        ("id", n(5)),
                        ("title", s("t")),
                        ("upper", obj(vec![("name", s("u"))])),
                        ("duration", n(61)),
                        ("intro", s("i")),
                        ("cover", s("http://c")),
                    ])]),
                ),
            ]),
        )]),
        2,
    );
    assert_eq!(page.page, 2);
    assert!(page.has_more);
    assert_eq!(page.videos.len(), 1);
    let v = &page.videos[0];
    assert_eq!(v.bvid, "BV9");
    assert_eq!(v.aid, 5);
    assert_eq!(v.cid, 0);
    assert_eq!(v.author, "u");
    assert_eq!(v.duration, 61);
    assert_eq!(v.description, "i");
    assert_eq!(v.cover_url, "https://c");
    assert_eq!(v.upload_date, "");
    let none = favorite_page_from_response(&Json::Null, 1);
    assert!(!none.has_more);
    assert!(none.videos.is_empty());
}

#[test]
fn cookie_read_back_after_save() {
    let mut c = AppConfig::default();
    assert!(!has_cookie(Some(&c)));
    assert!(!has_cookie(None));
    save_cookie(&mut c, "SESSDATA=1");
    assert_eq!(get_cookie(&c), "SESSDATA=1");
    assert!(has_cookie(Some(&c)));
    save_cookie(&mut c, "SESSDATA=2");
    assert_eq!(get_cookie(&c), "SESSDATA=2");
    save_cookie(&mut c, "");
    assert_eq!(get_cookie(&c), "");
    assert!(!has_cookie(Some(&c)));
}

#[test]
fn srt_to_plain_text() {
    let srt = "1\n00:00:01,000 --> 00:00:02,000\n  你好  \n\n2\r\n00:00:03,000 --> 00:00:04,000\r\nworld\r\n\n";
    assert_eq!(parse_srt(srt), "你好\nworld");
    assert_eq!(parse_srt(""), "");
    // a number too large for u32 is kept as text
    assert_eq!(parse_srt("4294967296\n-1\n+7"), "4294967296\n-1");
}

#[test]
fn human_subtitles_are_preferred() {
    let items = vec![track("en", "e"), track("ai-zh", "a"), track("zh-Hans-ai", "z1"), track("zh-CN", "z2")];
    assert_eq!(choose_subtitle(&items), Some(3));
    let items = vec![track("en", "e"), track("zh-ai", "z1")];
    assert_eq!(choose_subtitle(&items), Some(1));
    let items = vec![track("en", "e"), track("ja", "j")];
    assert_eq!(choose_subtitle(&items), Some(0));
    assert_eq!(choose_subtitle(&vec![]), None);
    assert_eq!(subtitle_source("ai-zh"), "ai");
    assert_eq!(subtitle_source("zh-CN"), "cc");
}

#[test]
fn subtitle_list_request_and_reply() {
    assert_eq!(subtitle_list_url("BV1", 77), "https://api.bilibili.com/x/player/v2?bvid=BV1&cid=77");
    let reply = obj(vec![
        ("code", n(0)),
        (
            "data",
            obj(vec![(
                "subtitle",
                obj(vec![(
                    "subtitles",
                    Json::Array(vec![
                        obj(vec![("lan", s("zh-CN")), ("subtitle_url", s("//x/1.json")), ("lan_doc", s("中文"))]),
                        obj(vec![("lan", s("en")), ("subtitle_url", s(""))]),
                    ]),
                )]),
            )]),
        ),
    ]);
    let items = subtitle_items_from_response(&reply).expect("a list");
    assert_eq!(items.len(), 1);
    assert_eq!(items[0].lan, "zh-CN");
    assert_eq!(items[0].subtitle_url, "//x/1.json");
    assert_eq!(items[0].lan_doc, "中文");
    match subtitle_items_from_response(&obj(vec![("code", n(-400)), ("message", s("bad"))])) {
        Err(e) => assert_eq!(e, "获取字幕列表失败 (-400): bad"),
        Ok(_) => panic!("an error was expected"),
    }
}

#[test]
fn subtitle_download_links_and_body() {
    assert_eq!(subtitle_download_url("//aisubtitle.hdslb.com/a.json"), "https://aisubtitle.hdslb.com/a.json");
    assert_eq!(subtitle_download_url("http://x/a.json"), "http://x/a.json");
    assert_eq!(subtitle_download_url("x/a.json"), "https:x/a.json");
    let body = obj(vec![(
        "body",
        Json::Array(vec![
            obj(vec![("content", s("第一句")), ("to", n(2))]),
            obj(vec![("to", n(3))]),
            obj(vec![("content", s("第二句"))]),
        ]),
    )]);
    assert_eq!(subtitle_text_from_body(&body), "第一句\n第二句");
    assert_eq!(subtitle_text_from_body(&Json::Null), "");
}

#[test]
fn plain_text_is_stable() {
    for srt in [
        "1\n00:00:01,000 --> 00:00:02,000\n  你好  \n\n2\r\n00:00:03,000 --> 00:00:04,000\r\nworld\r\n",
        "  a  \n\n\n b\r\nc\r",
        "",
        "\n\n 7 \n",
    ] {
        let once = parse_srt(srt);
        assert_eq!(parse_srt(&once), once);
        assert!(once.lines().all(|l| !l.is_empty() && l.trim() == l));
    }
}
