use bilibili_transcript::bilibili::api::{
    format_list_args, raw_format_from_json, raw_formats_from_json,
    select_formats, RawFormat,
};
use bilibili_transcript::json::Json;

fn s(t: &str) -> Json {
    Json::Str(t.to_string())
}

fn n(v: i64) -> Json {
    Json::Number(Some(v))
}

fn obj(pairs: Vec<(&str, Json)>) -> Json {
    Json::Object(pairs.into_iter().map(|(k, v)| (k.to_string(), v)).collect())
}

fn raw(id: &str, height: i64, ext: &str, filesize: Option<i64>) -> RawFormat {
    RawFormat { format_id: id.to_string(), height, ext: ext.to_string(), filesize }
}

#[test]
fn format_listing_arguments() {
    let ua = "Mozilla/5.0 (Macintosh; Intel Mac OS X 10_15_7) AppleWebKit/537.36 (KHTML, like Gecko) Chrome/120.0.0.0 Safari/537.36";
    assert_eq!(
        format_list_args("https://b23.tv/x", Some("/tmp/c.txt")),
        vec![
            "-F", "--dump-json", "--no-playlist", "--user-agent", ua, "--referer",
            "https://www.bilibili.com", "--cookies", "/tmp/c.txt", "https://b23.tv/x",
        ]
    );
    assert_eq!(
        format_list_args("u", None),
        vec!["-F", "--dump-json", "--no-playlist", "--user-agent", ua, "--referer", "https://www.bilibili.com", "u"]
    );
}

#[test]
fn reading_one_listed_format() {
    let f = raw_format_from_json(&obj(vec![
        ("format_id", s("30080")),
        ("vcodec", s("avc1.640032")),
        ("ext", s("mp4")),
        ("height", n(1080)),
        ("filesize", n(1234)),
    ]))
    .expect("a video format");
    assert_eq!(f.format_id, "30080");
    assert_eq!(f.height, 1080);
    assert_eq!(f.ext, "mp4");
    assert_eq!(f.filesize, Some(1234));

    // height from the resolution, size from the approximation
    let f = raw_format_from_json(&obj(vec![
        ("format_id", s("x")),
        ("resolution", s("1920x1080")),
        ("filesize_approx", n(55)),
    ]))
    .expect("a video format");
    assert_eq!(f.height, 1080);
    assert_eq!(f.filesize, Some(55));
    assert_eq!(f.ext, "");

    // audio only
    assert!(raw_format_from_json(&obj(vec![("vcodec", s("none")), ("height", n(720))])).is_none());
    // no usable height
    assert!(raw_format_from_json(&obj(vec![("resolution", s("audio only"))])).is_none());
    assert!(raw_format_from_json(&obj(vec![("height", n(0))])).is_none());
}

#[test]
fn reading_a_listing_keeps_video_rows_in_order() {
    let rows = vec![
        obj(vec![("format_id", s("a")), ("height", n(720))]),
        obj(vec![("format_id", s("b")), ("vcodec", s("none"))]),
        Json::Null,
        obj(vec![("format_id", s("c")), ("height", n(360))]),
    ];
    let r = raw_formats_from_json(&rows);
    assert_eq!(r.len(), 2);
    assert_eq!(r[0].format_id, "a");
    assert_eq!(r[1].format_id, "c");
}

#[test]
fn one_best_format_per_quality_highest_first() {
    let formats = vec![
        raw("30080", 1080, "webm", Some(1310720)),
        raw("100026", 1080, "webm", Some(5_000_000)),
        raw("30077", 1000, "flv", Some(9_000_000)),
        raw("30064", 720, "mp4", None),
        raw("30032", 486, "flv", Some(2048)),
        raw("30011", 700, "flv", None),
        raw("tiny", 100, "mp4", Some(1)),
    ];
    let r = select_formats(&formats);
    assert_eq!(r.len(), 3);

    // no mp4 at 1080P: the largest file wins
    assert_eq!(r[0].format_id, "30077");
    assert_eq!(r[0].quality, "1080P");
    let mb = format!(" {:.1}MB", 9_000_000f64 / (1024.0 * 1024.0));
    assert_eq!(r[0].description, format!("1080P{}", mb));
    assert_eq!(r[0].description, "1080P 8.6MB");
    assert_eq!(r[0].filesize, Some(9_000_000));

    // mp4 first
    assert_eq!(r[1].format_id, "30064");
    assert_eq!(r[1].quality, "720P");
    assert_eq!(r[1].description, "720P");
    assert_eq!(r[1].filesize, None);

    // below a megabyte no size is shown
    assert_eq!(r[2].format_id, "30032");
    assert_eq!(r[2].quality, "480P");
    assert_eq!(r[2].description, "480P");
}

#[test]
fn size_shown_with_one_decimal_like_float_formatting() {
    for size in [1310720i64, 1048576, 1572864, 1153433, 10_485_759, 1_073_741_824, 3_758_096_384, 1_288_490_189] {
        let r = select_formats(&vec![raw("f", 1080, "mp4", Some(size))]);
        let expected = if size >= 1024 * 1024 * 1024 {
            format!(" {:.1}GB", size as f64 / (1024.0 * 1024.0 * 1024.0))
        } else {
            format!(" {:.1}MB", size as f64 / (1024.0 * 1024.0))
        };
        assert_eq!(r[0].description, format!("1080P{}", expected), "size {}", size);
    }
    // a tie rounds to even, as float formatting does
    let r = select_formats(&vec![raw("f", 1080, "mp4", Some(1310720))]);
    assert_eq!(r[0].description, "1080P 1.2MB");
}

#[test]
fn quality_bands_are_ten_percent_wide() {
    // 972..=1188 is 1080P, 1944..=2376 is 2160P
    let r = select_formats(&vec![raw("lo", 972, "mp4", None), raw("hi", 2376, "mp4", None)]);
    let q: Vec<&str> = r.iter().map(|f| f.quality.as_str()).collect();
    assert_eq!(q, vec!["2160P", "1080P"]);
    let r = select_formats(&vec![raw("out", 971, "mp4", None), raw("out2", 2377, "mp4", None)]);
    assert!(r.is_empty());
}

#[test]
fn mp4_first_then_the_larger_file() {
    // a larger flv does not beat a smaller mp4
    let r = select_formats(&vec![
        raw("flv", 1080, "flv", Some(2 * 1024 * 1024)),
        raw("mp4", 1080, "mp4", Some(1024 * 1024)),
    ]);
    assert_eq!(r[0].format_id, "mp4");
    // among mp4 formats the larger wins; among equals the last listed
    let r = select_formats(&vec![
        raw("a", 1080, "mp4", Some(5)),
        raw("b", 1080, "mp4", Some(9)),
        raw("c", 1080, "webm", Some(100)),
        raw("d", 1080, "mp4", Some(9)),
    ]);
    assert_eq!(r[0].format_id, "d");
    // without mp4 the larger file wins; huge sizes do not overflow
    let r = select_formats(&vec![raw("x", 720, "flv", Some(i64::MAX)), raw("y", 720, "webm", None)]);
    assert_eq!(r[0].format_id, "x");
}
