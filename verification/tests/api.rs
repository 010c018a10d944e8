use bilibili_transcript::bilibili::api::{extract_bvid, extract_uid_from_cookie};

#[test]
fn test_extract_bvid() {
    assert_eq!(
        extract_bvid("https://www.bilibili.com/video/BV1xx411c7mD"),
        Some("BV1xx411c7mD".to_string())
    );
    assert_eq!(extract_bvid("BV1xx411c7mD"), Some("BV1xx411c7mD".to_string()));
    assert_eq!(
        extract_bvid("https://m.bilibili.com/video/BV1xx411c7mD?p=1"),
        Some("BV1xx411c7mD".to_string())
    );
    assert_eq!(extract_bvid("https://www.bilibili.com"), None);
}

#[test]
fn test_extract_uid_from_cookie() {
    assert_eq!(
        extract_uid_from_cookie("DedeUserID=12345; bili_jct=abc"),
        Some("12345".to_string())
    );
    assert_eq!(extract_uid_from_cookie("bili_jct=abc"), None);
}
