//! Bilibili API: link parsing, request URLs and the reading of API replies.

use vstd::prelude::*;
use crate::json::{
    Json, get, get_exec, i64_or, i64_or_exec, str_or, str_or_exec, as_array, as_array_exec,
    bool_or, bool_or_exec,
};
use crate::outside::{regex_find, regex_first_match, format_utc_timestamp, utc_date_text};
use crate::text::{
    chars_of, string_of, split, split_exec, trim, trim_chars, starts_with, starts_with_exec,
    sub_chars, views, idec, dec_i64, extend_str, extend_chars, replace_all, replace_all_exec,
    first_occ, find_exec, lemma_first_occ, join, join_exec, occurs_at, parse_i64_spec,
    parse_i64_exec, dec, dec_u64, str_eq, string_views, owned,
};
use crate::json::as_i64;
use super::types::{VideoInfo, VideoFormat, FavoriteFolder};

verus! {

broadcast use vstd::string::group_string_axioms;

// ---------------------------------------------------------------------------
// Links and cookies
// ---------------------------------------------------------------------------

/// The BV id in `url`: the leftmost match of `(BV[a-zA-Z0-9]+)`.
pub open spec fn bvid_of(url: Seq<char>) -> Option<Seq<char>> {
    match regex_first_match("(BV[a-zA-Z0-9]+)"@, url) {
        Some((_, m)) => Some(m),
        None => None,
    }
}

/// Extracts the BV id from any form of Bilibili video link.
pub fn extract_bvid(url: &str) -> (r: Option<String>)
    ensures
        match r {
            Some(b) => bvid_of(url@) == Some(b@),
            None => bvid_of(url@) is None,
        },
{
    match regex_find("(BV[a-zA-Z0-9]+)", url) {
        Some((_, m)) => Some(m),
        None => None,
    }
}

/// The user id among cookie pieces: the first piece that, trimmed, starts
/// with `DedeUserID=` and has a non-blank value; the value, trimmed.
pub open spec fn uid_in(pieces: Seq<Seq<char>>) -> Option<Seq<char>>
    decreases pieces.len(),
{
    if pieces.len() == 0 {
        None
    } else {
        let t = trim(pieces[0]);
        let v = trim(t.skip("DedeUserID="@.len() as int));
        if starts_with(t, "DedeUserID="@) && v.len() > 0 {
            Some(v)
        } else {
            uid_in(pieces.drop_first())
        }
    }
}

/// The user id (`DedeUserID`) held by a cookie string.
pub open spec fn uid_of_cookie(cookie: Seq<char>) -> Option<Seq<char>> {
    uid_in(split(cookie, ';'))
}

/// Extracts the user id (`DedeUserID`) from a cookie string.
pub fn extract_uid_from_cookie(cookie: &str) -> (r: Option<String>)
    ensures
        match r {
            Some(u) => uid_of_cookie(cookie@) == Some(u@),
            None => uid_of_cookie(cookie@) is None,
        },
{
    let cs = chars_of(cookie);
    let parts = split_exec(cs.as_slice(), ';');
    let prefix = chars_of("DedeUserID=");
    let mut k: usize = 0;
    assert(views(parts@).skip(0) =~= views(parts@));
    while k < parts.len()
        invariant
            k <= parts@.len(),
            prefix@ == "DedeUserID="@,
            uid_of_cookie(cookie@) == uid_in(views(parts@).skip(k as int)),
        decreases parts@.len() - k,
    {
        assert(views(parts@).skip(k as int).drop_first() =~= views(parts@).skip(k + 1));
        assert(views(parts@).skip(k as int)[0] == parts@[k as int]@);
        let t = trim_chars(parts[k].as_slice());
        let rest = if prefix.len() <= t.len() {
            sub_chars(t.as_slice(), prefix.len(), t.len())
        } else {
            Vec::new()
        };
        if starts_with_exec(t.as_slice(), prefix.as_slice()) {
            assert(rest@ =~= t@.skip(prefix@.len() as int));
            let uid = trim_chars(rest.as_slice());
            if uid.len() > 0 {
                return Some(string_of(uid.as_slice()));
            }
        }
        k += 1;
    }
    None
}

/// One line of a Netscape cookie file for a cookie piece `name=value`
/// (split at the first `=`, both sides trimmed); `None` without `=`.
pub open spec fn cookie_line(piece: Seq<char>) -> Option<Seq<char>> {
    let t = trim(piece);
    match first_occ(t, seq!['=']) {
        Some(i) => Some(
            ".bilibili.com\tTRUE\t/\tFALSE\t0\t"@ + trim(t.take(i)) + seq!['\t'] + trim(
                t.skip(i + 1),
            ),
        ),
        None => None,
    }
}

/// The cookie-file lines for a sequence of cookie pieces, in order.
pub open spec fn cookie_lines(pieces: Seq<Seq<char>>) -> Seq<Seq<char>>
    decreases pieces.len(),
{
    if pieces.len() == 0 {
        Seq::empty()
    } else {
        let r = cookie_lines(pieces.drop_last());
        match cookie_line(pieces.last()) {
            Some(l) => r.push(l),
            None => r,
        }
    }
}

/// The Netscape cookie file handed to yt-dlp for a cookie string.
pub open spec fn netscape_cookie_text(cookie: Seq<char>) -> Seq<char> {
    join(seq!["# Netscape HTTP Cookie File"@] + cookie_lines(split(cookie, ';')), seq!['\n'])
}

/// Renders a cookie string (`a=1; b=2`) as a Netscape cookie file for the
/// `.bilibili.com` domain.
pub fn netscape_cookie_file(cookie: &str) -> (r: String)
    ensures
        r@ == netscape_cookie_text(cookie@),
{
    let cs = chars_of(cookie);
    let parts = split_exec(cs.as_slice(), ';');
    let mut lines: Vec<Vec<char>> = Vec::new();
    lines.push(chars_of("# Netscape HTTP Cookie File"));
    let ghost head: Seq<Seq<char>> = seq!["# Netscape HTTP Cookie File"@];
    let mut k: usize = 0;
    while k < parts.len()
        invariant
            k <= parts@.len(),
            views(lines@) == head + cookie_lines(views(parts@).take(k as int)),
            head == seq!["# Netscape HTTP Cookie File"@],
        decreases parts@.len() - k,
    {
        assert(views(parts@).take(k + 1).drop_last() =~= views(parts@).take(k as int));
        assert(views(parts@).take(k + 1).last() == parts@[k as int]@);
        let t = trim_chars(parts[k].as_slice());
        let eq = ['='];
        proof {
            lemma_first_occ(t@, seq!['=']);
        }
        assert(eq@ =~= seq!['=']);
        match find_exec(t.as_slice(), eq.as_slice()) {
            Some(i) => {
                assert(first_occ(t@, seq!['=']) == Some(i as int));
                assert(occurs_at(t@, seq!['='], i as int));
                let tl = t.len();
                assert(i + 1 <= tl);
                let name = trim_chars(sub_chars(t.as_slice(), 0, i).as_slice());
                let value = trim_chars(sub_chars(t.as_slice(), i + 1, tl).as_slice());
                let mut line: Vec<char> = Vec::new();
                extend_str(&mut line, ".bilibili.com\tTRUE\t/\tFALSE\t0\t");
                extend_chars(&mut line, name.as_slice());
                line.push('\t');
                extend_chars(&mut line, value.as_slice());
                assert(t@.subrange(0, i as int) =~= t@.take(i as int));
                assert(t@.subrange(i + 1, t@.len() as int) =~= t@.skip(i + 1));
                assert(line@ =~= ".bilibili.com\tTRUE\t/\tFALSE\t0\t"@ + trim(t@.take(i as int))
                    + seq!['\t'] + trim(t@.skip(i + 1)));
                assert(cookie_line(parts@[k as int]@) == Some(line@));
                let ghost old_lines = lines@;
                let ghost l = line@;
                lines.push(line);
                assert(views(lines@) =~= views(old_lines).push(l));
                assert(cookie_lines(views(parts@).take(k + 1)) == cookie_lines(
                    views(parts@).take(k as int),
                ).push(l));
                assert(views(lines@) =~= head + cookie_lines(views(parts@).take(k + 1)));
            },
            None => {
                assert(views(lines@) =~= head + cookie_lines(views(parts@).take(k + 1)));
            },
        }
        k += 1;
    }
    assert(views(parts@).take(parts@.len() as int) =~= views(parts@));
    let nl = ['\n'];
    assert(nl@ =~= seq!['\n']);
    let text = join_exec(&lines, nl.as_slice());
    string_of(text.as_slice())
}

// ---------------------------------------------------------------------------
// Replies
// ---------------------------------------------------------------------------

/// The error a Bilibili reply stands for: any `code` other than 0 (a missing
/// code counts as -1), with the reply's `message`.
pub open spec fn api_error(data: Json) -> Option<Seq<char>> {
    let code = i64_or(get(data, "code"@), -1i64);
    if code != 0 {
        Some(
            "B站 API 错误 ("@ + idec(code as int) + "): "@ + str_or(
                get(data, "message"@),
                "Unknown error"@,
            ),
        )
    } else {
        None
    }
}

/// Accepts a Bilibili reply whose `code` is 0, else gives its error text.
pub fn check_api_response(data: &Json) -> (r: Result<(), String>)
    ensures
        match r {
            Ok(_) => api_error(*data) is None,
            Err(e) => api_error(*data) == Some(e@),
        },
{
    let code = i64_or_exec(get_exec(data, "code"), -1);
    if code != 0 {
        let mut m: Vec<char> = Vec::new();
        extend_str(&mut m, "B站 API 错误 (");
        let d = dec_i64(code);
        extend_chars(&mut m, d.as_slice());
        extend_str(&mut m, "): ");
        let msg = str_or_exec(get_exec(data, "message"), "Unknown error");
        extend_str(&mut m, msg.as_str());
        Err(string_of(m.as_slice()))
    } else {
        Ok(())
    }
}

/// A cover link forced to `https://`.
pub open spec fn https_link(s: Seq<char>) -> Seq<char> {
    replace_all(s, "http://"@, "https://"@)
}

/// Replaces every `http://` in `s` by `https://`.
pub fn https_link_exec(s: &str) -> (r: String)
    ensures
        r@ == https_link(s@),
{
    proof {
        reveal_strlit("http://");
    }
    let cs = chars_of(s);
    let from = chars_of("http://");
    let to = chars_of("https://");
    let v = replace_all_exec(cs.as_slice(), from.as_slice(), to.as_slice());
    string_of(v.as_slice())
}

/// The upload date shown for a publication timestamp: `YYYY-MM-DD` (UTC)
/// for a positive timestamp that chrono can render, else empty.
pub open spec fn upload_date_of(pubdate: i64) -> Seq<char> {
    if pubdate > 0 {
        match utc_date_text(pubdate as int, "%Y-%m-%d"@) {
            Some(t) => t,
            None => Seq::empty(),
        }
    } else {
        Seq::empty()
    }
}

/// Formats a publication timestamp as an upload date.
pub fn upload_date(pubdate: i64) -> (r: String)
    ensures
        r@ == upload_date_of(pubdate),
{
    if pubdate > 0 {
        match format_utc_timestamp(pubdate, "%Y-%m-%d") {
            Some(t) => t,
            None => String::new(),
        }
    } else {
        String::new()
    }
}

/// The URL of the video-information API for `bvid`.
pub open spec fn video_info_url_of(bvid: Seq<char>) -> Seq<char> {
    "https://api.bilibili.com/x/web-interface/view?bvid="@ + bvid
}

/// Builds the video-information API URL.
pub fn video_info_url(bvid: &str) -> (r: String)
    ensures
        r@ == video_info_url_of(bvid@),
{
    let mut v: Vec<char> = Vec::new();
    extend_str(&mut v, "https://api.bilibili.com/x/web-interface/view?bvid=");
    extend_str(&mut v, bvid);
    string_of(v.as_slice())
}

/// `v` is the video information read from a video-information reply for
/// `bvid`: each field from `data`, missing numbers as 0, missing text as
/// empty, the cover forced to https and the date from `pubdate`.
pub open spec fn video_info_read(v: VideoInfo, bvid: Seq<char>, data: Json) -> bool {
    let info = get(data, "data"@);
    &&& v.bvid@ == bvid
    &&& v.aid == i64_or(get(info, "aid"@), 0)
    &&& v.cid == i64_or(get(info, "cid"@), 0)
    &&& v.title@ == str_or(get(info, "title"@), ""@)
    &&& v.author@ == str_or(get(get(info, "owner"@), "name"@), ""@)
    &&& v.duration == i64_or(get(info, "duration"@), 0)
    &&& v.description@ == str_or(get(info, "desc"@), ""@)
    &&& v.cover_url@ == https_link(str_or(get(info, "pic"@), ""@))
    &&& v.upload_date@ == upload_date_of(i64_or(get(info, "pubdate"@), 0))
}

/// Reads the video information out of a video-information reply.
pub fn video_info_from_response(bvid: &str, data: &Json) -> (v: VideoInfo)
    ensures
        video_info_read(v, bvid@, *data),
{
    let info = get_exec(data, "data");
    let pic = str_or_exec(get_exec(info, "pic"), "");
    VideoInfo {
        bvid: string_of(chars_of(bvid).as_slice()),
        aid: i64_or_exec(get_exec(info, "aid"), 0),
        cid: i64_or_exec(get_exec(info, "cid"), 0),
        title: str_or_exec(get_exec(info, "title"), ""),
        author: str_or_exec(get_exec(get_exec(info, "owner"), "name"), ""),
        duration: i64_or_exec(get_exec(info, "duration"), 0),
        description: str_or_exec(get_exec(info, "desc"), ""),
        cover_url: https_link_exec(pic.as_str()),
        upload_date: upload_date(i64_or_exec(get_exec(info, "pubdate"), 0)),
    }
}

// ---------------------------------------------------------------------------
// Favourites
// ---------------------------------------------------------------------------

/// Message when the cookie holds no user id.
pub open spec fn no_uid_message() -> Seq<char> {
    "无法从 Cookie 中提取用户 ID (DedeUserID)，请检查 Cookie 是否正确"@
}

/// The favourites-folder list request for a cookie: the URL for the cookie's
/// user id, or the error when the cookie has none.
pub open spec fn favorites_request_of(cookie: Seq<char>) -> Result<Seq<char>, Seq<char>> {
    match uid_of_cookie(cookie) {
        Some(uid) => Ok("https://api.bilibili.com/x/v3/fav/folder/created/list-all?up_mid="@ + uid),
        None => Err(no_uid_message()),
    }
}

/// Builds the favourites-folder list URL for the user of `cookie`.
pub fn favorites_url(cookie: &str) -> (r: Result<String, String>)
    ensures
        match r {
            Ok(u) => favorites_request_of(cookie@) == Ok::<Seq<char>, Seq<char>>(u@),
            Err(e) => favorites_request_of(cookie@) == Err::<Seq<char>, Seq<char>>(e@),
        },
{
    match extract_uid_from_cookie(cookie) {
        Some(uid) => {
            let mut v: Vec<char> = Vec::new();
            extend_str(&mut v, "https://api.bilibili.com/x/v3/fav/folder/created/list-all?up_mid=");
            extend_str(&mut v, uid.as_str());
            Ok(string_of(v.as_slice()))
        },
        None => Err(string_of(chars_of("无法从 Cookie 中提取用户 ID (DedeUserID)，请检查 Cookie 是否正确").as_slice())),
    }
}

/// `f` is the folder described by the reply item `item`.
pub open spec fn folder_read(f: FavoriteFolder, item: Json) -> bool {
    &&& f.id == i64_or(get(item, "id"@), 0)
    &&& f.title@ == str_or(get(item, "title"@), ""@)
    &&& f.media_count == i64_or(get(item, "media_count"@), 0)
}

/// The folder items of a folder-list reply (`data.list`), if it is an array.
pub open spec fn folder_items(data: Json) -> Option<Seq<Json>> {
    as_array(get(get(data, "data"@), "list"@))
}

/// Reads the favourites folders out of a folder-list reply: one folder per
/// item of `data.list`, in order; none when `data.list` is not an array.
pub fn favorite_folders_from_response(data: &Json) -> (r: Vec<FavoriteFolder>)
    ensures
        match folder_items(*data) {
            Some(items) => r@.len() == items.len() && forall|i: int|
                0 <= i < items.len() ==> folder_read(#[trigger] r@[i], items[i]),
            None => r@.len() == 0,
        },
{
    let mut r: Vec<FavoriteFolder> = Vec::new();
    match as_array_exec(get_exec(get_exec(data, "data"), "list")) {
        Some(items) => {
            let mut k: usize = 0;
            while k < items.len()
                invariant
                    k <= items@.len(),
                    r@.len() == k,
                    forall|i: int| 0 <= i < k ==> folder_read(#[trigger] r@[i], items@[i]),
                decreases items@.len() - k,
            {
                let item = &items[k];
                let f = FavoriteFolder {
                    id: i64_or_exec(get_exec(item, "id"), 0),
                    title: str_or_exec(get_exec(item, "title"), ""),
                    media_count: i64_or_exec(get_exec(item, "media_count"), 0),
                };
                r.push(f);
                k += 1;
            }
        },
        None => {},
    }
    r
}

/// One page of a favourites folder.
#[derive(Debug)]
pub struct FavoritePage {
    pub videos: Vec<VideoInfo>,
    pub has_more: bool,
    pub page: i64,
}

/// The URL of page `page` (20 videos a page) of folder `media_id`.
pub open spec fn favorite_videos_url_of(media_id: i64, page: i64) -> Seq<char> {
    "https://api.bilibili.com/x/v3/fav/resource/list?media_id="@ + idec(media_id as int)
        + "&ps=20&pn="@ + idec(page as int)
}

/// Builds the URL of one page of a favourites folder.
pub fn favorite_videos_url(media_id: i64, page: i64) -> (r: String)
    ensures
        r@ == favorite_videos_url_of(media_id, page),
{
    let mut v: Vec<char> = Vec::new();
    extend_str(&mut v, "https://api.bilibili.com/x/v3/fav/resource/list?media_id=");
    extend_chars(&mut v, dec_i64(media_id).as_slice());
    extend_str(&mut v, "&ps=20&pn=");
    extend_chars(&mut v, dec_i64(page).as_slice());
    string_of(v.as_slice())
}

/// `v` is the video described by a folder-page item: no cid and no upload
/// date are given there.
pub open spec fn media_read(v: VideoInfo, item: Json) -> bool {
    &&& v.bvid@ == str_or(get(item, "bvid"@), ""@)
    &&& v.aid == i64_or(get(item, "id"@), 0)
    &&& v.cid == 0
    &&& v.title@ == str_or(get(item, "title"@), ""@)
    &&& v.author@ == str_or(get(get(item, "upper"@), "name"@), ""@)
    &&& v.duration == i64_or(get(item, "duration"@), 0)
    &&& v.description@ == str_or(get(item, "intro"@), ""@)
    &&& v.cover_url@ == https_link(str_or(get(item, "cover"@), ""@))
    &&& v.upload_date@ == Seq::<char>::empty()
}

/// The video items of a folder-page reply (`data.medias`), if an array.
pub open spec fn media_items(data: Json) -> Option<Seq<Json>> {
    as_array(get(get(data, "data"@), "medias"@))
}

/// Reads one page of a favourites folder out of its reply.
pub fn favorite_page_from_response(data: &Json, page: i64) -> (r: FavoritePage)
    ensures
        r.page == page,
        r.has_more == bool_or(get(get(*data, "data"@), "has_more"@), false),
        match media_items(*data) {
            Some(items) => r.videos@.len() == items.len() && forall|i: int|
                0 <= i < items.len() ==> media_read(#[trigger] r.videos@[i], items[i]),
            None => r.videos@.len() == 0,
        },
{
    let d = get_exec(data, "data");
    let has_more = bool_or_exec(get_exec(d, "has_more"), false);
    let mut videos: Vec<VideoInfo> = Vec::new();
    match as_array_exec(get_exec(d, "medias")) {
        Some(items) => {
            let mut k: usize = 0;
            while k < items.len()
                invariant
                    k <= items@.len(),
                    videos@.len() == k,
                    forall|i: int| 0 <= i < k ==> media_read(#[trigger] videos@[i], items@[i]),
                decreases items@.len() - k,
            {
                let item = &items[k];
                let cover = str_or_exec(get_exec(item, "cover"), "");
                let v = VideoInfo {
                    bvid: str_or_exec(get_exec(item, "bvid"), ""),
                    aid: i64_or_exec(get_exec(item, "id"), 0),
                    cid: 0,
                    title: str_or_exec(get_exec(item, "title"), ""),
                    author: str_or_exec(get_exec(get_exec(item, "upper"), "name"), ""),
                    duration: i64_or_exec(get_exec(item, "duration"), 0),
                    description: str_or_exec(get_exec(item, "intro"), ""),
                    cover_url: https_link_exec(cover.as_str()),
                    upload_date: String::new(),
                };
                videos.push(v);
                k += 1;
            }
        },
        None => {},
    }
    FavoritePage { videos, has_more, page }
}

// ---------------------------------------------------------------------------
// Video formats (yt-dlp `--dump-json` lines)
// ---------------------------------------------------------------------------

/// The browser identity sent to the Bilibili API and to yt-dlp for listings.
pub open spec fn api_user_agent() -> Seq<char> {
    "Mozilla/5.0 (Macintosh; Intel Mac OS X 10_15_7) AppleWebKit/537.36 (KHTML, like Gecko) Chrome/120.0.0.0 Safari/537.36"@
}

/// The yt-dlp arguments that list the formats of `url`, with the cookie file
/// when there is one.
pub open spec fn format_list_args_of(url: Seq<char>, cookie_file: Option<Seq<char>>) -> Seq<
    Seq<char>,
> {
    let base = seq![
        "-F"@,
        "--dump-json"@,
        "--no-playlist"@,
        "--user-agent"@,
        api_user_agent(),
        "--referer"@,
        "https://www.bilibili.com"@,
    ];
    let with_cookie = match cookie_file {
        Some(p) => base + seq!["--cookies"@, p],
        None => base,
    };
    with_cookie.push(url)
}

/// Builds the yt-dlp arguments that list the formats of `url`.
pub fn format_list_args(url: &str, cookie_file: Option<&str>) -> (r: Vec<String>)
    ensures
        string_views(r@) == format_list_args_of(
            url@,
            match cookie_file {
                Some(p) => Some(p@),
                None => None,
            },
        ),
{
    let mut r: Vec<String> = Vec::new();
    r.push(owned("-F"));
    r.push(owned("--dump-json"));
    r.push(owned("--no-playlist"));
    r.push(owned("--user-agent"));
    r.push(owned(
        "Mozilla/5.0 (Macintosh; Intel Mac OS X 10_15_7) AppleWebKit/537.36 (KHTML, like Gecko) Chrome/120.0.0.0 Safari/537.36",
    ));
    r.push(owned("--referer"));
    r.push(owned("https://www.bilibili.com"));
    match cookie_file {
        Some(p) => {
            r.push(owned("--cookies"));
            r.push(owned(p));
        },
        None => {},
    }
    r.push(owned(url));
    assert(string_views(r@) =~= format_list_args_of(
        url@,
        match cookie_file {
            Some(p) => Some(p@),
            None => None,
        },
    ));
    r
}

/// A video format as listed by yt-dlp, before grouping.
#[derive(Debug)]
pub struct RawFormat {
    pub format_id: String,
    pub height: i64,
    pub ext: String,
    pub filesize: Option<i64>,
}

/// The height of a listed format: `height`, else the number after the
/// first `x` of `resolution` (`1920x1080`), else 0.
pub open spec fn height_of(d: Json) -> i64 {
    match as_i64(get(d, "height"@)) {
        Some(h) => h,
        None => {
            let pieces = split(str_or(get(d, "resolution"@), ""@), 'x');
            if pieces.len() >= 2 {
                match parse_i64_spec(pieces[1]) {
                    Some(v) => v as i64,
                    None => 0,
                }
            } else {
                0
            }
        },
    }
}

/// The size of a listed format: `filesize`, else `filesize_approx`.
pub open spec fn filesize_of(d: Json) -> Option<i64> {
    match as_i64(get(d, "filesize"@)) {
        Some(s) => Some(s),
        None => as_i64(get(d, "filesize_approx"@)),
    }
}

/// A listed format is kept when it has video (`vcodec` is not `none`) and a
/// positive height.
pub open spec fn is_video_format(d: Json) -> bool {
    str_or(get(d, "vcodec"@), ""@) != "none"@ && height_of(d) > 0
}

/// `f` holds the fields of the listed format `d`.
pub open spec fn raw_format_read(f: RawFormat, d: Json) -> bool {
    &&& f.format_id@ == str_or(get(d, "format_id"@), ""@)
    &&& f.height == height_of(d)
    &&& f.ext@ == str_or(get(d, "ext"@), ""@)
    &&& f.filesize == filesize_of(d)
}

/// Reads one yt-dlp format description; `None` for audio-only formats and
/// for formats without a positive height.
pub fn raw_format_from_json(d: &Json) -> (r: Option<RawFormat>)
    ensures
        match r {
            Some(f) => is_video_format(*d) && raw_format_read(f, *d),
            None => !is_video_format(*d),
        },
{
    let format_id = str_or_exec(get_exec(d, "format_id"), "");
    let vcodec = str_or_exec(get_exec(d, "vcodec"), "");
    let ext = str_or_exec(get_exec(d, "ext"), "");
    let filesize = match get_exec(d, "filesize") {
        Json::Number(Some(s)) => Some(*s),
        _ => match get_exec(d, "filesize_approx") {
            Json::Number(Some(s)) => Some(*s),
            _ => None,
        },
    };
    if str_eq(vcodec.as_str(), "none") {
        return None;
    }
    let height: i64 = match get_exec(d, "height") {
        Json::Number(Some(h)) => *h,
        _ => {
            let res = str_or_exec(get_exec(d, "resolution"), "");
            let pieces = split_exec(chars_of(res.as_str()).as_slice(), 'x');
            if pieces.len() >= 2 {
                assert(views(pieces@)[1] == pieces@[1]@);
                match parse_i64_exec(pieces[1].as_slice()) {
                    Some(v) => v,
                    None => 0,
                }
            } else {
                0
            }
        },
    };
    if height > 0 {
        Some(RawFormat { format_id, height, ext, filesize })
    } else {
        None
    }
}

/// The rows of a yt-dlp listing that describe video formats, in order.
pub open spec fn video_rows(rows: Seq<Json>) -> Seq<Json>
    decreases rows.len(),
{
    if rows.len() == 0 {
        Seq::empty()
    } else {
        let rest = video_rows(rows.drop_last());
        if is_video_format(rows.last()) {
            rest.push(rows.last())
        } else {
            rest
        }
    }
}

/// Reads every row of a yt-dlp listing, keeping the video formats in order.
pub fn raw_formats_from_json(rows: &Vec<Json>) -> (r: Vec<RawFormat>)
    ensures
        r@.len() == video_rows(rows@).len(),
        forall|i: int|
            0 <= i < r@.len() ==> raw_format_read(#[trigger] r@[i], video_rows(rows@)[i]),
{
    let mut r: Vec<RawFormat> = Vec::new();
    let mut k: usize = 0;
    while k < rows.len()
        invariant
            k <= rows@.len(),
            r@.len() == video_rows(rows@.take(k as int)).len(),
            forall|i: int|
                0 <= i < r@.len() ==> raw_format_read(
                    #[trigger] r@[i],
                    video_rows(rows@.take(k as int))[i],
                ),
        decreases rows@.len() - k,
    {
        assert(rows@.take(k + 1).drop_last() =~= rows@.take(k as int));
        assert(rows@.take(k + 1).last() == rows@[k as int]);
        match raw_format_from_json(&rows[k]) {
            Some(f) => {
                r.push(f);
            },
            None => {},
        }
        k += 1;
    }
    assert(rows@.take(rows@.len() as int) =~= rows@);
    r
}

/// Whether a format is an mp4 file.
pub open spec fn is_mp4(f: RawFormat) -> bool {
    f.ext@ == "mp4"@
}

/// The size a format is ranked by (an unknown size counts as 0).
pub open spec fn size_key(f: RawFormat) -> int {
    match f.filesize {
        Some(s) => s as int,
        None => 0int,
    }
}

/// The ranking of formats within one quality: mp4 first, then the larger
/// file. `ranks_at_most(a, b)` holds when `b` ranks at least as high as `a`.
pub open spec fn ranks_at_most(a: RawFormat, b: RawFormat) -> bool {
    ||| !is_mp4(a) && is_mp4(b)
    ||| is_mp4(a) == is_mp4(b) && size_key(a) <= size_key(b)
}

/// The formats whose height lies in `lo..=hi`, in order.
pub open spec fn in_band(fs: Seq<RawFormat>, lo: int, hi: int) -> Seq<RawFormat>
    decreases fs.len(),
{
    if fs.len() == 0 {
        Seq::empty()
    } else {
        let r = in_band(fs.drop_last(), lo, hi);
        if lo <= fs.last().height <= hi {
            r.push(fs.last())
        } else {
            r
        }
    }
}

/// The best-ranked format of a non-empty sequence; among equals the last one
/// (as `Iterator::max_by_key` picks).
pub open spec fn best_of(c: Seq<RawFormat>) -> RawFormat
    recommends
        c.len() > 0,
    decreases c.len(),
{
    if c.len() <= 1 {
        c[0]
    } else {
        let b = best_of(c.drop_last());
        if ranks_at_most(b, c.last()) {
            c.last()
        } else {
            b
        }
    }
}

/// The heights of the standard qualities: 2160P, 1440P, 1080P, 720P, 480P
/// and 360P.
pub open spec fn is_standard_height(t: i64) -> bool {
    t == 2160 || t == 1440 || t == 1080 || t == 720 || t == 480 || t == 360
}

/// The standard qualities, best first.
pub open spec fn standard_heights() -> Seq<i64> {
    seq![2160i64, 1440i64, 1080i64, 720i64, 480i64, 360i64]
}

/// The format picked for quality `t`: the best of those within 10% of `t`.
pub open spec fn pick_for(raw: Seq<RawFormat>, t: int) -> Option<RawFormat> {
    let c = in_band(raw, t * 9 / 10, t * 11 / 10);
    if c.len() == 0 {
        None
    } else {
        Some(best_of(c))
    }
}

/// The qualities among `ts` that have a pick, each with its pick, in order.
pub open spec fn picks(raw: Seq<RawFormat>, ts: Seq<i64>) -> Seq<(RawFormat, i64)>
    decreases ts.len(),
{
    if ts.len() == 0 {
        Seq::empty()
    } else {
        let r = picks(raw, ts.drop_last());
        match pick_for(raw, ts.last() as int) {
            Some(f) => r.push((f, ts.last())),
            None => r,
        }
    }
}

/// `s * 10 / unit` rounded to an integer, ties to even: the tenths shown by
/// `format!("{:.1}", s as f64 / unit as f64)` (exact below 2^53).
pub open spec fn tenths(s: int, unit: int) -> int {
    let q = (s * 10) / unit;
    let r = (s * 10) % unit;
    if 2 * r > unit || (2 * r == unit && q % 2 == 1) {
        q + 1
    } else {
        q
    }
}

/// `s / unit` written with one decimal.
pub open spec fn one_decimal(s: int, unit: int) -> Seq<char> {
    let t = tenths(s, unit);
    dec((t / 10) as nat) + seq!['.'] + dec((t % 10) as nat)
}

/// The size shown after a quality: ` x.yGB` from 1 GiB, ` x.yMB` from
/// 1 MiB, nothing below or without a size.
pub open spec fn size_suffix(fs: Option<i64>) -> Seq<char> {
    match fs {
        Some(s) => if s >= 1073741824 {
            seq![' '] + one_decimal(s as int, 1073741824) + "GB"@
        } else if s >= 1048576 {
            seq![' '] + one_decimal(s as int, 1048576) + "MB"@
        } else {
            Seq::empty()
        },
        None => Seq::empty(),
    }
}

/// Writes `s / unit` with one decimal, rounding ties to even.
pub fn one_decimal_exec(s: i64, unit: u64) -> (r: Vec<char>)
    requires
        s >= unit,
        unit == 1073741824 || unit == 1048576,
    ensures
        r@ == one_decimal(s as int, unit as int),
{
    let n: u128 = (s as u128) * 10;
    let q: u128 = n / (unit as u128);
    let rem: u128 = n % (unit as u128);
    let t: u128 = if 2 * rem > unit as u128 || (2 * rem == unit as u128 && q % 2 == 1) {
        q + 1
    } else {
        q
    };
    assert(t == tenths(s as int, unit as int));
    assert(t <= 0xffff_ffff_ffff_ffffu128) by (nonlinear_arith)
        requires
            t <= q + 1,
            q == n / (unit as u128),
            n <= 0x7fff_ffff_ffff_ffffu128 * 10,
            unit >= 1048576,
    ;
    let mut r = dec_u64((t / 10) as u64);
    r.push('.');
    extend_chars(&mut r, dec_u64((t % 10) as u64).as_slice());
    r
}

/// The size shown after a quality.
pub fn size_suffix_exec(fs: Option<i64>) -> (r: Vec<char>)
    ensures
        r@ == size_suffix(fs),
{
    match fs {
        Some(s) => if s >= 1073741824 {
            let mut r: Vec<char> = Vec::new();
            r.push(' ');
            extend_chars(&mut r, one_decimal_exec(s, 1073741824).as_slice());
            extend_str(&mut r, "GB");
            r
        } else if s >= 1048576 {
            let mut r: Vec<char> = Vec::new();
            r.push(' ');
            extend_chars(&mut r, one_decimal_exec(s, 1048576).as_slice());
            extend_str(&mut r, "MB");
            r
        } else {
            Vec::new()
        },
        None => Vec::new(),
    }
}

/// `v` is the entry shown for quality `t` with the picked format `f`.
pub open spec fn format_entry(v: VideoFormat, f: RawFormat, t: i64) -> bool {
    &&& v.format_id@ == f.format_id@
    &&& v.quality@ == dec(t as nat) + seq!['P']
    &&& v.description@ == dec(t as nat) + seq!['P'] + size_suffix(f.filesize)
    &&& v.filesize == f.filesize
}

/// Picks, for each standard quality (2160P down to 360P), the best format
/// within 10% of its height, preferring mp4 and then the larger file.
pub fn select_formats(raw: &Vec<RawFormat>) -> (r: Vec<VideoFormat>)
    ensures
        r@.len() == picks(raw@, standard_heights()).len(),
        forall|i: int|
            0 <= i < r@.len() ==> format_entry(
                #[trigger] r@[i],
                picks(raw@, standard_heights())[i].0,
                picks(raw@, standard_heights())[i].1,
            ),
        forall|t: i64, g: RawFormat|
            #[trigger] is_standard_height(t) && #[trigger] raw@.contains(g) && t * 9 / 10
                <= g.height <= t * 11 / 10 ==> exists|i: int|
                0 <= i < r@.len() && (#[trigger] r@[i]).quality@ == dec(t as nat) + seq!['P'],
{
    let heights: [i64; 6] = [2160, 1440, 1080, 720, 480, 360];
    assert(heights@ =~= standard_heights());
    let mut r: Vec<VideoFormat> = Vec::new();
    let mut j: usize = 0;
    while j < 6
        invariant
            j <= 6,
            heights@ == standard_heights(),
            r@.len() == picks(raw@, heights@.take(j as int)).len(),
            forall|i: int|
                0 <= i < r@.len() ==> format_entry(
                    #[trigger] r@[i],
                    picks(raw@, heights@.take(j as int))[i].0,
                    picks(raw@, heights@.take(j as int))[i].1,
                ),
        decreases 6 - j,
    {
        let t = heights[j];
        assert(heights@.take(j + 1).drop_last() =~= heights@.take(j as int));
        assert(heights@.take(j + 1).last() == t);
        let lo = t * 9 / 10;
        let hi = t * 11 / 10;
        match best_in_band(raw, lo, hi) {
            Some(b) => {
                let f = &raw[b];
                let mut q: Vec<char> = dec_u64(t as u64);
                q.push('P');
                let mut desc: Vec<char> = dec_u64(t as u64);
                desc.push('P');
                extend_chars(&mut desc, size_suffix_exec(f.filesize).as_slice());
                let v = VideoFormat {
                    format_id: f.format_id.clone(),
                    quality: string_of(q.as_slice()),
                    description: string_of(desc.as_slice()),
                    filesize: f.filesize,
                };
                assert(q@ =~= dec(t as nat) + seq!['P']);
                assert(desc@ =~= dec(t as nat) + seq!['P'] + size_suffix(f.filesize));
                assert(pick_for(raw@, t as int) == Some(raw@[b as int]));
                assert(picks(raw@, heights@.take(j + 1)) == picks(raw@, heights@.take(j as int)).push(
                    (raw@[b as int], t),
                ));
                let ghost before = r@;
                r.push(v);
                assert(forall|i: int|
                    0 <= i < before.len() ==> r@[i] == before[i]);
            },
            None => {
                assert(pick_for(raw@, t as int) is None);
            },
        }
        j += 1;
    }
    assert(heights@.take(6) =~= heights@);
    assert forall|t: i64, g: RawFormat|
        #[trigger] is_standard_height(t) && #[trigger] raw@.contains(g) && t * 9 / 10 <= g.height
            <= t * 11 / 10 implies exists|i: int|
            0 <= i < r@.len() && (#[trigger] r@[i]).quality@ == dec(t as nat) + seq!['P'] by {
        law_every_standard_quality_offered(raw@, t, g);
        let i = choose|i: int|
            0 <= i < picks(raw@, standard_heights()).len() && #[trigger] picks(
                raw@,
                standard_heights(),
            )[i].1 == t;
        assert(format_entry(r@[i], picks(raw@, standard_heights())[i].0, picks(raw@, standard_heights())[i].1));
    }
    r
}

/// The position of the best format with height in `lo..=hi`, if any.
fn best_in_band(raw: &Vec<RawFormat>, lo: i64, hi: i64) -> (r: Option<usize>)
    ensures
        match r {
            Some(b) => b < raw@.len() && in_band(raw@, lo as int, hi as int).len() > 0
                && raw@[b as int] == best_of(in_band(raw@, lo as int, hi as int)),
            None => in_band(raw@, lo as int, hi as int).len() == 0,
        },
{
    let mut best: Option<usize> = None;
    let mut best_mp4: bool = false;
    let mut best_size: i64 = 0;
    let mut k: usize = 0;
    while k < raw.len()
        invariant
            k <= raw@.len(),
            match best {
                Some(b) => b < k && in_band(raw@.take(k as int), lo as int, hi as int).len() > 0
                    && raw@[b as int] == best_of(in_band(raw@.take(k as int), lo as int, hi as int))
                    && best_mp4 == is_mp4(raw@[b as int]) && best_size == size_key(raw@[b as int]),
                None => in_band(raw@.take(k as int), lo as int, hi as int).len() == 0,
            },
        decreases raw@.len() - k,
    {
        assert(raw@.take(k + 1).drop_last() =~= raw@.take(k as int));
        assert(raw@.take(k + 1).last() == raw@[k as int]);
        let ghost c = in_band(raw@.take(k as int), lo as int, hi as int);
        let f = &raw[k];
        if lo <= f.height && f.height <= hi {
            assert(in_band(raw@.take(k + 1), lo as int, hi as int) == c.push(raw@[k as int]));
            assert(c.push(raw@[k as int]).drop_last() =~= c);
            let mp4 = str_eq(f.ext.as_str(), "mp4");
            let size: i64 = match f.filesize {
                Some(s) => s,
                None => 0,
            };
            assert(raw@[k as int] == *f);
            let better_or_equal = match best {
                Some(_) => (!best_mp4 && mp4) || (best_mp4 == mp4 && best_size <= size),
                None => true,
            };
            if better_or_equal {
                best = Some(k);
                best_mp4 = mp4;
                best_size = size;
            }
        }
        k += 1;
    }
    assert(raw@.take(raw@.len() as int) =~= raw@);
    best
}

proof fn lemma_best_of_props(c: Seq<RawFormat>)
    requires
        c.len() > 0,
    ensures
        c.contains(best_of(c)),
        forall|i: int| 0 <= i < c.len() ==> ranks_at_most(#[trigger] c[i], best_of(c)),
    decreases c.len(),
{
    if c.len() > 1 {
        let p = c.drop_last();
        lemma_best_of_props(p);
        let b = best_of(p);
        let j = choose|j: int| 0 <= j < p.len() && p[j] == b;
        assert(c[j] == b);
        assert(c[c.len() - 1] == c.last());
        assert forall|i: int| 0 <= i < c.len() implies ranks_at_most(#[trigger] c[i], best_of(c)) by {
            if i < c.len() - 1 {
                assert(c[i] == p[i]);
            }
        }
    } else {
        assert(c[0] == best_of(c));
    }
}

proof fn lemma_push_contains<T>(s: Seq<T>, x: T, y: T)
    ensures
        s.push(x).contains(y) <==> (s.contains(y) || y == x),
{
    if s.push(x).contains(y) {
        let k = choose|k: int| 0 <= k < s.push(x).len() && s.push(x)[k] == y;
        if k < s.len() {
            assert(s[k] == y);
        }
    }
    if s.contains(y) {
        let k = choose|k: int| 0 <= k < s.len() && s[k] == y;
        assert(s.push(x)[k] == y);
    }
    if y == x {
        assert(s.push(x)[s.len() as int] == y);
    }
}

proof fn lemma_in_band_props(fs: Seq<RawFormat>, lo: int, hi: int)
    ensures
        forall|f: RawFormat| #[trigger] in_band(fs, lo, hi).contains(f) <==> (fs.contains(f)
            && lo <= f.height <= hi),
    decreases fs.len(),
{
    if fs.len() > 0 {
        let p = fs.drop_last();
        let l = fs.last();
        lemma_in_band_props(p, lo, hi);
        assert(fs =~= p.push(l));
        let r = in_band(p, lo, hi);
        assert forall|f: RawFormat| #[trigger] in_band(fs, lo, hi).contains(f) <==> (fs.contains(
            f,
        ) && lo <= f.height <= hi) by {
            lemma_push_contains(p, l, f);
            lemma_push_contains(r, l, f);
            assert(r.contains(f) <==> (p.contains(f) && lo <= f.height <= hi));
        }
    }
}

/// The format picked for a quality is a listed format within 10% of that
/// quality's height, and no listed format within that band ranks higher:
/// when the band holds an mp4 format the pick is an mp4 format, and no
/// format of the same kind (mp4 or not) in the band is larger.
pub proof fn law_pick_is_best_in_band(raw: Seq<RawFormat>, t: int)
    ensures
        pick_for(raw, t) matches Some(f) ==> {
            &&& raw.contains(f)
            &&& t * 9 / 10 <= f.height <= t * 11 / 10
            &&& forall|g: RawFormat|
                #![trigger raw.contains(g)]
                raw.contains(g) && t * 9 / 10 <= g.height <= t * 11 / 10 ==> {
                    &&& (is_mp4(g) ==> is_mp4(f))
                    &&& (is_mp4(g) == is_mp4(f) ==> size_key(g) <= size_key(f))
                }
        },
        pick_for(raw, t) is None ==> forall|g: RawFormat|
            #![trigger raw.contains(g)]
            raw.contains(g) ==> !(t * 9 / 10 <= g.height <= t * 11 / 10),
{
    let c = in_band(raw, t * 9 / 10, t * 11 / 10);
    lemma_in_band_props(raw, t * 9 / 10, t * 11 / 10);
    if c.len() > 0 {
        lemma_best_of_props(c);
        assert forall|g: RawFormat|
            #![trigger raw.contains(g)]
            raw.contains(g) && t * 9 / 10 <= g.height <= t * 11 / 10 implies {
                &&& (is_mp4(g) ==> is_mp4(best_of(c)))
                &&& (is_mp4(g) == is_mp4(best_of(c)) ==> size_key(g) <= size_key(best_of(c)))
            } by {
            assert(c.contains(g));
            let k = choose|k: int| 0 <= k < c.len() && c[k] == g;
        }
    } else {
        assert forall|g: RawFormat|
            #![trigger raw.contains(g)]
            raw.contains(g) implies !(t * 9 / 10 <= g.height <= t * 11 / 10) by {
            if t * 9 / 10 <= g.height <= t * 11 / 10 {
                assert(c.contains(g));
            }
        }
    }
}

/// The offered qualities come one per standard height, highest first: the
/// heights of the picks strictly decrease.
pub proof fn law_qualities_descend(raw: Seq<RawFormat>)
    ensures
        forall|i: int, j: int|
            0 <= i < j < picks(raw, standard_heights()).len() ==> #[trigger] picks(
                raw,
                standard_heights(),
            )[i].1 > #[trigger] picks(raw, standard_heights())[j].1,
{
    lemma_picks_descend(raw, standard_heights());
}

proof fn lemma_picks_above(raw: Seq<RawFormat>, ts: Seq<i64>, lo: int)
    requires
        forall|k: int| 0 <= k < ts.len() ==> #[trigger] ts[k] > lo,
    ensures
        forall|i: int| 0 <= i < picks(raw, ts).len() ==> #[trigger] picks(raw, ts)[i].1 > lo,
    decreases ts.len(),
{
    if ts.len() > 0 {
        let p = ts.drop_last();
        assert forall|k: int| 0 <= k < p.len() implies #[trigger] p[k] > lo by {
            assert(p[k] == ts[k]);
        }
        lemma_picks_above(raw, p, lo);
        let r = picks(raw, p);
        match pick_for(raw, ts.last() as int) {
            Some(f) => {
                assert forall|i: int| 0 <= i < r.push((f, ts.last())).len() implies #[trigger] r.push(
                    (f, ts.last()),
                )[i].1 > lo by {
                    if i < r.len() {
                        assert(r.push((f, ts.last()))[i] == r[i]);
                    } else {
                        assert(ts[ts.len() - 1] > lo);
                    }
                }
            },
            None => {},
        }
    }
}

proof fn lemma_picks_descend(raw: Seq<RawFormat>, ts: Seq<i64>)
    requires
        forall|i: int, j: int| 0 <= i < j < ts.len() ==> #[trigger] ts[i] > #[trigger] ts[j],
    ensures
        forall|i: int, j: int|
            0 <= i < j < picks(raw, ts).len() ==> #[trigger] picks(raw, ts)[i].1
                > #[trigger] picks(raw, ts)[j].1,
    decreases ts.len(),
{
    if ts.len() > 0 {
        let p = ts.drop_last();
        assert forall|i: int, j: int| 0 <= i < j < p.len() implies #[trigger] p[i]
            > #[trigger] p[j] by {
            assert(p[i] == ts[i] && p[j] == ts[j]);
        }
        lemma_picks_descend(raw, p);
        let last = ts.last();
        assert forall|k: int| 0 <= k < p.len() implies #[trigger] p[k] > last by {
            assert(p[k] == ts[k] && ts[ts.len() - 1] == last);
        }
        lemma_picks_above(raw, p, last as int);
        let r = picks(raw, p);
        match pick_for(raw, last as int) {
            Some(f) => {
                let q = r.push((f, last));
                assert forall|i: int, j: int| 0 <= i < j < q.len() implies #[trigger] q[i].1
                    > #[trigger] q[j].1 by {
                    assert(q[i] == r[i]);
                    if j < r.len() {
                        assert(q[j] == r[j]);
                    } else {
                        assert(q[j].1 == last);
                        assert(r[i].1 > last);
                    }
                }
            },
            None => {},
        }
    }
}

/// Every standard quality is offered when yt-dlp lists a format within 10%
/// of its height: 2160P, 1440P, 1080P, 720P, 480P and 360P each get an
/// entry labelled with that height.
pub proof fn law_every_standard_quality_offered(raw: Seq<RawFormat>, t: i64, g: RawFormat)
    requires
        t == 2160 || t == 1440 || t == 1080 || t == 720 || t == 480 || t == 360,
        raw.contains(g),
        t * 9 / 10 <= g.height <= t * 11 / 10,
    ensures
        exists|i: int|
            0 <= i < picks(raw, standard_heights()).len() && #[trigger] picks(
                raw,
                standard_heights(),
            )[i].1 == t,
{
    let hs = standard_heights();
    lemma_in_band_props(raw, t * 9 / 10, t * 11 / 10);
    assert(in_band(raw, t * 9 / 10, t * 11 / 10).contains(g));
    assert(pick_for(raw, t as int) is Some);
    let k: int = if t == 2160 {
        0
    } else if t == 1440 {
        1
    } else if t == 1080 {
        2
    } else if t == 720 {
        3
    } else if t == 480 {
        4
    } else {
        5
    };
    assert(hs[k] == t);
    lemma_picks_include(raw, hs, k);
}

proof fn lemma_picks_include(raw: Seq<RawFormat>, ts: Seq<i64>, k: int)
    requires
        0 <= k < ts.len(),
        pick_for(raw, ts[k] as int) is Some,
    ensures
        exists|i: int| 0 <= i < picks(raw, ts).len() && #[trigger] picks(raw, ts)[i].1 == ts[k],
    decreases ts.len(),
{
    let p = ts.drop_last();
    let r = picks(raw, p);
    if k == ts.len() - 1 {
        let f = pick_for(raw, ts.last() as int).unwrap();
        assert(picks(raw, ts) == r.push((f, ts.last())));
        assert(picks(raw, ts)[r.len() as int].1 == ts[k]);
    } else {
        assert(p[k] == ts[k]);
        lemma_picks_include(raw, p, k);
        let i = choose|i: int| 0 <= i < r.len() && #[trigger] r[i].1 == p[k];
        match pick_for(raw, ts.last() as int) {
            Some(f) => {
                assert(r.push((f, ts.last()))[i] == r[i]);
                assert(picks(raw, ts)[i].1 == ts[k]);
            },
            None => {
                assert(picks(raw, ts)[i].1 == ts[k]);
            },
        }
    }
}

} // verus!
