//! The computing part of the user-facing commands: cookie import from a
//! browser export, request preconditions and the duration shown in history.

use vstd::prelude::*;
use crate::config::{AppConfig, opt_view};
use crate::outside::{base64_standard, b64_standard, b64_len};
use crate::bilibili::api::{uid_in, uid_of_cookie};
use crate::text::{
    chars_of, string_of, lines, lines_exec, trim, trim_chars, starts_with, starts_with_exec,
    split, split_exec, views, seq_eq, extend_str, extend_chars, owned, parse_i64_spec,
    parse_i64_exec, pad2, pad2_i64, tdiv, trem, string_views, is_ws, trim_start, trim_end,
    occurs_at,
};

verus! {

broadcast use vstd::string::group_string_axioms;

// ---------------------------------------------------------------------------
// Cookie import from a browser (Netscape cookie file written by yt-dlp)
// ---------------------------------------------------------------------------

/// The (SESSDATA, DedeUserID, bili_jct) values after reading one line of a
/// Netscape cookie file: comment and blank lines are skipped; a line of at
/// least seven tab-separated fields sets the value named in its sixth field
/// to its seventh field.
pub open spec fn cookie_fields_step(
    st: (Seq<char>, Seq<char>, Seq<char>),
    line: Seq<char>,
) -> (Seq<char>, Seq<char>, Seq<char>) {
    let l = trim(line);
    if starts_with(l, seq!['#']) || l.len() == 0 {
        st
    } else {
        let parts = split(l, '\t');
        if parts.len() >= 7 {
            let name = parts[5];
            let value = parts[6];
            if name == "SESSDATA"@ {
                (value, st.1, st.2)
            } else if name == "DedeUserID"@ {
                (st.0, value, st.2)
            } else if name == "bili_jct"@ {
                (st.0, st.1, value)
            } else {
                st
            }
        } else {
            st
        }
    }
}

/// The values read from the lines `ls`, in order (later lines win).
pub open spec fn cookie_fields(ls: Seq<Seq<char>>) -> (Seq<char>, Seq<char>, Seq<char>)
    decreases ls.len(),
{
    if ls.len() == 0 {
        (Seq::empty(), Seq::empty(), Seq::empty())
    } else {
        cookie_fields_step(cookie_fields(ls.drop_last()), ls.last())
    }
}

/// Message when the export lacks the login cookies.
pub open spec fn missing_login_cookie_message() -> Seq<char> {
    "未找到 SESSDATA 或 DedeUserID"@
}

/// The login cookies held by a Netscape cookie file: an error unless both
/// SESSDATA and DedeUserID are present and non-empty.
pub open spec fn cookie_content_of(content: Seq<char>) -> Result<
    (Seq<char>, Seq<char>, Seq<char>),
    Seq<char>,
> {
    let (s, u, j) = cookie_fields(lines(content));
    if s.len() == 0 || u.len() == 0 {
        Err(missing_login_cookie_message())
    } else {
        Ok((s, u, j))
    }
}

/// Reads SESSDATA, DedeUserID and bili_jct from a Netscape cookie file.
pub fn parse_cookie_content(content: &str) -> (r: Result<(String, String, String), String>)
    ensures
        match r {
            Ok((s, u, j)) => cookie_content_of(content@) == Ok::<
                (Seq<char>, Seq<char>, Seq<char>),
                Seq<char>,
            >((s@, u@, j@)),
            Err(e) => cookie_content_of(content@) == Err::<
                (Seq<char>, Seq<char>, Seq<char>),
                Seq<char>,
            >(e@),
        },
{
    let cs = chars_of(content);
    let ls = lines_exec(cs.as_slice());
    let k_sess = chars_of("SESSDATA");
    let k_uid = chars_of("DedeUserID");
    let k_jct = chars_of("bili_jct");
    let hash = ['#'];
    assert(hash@ =~= seq!['#']);
    let mut sess: Vec<char> = Vec::new();
    let mut uid: Vec<char> = Vec::new();
    let mut jct: Vec<char> = Vec::new();
    let mut k: usize = 0;
    while k < ls.len()
        invariant
            k <= ls@.len(),
            k_sess@ == "SESSDATA"@,
            k_uid@ == "DedeUserID"@,
            k_jct@ == "bili_jct"@,
            hash@ == seq!['#'],
            (sess@, uid@, jct@) == cookie_fields(views(ls@).take(k as int)),
        decreases ls@.len() - k,
    {
        assert(views(ls@).take(k + 1).drop_last() =~= views(ls@).take(k as int));
        assert(views(ls@).take(k + 1).last() == ls@[k as int]@);
        let l = trim_chars(ls[k].as_slice());
        if !(starts_with_exec(l.as_slice(), hash.as_slice()) || l.len() == 0) {
            let parts = split_exec(l.as_slice(), '\t');
            if parts.len() >= 7 {
                assert(views(parts@)[5] == parts@[5]@);
                assert(views(parts@)[6] == parts@[6]@);
                let name = &parts[5];
                let value = &parts[6];
                if seq_eq(name.as_slice(), k_sess.as_slice()) {
                    sess = value.clone();
                } else if seq_eq(name.as_slice(), k_uid.as_slice()) {
                    uid = value.clone();
                } else if seq_eq(name.as_slice(), k_jct.as_slice()) {
                    jct = value.clone();
                }
            }
        }
        k += 1;
    }
    assert(views(ls@).take(ls@.len() as int) =~= views(ls@));
    if sess.len() == 0 || uid.len() == 0 {
        return Err(owned("未找到 SESSDATA 或 DedeUserID"));
    }
    Ok((string_of(sess.as_slice()), string_of(uid.as_slice()), string_of(jct.as_slice())))
}

/// The cookie string stored after a browser import.
pub open spec fn browser_cookie_of(sess: Seq<char>, uid: Seq<char>, jct: Seq<char>) -> Seq<char> {
    "SESSDATA="@ + sess + "; DedeUserID="@ + uid + "; bili_jct="@ + jct
}

/// Builds the cookie string stored after a browser import.
pub fn browser_cookie_string(sess: &str, uid: &str, jct: &str) -> (r: String)
    ensures
        r@ == browser_cookie_of(sess@, uid@, jct@),
{
    let mut v: Vec<char> = Vec::new();
    extend_str(&mut v, "SESSDATA=");
    extend_str(&mut v, sess);
    extend_str(&mut v, "; DedeUserID=");
    extend_str(&mut v, uid);
    extend_str(&mut v, "; bili_jct=");
    extend_str(&mut v, jct);
    string_of(v.as_slice())
}

/// The yt-dlp arguments that export the cookies of `browser` to `path`.
pub open spec fn browser_export_args_of(browser: Seq<char>, path: Seq<char>) -> Seq<Seq<char>> {
    seq![
        "--cookies-from-browser"@,
        browser,
        "--cookies"@,
        path,
        "--skip-download"@,
        "--print"@,
        ""@,
        "https://www.bilibili.com/video/BV1xx411c7mD"@,
    ]
}

/// Builds the yt-dlp arguments that export the cookies of a browser.
pub fn browser_export_args(browser: &str, path: &str) -> (r: Vec<String>)
    ensures
        string_views(r@) == browser_export_args_of(browser@, path@),
{
    let mut r: Vec<String> = Vec::new();
    r.push(owned("--cookies-from-browser"));
    r.push(owned(browser));
    r.push(owned("--cookies"));
    r.push(owned(path));
    r.push(owned("--skip-download"));
    r.push(owned("--print"));
    r.push(owned(""));
    r.push(owned("https://www.bilibili.com/video/BV1xx411c7mD"));
    assert(string_views(r@) =~= browser_export_args_of(browser@, path@));
    r
}

/// The message when the browser export produced no cookie file.
pub open spec fn browser_export_failed_of(browser: Seq<char>, stderr: Seq<char>) -> Seq<char> {
    "无法从 "@ + browser
        + " 读取 Cookie。请确保：\n1. 浏览器中已登录 B站\n2. yt-dlp 版本支持该浏览器\n\n错误信息: "@
        + stderr
}

/// Builds the message for a browser export that produced no cookie file.
pub fn browser_export_failed(browser: &str, stderr: &str) -> (r: String)
    ensures
        r@ == browser_export_failed_of(browser@, stderr@),
{
    let mut v: Vec<char> = Vec::new();
    extend_str(&mut v, "无法从 ");
    extend_str(&mut v, browser);
    extend_str(&mut v, " 读取 Cookie。请确保：\n1. 浏览器中已登录 B站\n2. yt-dlp 版本支持该浏览器\n\n错误信息: ");
    extend_str(&mut v, stderr);
    string_of(v.as_slice())
}

/// The message after a successful browser import.
pub open spec fn browser_import_done_of(browser: Seq<char>, uid: Seq<char>) -> Seq<char> {
    "成功从 "@ + browser + " 读取 Cookie (用户: "@ + uid + ")"@
}

/// Builds the message after a successful browser import.
pub fn browser_import_done(browser: &str, uid: &str) -> (r: String)
    ensures
        r@ == browser_import_done_of(browser@, uid@),
{
    let mut v: Vec<char> = Vec::new();
    extend_str(&mut v, "成功从 ");
    extend_str(&mut v, browser);
    extend_str(&mut v, " 读取 Cookie (用户: ");
    extend_str(&mut v, uid);
    extend_str(&mut v, ")");
    string_of(v.as_slice())
}

// ---------------------------------------------------------------------------
// Favourites commands
// ---------------------------------------------------------------------------

/// Message when a command needs a cookie and none is configured.
pub open spec fn no_cookie_message() -> Seq<char> {
    "未配置 B站 Cookie，请先在设置中导入 Cookie"@
}

/// The cookie a favourites command uses: an error when it is empty.
pub fn require_cookie(config: &AppConfig) -> (r: Result<String, String>)
    ensures
        match r {
            Ok(c) => c@ == config.bilibili.cookie@ && c@.len() > 0,
            Err(e) => config.bilibili.cookie@.len() == 0 && e@ == no_cookie_message(),
        },
{
    if config.bilibili.cookie.as_str().is_empty() {
        Err(owned("未配置 B站 Cookie，请先在设置中导入 Cookie"))
    } else {
        Ok(config.bilibili.cookie.clone())
    }
}

/// The folder id and page of a folder-page command: the id must read as an
/// `i64`; the page defaults to 1.
pub open spec fn folder_request_of(media_id: Seq<char>, page: Option<i64>) -> Result<
    (i64, i64),
    Seq<char>,
> {
    match parse_i64_spec(media_id) {
        Some(m) => Ok(
            (
                m as i64,
                match page {
                    Some(p) => p,
                    None => 1i64,
                },
            ),
        ),
        None => Err("无效的收藏夹 ID"@),
    }
}

/// Reads the folder id and page of a folder-page command.
pub fn folder_request(media_id: &str, page: Option<i64>) -> (r: Result<(i64, i64), String>)
    ensures
        match r {
            Ok((m, p)) => folder_request_of(media_id@, page) == Ok::<(i64, i64), Seq<char>>(
                (m, p),
            ),
            Err(e) => folder_request_of(media_id@, page) == Err::<(i64, i64), Seq<char>>(e@),
        },
{
    match parse_i64_exec(chars_of(media_id).as_slice()) {
        Some(m) => Ok(
            (
                m,
                match page {
                    Some(p) => p,
                    None => 1,
                },
            ),
        ),
        None => Err(owned("无效的收藏夹 ID")),
    }
}

// ---------------------------------------------------------------------------
// Durations
// ---------------------------------------------------------------------------

/// `HH:MM:SS` when there is at least an hour, else `MM:SS`; each part is
/// padded to two digits (Rust's truncating `/` and `%`).
pub open spec fn duration_text(seconds: int) -> Seq<char> {
    let h = tdiv(seconds, 3600);
    let m = tdiv(trem(seconds, 3600), 60);
    let s = trem(seconds, 60);
    if h > 0 {
        pad2(h) + seq![':'] + pad2(m) + seq![':'] + pad2(s)
    } else {
        pad2(m) + seq![':'] + pad2(s)
    }
}

/// Formats a duration in seconds as `HH:MM:SS` or `MM:SS`.
pub fn format_duration(seconds: i64) -> (r: String)
    ensures
        r@ == duration_text(seconds as int),
{
    let h = seconds / 3600;
    let r3600 = seconds % 3600;
    let m = r3600 / 60;
    let s = seconds % 60;
    assert(h == tdiv(seconds as int, 3600));
    assert(r3600 == trem(seconds as int, 3600));
    assert(m == tdiv(trem(seconds as int, 3600), 60));
    assert(s == trem(seconds as int, 60));
    let mut v: Vec<char> = Vec::new();
    if h > 0 {
        extend_chars(&mut v, pad2_i64(h).as_slice());
        v.push(':');
    }
    extend_chars(&mut v, pad2_i64(m).as_slice());
    v.push(':');
    extend_chars(&mut v, pad2_i64(s).as_slice());
    string_of(v.as_slice())
}

/// A cookie as a name and a value.
#[derive(Debug)]
pub struct CookieEntry {
    pub name: String,
    pub value: String,
}

/// The data URL under which a fetched cover image is shown.
pub fn cover_data_url(bytes: &Vec<u8>) -> (r: String)
    requires
        b64_len(bytes@.len() as int) <= usize::MAX,
    ensures
        r@ == "data:image/jpeg;base64,"@ + b64_standard(bytes@),
{
    let encoded = base64_standard(bytes.as_slice());
    let mut v: Vec<char> = Vec::new();
    extend_str(&mut v, "data:image/jpeg;base64,");
    extend_str(&mut v, encoded.as_str());
    string_of(v.as_slice())
}

/// After a browser import the stored cookie names the imported user: the
/// favourites request reads the user id back from it. This holds when
/// neither the session value nor the user id holds `;` and the user id has
/// no white space at its ends (otherwise the id read back is trimmed, or
/// another piece of the cookie is read).
pub proof fn law_imported_cookie_names_user(sess: Seq<char>, uid: Seq<char>, jct: Seq<char>)
    requires
        uid.len() > 0,
        !is_ws(uid[0]),
        !is_ws(uid.last()),
        forall|i: int| 0 <= i < sess.len() ==> sess[i] != ';',
        forall|i: int| 0 <= i < uid.len() ==> uid[i] != ';',
    ensures
        uid_of_cookie(browser_cookie_of(sess, uid, jct)) == Some(uid),
{
    reveal_strlit("SESSDATA=");
    reveal_strlit("; DedeUserID=");
    reveal_strlit("; bili_jct=");
    reveal_strlit("DedeUserID=");
    reveal_strlit("bili_jct=");
    let pre = "DedeUserID="@;
    let a = "SESSDATA="@ + sess;
    let b = seq![' '] + pre + uid;
    let c = seq![' '] + "bili_jct="@ + jct;
    assert("; DedeUserID="@ =~= seq![';', ' '] + pre);
    assert("; bili_jct="@ =~= seq![';', ' '] + "bili_jct="@);
    assert(browser_cookie_of(sess, uid, jct) =~= a.push(';') + (b.push(';') + c));
    crate::text::lemma_split_concat(a, ';', b.push(';') + c);
    crate::text::lemma_split_concat(b, ';', c);
    assert forall|i: int| 0 <= i < a.len() implies a[i] != ';' by {
        if i >= 9 {
            assert(a[i] == sess[i - 9]);
        }
    }
    assert forall|i: int| 0 <= i < b.len() implies b[i] != ';' by {
        if i >= 12 {
            assert(b[i] == uid[i - 12]);
        }
    }
    crate::text::lemma_split_single(a, ';');
    crate::text::lemma_split_single(b, ';');
    let pieces = split(browser_cookie_of(sess, uid, jct), ';');
    assert(pieces =~= seq![a, b] + split(c, ';'));

    // The session piece does not name the user.
    assert(trim_start(a) == a);
    crate::text::lemma_trim_end_keeps(a, 0);
    crate::text::lemma_trim_end_prefix(a);
    let ta = trim(a);
    assert(ta[0] == 'S');
    if occurs_at(ta, pre, 0) {
        assert(ta.subrange(0, pre.len() as int)[0] == pre[0]);
    }
    assert(!starts_with(ta, pre));

    // The next piece does.
    let b1 = pre + uid;
    assert(b.drop_first() =~= b1);
    assert(trim_start(b1) == b1);
    assert(trim_start(b) == b1);
    assert(b1.last() == uid.last());
    assert(trim_end(b1) == b1);
    assert(trim(b) == b1);
    assert(b1.subrange(0, pre.len() as int) =~= pre);
    assert(starts_with(b1, pre));
    assert(b1.skip(pre.len() as int) =~= uid);
    assert(trim_start(uid) == uid);
    assert(trim_end(uid) == uid);
    assert(trim(b1.skip(pre.len() as int)) == uid);
    assert(pieces.drop_first()[0] == b);
    assert(uid_in(pieces.drop_first()) == Some(uid));
}

} // verus!
