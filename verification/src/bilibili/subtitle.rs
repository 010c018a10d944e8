//! Subtitles: SRT to plain text, the choice among offered tracks, and the
//! reading of the subtitle-list and subtitle-body replies.

use vstd::prelude::*;
use crate::json::{Json, get, get_exec, i64_or, i64_or_exec, str_or, str_or_exec, as_array, as_array_exec, as_str};
use crate::text::{
    chars_of, string_of, lines, lines_exec, trim, trim_chars, contains, contains_exec, is_ws,
    parses_as_u32, parses_as_u32_exec, join, join_exec, views, starts_with, starts_with_exec,
    idec, dec_i64, extend_str, extend_chars, owned,
};
use super::types::SubtitleItem;

verus! {

broadcast use vstd::string::group_string_axioms;

/// An SRT line carries text unless it is blank, a cue number (a `u32` once
/// trimmed) or a timing line (it contains `-->`).
pub open spec fn srt_text_line(line: Seq<char>) -> bool {
    trim(line).len() > 0 && !parses_as_u32(trim(line)) && !contains(line, "-->"@)
}

/// The trimmed text lines among `ls`, in order.
pub open spec fn srt_text_lines(ls: Seq<Seq<char>>) -> Seq<Seq<char>>
    decreases ls.len(),
{
    if ls.len() == 0 {
        Seq::empty()
    } else {
        let r = srt_text_lines(ls.drop_last());
        if srt_text_line(ls.last()) {
            r.push(trim(ls.last()))
        } else {
            r
        }
    }
}

/// The plain text of an SRT document: its text lines, trimmed, one per line.
pub open spec fn srt_plain_text(srt: Seq<char>) -> Seq<char> {
    join(srt_text_lines(lines(srt)), seq!['\n'])
}

/// Turns SRT subtitles into plain text: drops cue numbers, timing lines and
/// blank lines, trims the rest and joins them with `\n`.
pub fn parse_srt(srt_content: &str) -> (r: String)
    ensures
        r@ == srt_plain_text(srt_content@),
{
    let cs = chars_of(srt_content);
    let ls = lines_exec(cs.as_slice());
    let arrow = chars_of("-->");
    let mut kept: Vec<Vec<char>> = Vec::new();
    let mut k: usize = 0;
    while k < ls.len()
        invariant
            k <= ls@.len(),
            arrow@ == "-->"@,
            views(kept@) == srt_text_lines(views(ls@).take(k as int)),
        decreases ls@.len() - k,
    {
        assert(views(ls@).take(k + 1).drop_last() =~= views(ls@).take(k as int));
        assert(views(ls@).take(k + 1).last() == ls@[k as int]@);
        let line = &ls[k];
        let t = trim_chars(line.as_slice());
        if t.len() > 0 && !parses_as_u32_exec(t.as_slice()) && !contains_exec(
            line.as_slice(),
            arrow.as_slice(),
        ) {
            let ghost before = kept@;
            kept.push(t);
            assert(views(kept@) =~= views(before).push(trim(ls@[k as int]@)));
        }
        k += 1;
    }
    assert(views(ls@).take(ls@.len() as int) =~= views(ls@));
    let nl = ['\n'];
    assert(nl@ =~= seq!['\n']);
    let text = join_exec(&kept, nl.as_slice());
    string_of(text.as_slice())
}

/// A Chinese track (`zh…`) uploaded by people (no `ai` in its language).
pub open spec fn is_cc_track(t: SubtitleItem) -> bool {
    starts_with(t.lan@, "zh"@) && !contains(t.lan@, "ai"@)
}

/// A Chinese track generated by AI (its language starts with `zh` and
/// contains `ai`).
pub open spec fn is_ai_track(t: SubtitleItem) -> bool {
    starts_with(t.lan@, "zh"@) && contains(t.lan@, "ai"@)
}

/// Any Chinese track.
pub open spec fn is_zh_track(t: SubtitleItem) -> bool {
    starts_with(t.lan@, "zh"@)
}

/// The first position at or after `i` whose track satisfies `p`.
pub open spec fn first_track(
    items: Seq<SubtitleItem>,
    p: spec_fn(SubtitleItem) -> bool,
    i: int,
) -> Option<int>
    decreases items.len() - i,
{
    if i < 0 || i >= items.len() {
        None
    } else if p(items[i]) {
        Some(i)
    } else {
        first_track(items, p, i + 1)
    }
}

/// The track to use: the first human Chinese track, else the first AI
/// Chinese track, else the first Chinese track, else the first track.
pub open spec fn chosen_track(items: Seq<SubtitleItem>) -> Option<int> {
    match first_track(items, |t: SubtitleItem| is_cc_track(t), 0) {
        Some(i) => Some(i),
        None => match first_track(items, |t: SubtitleItem| is_ai_track(t), 0) {
            Some(i) => Some(i),
            None => match first_track(items, |t: SubtitleItem| is_zh_track(t), 0) {
                Some(i) => Some(i),
                None => if items.len() > 0 {
                    Some(0)
                } else {
                    None
                },
            },
        },
    }
}

/// Kind of track test used by the chooser.
enum TrackTest {
    Cc,
    Ai,
    Zh,
}

spec fn track_test_spec(k: TrackTest) -> spec_fn(SubtitleItem) -> bool {
    match k {
        TrackTest::Cc => |t: SubtitleItem| is_cc_track(t),
        TrackTest::Ai => |t: SubtitleItem| is_ai_track(t),
        TrackTest::Zh => |t: SubtitleItem| is_zh_track(t),
    }
}

fn first_track_exec(items: &Vec<SubtitleItem>, k: TrackTest) -> (r: Option<usize>)
    ensures
        match r {
            Some(i) => first_track(items@, track_test_spec(k), 0) == Some(i as int),
            None => first_track(items@, track_test_spec(k), 0) is None,
        },
{
    let zh = chars_of("zh");
    let ai = chars_of("ai");
    let mut i: usize = 0;
    while i < items.len()
        invariant
            i <= items@.len(),
            zh@ == "zh"@,
            ai@ == "ai"@,
            first_track(items@, track_test_spec(k), 0) == first_track(
                items@,
                track_test_spec(k),
                i as int,
            ),
        decreases items@.len() - i,
    {
        let lan = chars_of(items[i].lan.as_str());
        let is_zh = starts_with_exec(lan.as_slice(), zh.as_slice());
        let has_ai = contains_exec(lan.as_slice(), ai.as_slice());
        let hit = match k {
            TrackTest::Cc => is_zh && !has_ai,
            TrackTest::Ai => is_zh && has_ai,
            TrackTest::Zh => is_zh,
        };
        assert(hit == (track_test_spec(k))(items@[i as int]));
        if hit {
            return Some(i);
        }
        i += 1;
    }
    None
}

/// Chooses the subtitle track to download among those offered.
pub fn choose_subtitle(items: &Vec<SubtitleItem>) -> (r: Option<usize>)
    ensures
        match r {
            Some(i) => chosen_track(items@) == Some(i as int) && i < items@.len(),
            None => chosen_track(items@) is None,
        },
{
    proof {
        lemma_first_track_bound(items@, |t: SubtitleItem| is_cc_track(t), 0);
        lemma_first_track_bound(items@, |t: SubtitleItem| is_ai_track(t), 0);
        lemma_first_track_bound(items@, |t: SubtitleItem| is_zh_track(t), 0);
    }
    assert(track_test_spec(TrackTest::Cc) == |t: SubtitleItem| is_cc_track(t));
    assert(track_test_spec(TrackTest::Ai) == |t: SubtitleItem| is_ai_track(t));
    assert(track_test_spec(TrackTest::Zh) == |t: SubtitleItem| is_zh_track(t));
    match first_track_exec(items, TrackTest::Cc) {
        Some(i) => Some(i),
        None => match first_track_exec(items, TrackTest::Ai) {
            Some(i) => Some(i),
            None => match first_track_exec(items, TrackTest::Zh) {
                Some(i) => Some(i),
                None => if items.len() > 0 {
                    Some(0)
                } else {
                    None
                },
            },
        },
    }
}

proof fn lemma_first_track_bound(items: Seq<SubtitleItem>, p: spec_fn(SubtitleItem) -> bool, i: int)
    ensures
        first_track(items, p, i) matches Some(k) ==> 0 <= k < items.len() && p(items[k]),
    decreases items.len() - i,
{
    if i < 0 || i >= items.len() {
    } else if p(items[i]) {
    } else {
        lemma_first_track_bound(items, p, i + 1);
    }
}

/// The source label of a track: `ai` when its language contains `ai`,
/// else `cc`.
pub open spec fn subtitle_source_of(lan: Seq<char>) -> Seq<char> {
    if contains(lan, "ai"@) {
        "ai"@
    } else {
        "cc"@
    }
}

/// The source label of a track.
pub fn subtitle_source(lan: &str) -> (r: String)
    ensures
        r@ == subtitle_source_of(lan@),
{
    let cs = chars_of(lan);
    let ai = chars_of("ai");
    if contains_exec(cs.as_slice(), ai.as_slice()) {
        owned("ai")
    } else {
        owned("cc")
    }
}

/// The URL of the player API that lists the subtitles of a video page.
pub open spec fn subtitle_list_url_of(bvid: Seq<char>, cid: i64) -> Seq<char> {
    "https://api.bilibili.com/x/player/v2?bvid="@ + bvid + "&cid="@ + idec(cid as int)
}

/// Builds the subtitle-list URL.
pub fn subtitle_list_url(bvid: &str, cid: i64) -> (r: String)
    ensures
        r@ == subtitle_list_url_of(bvid@, cid),
{
    let mut v: Vec<char> = Vec::new();
    extend_str(&mut v, "https://api.bilibili.com/x/player/v2?bvid=");
    extend_str(&mut v, bvid);
    extend_str(&mut v, "&cid=");
    extend_chars(&mut v, dec_i64(cid).as_slice());
    string_of(v.as_slice())
}

/// The error a subtitle-list reply stands for (a `code` other than 0).
pub open spec fn subtitle_list_error(data: Json) -> Option<Seq<char>> {
    let code = i64_or(get(data, "code"@), -1i64);
    if code != 0 {
        Some(
            "获取字幕列表失败 ("@ + idec(code as int) + "): "@ + str_or(
                get(data, "message"@),
                "Unknown error"@,
            ),
        )
    } else {
        None
    }
}

/// `t` is the track described by a reply item.
pub open spec fn track_read(t: SubtitleItem, item: Json) -> bool {
    &&& t.lan@ == str_or(get(item, "lan"@), ""@)
    &&& t.subtitle_url@ == str_or(get(item, "subtitle_url"@), ""@)
    &&& t.lan_doc@ == str_or(get(item, "lan_doc"@), ""@)
}

/// A reply item names a downloadable track (a non-empty `subtitle_url`).
pub open spec fn has_track_url(item: Json) -> bool {
    str_or(get(item, "subtitle_url"@), ""@).len() > 0
}

/// The reply items that name a downloadable track, in order.
pub open spec fn track_items(items: Seq<Json>) -> Seq<Json>
    decreases items.len(),
{
    if items.len() == 0 {
        Seq::empty()
    } else {
        let r = track_items(items.drop_last());
        if has_track_url(items.last()) {
            r.push(items.last())
        } else {
            r
        }
    }
}

/// The subtitle items of a subtitle-list reply (`data.subtitle.subtitles`).
pub open spec fn subtitle_items(data: Json) -> Seq<Json> {
    match as_array(get(get(get(data, "data"@), "subtitle"@), "subtitles"@)) {
        Some(items) => track_items(items),
        None => Seq::empty(),
    }
}

/// Reads the offered tracks out of a subtitle-list reply; items without a
/// subtitle URL are left out.
pub fn subtitle_items_from_response(data: &Json) -> (r: Result<Vec<SubtitleItem>, String>)
    ensures
        match r {
            Ok(v) => subtitle_list_error(*data) is None && v@.len() == subtitle_items(*data).len()
                && forall|i: int|
                0 <= i < v@.len() ==> track_read(#[trigger] v@[i], subtitle_items(*data)[i]),
            Err(e) => subtitle_list_error(*data) == Some(e@),
        },
{
    let code = i64_or_exec(get_exec(data, "code"), -1);
    if code != 0 {
        let mut m: Vec<char> = Vec::new();
        extend_str(&mut m, "获取字幕列表失败 (");
        extend_chars(&mut m, dec_i64(code).as_slice());
        extend_str(&mut m, "): ");
        let msg = str_or_exec(get_exec(data, "message"), "Unknown error");
        extend_str(&mut m, msg.as_str());
        return Err(string_of(m.as_slice()));
    }
    let mut v: Vec<SubtitleItem> = Vec::new();
    match as_array_exec(get_exec(get_exec(get_exec(data, "data"), "subtitle"), "subtitles")) {
        Some(items) => {
            let mut k: usize = 0;
            while k < items.len()
                invariant
                    k <= items@.len(),
                    v@.len() == track_items(items@.take(k as int)).len(),
                    forall|i: int|
                        0 <= i < v@.len() ==> track_read(
                            #[trigger] v@[i],
                            track_items(items@.take(k as int))[i],
                        ),
                decreases items@.len() - k,
            {
                assert(items@.take(k + 1).drop_last() =~= items@.take(k as int));
                assert(items@.take(k + 1).last() == items@[k as int]);
                let item = &items[k];
                let url = str_or_exec(get_exec(item, "subtitle_url"), "");
                if url.as_str().is_empty() {
                } else {
                    let t = SubtitleItem {
                        lan: str_or_exec(get_exec(item, "lan"), ""),
                        subtitle_url: url,
                        lan_doc: str_or_exec(get_exec(item, "lan_doc"), ""),
                    };
                    let ghost before = v@;
                    v.push(t);
                    assert(forall|i: int| 0 <= i < before.len() ==> v@[i] == before[i]);
                }
                k += 1;
            }
            assert(items@.take(items@.len() as int) =~= items@);
        },
        None => {},
    }
    Ok(v)
}

/// The absolute URL of a subtitle body: scheme-relative (`//…`) and other
/// non-`http` links get `https:` in front.
pub open spec fn subtitle_download_url_of(url: Seq<char>) -> Seq<char> {
    if starts_with(url, "//"@) {
        "https:"@ + url
    } else if starts_with(url, "http"@) {
        url
    } else {
        "https:"@ + url
    }
}

/// Makes a subtitle link absolute.
pub fn subtitle_download_url(url: &str) -> (r: String)
    ensures
        r@ == subtitle_download_url_of(url@),
{
    let cs = chars_of(url);
    let slashes = chars_of("//");
    let http = chars_of("http");
    if starts_with_exec(cs.as_slice(), slashes.as_slice()) {
        let mut v: Vec<char> = Vec::new();
        extend_str(&mut v, "https:");
        extend_chars(&mut v, cs.as_slice());
        string_of(v.as_slice())
    } else if starts_with_exec(cs.as_slice(), http.as_slice()) {
        string_of(cs.as_slice())
    } else {
        let mut v: Vec<char> = Vec::new();
        extend_str(&mut v, "https:");
        extend_chars(&mut v, cs.as_slice());
        string_of(v.as_slice())
    }
}

/// The text lines of a subtitle body: every `content` string of `body`.
pub open spec fn body_lines(items: Seq<Json>) -> Seq<Seq<char>>
    decreases items.len(),
{
    if items.len() == 0 {
        Seq::empty()
    } else {
        let r = body_lines(items.drop_last());
        match as_str(get(items.last(), "content"@)) {
            Some(c) => r.push(c),
            None => r,
        }
    }
}

/// The plain text of a subtitle body reply: its `content` lines joined by
/// `\n`.
pub open spec fn subtitle_body_text(data: Json) -> Seq<char> {
    match as_array(get(data, "body"@)) {
        Some(items) => join(body_lines(items), seq!['\n']),
        None => Seq::empty(),
    }
}

/// Reads the plain text out of a subtitle body reply.
pub fn subtitle_text_from_body(data: &Json) -> (r: String)
    ensures
        r@ == subtitle_body_text(*data),
{
    let mut ls: Vec<Vec<char>> = Vec::new();
    match as_array_exec(get_exec(data, "body")) {
        Some(items) => {
            let mut k: usize = 0;
            while k < items.len()
                invariant
                    k <= items@.len(),
                    views(ls@) == body_lines(items@.take(k as int)),
                decreases items@.len() - k,
            {
                assert(items@.take(k + 1).drop_last() =~= items@.take(k as int));
                assert(items@.take(k + 1).last() == items@[k as int]);
                match get_exec(&items[k], "content") {
                    Json::Str(c) => {
                        let ghost before = ls@;
                        ls.push(chars_of(c.as_str()));
                        assert(views(ls@) =~= views(before).push(c@));
                    },
                    _ => {},
                }
                k += 1;
            }
            assert(items@.take(items@.len() as int) =~= items@);
            let nl = ['\n'];
            assert(nl@ =~= seq!['\n']);
            let text = join_exec(&ls, nl.as_slice());
            string_of(text.as_slice())
        },
        None => String::new(),
    }
}

/// Subtitle tracks are preferred in the order human Chinese, AI Chinese,
/// any Chinese, any: when a human Chinese track is offered, the first one
/// is chosen; else, when an AI Chinese track is offered, the first of those.
pub proof fn law_human_track_preferred(items: Seq<SubtitleItem>)
    ensures
        first_track(items, |t: SubtitleItem| is_cc_track(t), 0) matches Some(i) ==> chosen_track(
            items,
        ) == Some(i) && is_cc_track(items[i]),
        first_track(items, |t: SubtitleItem| is_cc_track(t), 0) is None ==> (first_track(
            items,
            |t: SubtitleItem| is_ai_track(t),
            0,
        ) matches Some(i) ==> chosen_track(items) == Some(i) && is_ai_track(items[i])),
        items.len() > 0 ==> chosen_track(items) is Some,
        chosen_track(items) matches Some(i) ==> 0 <= i < items.len(),
{
    lemma_first_track_bound(items, |t: SubtitleItem| is_cc_track(t), 0);
    lemma_first_track_bound(items, |t: SubtitleItem| is_ai_track(t), 0);
    lemma_first_track_bound(items, |t: SubtitleItem| is_zh_track(t), 0);
}

/// Every line kept from an SRT document carries text: it is not blank, not
/// a cue number and not a timing line.
pub proof fn law_srt_lines_are_text(srt: Seq<char>)
    ensures
        forall|i: int|
            0 <= i < srt_text_lines(lines(srt)).len() ==> {
                let l = #[trigger] srt_text_lines(lines(srt))[i];
                &&& l.len() > 0
                &&& !parses_as_u32(l)
                &&& !contains(l, "-->"@)
            },
{
    lemma_srt_text_lines(lines(srt));
}

proof fn lemma_srt_text_lines(ls: Seq<Seq<char>>)
    ensures
        forall|i: int|
            0 <= i < srt_text_lines(ls).len() ==> {
                let l = #[trigger] srt_text_lines(ls)[i];
                &&& l.len() > 0
                &&& !parses_as_u32(l)
                &&& !contains(l, "-->"@)
            },
    decreases ls.len(),
{
    if ls.len() > 0 {
        lemma_srt_text_lines(ls.drop_last());
        let r = srt_text_lines(ls.drop_last());
        let last = ls.last();
        if srt_text_line(last) {
            crate::text::lemma_contains_trim(last, "-->"@);
            assert forall|i: int| 0 <= i < r.push(trim(last)).len() implies {
                let l = #[trigger] r.push(trim(last))[i];
                &&& l.len() > 0
                &&& !parses_as_u32(l)
                &&& !contains(l, "-->"@)
            } by {
                if i < r.len() {
                    assert(r.push(trim(last))[i] == r[i]);
                }
            }
        }
    }
}

/// The plain text of subtitles is stable: its lines are trimmed, and
/// reading it again as SRT gives it back unchanged.
pub proof fn law_parse_srt_idempotent(srt: Seq<char>)
    ensures
        forall|i: int|
            0 <= i < srt_text_lines(lines(srt)).len() ==> trim(
                #[trigger] srt_text_lines(lines(srt))[i],
            ) == srt_text_lines(lines(srt))[i],
        srt_plain_text(srt_plain_text(srt)) == srt_plain_text(srt),
{
    let ls = lines(srt);
    let l = srt_text_lines(ls);
    crate::text::lemma_lines_no_newline(srt);
    lemma_srt_text_lines(ls);
    lemma_srt_text_lines_clean(ls);
    assert forall|k: int| 0 <= k < l.len() implies #[trigger] l[k].len() > 0 && l[k].last()
        != '\r' by {
        crate::text::lemma_trim_idempotent(l[k]);
        assert(!is_ws(l[k].last()));
    }
    crate::text::lemma_lines_of_join(l);
    lemma_srt_keeps_text_lines(l);
}

proof fn lemma_srt_text_lines_clean(ls: Seq<Seq<char>>)
    requires
        forall|k: int, i: int|
            0 <= k < ls.len() && 0 <= i < ls[k].len() ==> #[trigger] ls[k][i] != '\n',
    ensures
        forall|k: int| 0 <= k < srt_text_lines(ls).len() ==> trim(#[trigger] srt_text_lines(ls)[k]) == srt_text_lines(ls)[k],
        forall|k: int, i: int|
            0 <= k < srt_text_lines(ls).len() && 0 <= i < srt_text_lines(ls)[k].len()
                ==> #[trigger] srt_text_lines(ls)[k][i] != '\n',
    decreases ls.len(),
{
    if ls.len() > 0 {
        let p = ls.drop_last();
        assert forall|k: int, i: int| 0 <= k < p.len() && 0 <= i < p[k].len() implies #[trigger] p[k][i]
            != '\n' by {
            assert(p[k] == ls[k]);
        }
        lemma_srt_text_lines_clean(p);
        let r = srt_text_lines(p);
        let last = ls.last();
        if srt_text_line(last) {
            let t = trim(last);
            crate::text::lemma_trim_idempotent(last);
            assert forall|i: int| 0 <= i < last.len() implies last[i] != '\n' by {
                assert(ls[ls.len() - 1][i] != '\n');
            }
            crate::text::lemma_trim_keeps_absent(last, '\n');
            let q = r.push(t);
            assert forall|k: int| 0 <= k < q.len() implies trim(#[trigger] q[k]) == q[k] by {
                if k < r.len() {
                    assert(q[k] == r[k]);
                }
            }
            assert forall|k: int, i: int| 0 <= k < q.len() && 0 <= i < q[k].len() implies #[trigger] q[k][i]
                != '\n' by {
                if k < r.len() {
                    assert(q[k] == r[k]);
                }
            }
        }
    }
}

proof fn lemma_srt_keeps_text_lines(l: Seq<Seq<char>>)
    requires
        forall|k: int|
            0 <= k < l.len() ==> {
                let x = #[trigger] l[k];
                &&& x.len() > 0
                &&& !parses_as_u32(x)
                &&& !contains(x, "-->"@)
                &&& trim(x) == x
            },
    ensures
        srt_text_lines(l) == l,
    decreases l.len(),
{
    if l.len() > 0 {
        let p = l.drop_last();
        assert forall|k: int| 0 <= k < p.len() implies {
            let x = #[trigger] p[k];
            &&& x.len() > 0
            &&& !parses_as_u32(x)
            &&& !contains(x, "-->"@)
            &&& trim(x) == x
        } by {
            assert(p[k] == l[k]);
        }
        lemma_srt_keeps_text_lines(p);
        let x = l.last();
        assert(x == l[l.len() - 1]);
        assert(srt_text_line(x));
        assert(p.push(x) =~= l);
    }
}

} // verus!
