//! Transcript storage: the record kept per video, the task vocabulary, and
//! the plain-text transcript document (its directory, name and content).

use vstd::prelude::*;
use crate::text::{
    chars_of, string_of, words, words_state, is_ws, words_exec, join, join_exec, extend_str, extend_chars, owned,
    byte_len, boundary, boundary_exec, lemma_boundary, views, sub_chars,
};
use crate::outside::{join as path_join_exec, path_join};

verus! {

broadcast use vstd::string::group_string_axioms;

/// A stored transcript.
#[derive(Debug)]
pub struct TranscriptRecord {
    pub id: i64,
    pub bvid: String,
    pub url: String,
    pub title: String,
    pub author: String,
    pub duration: String,
    pub upload_date: String,
    pub transcript_source: String,
    pub transcript_text: String,
    pub summary: Option<String>,
    pub status: String,
    pub created_at: String,
    pub updated_at: String,
}

/// The event sent when a background task ends.
#[derive(Debug)]
pub struct TaskCompletedEvent {
    pub task_id: i64,
    pub task_type: String,
    pub status: String,
    pub title: String,
    pub output_path: Option<String>,
    pub error: Option<String>,
    pub file_size: Option<String>,
}

/// Characters that cannot appear in file names.
pub open spec fn is_illegal_file_char(c: char) -> bool {
    c == '\\' || c == '/' || c == ':' || c == '*' || c == '?' || c == '"' || c == '<' || c == '>'
        || c == '|'
}

/// `s` without the characters that cannot appear in file names.
pub open spec fn legal_chars(s: Seq<char>) -> Seq<char>
    decreases s.len(),
{
    if s.len() == 0 {
        Seq::empty()
    } else if is_illegal_file_char(s.last()) {
        legal_chars(s.drop_last())
    } else {
        legal_chars(s.drop_last()).push(s.last())
    }
}

/// A file-name-safe form of `s`: illegal characters dropped, runs of white
/// space replaced by a single `-`, leading and trailing white space gone.
pub open spec fn sanitized(s: Seq<char>) -> Seq<char> {
    join(words(legal_chars(s)), seq!['-'])
}

/// Makes `s` usable in a file name.
pub fn sanitize_filename(s: &str) -> (r: String)
    ensures
        r@ == sanitized(s@),
{
    let cs = chars_of(s);
    let mut kept: Vec<char> = Vec::new();
    let mut i: usize = 0;
    while i < cs.len()
        invariant
            i <= cs@.len(),
            kept@ == legal_chars(cs@.take(i as int)),
        decreases cs@.len() - i,
    {
        assert(cs@.take(i + 1).drop_last() =~= cs@.take(i as int));
        let c = cs[i];
        if !(c == '\\' || c == '/' || c == ':' || c == '*' || c == '?' || c == '"' || c == '<'
            || c == '>' || c == '|') {
            kept.push(c);
        }
        i += 1;
    }
    assert(cs@.take(cs@.len() as int) =~= cs@);
    let ws = words_exec(kept.as_slice());
    let dash = ['-'];
    assert(dash@ =~= seq!['-']);
    let j = join_exec(&ws, dash.as_slice());
    string_of(j.as_slice())
}

/// The date of a record can be cut into year and month the way the
/// document layout does (`date[..4]`, `date[5..7]`, shorter at the end):
/// it has at least 5 bytes and the cuts fall between characters.
pub open spec fn date_cuttable(d: Seq<char>) -> bool {
    let n = byte_len(d) as int;
    &&& n >= 5
    &&& boundary(d, 4) is Some
    &&& boundary(d, 5) is Some
    &&& boundary(d, if n < 7 { n } else { 7 }) is Some
}

/// The year part of a date (its first 4 bytes).
pub open spec fn year_of(d: Seq<char>) -> Seq<char> {
    d.take(boundary(d, 4).unwrap())
}

/// The month part of a date (bytes 5 to 7, fewer at the end).
pub open spec fn month_of(d: Seq<char>) -> Seq<char> {
    let n = byte_len(d) as int;
    d.subrange(boundary(d, 5).unwrap(), boundary(d, if n < 7 { n } else { 7 }).unwrap())
}

/// The summary shown in a document: the stored one; without one, a
/// placeholder to replace when summaries are enabled, else a note that they
/// are not.
pub open spec fn summary_shown(s: Option<String>, ai_enabled: bool) -> Seq<char> {
    match s {
        Some(t) => t@,
        None => if ai_enabled {
            "【AI待处理：请阅读全文后，替换此行，写结构化摘要】"@
        } else {
            "【AI 摘要未启用：可在设置中开启 AI 摘要】"@
        },
    }
}

/// The file name of a record's document.
pub open spec fn txt_file_name(r: TranscriptRecord) -> Seq<char> {
    sanitized(r.title@) + seq!['_'] + sanitized(r.author@) + seq!['_'] + r.upload_date@ + seq!['_']
        + r.bvid@ + ".txt"@
}

/// The content of a record's document.
pub open spec fn txt_content(r: TranscriptRecord, ai_enabled: bool) -> Seq<char> {
    let summary = summary_shown(r.summary, ai_enabled);
    "================================================================================\nB站视频转录文档\n================================================================================\n\n📹 视频标题："@
        + r.title@ + "\n🔗 B站链接："@
        + r.url@ + "\n👤 作者："@
        + r.author@ + "\n📅 发布时间："@
        + r.upload_date@ + "\n⏱️  视频时长："@
        + r.duration@ + "\n📝 转录来源："@
        + r.transcript_source@ + "\n⏰ 转录时间："@
        + r.created_at@ + "\n\n================================================================================\n第一部分：视频摘要（AI生成）\n================================================================================\n\n"@
        + summary + "\n\n================================================================================\n第二部分：完整原文\n================================================================================\n\n"@
        + r.transcript_text@ + "\n================================================================================\n文档结束\n================================================================================\n"@
}

/// Where and what a record's document is.
#[derive(Debug)]
pub struct TxtDocument {
    /// The directory: the output directory, then the year, then the month.
    pub dir: String,
    /// The file path inside `dir`.
    pub path: String,
    /// The text to write.
    pub content: String,
}

/// Lays out the transcript document of `record` under `output_dir`:
/// `<output_dir>/<year>/<month>/<title>_<author>_<date>_<bvid>.txt`.
pub fn render_txt(record: &TranscriptRecord, output_dir: &str, ai_enabled: bool) -> (d: TxtDocument)
    requires
        date_cuttable(record.upload_date@),
    ensures
        d.dir@ == path_join(
            path_join(output_dir@, year_of(record.upload_date@)),
            month_of(record.upload_date@),
        ),
        d.path@ == path_join(d.dir@, txt_file_name(*record)),
        d.content@ == txt_content(*record, ai_enabled),
{
    let date = chars_of(record.upload_date.as_str());
    proof {
        lemma_boundary(date@, 4);
        lemma_boundary(date@, 5);
        lemma_boundary(date@, if byte_len(date@) < 7 { byte_len(date@) as int } else { 7 });
    }
    let y_end = match boundary_exec(date.as_slice(), 4) {
        Some(k) => k,
        None => 0,
    };
    let m_start = match boundary_exec(date.as_slice(), 5) {
        Some(k) => k,
        None => 0,
    };
    let m_end = match boundary_exec(date.as_slice(), 7) {
        Some(k) => k,
        None => date.len(),
    };
    proof {
        if byte_len(date@) >= 7 {
        } else {
            lemma_boundary_whole_short(date@);
        }
    }
    proof {
        if m_start > m_end {
            crate::text::lemma_byte_len_mono(date@, m_end as int, m_start as int);
        }
    }
    let year = string_of(sub_chars(date.as_slice(), 0, y_end).as_slice());
    let month = string_of(sub_chars(date.as_slice(), m_start, m_end).as_slice());
    let dir1 = path_join_exec(output_dir, year.as_str());
    let dir = path_join_exec(dir1.as_str(), month.as_str());
    let mut name: Vec<char> = Vec::new();
    extend_str(&mut name, sanitize_filename(record.title.as_str()).as_str());
    name.push('_');
    extend_str(&mut name, sanitize_filename(record.author.as_str()).as_str());
    name.push('_');
    extend_str(&mut name, record.upload_date.as_str());
    name.push('_');
    extend_str(&mut name, record.bvid.as_str());
    extend_str(&mut name, ".txt");
    assert(name@ =~= txt_file_name(*record));
    let file_name = string_of(name.as_slice());
    let path = path_join_exec(dir.as_str(), file_name.as_str());
    let summary = match &record.summary {
        Some(s) => s.clone(),
        None => if ai_enabled {
            owned("【AI待处理：请阅读全文后，替换此行，写结构化摘要】")
        } else {
            owned("【AI 摘要未启用：可在设置中开启 AI 摘要】")
        },
    };
    let mut v: Vec<char> = Vec::new();
    extend_str(&mut v, "================================================================================\nB站视频转录文档\n================================================================================\n\n📹 视频标题：");
    extend_str(&mut v, record.title.as_str());
    extend_str(&mut v, "\n🔗 B站链接：");
    extend_str(&mut v, record.url.as_str());
    extend_str(&mut v, "\n👤 作者：");
    extend_str(&mut v, record.author.as_str());
    extend_str(&mut v, "\n📅 发布时间：");
    extend_str(&mut v, record.upload_date.as_str());
    extend_str(&mut v, "\n⏱️  视频时长：");
    extend_str(&mut v, record.duration.as_str());
    extend_str(&mut v, "\n📝 转录来源：");
    extend_str(&mut v, record.transcript_source.as_str());
    extend_str(&mut v, "\n⏰ 转录时间：");
    extend_str(&mut v, record.created_at.as_str());
    extend_str(&mut v, "\n\n================================================================================\n第一部分：视频摘要（AI生成）\n================================================================================\n\n");
    extend_str(&mut v, summary.as_str());
    extend_str(&mut v, "\n\n================================================================================\n第二部分：完整原文\n================================================================================\n\n");
    extend_str(&mut v, record.transcript_text.as_str());
    extend_str(&mut v, "\n================================================================================\n文档结束\n================================================================================\n");
    TxtDocument { dir, path, content: string_of(v.as_slice()) }
}

proof fn lemma_boundary_whole_short(d: Seq<char>)
    requires
        byte_len(d) < 7,
    ensures
        crate::text::boundary(d, 7) is None,
        crate::text::boundary(d, byte_len(d) as int) == Some(d.len() as int),
{
    crate::text::lemma_boundary_whole(d);
    lemma_boundary_none_beyond(d, 7);
}

proof fn lemma_boundary_none_beyond(d: Seq<char>, n: int)
    requires
        byte_len(d) < n,
    ensures
        crate::text::boundary(d, n) is None,
{
    crate::text::lemma_boundary(d, n);
    if let Some(j) = crate::text::boundary(d, n) {
        crate::text::lemma_byte_len_le_whole(d, j);
    }
}

/// A character that may stand in a sanitized name: neither forbidden in
/// file names nor white space.
pub open spec fn name_safe(c: char) -> bool {
    !is_illegal_file_char(c) && !is_ws(c)
}

/// A sanitized name holds no character that file names forbid and no white
/// space.
pub proof fn law_sanitized_is_safe(s: Seq<char>)
    ensures
        forall|i: int| 0 <= i < sanitized(s).len() ==> name_safe(#[trigger] sanitized(s)[i]),
{
    lemma_legal_chars(s);
    lemma_words_safe(legal_chars(s));
    let ws = words(legal_chars(s));
    assert(name_safe('-'));
    lemma_join_safe(ws, seq!['-']);
}

proof fn lemma_legal_chars(s: Seq<char>)
    ensures
        forall|i: int|
            0 <= i < legal_chars(s).len() ==> !is_illegal_file_char(#[trigger] legal_chars(s)[i]),
    decreases s.len(),
{
    if s.len() > 0 {
        let r = legal_chars(s.drop_last());
        lemma_legal_chars(s.drop_last());
        if !is_illegal_file_char(s.last()) {
            assert forall|i: int| 0 <= i < r.push(s.last()).len() implies !is_illegal_file_char(
                #[trigger] r.push(s.last())[i],
            ) by {
                if i < r.len() {
                    assert(r.push(s.last())[i] == r[i]);
                }
            }
        }
    }
}

proof fn lemma_words_state_safe(s: Seq<char>)
    requires
        forall|i: int| 0 <= i < s.len() ==> !is_illegal_file_char(#[trigger] s[i]),
    ensures
        forall|k: int, i: int|
            0 <= k < words_state(s).0.len() && 0 <= i < words_state(s).0[k].len() ==> name_safe(
                #[trigger] words_state(s).0[k][i],
            ),
        forall|i: int| 0 <= i < words_state(s).1.len() ==> name_safe(#[trigger] words_state(s).1[i]),
    decreases s.len(),
{
    if s.len() > 0 {
        let p = s.drop_last();
        assert forall|i: int| 0 <= i < p.len() implies !is_illegal_file_char(#[trigger] p[i]) by {
            assert(p[i] == s[i]);
        }
        lemma_words_state_safe(p);
        let c = s.last();
        assert(!is_illegal_file_char(s[s.len() - 1]));
        let done = words_state(p).0;
        let cur = words_state(p).1;
        if is_ws(c) {
            if cur.len() > 0 {
                assert forall|k: int, i: int|
                    0 <= k < done.push(cur).len() && 0 <= i < done.push(cur)[k].len() implies name_safe(
                    #[trigger] done.push(cur)[k][i],
                ) by {
                    if k < done.len() {
                        assert(done.push(cur)[k] == done[k]);
                    } else {
                        assert(done.push(cur)[k] == cur);
                    }
                }
            }
        } else {
            assert forall|i: int| 0 <= i < cur.push(c).len() implies name_safe(
                #[trigger] cur.push(c)[i],
            ) by {
                if i < cur.len() {
                    assert(cur.push(c)[i] == cur[i]);
                }
            }
        }
    }
}

proof fn lemma_words_safe(s: Seq<char>)
    requires
        forall|i: int| 0 <= i < s.len() ==> !is_illegal_file_char(#[trigger] s[i]),
    ensures
        forall|k: int, i: int|
            0 <= k < words(s).len() && 0 <= i < words(s)[k].len() ==> name_safe(
                #[trigger] words(s)[k][i],
            ),
{
    lemma_words_state_safe(s);
    let done = words_state(s).0;
    let cur = words_state(s).1;
    if cur.len() > 0 {
        assert forall|k: int, i: int|
            0 <= k < done.push(cur).len() && 0 <= i < done.push(cur)[k].len() implies name_safe(
            #[trigger] done.push(cur)[k][i],
        ) by {
            if k < done.len() {
                assert(done.push(cur)[k] == done[k]);
            } else {
                assert(done.push(cur)[k] == cur);
            }
        }
    }
}

proof fn lemma_join_safe(parts: Seq<Seq<char>>, sep: Seq<char>)
    requires
        forall|k: int, i: int|
            0 <= k < parts.len() && 0 <= i < parts[k].len() ==> name_safe(#[trigger] parts[k][i]),
        forall|i: int| 0 <= i < sep.len() ==> name_safe(#[trigger] sep[i]),
    ensures
        forall|i: int| 0 <= i < join(parts, sep).len() ==> name_safe(#[trigger] join(parts, sep)[i]),
    decreases parts.len(),
{
    if parts.len() > 1 {
        let p = parts.drop_last();
        assert forall|k: int, i: int| 0 <= k < p.len() && 0 <= i < p[k].len() implies name_safe(
            #[trigger] p[k][i],
        ) by {
            assert(p[k] == parts[k]);
        }
        lemma_join_safe(p, sep);
        let a = join(p, sep);
        let b = parts.last();
        assert forall|i: int| 0 <= i < join(parts, sep).len() implies name_safe(
            #[trigger] join(parts, sep)[i],
        ) by {
            assert(join(parts, sep) == a + sep + b);
            if i < a.len() {
                assert((a + sep + b)[i] == a[i]);
            } else if i < a.len() + sep.len() {
                assert((a + sep + b)[i] == sep[i - a.len()]);
            } else {
                assert((a + sep + b)[i] == b[i - a.len() - sep.len()]);
                assert(name_safe(parts[parts.len() - 1][i - a.len() - sep.len()]));
            }
        }
    } else if parts.len() == 1 {
        assert forall|i: int| 0 <= i < join(parts, sep).len() implies name_safe(
            #[trigger] join(parts, sep)[i],
        ) by {
            assert(name_safe(parts[0][i]));
        }
    }
}

} // verus!
