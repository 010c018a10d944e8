//! Downloads through yt-dlp and ffmpeg: the command lines, the reading of
//! yt-dlp's output, and the file names that come out.

use vstd::prelude::*;
use crate::text::{
    chars_of, string_of, lines, lines_exec, trim, trim_chars, contains, contains_exec,
    starts_with, starts_with_exec, second_piece, second_piece_exec, before_first,
    before_first_exec, views, extend_str, extend_chars, owned, string_views, sub_chars, str_eq,
};
use crate::outside::{
    regex_find, regex_first_match, file_stem, path_file_stem, extension, path_extension, parent,
    path_parent, join, path_join, with_extension, path_with_extension,
};

verus! {

broadcast use vstd::string::group_string_axioms;

/// The browser identity sent to yt-dlp for downloads.
pub open spec fn download_user_agent() -> Seq<char> {
    "Mozilla/5.0 (Macintosh; Intel Mac OS X 10_15_7) AppleWebKit/537.36 (KHTML, like Gecko) Chrome/126.0.0.0 Safari/537.36"@
}

fn push_user_agent(r: &mut Vec<String>)
    ensures
        string_views(final(r)@) == string_views(old(r)@).push(download_user_agent()),
{
    let ghost before = r@;
    r.push(owned(
        "Mozilla/5.0 (Macintosh; Intel Mac OS X 10_15_7) AppleWebKit/537.36 (KHTML, like Gecko) Chrome/126.0.0.0 Safari/537.36",
    ));
    assert(string_views(r@) =~= string_views(before).push(download_user_agent()));
}

fn push_str(r: &mut Vec<String>, s: &str)
    ensures
        string_views(final(r)@) == string_views(old(r)@).push(s@),
{
    let ghost before = r@;
    r.push(owned(s));
    assert(string_views(r@) =~= string_views(before).push(s@));
}

/// The yt-dlp output template inside `dir`.
pub open spec fn output_template_of(dir: Seq<char>) -> Seq<char> {
    path_join(dir, "%(title)s.%(ext)s"@)
}

/// Builds the yt-dlp output template inside `dir`.
pub fn output_template(dir: &str) -> (r: String)
    ensures
        r@ == output_template_of(dir@),
{
    join(dir, "%(title)s.%(ext)s")
}

/// The optional cookie-file arguments.
pub open spec fn cookie_args(cookie_file: Option<Seq<char>>) -> Seq<Seq<char>> {
    match cookie_file {
        Some(p) => seq!["--cookies"@, p],
        None => Seq::empty(),
    }
}

/// A cookie file is written and handed to yt-dlp exactly when a cookie is
/// configured (the cookie is not empty).
pub fn cookie_file_wanted(cookie: &str) -> (r: bool)
    ensures
        r == (cookie@.len() > 0),
{
    !cookie.is_empty()
}

/// A format is requested explicitly unless it is empty or `best`.
pub open spec fn explicit_format(format_id: Seq<char>) -> bool {
    format_id.len() > 0 && format_id != "best"@
}

/// The yt-dlp arguments that download a video.
pub open spec fn video_download_args_of(
    template: Seq<char>,
    format_id: Seq<char>,
    cookie_file: Option<Seq<char>>,
    url: Seq<char>,
) -> Seq<Seq<char>> {
    let base = seq![
        "-o"@,
        template,
        "--no-playlist"@,
        "--restrict-filenames"@,
        "--user-agent"@,
        download_user_agent(),
        "--referer"@,
        "https://www.bilibili.com"@,
    ];
    let fmt = if explicit_format(format_id) {
        seq!["-f"@, format_id]
    } else {
        Seq::empty()
    };
    (base + fmt + cookie_args(cookie_file)).push(url)
}

/// The view of an optional string slice.
pub open spec fn opt_str(o: Option<&str>) -> Option<Seq<char>> {
    match o {
        Some(s) => Some(s@),
        None => None,
    }
}

/// Builds the yt-dlp arguments that download a video; an empty format or
/// `best` lets yt-dlp choose.
pub fn video_download_args(template: &str, format_id: &str, cookie_file: Option<&str>, url: &str) -> (r:
    Vec<String>)
    ensures
        string_views(r@) == video_download_args_of(template@, format_id@, opt_str(cookie_file), url@),
{
    let mut r: Vec<String> = Vec::new();
    push_str(&mut r, "-o");
    push_str(&mut r, template);
    push_str(&mut r, "--no-playlist");
    push_str(&mut r, "--restrict-filenames");
    push_str(&mut r, "--user-agent");
    push_user_agent(&mut r);
    push_str(&mut r, "--referer");
    push_str(&mut r, "https://www.bilibili.com");
    if !format_id.is_empty() && !str_eq(format_id, "best") {
        push_str(&mut r, "-f");
        push_str(&mut r, format_id);
    }
    match cookie_file {
        Some(p) => {
            push_str(&mut r, "--cookies");
            push_str(&mut r, p);
        },
        None => {},
    }
    push_str(&mut r, url);
    assert(string_views(r@) =~= video_download_args_of(
        template@,
        format_id@,
        opt_str(cookie_file),
        url@,
    ));
    r
}

/// The yt-dlp arguments that download the audio of a video as mp3; yt-dlp
/// prints the final file's path, and is pointed at ffmpeg when its location
/// is known.
pub open spec fn audio_download_args_of(
    template: Seq<char>,
    cookie_file: Option<Seq<char>>,
    ffmpeg: Option<Seq<char>>,
    url: Seq<char>,
) -> Seq<Seq<char>> {
    let base = seq![
        "-x"@,
        "--audio-format"@,
        "mp3"@,
        "-o"@,
        template,
        "--no-playlist"@,
        "--restrict-filenames"@,
        "--print"@,
        "after_move:filepath"@,
        "--user-agent"@,
        download_user_agent(),
        "--referer"@,
        "https://www.bilibili.com"@,
    ];
    let ff = match ffmpeg {
        Some(p) => seq!["--ffmpeg-location"@, p],
        None => Seq::empty(),
    };
    (base + cookie_args(cookie_file) + ff).push(url)
}

/// Builds the yt-dlp arguments that download the audio of a video.
pub fn audio_download_args(
    template: &str,
    cookie_file: Option<&str>,
    ffmpeg: Option<&str>,
    url: &str,
) -> (r: Vec<String>)
    ensures
        string_views(r@) == audio_download_args_of(
            template@,
            opt_str(cookie_file),
            opt_str(ffmpeg),
            url@,
        ),
{
    let mut r: Vec<String> = Vec::new();
    push_str(&mut r, "-x");
    push_str(&mut r, "--audio-format");
    push_str(&mut r, "mp3");
    push_str(&mut r, "-o");
    push_str(&mut r, template);
    push_str(&mut r, "--no-playlist");
    push_str(&mut r, "--restrict-filenames");
    push_str(&mut r, "--print");
    push_str(&mut r, "after_move:filepath");
    push_str(&mut r, "--user-agent");
    push_user_agent(&mut r);
    push_str(&mut r, "--referer");
    push_str(&mut r, "https://www.bilibili.com");
    match cookie_file {
        Some(p) => {
            push_str(&mut r, "--cookies");
            push_str(&mut r, p);
        },
        None => {},
    }
    match ffmpeg {
        Some(p) => {
            push_str(&mut r, "--ffmpeg-location");
            push_str(&mut r, p);
        },
        None => {},
    }
    push_str(&mut r, url);
    assert(string_views(r@) =~= audio_download_args_of(
        template@,
        opt_str(cookie_file),
        opt_str(ffmpeg),
        url@,
    ));
    r
}

/// The yt-dlp arguments that list the formats of a video as JSON.
pub open spec fn list_formats_args_of(cookie_file: Option<Seq<char>>, url: Seq<char>) -> Seq<
    Seq<char>,
> {
    let base = seq![
        "-F"@,
        "--dump-json"@,
        "--user-agent"@,
        download_user_agent(),
        "--referer"@,
        "https://www.bilibili.com"@,
    ];
    (base + cookie_args(cookie_file)).push(url)
}

/// Builds the yt-dlp arguments that list the formats of a video.
pub fn list_formats_args(cookie_file: Option<&str>, url: &str) -> (r: Vec<String>)
    ensures
        string_views(r@) == list_formats_args_of(opt_str(cookie_file), url@),
{
    let mut r: Vec<String> = Vec::new();
    push_str(&mut r, "-F");
    push_str(&mut r, "--dump-json");
    push_str(&mut r, "--user-agent");
    push_user_agent(&mut r);
    push_str(&mut r, "--referer");
    push_str(&mut r, "https://www.bilibili.com");
    match cookie_file {
        Some(p) => {
            push_str(&mut r, "--cookies");
            push_str(&mut r, p);
        },
        None => {},
    }
    push_str(&mut r, url);
    assert(string_views(r@) =~= list_formats_args_of(opt_str(cookie_file), url@));
    r
}

/// The ffmpeg arguments that turn `input` into 16 kHz mono 16-bit WAV.
pub open spec fn wav_args_of(input: Seq<char>, output: Seq<char>) -> Seq<Seq<char>> {
    seq![
        "-y"@,
        "-i"@,
        input,
        "-ar"@,
        "16000"@,
        "-ac"@,
        "1"@,
        "-c:a"@,
        "pcm_s16le"@,
        output,
    ]
}

/// Builds the ffmpeg arguments for the WAV conversion.
pub fn wav_args(input: &str, output: &str) -> (r: Vec<String>)
    ensures
        string_views(r@) == wav_args_of(input@, output@),
{
    let mut r: Vec<String> = Vec::new();
    push_str(&mut r, "-y");
    push_str(&mut r, "-i");
    push_str(&mut r, input);
    push_str(&mut r, "-ar");
    push_str(&mut r, "16000");
    push_str(&mut r, "-ac");
    push_str(&mut r, "1");
    push_str(&mut r, "-c:a");
    push_str(&mut r, "pcm_s16le");
    push_str(&mut r, output);
    assert(string_views(r@) =~= wav_args_of(input@, output@));
    r
}

/// The WAV file made from an audio file (same path, `wav` extension).
pub fn wav_path(audio: &str) -> (r: String)
    ensures
        r@ == path_with_extension(audio@, "wav"@),
{
    proof {
        reveal_strlit("wav");
    }
    with_extension(audio, "wav")
}

/// An audio file needs converting unless it already has the `wav`
/// extension.
pub fn needs_wav_conversion(audio: &str) -> (r: bool)
    ensures
        r == (path_extension(audio@) != Some("wav"@)),
{
    match extension(audio) {
        Some(e) => !str_eq(e.as_str(), "wav"),
        None => true,
    }
}

/// The error of a failed yt-dlp run: `prefix`, then stderr, or stdout when
/// stderr is empty.
pub open spec fn tool_failure_of(prefix: Seq<char>, stderr: Seq<char>, stdout: Seq<char>) -> Seq<
    char,
> {
    prefix + if stderr.len() > 0 {
        stderr
    } else {
        stdout
    }
}

/// Builds the error of a failed tool run.
pub fn tool_failure(prefix: &str, stderr: &str, stdout: &str) -> (r: String)
    ensures
        r@ == tool_failure_of(prefix@, stderr@, stdout@),
{
    let mut v: Vec<char> = Vec::new();
    extend_str(&mut v, prefix);
    if !stderr.is_empty() {
        extend_str(&mut v, stderr);
    } else {
        extend_str(&mut v, stdout);
    }
    string_of(v.as_slice())
}

/// The file named on the first yt-dlp output line with `Destination:`: the
/// text after it (up to a further `Destination:`), trimmed.
pub open spec fn destination_in(ls: Seq<Seq<char>>) -> Option<Seq<char>>
    decreases ls.len(),
{
    if ls.len() == 0 {
        None
    } else if contains(ls[0], "Destination:"@) {
        Some(trim(second_piece(ls[0], "Destination:"@).unwrap()))
    } else {
        destination_in(ls.drop_first())
    }
}

/// Finds the downloaded file announced in yt-dlp's output.
pub fn destination_from_output(output: &str) -> (r: Option<String>)
    ensures
        match r {
            Some(p) => destination_in(lines(output@)) == Some(p@),
            None => destination_in(lines(output@)) is None,
        },
{
    let cs = chars_of(output);
    let ls = lines_exec(cs.as_slice());
    let pat = chars_of("Destination:");
    let mut k: usize = 0;
    assert(views(ls@).skip(0) =~= views(ls@));
    while k < ls.len()
        invariant
            k <= ls@.len(),
            pat@ == "Destination:"@,
            destination_in(lines(output@)) == destination_in(views(ls@).skip(k as int)),
            views(ls@) == lines(output@),
        decreases ls@.len() - k,
    {
        assert(views(ls@).skip(k as int).drop_first() =~= views(ls@).skip(k + 1));
        assert(views(ls@).skip(k as int)[0] == ls@[k as int]@);
        if contains_exec(ls[k].as_slice(), pat.as_slice()) {
            proof {
                crate::text::lemma_contains_first_occ(ls@[k as int]@, pat@);
            }
            match second_piece_exec(ls[k].as_slice(), pat.as_slice()) {
                Some(p) => {
                    let t = trim_chars(p.as_slice());
                    return Some(string_of(t.as_slice()));
                },
                None => {
                    return None;
                },
            }
        }
        k += 1;
    }
    None
}

/// Whether the path `p` has the extension `ext`.
pub open spec fn has_ext(p: Seq<char>, ext: Seq<char>) -> bool {
    path_extension(p) == Some(ext)
}

/// `files[i]` is the newest of the files (path, modification time) with
/// extension `ext`, and the first listed of those equally new.
pub open spec fn is_newest(files: Seq<(String, u128)>, ext: Seq<char>, i: int) -> bool {
    &&& 0 <= i < files.len()
    &&& has_ext(files[i].0@, ext)
    &&& forall|j: int|
        0 <= j < files.len() && #[trigger] has_ext(files[j].0@, ext) ==> files[j].1 <= files[i].1
    &&& forall|j: int| 0 <= j < i && #[trigger] has_ext(files[j].0@, ext) ==> files[j].1 < files[i].1
}

/// Finds the newest of `files` (path, modification time) with extension
/// `ext`; `None` when none has it.
pub fn newest_with_extension(files: &Vec<(String, u128)>, ext: &str) -> (r: Option<usize>)
    ensures
        match r {
            Some(i) => is_newest(files@, ext@, i as int),
            None => forall|j: int| 0 <= j < files@.len() ==> !#[trigger] has_ext(files@[j].0@, ext@),
        },
{
    let mut best: Option<usize> = None;
    let mut k: usize = 0;
    while k < files.len()
        invariant
            k <= files@.len(),
            match best {
                Some(b) => {
                    &&& b < k
                    &&& has_ext(files@[b as int].0@, ext@)
                    &&& forall|j: int|
                        0 <= j < k && #[trigger] has_ext(files@[j].0@, ext@) ==> files@[j].1
                            <= files@[b as int].1
                    &&& forall|j: int|
                        0 <= j < b && #[trigger] has_ext(files@[j].0@, ext@) ==> files@[j].1
                            < files@[b as int].1
                },
                None => forall|j: int| 0 <= j < k ==> !#[trigger] has_ext(files@[j].0@, ext@),
            },
        decreases files@.len() - k,
    {
        let matches = match extension(files[k].0.as_str()) {
            Some(e) => str_eq(e.as_str(), ext),
            None => false,
        };
        if matches {
            match best {
                Some(b) => {
                    if files[k].1 > files[b].1 {
                        best = Some(k);
                    }
                },
                None => {
                    best = Some(k);
                },
            }
        }
        k += 1;
    }
    best
}

/// The downloaded file: the one named on a `Destination:` line of yt-dlp's
/// output, else the newest of `files` (path, modification time) with the
/// expected extension.
pub fn find_downloaded_file(
    output: &str,
    files: &Vec<(String, u128)>,
    ext: &str,
) -> (r: Option<String>)
    ensures
        destination_in(lines(output@)) is Some ==> r is Some && r->0@ == destination_in(
            lines(output@),
        )->0,
        destination_in(lines(output@)) is None ==> match r {
            Some(p) => exists|i: int| is_newest(files@, ext@, i) && p@ == files@[i].0@,
            None => forall|j: int|
                0 <= j < files@.len() ==> !#[trigger] has_ext(files@[j].0@, ext@),
        },
{
    match destination_from_output(output) {
        Some(p) => Some(p),
        None => match newest_with_extension(files, ext) {
            Some(i) => Some(files[i].0.clone()),
            None => None,
        },
    }
}

/// The path printed by yt-dlp's `--print after_move:filepath`: the last
/// non-blank line of its output, trimmed.
pub open spec fn printed_path_in(ls: Seq<Seq<char>>) -> Option<Seq<char>>
    decreases ls.len(),
{
    if ls.len() == 0 {
        None
    } else if trim(ls.last()).len() > 0 {
        Some(trim(ls.last()))
    } else {
        printed_path_in(ls.drop_last())
    }
}

/// Reads the path that yt-dlp printed for the finished file.
pub fn printed_path(output: &str) -> (r: Option<String>)
    ensures
        match r {
            Some(p) => printed_path_in(lines(output@)) == Some(p@),
            None => printed_path_in(lines(output@)) is None,
        },
{
    let cs = chars_of(output);
    let ls = lines_exec(cs.as_slice());
    let mut k: usize = ls.len();
    assert(views(ls@).take(k as int) =~= views(ls@));
    while k > 0
        invariant
            k <= ls@.len(),
            views(ls@) == lines(output@),
            printed_path_in(lines(output@)) == printed_path_in(views(ls@).take(k as int)),
        decreases k,
    {
        let t = trim_chars(ls[k - 1].as_slice());
        assert(views(ls@).take(k as int).last() == ls@[k - 1]@);
        assert(views(ls@).take(k as int).drop_last() =~= views(ls@).take(k - 1));
        if t.len() > 0 {
            return Some(string_of(t.as_slice()));
        }
        k -= 1;
    }
    None
}

/// The downloaded audio file: the path yt-dlp printed, else the one found
/// from its output and the files present (`find_downloaded_file`).
pub fn downloaded_audio_file(
    output: &str,
    files: &Vec<(String, u128)>,
    ext: &str,
) -> (r: Option<String>)
    ensures
        printed_path_in(lines(output@)) is Some ==> r is Some && r->0@ == printed_path_in(
            lines(output@),
        )->0,
        printed_path_in(lines(output@)) is None ==> {
            &&& destination_in(lines(output@)) is Some ==> r is Some && r->0@ == destination_in(
                lines(output@),
            )->0
            &&& destination_in(lines(output@)) is None ==> match r {
                Some(p) => exists|i: int| is_newest(files@, ext@, i) && p@ == files@[i].0@,
                None => forall|j: int|
                    0 <= j < files@.len() ==> !#[trigger] has_ext(files@[j].0@, ext@),
            }
        },
{
    match printed_path(output) {
        Some(p) => Some(p),
        None => find_downloaded_file(output, files, ext),
    }
}

/// The downloaded file named in yt-dlp's output, line by line: a
/// `Destination:` line names it after the marker; a line
/// `[download] <file> has already been downloaded` names `<file>`.
pub open spec fn download_path_in(ls: Seq<Seq<char>>) -> Option<Seq<char>>
    decreases ls.len(),
{
    if ls.len() == 0 {
        None
    } else if contains(ls[0], "Destination:"@) {
        Some(trim(second_piece(ls[0], "Destination:"@).unwrap()))
    } else if contains(ls[0], "has already been downloaded"@) && starts_with(
        trim(before_first(ls[0], "has already been downloaded"@)),
        "[download]"@,
    ) {
        Some(
            trim(
                trim(before_first(ls[0], "has already been downloaded"@)).skip(
                    "[download]"@.len() as int,
                ),
            ),
        )
    } else {
        download_path_in(ls.drop_first())
    }
}

/// The file named on the first `Destination:` line is the downloaded one,
/// whatever lines follow it (later parts, progress, the merge step).
pub proof fn law_first_destination_wins(l: Seq<char>, more: Seq<Seq<char>>)
    requires
        contains(l, "Destination:"@),
    ensures
        download_path_in(seq![l] + more) == Some(trim(second_piece(l, "Destination:"@).unwrap())),
        destination_in(seq![l] + more) == Some(trim(second_piece(l, "Destination:"@).unwrap())),
{
    assert((seq![l] + more)[0] == l);
}

/// Lines after the one that names the file do not change the result, and
/// lines naming no file are passed over.
pub proof fn law_later_lines_do_not_matter(ls: Seq<Seq<char>>, more: Seq<Seq<char>>)
    ensures
        download_path_in(ls) is Some ==> download_path_in(ls + more) == download_path_in(ls),
        destination_in(ls) is Some ==> destination_in(ls + more) == destination_in(ls),
        download_path_in(ls) is None ==> download_path_in(ls + more) == download_path_in(more),
        destination_in(ls) is None ==> destination_in(ls + more) == destination_in(more),
    decreases ls.len(),
{
    if ls.len() == 0 {
        assert(ls + more =~= more);
    } else {
        assert((ls + more)[0] == ls[0]);
        assert((ls + more).drop_first() =~= ls.drop_first() + more);
        law_later_lines_do_not_matter(ls.drop_first(), more);
    }
}

/// Finds the downloaded video file in yt-dlp's output.
pub fn parse_download_path(output: &str) -> (r: Option<String>)
    ensures
        match r {
            Some(p) => download_path_in(lines(output@)) == Some(p@),
            None => download_path_in(lines(output@)) is None,
        },
{
    let cs = chars_of(output);
    let ls = lines_exec(cs.as_slice());
    let dest = chars_of("Destination:");
    let done = chars_of("has already been downloaded");
    let tag = chars_of("[download]");
    let mut k: usize = 0;
    assert(views(ls@).skip(0) =~= views(ls@));
    while k < ls.len()
        invariant
            k <= ls@.len(),
            dest@ == "Destination:"@,
            done@ == "has already been downloaded"@,
            tag@ == "[download]"@,
            download_path_in(lines(output@)) == download_path_in(views(ls@).skip(k as int)),
            views(ls@) == lines(output@),
        decreases ls@.len() - k,
    {
        assert(views(ls@).skip(k as int).drop_first() =~= views(ls@).skip(k + 1));
        assert(views(ls@).skip(k as int)[0] == ls@[k as int]@);
        let line = &ls[k];
        if contains_exec(line.as_slice(), dest.as_slice()) {
            proof {
                crate::text::lemma_contains_first_occ(line@, dest@);
            }
            match second_piece_exec(line.as_slice(), dest.as_slice()) {
                Some(p) => {
                    let t = trim_chars(p.as_slice());
                    return Some(string_of(t.as_slice()));
                },
                None => {
                    return None;
                },
            }
        }
        if contains_exec(line.as_slice(), done.as_slice()) {
            let head = trim_chars(before_first_exec(line.as_slice(), done.as_slice()).as_slice());
            if starts_with_exec(head.as_slice(), tag.as_slice()) {
                let rest = sub_chars(head.as_slice(), tag.len(), head.len());
                assert(rest@ =~= head@.skip(tag@.len() as int));
                let t = trim_chars(rest.as_slice());
                return Some(string_of(t.as_slice()));
            }
        }
        k += 1;
    }
    None
}

/// The file name of a download with yt-dlp's format suffix (`.f30033`)
/// removed from its stem; other paths are kept as they are.
pub open spec fn cleaned_path(p: Seq<char>) -> Seq<char> {
    match (path_file_stem(p), path_extension(p)) {
        (Some(stem), Some(ext)) => match regex_first_match("\\.f\\d+$"@, stem) {
            Some((pre, m)) => match path_parent(p) {
                Some(par) => path_join(
                    par,
                    pre + stem.skip((pre.len() + m.len()) as int) + seq!['.'] + ext,
                ),
                None => p,
            },
            None => p,
        },
        _ => p,
    }
}

/// The file name made from `stem` and `ext` once the suffix `m`, found
/// after the text `pre` at the start of the stem, is cut out.
pub fn name_without_suffix(stem: &str, ext: &str, pre: &str, m: &str) -> (r: String)
    requires
        pre@.len() + m@.len() <= stem@.len(),
    ensures
        r@ == pre@ + stem@.skip((pre@.len() + m@.len()) as int) + seq!['.'] + ext@,
{
    let sc = chars_of(stem);
    let sl = sc.len();
    assert(pre@.len() + m@.len() <= sl);
    let cut = pre.unicode_len() + m.unicode_len();
    let rest = sub_chars(sc.as_slice(), cut, sc.len());
    assert(rest@ =~= stem@.skip((pre@.len() + m@.len()) as int));
    let mut name: Vec<char> = Vec::new();
    extend_str(&mut name, pre);
    extend_chars(&mut name, rest.as_slice());
    name.push('.');
    extend_str(&mut name, ext);
    assert(name@ =~= pre@ + stem@.skip((pre@.len() + m@.len()) as int) + seq!['.'] + ext@);
    string_of(name.as_slice())
}

/// Removes yt-dlp's format suffix (`.f30033`) from a downloaded file name.
pub fn clean_format_suffix(path: &str) -> (r: String)
    ensures
        r@ == cleaned_path(path@),
{
    let stem = match file_stem(path) {
        Some(s) => s,
        None => return owned(path),
    };
    let ext = match extension(path) {
        Some(e) => e,
        None => return owned(path),
    };
    match regex_find("\\.f\\d+$", stem.as_str()) {
        Some((pre, m)) => match parent(path) {
            Some(par) => {
                let n = name_without_suffix(stem.as_str(), ext.as_str(), pre.as_str(), m.as_str());
                join(par.as_str(), n.as_str())
            },
            None => owned(path),
        },
        None => owned(path),
    }
}

} // verus!
