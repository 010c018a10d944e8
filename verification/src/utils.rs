//! Locating the external tools (yt-dlp, ffmpeg). An app started from a
//! bundle does not see the shell's `PATH`, so the tools are looked for in a
//! fixed order: the path named by an environment variable, what `which`
//! printed, then the usual install directories. The caller reads the
//! environment and the file system; these functions decide.

use vstd::prelude::*;
use crate::text::{chars_of, string_of, trim, trim_chars, extend_str, owned, str_eq, string_views};

verus! {

broadcast use vstd::string::group_string_axioms;

/// The environment variable that may name the yt-dlp binary.
pub const YT_DLP_ENV: &'static str = "YT_DLP_PATH";

/// The environment variable that may name the ffmpeg binary.
pub const FFMPEG_ENV: &'static str = "FFMPEG_PATH";

/// The places looked at for tool `name`, in order: the environment
/// variable's path, the non-blank output of `which` (trimmed), then the
/// Homebrew (Apple Silicon), `/usr/local`, system and Linuxbrew directories.
pub open spec fn tool_candidates_of(
    name: Seq<char>,
    env_path: Option<Seq<char>>,
    which_output: Option<Seq<char>>,
) -> Seq<Seq<char>> {
    let e = match env_path {
        Some(p) => seq![p],
        None => Seq::empty(),
    };
    let w = match which_output {
        Some(out) => if trim(out).len() > 0 {
            seq![trim(out)]
        } else {
            Seq::empty()
        },
        None => Seq::empty(),
    };
    e + w + seq![
        "/opt/homebrew/bin/"@ + name,
        "/usr/local/bin/"@ + name,
        "/usr/bin/"@ + name,
        "/home/linuxbrew/.linuxbrew/bin/"@ + name,
    ]
}

fn push_joined(r: &mut Vec<String>, dir: &str, name: &str)
    ensures
        string_views(final(r)@) == string_views(old(r)@).push(dir@ + name@),
{
    let ghost before = r@;
    let mut v = chars_of(dir);
    crate::text::extend_str(&mut v, name);
    r.push(string_of(v.as_slice()));
    assert(string_views(r@) =~= string_views(before).push(dir@ + name@));
}

/// Lists the places to look at for a tool, in order.
pub fn tool_candidates(name: &str, env_path: Option<&str>, which_output: Option<&str>) -> (r: Vec<
    String,
>)
    ensures
        string_views(r@) == tool_candidates_of(
            name@,
            match env_path {
                Some(p) => Some(p@),
                None => None,
            },
            match which_output {
                Some(o) => Some(o@),
                None => None,
            },
        ),
{
    let mut r: Vec<String> = Vec::new();
    match env_path {
        Some(p) => {
            r.push(owned(p));
        },
        None => {},
    }
    let ghost after_env = string_views(r@);
    match which_output {
        Some(o) => {
            let t = trim_chars(chars_of(o).as_slice());
            if t.len() > 0 {
                r.push(string_of(t.as_slice()));
                assert(string_views(r@) =~= after_env.push(t@));
            }
        },
        None => {},
    }
    let ghost fixed_start = string_views(r@);
    push_joined(&mut r, "/opt/homebrew/bin/", name);
    push_joined(&mut r, "/usr/local/bin/", name);
    push_joined(&mut r, "/usr/bin/", name);
    push_joined(&mut r, "/home/linuxbrew/.linuxbrew/bin/", name);
    assert(string_views(r@) =~= tool_candidates_of(
        name@,
        match env_path {
            Some(p) => Some(p@),
            None => None,
        },
        match which_output {
            Some(o) => Some(o@),
            None => None,
        },
    ));
    r
}

/// The first candidate that exists.
pub open spec fn first_existing(cands: Seq<Seq<char>>, existing: Seq<Seq<char>>) -> Option<
    Seq<char>,
>
    decreases cands.len(),
{
    if cands.len() == 0 {
        None
    } else if existing.contains(cands[0]) {
        Some(cands[0])
    } else {
        first_existing(cands.drop_first(), existing)
    }
}

/// The message when a tool is found nowhere.
pub open spec fn tool_missing_of(name: Seq<char>, hint: Seq<char>) -> Seq<char> {
    "未找到 "@ + name + "，请先安装: "@ + hint
}

/// The tool found for `name`: the first candidate among the `existing`
/// paths, or the error with the install hint.
pub open spec fn tool_path_of(
    name: Seq<char>,
    hint: Seq<char>,
    env_path: Option<Seq<char>>,
    which_output: Option<Seq<char>>,
    existing: Seq<Seq<char>>,
) -> Result<Seq<char>, Seq<char>> {
    match first_existing(tool_candidates_of(name, env_path, which_output), existing) {
        Some(p) => Ok(p),
        None => Err(tool_missing_of(name, hint)),
    }
}

fn in_list(list: &Vec<String>, s: &String) -> (r: bool)
    ensures
        r == string_views(list@).contains(s@),
{
    let mut i: usize = 0;
    while i < list.len()
        invariant
            i <= list@.len(),
            forall|k: int| 0 <= k < i ==> string_views(list@)[k] != s@,
        decreases list@.len() - i,
    {
        if str_eq(list[i].as_str(), s.as_str()) {
            assert(string_views(list@)[i as int] == s@);
            return true;
        }
        i += 1;
    }
    false
}

/// Decides where tool `name` is, given where it was looked for and which of
/// those paths exist.
pub fn resolve_tool_path(
    name: &str,
    hint: &str,
    env_path: Option<&str>,
    which_output: Option<&str>,
    existing: &Vec<String>,
) -> (r: Result<String, String>)
    ensures
        match r {
            Ok(p) => tool_path_of(
                name@,
                hint@,
                match env_path {
                    Some(q) => Some(q@),
                    None => None,
                },
                match which_output {
                    Some(o) => Some(o@),
                    None => None,
                },
                string_views(existing@),
            ) == Ok::<Seq<char>, Seq<char>>(p@),
            Err(e) => tool_path_of(
                name@,
                hint@,
                match env_path {
                    Some(q) => Some(q@),
                    None => None,
                },
                match which_output {
                    Some(o) => Some(o@),
                    None => None,
                },
                string_views(existing@),
            ) == Err::<Seq<char>, Seq<char>>(e@),
        },
{
    let cands = tool_candidates(name, env_path, which_output);
    let ghost cs = string_views(cands@);
    let ghost ex = string_views(existing@);
    let mut k: usize = 0;
    assert(cs.skip(0) =~= cs);
    while k < cands.len()
        invariant
            k <= cands@.len(),
            cs == string_views(cands@),
            cs == tool_candidates_of(
                name@,
                match env_path {
                    Some(q) => Some(q@),
                    None => None,
                },
                match which_output {
                    Some(o) => Some(o@),
                    None => None,
                },
            ),
            ex == string_views(existing@),
            first_existing(cs, ex) == first_existing(cs.skip(k as int), ex),
        decreases cands@.len() - k,
    {
        assert(cs.skip(k as int).drop_first() =~= cs.skip(k + 1));
        assert(cs.skip(k as int)[0] == cands@[k as int]@);
        if in_list(existing, &cands[k]) {
            return Ok(cands[k].clone());
        }
        k += 1;
    }
    let mut v: Vec<char> = Vec::new();
    extend_str(&mut v, "未找到 ");
    extend_str(&mut v, name);
    extend_str(&mut v, "，请先安装: ");
    extend_str(&mut v, hint);
    Err(string_of(v.as_slice()))
}

/// The yt-dlp binary to run.
pub fn resolve_ytdlp_path(
    env_path: Option<&str>,
    which_output: Option<&str>,
    existing: &Vec<String>,
) -> (r: Result<String, String>)
    ensures
        match r {
            Ok(p) => tool_path_of(
                "yt-dlp"@,
                "brew install yt-dlp"@,
                match env_path {
                    Some(q) => Some(q@),
                    None => None,
                },
                match which_output {
                    Some(o) => Some(o@),
                    None => None,
                },
                string_views(existing@),
            ) == Ok::<Seq<char>, Seq<char>>(p@),
            Err(e) => tool_path_of(
                "yt-dlp"@,
                "brew install yt-dlp"@,
                match env_path {
                    Some(q) => Some(q@),
                    None => None,
                },
                match which_output {
                    Some(o) => Some(o@),
                    None => None,
                },
                string_views(existing@),
            ) == Err::<Seq<char>, Seq<char>>(e@),
        },
{
    resolve_tool_path("yt-dlp", "brew install yt-dlp", env_path, which_output, existing)
}

/// The ffmpeg binary to run.
pub fn resolve_ffmpeg_path(
    env_path: Option<&str>,
    which_output: Option<&str>,
    existing: &Vec<String>,
) -> (r: Result<String, String>)
    ensures
        match r {
            Ok(p) => tool_path_of(
                "ffmpeg"@,
                "brew install ffmpeg"@,
                match env_path {
                    Some(q) => Some(q@),
                    None => None,
                },
                match which_output {
                    Some(o) => Some(o@),
                    None => None,
                },
                string_views(existing@),
            ) == Ok::<Seq<char>, Seq<char>>(p@),
            Err(e) => tool_path_of(
                "ffmpeg"@,
                "brew install ffmpeg"@,
                match env_path {
                    Some(q) => Some(q@),
                    None => None,
                },
                match which_output {
                    Some(o) => Some(o@),
                    None => None,
                },
                string_views(existing@),
            ) == Err::<Seq<char>, Seq<char>>(e@),
        },
{
    resolve_tool_path("ffmpeg", "brew install ffmpeg", env_path, which_output, existing)
}

} // verus!
