//! Calls into outside crates (`regex`, `chrono`, `base64`) and into
//! `std::path`, each behind a small trusted function whose contract states
//! or names what the call returns. Nothing in this file is proved: the
//! contracts are believed.

use std::fmt::Write;
use vstd::prelude::*;

verus! {

/// What `regex::Regex::find` yields for `pattern` on `haystack`: the text
/// before the leftmost-first match and the matched text, or `None` when the
/// pattern does not compile or nothing matches.
pub uninterp spec fn regex_first_match(pattern: Seq<char>, haystack: Seq<char>) -> Option<
    (Seq<char>, Seq<char>),
>;

/// Compiles `pattern` with `regex::Regex::new` and runs `Regex::find` on
/// `haystack`. The contract names the result and states only what `Match`
/// documents: the match is the slice `haystack[start..end]`, so the returned
/// prefix and match are consecutive pieces of `haystack` from its start.
#[verifier::external_body]
pub(crate) fn regex_find(pattern: &str, haystack: &str) -> (r: Option<(String, String)>)
    ensures
        match r {
            Some((pre, m)) => {
                &&& regex_first_match(pattern@, haystack@) == Some((pre@, m@))
                &&& pre@.len() + m@.len() <= haystack@.len()
                &&& haystack@.subrange(0, pre@.len() as int) == pre@
                &&& haystack@.subrange(pre@.len() as int, (pre@.len() + m@.len()) as int) == m@
            },
            None => regex_first_match(pattern@, haystack@) is None,
        },
{
    let re = regex::Regex::new(pattern).ok()?;
    let m = re.find(haystack)?;
    Some((haystack[..m.start()].to_string(), m.as_str().to_string()))
}

/// What `chrono::DateTime::<Utc>::from_timestamp(secs, 0)` formatted with the
/// strftime string `fmt` gives, or `None` when the timestamp is out of
/// chrono's range or the format cannot be rendered.
pub uninterp spec fn utc_date_text(secs: int, fmt: Seq<char>) -> Option<Seq<char>>;

/// Renders the UTC date and time of the Unix timestamp `secs` with
/// `chrono::DateTime::format`. The contract only names the result; the
/// calendar arithmetic and formatting rules are chrono's.
#[verifier::external_body]
pub(crate) fn format_utc_timestamp(secs: i64, fmt: &str) -> (r: Option<String>)
    ensures
        match r {
            Some(t) => utc_date_text(secs as int, fmt@) == Some(t@),
            None => utc_date_text(secs as int, fmt@) is None,
        },
{
    let dt = chrono::DateTime::from_timestamp(secs, 0)?;
    let mut out = String::new();
    write!(out, "{}", dt.format(fmt)).ok()?;
    Some(out)
}

/// What `std::path::Path::file_stem` gives for the path `p`.
pub uninterp spec fn path_file_stem(p: Seq<char>) -> Option<Seq<char>>;

/// `Path::new(p).file_stem()`, as a string (`None` also when the stem is not
/// valid Unicode, which cannot happen for a path made from a `&str`).
#[verifier::external_body]
pub(crate) fn file_stem(p: &str) -> (r: Option<String>)
    ensures
        match r {
            Some(t) => path_file_stem(p@) == Some(t@),
            None => path_file_stem(p@) is None,
        },
{
    std::path::Path::new(p).file_stem().and_then(|s| s.to_str()).map(|s| s.to_string())
}

/// What `std::path::Path::file_name` gives for the path `p`.
pub uninterp spec fn path_file_name(p: Seq<char>) -> Option<Seq<char>>;

/// `Path::new(p).file_name()`, as a string.
#[verifier::external_body]
pub(crate) fn file_name(p: &str) -> (r: Option<String>)
    ensures
        match r {
            Some(t) => path_file_name(p@) == Some(t@),
            None => path_file_name(p@) is None,
        },
{
    std::path::Path::new(p).file_name().and_then(|s| s.to_str()).map(|s| s.to_string())
}

/// What `std::path::Path::extension` gives for the path `p`.
pub uninterp spec fn path_extension(p: Seq<char>) -> Option<Seq<char>>;

/// `Path::new(p).extension()`, as a string.
#[verifier::external_body]
pub(crate) fn extension(p: &str) -> (r: Option<String>)
    ensures
        match r {
            Some(t) => path_extension(p@) == Some(t@),
            None => path_extension(p@) is None,
        },
{
    std::path::Path::new(p).extension().and_then(|s| s.to_str()).map(|s| s.to_string())
}

/// What `std::path::Path::parent` gives for the path `p`.
pub uninterp spec fn path_parent(p: Seq<char>) -> Option<Seq<char>>;

/// `Path::new(p).parent()`, as a string.
#[verifier::external_body]
pub(crate) fn parent(p: &str) -> (r: Option<String>)
    ensures
        match r {
            Some(t) => path_parent(p@) == Some(t@),
            None => path_parent(p@) is None,
        },
{
    std::path::Path::new(p).parent().and_then(|s| s.to_str()).map(|s| s.to_string())
}

/// What `std::path::Path::join` gives for `base` and `name`.
pub uninterp spec fn path_join(base: Seq<char>, name: Seq<char>) -> Seq<char>;

/// `Path::new(base).join(name)`, as a string. Joining two `&str` paths gives
/// valid Unicode, so the lossless conversion keeps every character.
#[verifier::external_body]
pub(crate) fn join(base: &str, name: &str) -> (r: String)
    ensures
        r@ == path_join(base@, name@),
{
    std::path::Path::new(base).join(name).to_string_lossy().to_string()
}

/// What `std::path::Path::with_extension` gives for `p` and `ext`.
pub uninterp spec fn path_with_extension(p: Seq<char>, ext: Seq<char>) -> Seq<char>;

/// `Path::new(p).with_extension(ext)`, as a string. It panics when `ext`
/// holds a path separator (`/`, and `\\` on Windows), which the `requires`
/// rules out.
#[verifier::external_body]
pub(crate) fn with_extension(p: &str, ext: &str) -> (r: String)
    requires
        forall|i: int| 0 <= i < ext@.len() ==> ext@[i] != '/' && ext@[i] != '\\',
    ensures
        r@ == path_with_extension(p@, ext@),
{
    std::path::Path::new(p).with_extension(ext).to_string_lossy().to_string()
}

/// The character of the six-bit value `n` in the standard base64 alphabet
/// (`A`-`Z`, `a`-`z`, `0`-`9`, `+`, `/`).
pub open spec fn b64_digit(n: int) -> char {
    if n < 26 {
        ('A' as int + n) as char
    } else if n < 52 {
        ('a' as int + (n - 26)) as char
    } else if n < 62 {
        ('0' as int + (n - 52)) as char
    } else if n == 62 {
        '+'
    } else {
        '/'
    }
}

/// Standard base64 (RFC 4648 alphabet, padded with `=`): each group of three
/// bytes gives four characters; a last group of one or two bytes gives two
/// or three characters and is padded to four.
pub open spec fn b64_standard(s: Seq<u8>) -> Seq<char>
    decreases s.len(),
{
    if s.len() == 0 {
        Seq::empty()
    } else if s.len() == 1 {
        seq![b64_digit(s[0] as int / 4), b64_digit((s[0] as int % 4) * 16), '=', '=']
    } else if s.len() == 2 {
        seq![
            b64_digit(s[0] as int / 4),
            b64_digit((s[0] as int % 4) * 16 + s[1] as int / 16),
            b64_digit((s[1] as int % 16) * 4),
            '=',
        ]
    } else {
        seq![
            b64_digit(s[0] as int / 4),
            b64_digit((s[0] as int % 4) * 16 + s[1] as int / 16),
            b64_digit((s[1] as int % 16) * 4 + s[2] as int / 64),
            b64_digit(s[2] as int % 64),
        ] + b64_standard(s.skip(3))
    }
}

/// The length of the padded base64 text of `n` bytes.
pub open spec fn b64_len(n: int) -> int {
    (n / 3) * 4 + if n % 3 > 0 {
        4int
    } else {
        0int
    }
}

/// `base64::Engine::encode` with the `STANDARD` engine (standard alphabet,
/// with padding). It panics when the output length does not fit in `usize`,
/// which the `requires` rules out.
#[verifier::external_body]
pub(crate) fn base64_standard(bytes: &[u8]) -> (r: String)
    requires
        b64_len(bytes@.len() as int) <= usize::MAX,
    ensures
        r@ == b64_standard(bytes@),
{
    base64::Engine::encode(&base64::engine::general_purpose::STANDARD, bytes)
}

} // verus!
