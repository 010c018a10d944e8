//! The Bilibili cookie kept in the configuration.

use vstd::prelude::*;
use crate::config::AppConfig;
use crate::text::owned;

verus! {

broadcast use vstd::string::group_string_axioms;

/// `after` is `before` with its cookie set to `cookie` and nothing else
/// changed.
pub open spec fn cookie_saved(before: AppConfig, after: AppConfig, cookie: Seq<char>) -> bool {
    &&& after.bilibili.cookie@ == cookie
    &&& after.whisper == before.whisper
    &&& after.ai_summary == before.ai_summary
    &&& after.bilibili.video_dir == before.bilibili.video_dir
    &&& after.bilibili.audio_dir == before.bilibili.audio_dir
    &&& after.bilibili.transcript_dir == before.bilibili.transcript_dir
    &&& after.bilibili.ai_analysis_dir == before.bilibili.ai_analysis_dir
    &&& after.bilibili.output_dir == before.bilibili.output_dir
}

/// Whether a cookie is configured, for a configuration that may have failed
/// to load: only a loaded, non-empty cookie counts.
pub open spec fn cookie_present(config: Option<AppConfig>) -> bool {
    match config {
        Some(c) => c.bilibili.cookie@.len() > 0,
        None => false,
    }
}

/// Stores `cookie` in the configuration (the caller writes the file).
pub fn save_cookie(config: &mut AppConfig, cookie: &str)
    ensures
        cookie_saved(*old(config), *final(config), cookie@),
{
    config.bilibili.cookie = owned(cookie);
}

/// The configured cookie.
pub fn get_cookie(config: &AppConfig) -> (r: String)
    ensures
        r@ == config.bilibili.cookie@,
{
    config.bilibili.cookie.clone()
}

/// Whether a cookie is configured; `None` stands for a configuration that
/// could not be loaded.
pub fn has_cookie(config: Option<&AppConfig>) -> (r: bool)
    ensures
        r == cookie_present(
            match config {
                Some(c) => Some(*c),
                None => None,
            },
        ),
{
    match config {
        Some(c) => !c.bilibili.cookie.as_str().is_empty(),
        None => false,
    }
}

/// A saved cookie is what is read back, and it counts as configured exactly
/// when it is not empty.
pub proof fn law_cookie_read_after_save(before: AppConfig, after: AppConfig, cookie: Seq<char>)
    requires
        cookie_saved(before, after, cookie),
    ensures
        after.bilibili.cookie@ == cookie,
        cookie_present(Some(after)) == (cookie.len() > 0),
{
}

/// Saving twice leaves the second cookie, as if the first save had not
/// happened.
pub proof fn law_cookie_last_save_wins(
    a: AppConfig,
    b: AppConfig,
    c: AppConfig,
    first: Seq<char>,
    second: Seq<char>,
)
    requires
        cookie_saved(a, b, first),
        cookie_saved(b, c, second),
    ensures
        cookie_saved(a, c, second),
{
}

/// Clearing the cookie (saving the empty one) leaves no cookie configured.
pub proof fn law_cookie_cleared(before: AppConfig, after: AppConfig)
    requires
        cookie_saved(before, after, Seq::empty()),
    ensures
        !cookie_present(Some(after)),
{
}

} // verus!
