//! Bilibili: link parsing, API request and reply shaping, cookies, subtitles.

pub mod api;
pub mod cookie;
pub mod subtitle;
pub mod types;
