//! Verified core of the Bilibili transcript tool: text handling, request and
//! response shaping for the Bilibili and OpenAI-compatible services, format
//! selection, configuration migration and task bookkeeping.

pub mod text;
pub mod json;
pub mod outside;
pub mod bilibili;
pub mod config;
pub mod download;
pub mod commands;
pub mod storage;
pub mod summary;
pub mod task;
pub mod flow;
pub mod logs;
pub mod utils;
pub mod transcribe;
