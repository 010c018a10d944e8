//! The decisions of the background tasks that talk to outside services in
//! turn: a download, a transcription (with its optional automatic summary)
//! and a stand-alone summary. Each is a step function from the task's state and
//! the outcome of the last outside step to the next state and the action to
//! perform; the runner performs the action and reports its outcome.

use vstd::prelude::*;
use crate::bilibili::api::{bvid_of, extract_bvid};
use crate::task::{transcribe_note, transcribe_note_of, title_from_path, format_file_size, size_text};
use crate::outside::path_file_stem;
use crate::text::{extend_str, owned, string_of};

verus! {

broadcast use vstd::string::group_string_axioms;

// ---------------------------------------------------------------------------
// Transcription task
// ---------------------------------------------------------------------------

/// Where a transcription task stands. `ai` records whether the automatic
/// summary is enabled; `summarizing` whether it is still running.
#[derive(Debug, Clone, Copy, PartialEq, Eq, Structural)]
pub enum TranscribeState {
    Start,
    FetchingInfo { ai: bool },
    Transcribing { ai: bool },
    Completed { summarizing: bool },
    Failed,
}

/// The outcome of the last outside step of a transcription task.
#[derive(Debug)]
pub enum TranscribeEvent {
    /// The configuration was read; `url` is the task's link.
    ConfigLoaded { url: String, ai_enabled: bool },
    ConfigFailed(String),
    InfoFetched,
    InfoFailed(String),
    /// The transcript was made from `source` in `secs` seconds.
    Transcribed { source: String, secs: u64 },
    TranscribeFailed(String),
    SummaryDone,
    SummaryFailed(String),
}

/// What the runner of a transcription task does next.
#[derive(Debug)]
pub enum TranscribeAction {
    /// Fetch the information of video `bvid`.
    FetchVideoInfo { bvid: String },
    /// Record the video's title, announce the start and transcribe.
    Transcribe,
    /// Store the transcript, mark the task completed with `note`, and run
    /// the summary when `summarize`.
    Complete { note: String, summarize: bool },
    /// Store the summary and rewrite the document.
    SaveSummary,
    /// Log that the summary failed; the transcription stays completed.
    LogSummaryFailure { message: String },
    /// Mark the task failed with `error`.
    Fail { error: String },
    /// The outcome does not belong to this state; nothing to do.
    Ignore,
}

/// The state after outcome `e` in state `s`.
pub open spec fn transcribe_next(s: TranscribeState, e: TranscribeEvent) -> TranscribeState {
    match (s, e) {
        (TranscribeState::Start, TranscribeEvent::ConfigFailed(_)) => TranscribeState::Failed,
        (TranscribeState::Start, TranscribeEvent::ConfigLoaded { url, ai_enabled }) => match bvid_of(
            url@,
        ) {
            Some(_) => TranscribeState::FetchingInfo { ai: ai_enabled },
            None => TranscribeState::Failed,
        },
        (TranscribeState::FetchingInfo { .. }, TranscribeEvent::InfoFailed(_)) => TranscribeState::Failed,
        (TranscribeState::FetchingInfo { ai }, TranscribeEvent::InfoFetched) => TranscribeState::Transcribing { ai },
        (TranscribeState::Transcribing { .. }, TranscribeEvent::TranscribeFailed(_)) => TranscribeState::Failed,
        (TranscribeState::Transcribing { ai }, TranscribeEvent::Transcribed { .. }) => TranscribeState::Completed { summarizing: ai },
        (TranscribeState::Completed { summarizing: true }, TranscribeEvent::SummaryDone) => TranscribeState::Completed { summarizing: false },
        (TranscribeState::Completed { summarizing: true }, TranscribeEvent::SummaryFailed(_)) => TranscribeState::Completed { summarizing: false },
        _ => s,
    }
}

/// `a` is the action for outcome `e` in state `s`.
pub open spec fn transcribe_action_is(
    s: TranscribeState,
    e: TranscribeEvent,
    a: TranscribeAction,
) -> bool {
    match (s, e) {
        (TranscribeState::Start, TranscribeEvent::ConfigFailed(m)) => a matches TranscribeAction::Fail {
            error,
        } && error@ == "加载配置失败: "@ + m@,
        (TranscribeState::Start, TranscribeEvent::ConfigLoaded { url, .. }) => match bvid_of(url@) {
            Some(b) => a matches TranscribeAction::FetchVideoInfo { bvid } && bvid@ == b,
            None => a matches TranscribeAction::Fail { error } && error@ == "无法从 URL 中提取 BVid"@,
        },
        (TranscribeState::FetchingInfo { .. }, TranscribeEvent::InfoFailed(m)) => a matches TranscribeAction::Fail {
            error,
        } && error@ == "获取视频信息失败: "@ + m@,
        (TranscribeState::FetchingInfo { .. }, TranscribeEvent::InfoFetched) => a is Transcribe,
        (TranscribeState::Transcribing { .. }, TranscribeEvent::TranscribeFailed(m)) => a matches TranscribeAction::Fail {
            error,
        } && error@ == m@,
        (TranscribeState::Transcribing { ai }, TranscribeEvent::Transcribed { source, secs }) => a matches TranscribeAction::Complete {
            note,
            summarize,
        } && note@ == transcribe_note_of(source@, secs as nat) && summarize == ai,
        (TranscribeState::Completed { summarizing: true }, TranscribeEvent::SummaryDone) => a is SaveSummary,
        (TranscribeState::Completed { summarizing: true }, TranscribeEvent::SummaryFailed(m)) => a matches TranscribeAction::LogSummaryFailure {
            message,
        } && message@ == "AI 摘要生成失败（不影响转录结果）: "@ + m@,
        _ => a is Ignore,
    }
}

fn prefixed(prefix: &str, m: &str) -> (r: String)
    ensures
        r@ == prefix@ + m@,
{
    let mut v: Vec<char> = Vec::new();
    extend_str(&mut v, prefix);
    extend_str(&mut v, m);
    string_of(v.as_slice())
}

/// One step of a transcription task.
pub fn transcribe_step(s: TranscribeState, e: TranscribeEvent) -> (r: (
    TranscribeState,
    TranscribeAction,
))
    ensures
        r.0 == transcribe_next(s, e),
        transcribe_action_is(s, e, r.1),
{
    match (s, e) {
        (TranscribeState::Start, TranscribeEvent::ConfigFailed(m)) => (
            TranscribeState::Failed,
            TranscribeAction::Fail { error: prefixed("加载配置失败: ", m.as_str()) },
        ),
        (TranscribeState::Start, TranscribeEvent::ConfigLoaded { url, ai_enabled }) => {
            match extract_bvid(url.as_str()) {
                Some(bvid) => (
                    TranscribeState::FetchingInfo { ai: ai_enabled },
                    TranscribeAction::FetchVideoInfo { bvid },
                ),
                None => (
                    TranscribeState::Failed,
                    TranscribeAction::Fail { error: owned("无法从 URL 中提取 BVid") },
                ),
            }
        },
        (TranscribeState::FetchingInfo { .. }, TranscribeEvent::InfoFailed(m)) => (
            TranscribeState::Failed,
            TranscribeAction::Fail { error: prefixed("获取视频信息失败: ", m.as_str()) },
        ),
        (TranscribeState::FetchingInfo { ai }, TranscribeEvent::InfoFetched) => (
            TranscribeState::Transcribing { ai },
            TranscribeAction::Transcribe,
        ),
        (TranscribeState::Transcribing { .. }, TranscribeEvent::TranscribeFailed(m)) => (
            TranscribeState::Failed,
            TranscribeAction::Fail { error: m },
        ),
        (TranscribeState::Transcribing { ai }, TranscribeEvent::Transcribed { source, secs }) => (
            TranscribeState::Completed { summarizing: ai },
            TranscribeAction::Complete { note: transcribe_note(source.as_str(), secs), summarize: ai },
        ),
        (TranscribeState::Completed { summarizing: true }, TranscribeEvent::SummaryDone) => (
            TranscribeState::Completed { summarizing: false },
            TranscribeAction::SaveSummary,
        ),
        (TranscribeState::Completed { summarizing: true }, TranscribeEvent::SummaryFailed(m)) => (
            TranscribeState::Completed { summarizing: false },
            TranscribeAction::LogSummaryFailure {
                message: prefixed("AI 摘要生成失败（不影响转录结果）: ", m.as_str()),
            },
        ),
        (s, _) => (s, TranscribeAction::Ignore),
    }
}

/// A failed automatic summary leaves the transcription completed: the task
/// is not marked failed, only the failure is logged.
pub proof fn law_summary_failure_keeps_completed(s: TranscribeState, e: String)
    requires
        s is Completed,
    ensures
        transcribe_next(s, TranscribeEvent::SummaryFailed(e)) is Completed,
        forall|a: TranscribeAction|
            transcribe_action_is(s, TranscribeEvent::SummaryFailed(e), a) ==> !(a is Fail),
{
}

/// The summary runs only when enabled: a transcription completes with the
/// summary requested exactly when it was enabled in the configuration.
pub proof fn law_summary_only_when_enabled(ai: bool, source: String, secs: u64)
    ensures
        transcribe_next(
            TranscribeState::Transcribing { ai },
            TranscribeEvent::Transcribed { source, secs },
        ) == (TranscribeState::Completed { summarizing: ai }),
        forall|a: TranscribeAction|
            transcribe_action_is(
                TranscribeState::Transcribing { ai },
                TranscribeEvent::Transcribed { source, secs },
                a,
            ) ==> (a matches TranscribeAction::Complete { summarize, .. } && summarize == ai),
{
}

// ---------------------------------------------------------------------------
// Summary task
// ---------------------------------------------------------------------------

/// Where a summary task stands; `key_ok` records whether a non-empty summary
/// key is configured.
#[derive(Debug, Clone, Copy, PartialEq, Eq, Structural)]
pub enum SummaryState {
    Start,
    OpeningDb { key_ok: bool },
    LoadingRecord { key_ok: bool },
    Summarizing,
    Completed,
    Failed,
}

/// The outcome of the last outside step of a summary task.
#[derive(Debug)]
pub enum SummaryEvent {
    /// The configuration was read; `api_key` is its summary key.
    ConfigLoaded { api_key: Option<String> },
    ConfigFailed(String),
    DbOpened,
    DbFailed(String),
    /// The video's transcript record was found, with its title.
    RecordFound { title: String },
    RecordMissing,
    RecordFailed(String),
    SummaryDone,
    SummaryFailed(String),
}

/// What the runner of a summary task does next.
#[derive(Debug)]
pub enum SummaryAction {
    OpenDb,
    LoadRecord,
    /// Record the title, announce the start and run the summary.
    Summarize { title: String },
    /// Record the title, announce the start, then mark the task failed
    /// with `error`: no key is configured.
    MissingKey { title: String, error: String },
    /// Store the summary and mark the task completed.
    Complete,
    /// Mark the task failed with `error`.
    Fail { error: String },
    /// The outcome does not belong to this state; nothing to do.
    Ignore,
}

/// Whether a configured summary key counts: it must not be empty.
pub open spec fn key_configured(k: Option<String>) -> bool {
    match k {
        Some(k) => k@.len() > 0,
        None => false,
    }
}

/// The state after outcome `e` in state `s`.
pub open spec fn summary_next(s: SummaryState, e: SummaryEvent) -> SummaryState {
    match (s, e) {
        (SummaryState::Start, SummaryEvent::ConfigFailed(_)) => SummaryState::Failed,
        (SummaryState::Start, SummaryEvent::ConfigLoaded { api_key }) => SummaryState::OpeningDb {
            key_ok: key_configured(api_key),
        },
        (SummaryState::OpeningDb { .. }, SummaryEvent::DbFailed(_)) => SummaryState::Failed,
        (SummaryState::OpeningDb { key_ok }, SummaryEvent::DbOpened) => SummaryState::LoadingRecord { key_ok },
        (SummaryState::LoadingRecord { .. }, SummaryEvent::RecordMissing) => SummaryState::Failed,
        (SummaryState::LoadingRecord { .. }, SummaryEvent::RecordFailed(_)) => SummaryState::Failed,
        (SummaryState::LoadingRecord { key_ok }, SummaryEvent::RecordFound { .. }) => if key_ok {
            SummaryState::Summarizing
        } else {
            SummaryState::Failed
        },
        (SummaryState::Summarizing, SummaryEvent::SummaryDone) => SummaryState::Completed,
        (SummaryState::Summarizing, SummaryEvent::SummaryFailed(_)) => SummaryState::Failed,
        _ => s,
    }
}

/// `a` is the action for outcome `e` in state `s`.
pub open spec fn summary_action_is(s: SummaryState, e: SummaryEvent, a: SummaryAction) -> bool {
    match (s, e) {
        (SummaryState::Start, SummaryEvent::ConfigFailed(m)) => a matches SummaryAction::Fail {
            error,
        } && error@ == "加载配置失败: "@ + m@,
        (SummaryState::Start, SummaryEvent::ConfigLoaded { .. }) => a is OpenDb,
        (SummaryState::OpeningDb { .. }, SummaryEvent::DbFailed(m)) => a matches SummaryAction::Fail {
            error,
        } && error@ == "数据库打开失败: "@ + m@,
        (SummaryState::OpeningDb { .. }, SummaryEvent::DbOpened) => a is LoadRecord,
        (SummaryState::LoadingRecord { .. }, SummaryEvent::RecordMissing) => a matches SummaryAction::Fail {
            error,
        } && error@ == "未找到该视频的转录记录，请先转录"@,
        (SummaryState::LoadingRecord { .. }, SummaryEvent::RecordFailed(m)) => a matches SummaryAction::Fail {
            error,
        } && error@ == "查询失败: "@ + m@,
        (SummaryState::LoadingRecord { key_ok }, SummaryEvent::RecordFound { title }) => if key_ok {
            a matches SummaryAction::Summarize { title: t } && t@ == title@
        } else {
            a matches SummaryAction::MissingKey { title: t, error } && t@ == title@ && error@
                == "未配置 AI 摘要 API Key，请在设置中配置"@
        },
        (SummaryState::Summarizing, SummaryEvent::SummaryDone) => a is Complete,
        (SummaryState::Summarizing, SummaryEvent::SummaryFailed(m)) => a matches SummaryAction::Fail {
            error,
        } && error@ == m@,
        _ => a is Ignore,
    }
}

/// One step of a summary task.
pub fn summary_step(s: SummaryState, e: SummaryEvent) -> (r: (SummaryState, SummaryAction))
    ensures
        r.0 == summary_next(s, e),
        summary_action_is(s, e, r.1),
{
    match (s, e) {
        (SummaryState::Start, SummaryEvent::ConfigFailed(m)) => (
            SummaryState::Failed,
            SummaryAction::Fail { error: prefixed("加载配置失败: ", m.as_str()) },
        ),
        (SummaryState::Start, SummaryEvent::ConfigLoaded { api_key }) => {
            let key_ok = match &api_key {
                Some(k) => !k.as_str().is_empty(),
                None => false,
            };
            (SummaryState::OpeningDb { key_ok }, SummaryAction::OpenDb)
        },
        (SummaryState::OpeningDb { .. }, SummaryEvent::DbFailed(m)) => (
            SummaryState::Failed,
            SummaryAction::Fail { error: prefixed("数据库打开失败: ", m.as_str()) },
        ),
        (SummaryState::OpeningDb { key_ok }, SummaryEvent::DbOpened) => (
            SummaryState::LoadingRecord { key_ok },
            SummaryAction::LoadRecord,
        ),
        (SummaryState::LoadingRecord { .. }, SummaryEvent::RecordMissing) => (
            SummaryState::Failed,
            SummaryAction::Fail { error: owned("未找到该视频的转录记录，请先转录") },
        ),
        (SummaryState::LoadingRecord { .. }, SummaryEvent::RecordFailed(m)) => (
            SummaryState::Failed,
            SummaryAction::Fail { error: prefixed("查询失败: ", m.as_str()) },
        ),
        (SummaryState::LoadingRecord { key_ok }, SummaryEvent::RecordFound { title }) => {
            if key_ok {
                (SummaryState::Summarizing, SummaryAction::Summarize { title })
            } else {
                (
                    SummaryState::Failed,
                    SummaryAction::MissingKey {
                        title,
                        error: owned("未配置 AI 摘要 API Key，请在设置中配置"),
                    },
                )
            }
        },
        (SummaryState::Summarizing, SummaryEvent::SummaryDone) => (
            SummaryState::Completed,
            SummaryAction::Complete,
        ),
        (SummaryState::Summarizing, SummaryEvent::SummaryFailed(m)) => (
            SummaryState::Failed,
            SummaryAction::Fail { error: m },
        ),
        (s, _) => (s, SummaryAction::Ignore),
    }
}

// ---------------------------------------------------------------------------
// Download task (video or audio)
// ---------------------------------------------------------------------------

/// Where a download task stands.
#[derive(Debug, Clone, Copy, PartialEq, Eq, Structural)]
pub enum DownloadState {
    Start,
    Downloading,
    Completed,
    Failed,
}

/// The outcome of the last outside step of a download task.
#[derive(Debug)]
pub enum DownloadEvent {
    ConfigLoaded,
    ConfigFailed(String),
    /// The file was downloaded to `path`; `size` is its size in bytes when
    /// it could be read.
    Downloaded { path: String, size: Option<u64> },
    DownloadFailed(String),
}

/// What the runner of a download task does next.
#[derive(Debug)]
pub enum DownloadAction {
    /// Announce the start and download.
    Download,
    /// Record `title` and mark the task completed with the file and its
    /// size text.
    Complete { title: String, path: String, file_size: Option<String> },
    Fail { error: String },
    Ignore,
}

/// The state after outcome `e` in state `s`.
pub open spec fn download_next(s: DownloadState, e: DownloadEvent) -> DownloadState {
    match (s, e) {
        (DownloadState::Start, DownloadEvent::ConfigLoaded) => DownloadState::Downloading,
        (DownloadState::Start, DownloadEvent::ConfigFailed(_)) => DownloadState::Failed,
        (DownloadState::Downloading, DownloadEvent::Downloaded { .. }) => DownloadState::Completed,
        (DownloadState::Downloading, DownloadEvent::DownloadFailed(_)) => DownloadState::Failed,
        _ => s,
    }
}

/// `a` is the action for outcome `e` in state `s`.
pub open spec fn download_action_is(s: DownloadState, e: DownloadEvent, a: DownloadAction) -> bool {
    match (s, e) {
        (DownloadState::Start, DownloadEvent::ConfigLoaded) => a is Download,
        (DownloadState::Start, DownloadEvent::ConfigFailed(m)) => a matches DownloadAction::Fail {
            error,
        } && error@ == "加载配置失败: "@ + m@,
        (DownloadState::Downloading, DownloadEvent::Downloaded { path, size }) => a matches DownloadAction::Complete {
            title,
            path: p,
            file_size,
        } && p@ == path@ && title@ == (match path_file_stem(path@) {
            Some(t) => t,
            None => Seq::empty(),
        }) && match size {
            Some(n) => file_size matches Some(f) && f@ == size_text(n as nat),
            None => file_size is None,
        },
        (DownloadState::Downloading, DownloadEvent::DownloadFailed(m)) => a matches DownloadAction::Fail {
            error,
        } && error@ == m@,
        _ => a is Ignore,
    }
}

/// One step of a download task.
pub fn download_step(s: DownloadState, e: DownloadEvent) -> (r: (DownloadState, DownloadAction))
    ensures
        r.0 == download_next(s, e),
        download_action_is(s, e, r.1),
{
    match (s, e) {
        (DownloadState::Start, DownloadEvent::ConfigLoaded) => (
            DownloadState::Downloading,
            DownloadAction::Download,
        ),
        (DownloadState::Start, DownloadEvent::ConfigFailed(m)) => (
            DownloadState::Failed,
            DownloadAction::Fail { error: prefixed("加载配置失败: ", m.as_str()) },
        ),
        (DownloadState::Downloading, DownloadEvent::Downloaded { path, size }) => {
            let title = title_from_path(path.as_str());
            let file_size = match size {
                Some(n) => Some(format_file_size(n)),
                None => None,
            };
            (DownloadState::Completed, DownloadAction::Complete { title, path, file_size })
        },
        (DownloadState::Downloading, DownloadEvent::DownloadFailed(m)) => (
            DownloadState::Failed,
            DownloadAction::Fail { error: m },
        ),
        (s, _) => (s, DownloadAction::Ignore),
    }
}

/// A summary task without a usable key (none, or an empty one) never sends
/// a request: once the record is found it fails with the missing-key
/// message; with a non-empty key it goes on to summarize.
pub proof fn law_no_summary_without_key(api_key: Option<String>, title: String)
    ensures
        ({
            let s1 = summary_next(SummaryState::Start, SummaryEvent::ConfigLoaded { api_key });
            let s2 = summary_next(s1, SummaryEvent::DbOpened);
            let e = SummaryEvent::RecordFound { title };
            &&& (api_key matches Some(k) && k@.len() > 0) ==> summary_next(s2, e)
                == SummaryState::Summarizing
            &&& !(api_key matches Some(k) && k@.len() > 0) ==> {
                &&& summary_next(s2, e) == SummaryState::Failed
                &&& forall|a: SummaryAction|
                    summary_action_is(s2, e, a) ==> (a matches SummaryAction::MissingKey {
                        title: t,
                        error,
                    } && t@ == title@ && error@ == "未配置 AI 摘要 API Key，请在设置中配置"@)
            }
        }),
{
}

} // verus!
