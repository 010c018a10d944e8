//! Background tasks: the registry of running tasks (for cancellation) and
//! the labels shown when tasks finish.

use vstd::prelude::*;
use std::collections::HashMap;
use crate::text::{dec, dec_u64, idec, dec_i64, pad2, pad2_i64, tdiv, trem, extend_str, extend_chars, owned, string_of, str_eq};
use crate::bilibili::api::one_decimal;
use crate::outside::{file_stem, path_file_stem};
use crate::bilibili::types::VideoInfo;
use crate::storage::{TranscriptRecord, TaskCompletedEvent};
use crate::transcribe::TranscriptResult;
use crate::config::opt_view;
use crate::download::opt_str;

verus! {

broadcast use {vstd::string::group_string_axioms, vstd::std_specs::hash::group_hash_axioms};

/// The tasks still running, each with the handle that can stop it.
pub struct TaskRegistry<H> {
    active: HashMap<i64, H>,
}

impl<H> View for TaskRegistry<H> {
    type V = Map<i64, H>;

    closed spec fn view(&self) -> Map<i64, H> {
        self.active@
    }
}

/// Message when a task to cancel is no longer running.
pub open spec fn not_running_message() -> Seq<char> {
    "任务不存在或已完成"@
}

impl<H> TaskRegistry<H> {
    /// An empty registry.
    pub fn new() -> (r: Self)
        ensures
            r@ == Map::<i64, H>::empty(),
    {
        TaskRegistry { active: HashMap::new() }
    }

    /// Records a started task.
    pub fn insert(&mut self, task_id: i64, handle: H)
        ensures
            final(self)@ == old(self)@.insert(task_id, handle),
    {
        self.active.insert(task_id, handle);
    }

    /// Removes a task that ended by itself; gives its handle if it was there.
    pub fn finish(&mut self, task_id: i64) -> (r: Option<H>)
        ensures
            final(self)@ == old(self)@.remove(task_id),
            match r {
                Some(h) => old(self)@.contains_key(task_id) && old(self)@[task_id] == h,
                None => !old(self)@.contains_key(task_id),
            },
    {
        self.active.remove(&task_id)
    }

    /// Takes a running task out to stop it; a task that is not running is
    /// refused and nothing changes.
    pub fn cancel(&mut self, task_id: i64) -> (r: Result<H, String>)
        ensures
            match r {
                Ok(h) => old(self)@.contains_key(task_id) && old(self)@[task_id] == h
                    && final(self)@ == old(self)@.remove(task_id),
                Err(e) => !old(self)@.contains_key(task_id) && final(self)@ == old(self)@
                    && e@ == not_running_message(),
            },
    {
        match self.active.remove(&task_id) {
            Some(h) => Ok(h),
            None => {
                assert(self.active@ =~= old(self).active@);
                Err(owned("任务不存在或已完成"))
            },
        }
    }

    /// Whether a task is running.
    pub fn is_running(&self, task_id: i64) -> (r: bool)
        ensures
            r == self@.contains_key(task_id),
    {
        self.active.contains_key(&task_id)
    }
}

/// A started task can be cancelled once, giving back its handle; a second
/// cancellation is refused.
pub proof fn law_cancel_after_start<H>(
    before: Map<i64, H>,
    task_id: i64,
    handle: H,
)
    ensures
        before.insert(task_id, handle).contains_key(task_id),
        before.insert(task_id, handle)[task_id] == handle,
        !before.insert(task_id, handle).remove(task_id).contains_key(task_id),
{
}

/// A task that was registered and has finished is no longer running, and
/// starting other tasks does not bring it back: a later cancellation is
/// refused.
pub proof fn law_finished_task_is_gone<H>(
    before: Map<i64, H>,
    task_id: i64,
    handle: H,
    other: i64,
    other_handle: H,
)
    requires
        other != task_id,
    ensures
        !before.insert(task_id, handle).remove(task_id).contains_key(task_id),
        !before.insert(task_id, handle).remove(task_id).insert(other, other_handle).contains_key(
            task_id,
        ),
{
}

/// Cancelling one task leaves every other running task in place.
pub proof fn law_cancel_keeps_others<H>(before: Map<i64, H>, task_id: i64, other: i64)
    requires
        other != task_id,
        before.contains_key(other),
    ensures
        before.remove(task_id).contains_key(other),
        before.remove(task_id)[other] == before[other],
{
}

/// How long a transcription took: `M分S秒` from a minute, else `S秒`.
pub open spec fn elapsed_text(secs: nat) -> Seq<char> {
    if secs >= 60 {
        dec(secs / 60) + "分"@ + dec(secs % 60) + "秒"@
    } else {
        dec(secs) + "秒"@
    }
}

/// Formats an elapsed time in seconds.
pub fn format_elapsed(secs: u64) -> (r: String)
    ensures
        r@ == elapsed_text(secs as nat),
{
    let mut v: Vec<char> = Vec::new();
    if secs >= 60 {
        extend_chars(&mut v, dec_u64(secs / 60).as_slice());
        extend_str(&mut v, "分");
        extend_chars(&mut v, dec_u64(secs % 60).as_slice());
        extend_str(&mut v, "秒");
    } else {
        extend_chars(&mut v, dec_u64(secs).as_slice());
        extend_str(&mut v, "秒");
    }
    string_of(v.as_slice())
}

/// A file size as shown for a finished download: one decimal in GB, MB or
/// KB (binary units) from 1 KiB, else whole bytes.
pub open spec fn size_text(size: nat) -> Seq<char> {
    if size >= 1073741824 {
        one_decimal(size as int, 1073741824) + " GB"@
    } else if size >= 1048576 {
        one_decimal(size as int, 1048576) + " MB"@
    } else if size >= 1024 {
        one_decimal(size as int, 1024) + " KB"@
    } else {
        dec(size) + " B"@
    }
}

fn one_decimal_u64(s: u64, unit: u64) -> (r: Vec<char>)
    requires
        unit == 1073741824 || unit == 1048576 || unit == 1024,
        s >= unit,
    ensures
        r@ == one_decimal(s as int, unit as int),
{
    let n: u128 = (s as u128) * 10;
    let q: u128 = n / (unit as u128);
    let rem: u128 = n % (unit as u128);
    let t: u128 = if 2 * rem > unit as u128 || (2 * rem == unit as u128 && q % 2 == 1) {
        q + 1
    } else {
        q
    };
    assert(t <= 0xffff_ffff_ffff_ffffu128) by (nonlinear_arith)
        requires
            t <= q + 1,
            q == n / (unit as u128),
            n <= 0xffff_ffff_ffff_ffffu128 * 10,
            unit >= 1024,
    ;
    let mut r = dec_u64((t / 10) as u64);
    r.push('.');
    extend_chars(&mut r, dec_u64((t % 10) as u64).as_slice());
    r
}

/// Formats the size of a finished download.
pub fn format_file_size(size: u64) -> (r: String)
    ensures
        r@ == size_text(size as nat),
{
    let mut v: Vec<char>;
    if size >= 1073741824 {
        v = one_decimal_u64(size, 1073741824);
        extend_str(&mut v, " GB");
    } else if size >= 1048576 {
        v = one_decimal_u64(size, 1048576);
        extend_str(&mut v, " MB");
    } else if size >= 1024 {
        v = one_decimal_u64(size, 1024);
        extend_str(&mut v, " KB");
    } else {
        v = dec_u64(size);
        extend_str(&mut v, " B");
    }
    string_of(v.as_slice())
}

/// The label of a transcript's source.
pub open spec fn source_label_of(source: Seq<char>) -> Seq<char> {
    if source == "cc"@ {
        "CC字幕"@
    } else if source == "ai"@ {
        "AI字幕"@
    } else {
        "Whisper"@
    }
}

/// The note shown for a finished transcription: its source and how long it
/// took.
pub open spec fn transcribe_note_of(source: Seq<char>, secs: nat) -> Seq<char> {
    source_label_of(source) + " · 耗时"@ + elapsed_text(secs)
}

/// Builds the note shown for a finished transcription.
pub fn transcribe_note(source: &str, secs: u64) -> (r: String)
    ensures
        r@ == transcribe_note_of(source@, secs as nat),
{
    let mut v: Vec<char> = Vec::new();
    if str_eq(source, "cc") {
        extend_str(&mut v, "CC字幕");
    } else if str_eq(source, "ai") {
        extend_str(&mut v, "AI字幕");
    } else {
        extend_str(&mut v, "Whisper");
    }
    extend_str(&mut v, " · 耗时");
    extend_str(&mut v, format_elapsed(secs).as_str());
    string_of(v.as_slice())
}

/// A video length as stored by the task runner: minutes, `:`, seconds in
/// two digits (Rust's truncating `/` and `%`).
pub open spec fn minutes_text(d: int) -> Seq<char> {
    idec(tdiv(d, 60)) + seq![':'] + pad2(trem(d, 60))
}

/// Formats a video length as minutes and seconds.
pub fn video_minutes(d: i64) -> (r: String)
    ensures
        r@ == minutes_text(d as int),
{
    let m = d / 60;
    let s = d % 60;
    let mut v = dec_i64(m);
    v.push(':');
    extend_chars(&mut v, pad2_i64(s).as_slice());
    string_of(v.as_slice())
}

/// The title given to a download task: the downloaded file's stem.
pub fn title_from_path(path: &str) -> (r: String)
    ensures
        r@ == match path_file_stem(path@) {
            Some(s) => s,
            None => Seq::empty(),
        },
{
    match file_stem(path) {
        Some(s) => s,
        None => String::new(),
    }
}

/// The link recorded for a summary task.
pub fn summary_task_url(bvid: &str) -> (r: String)
    ensures
        r@ == "https://www.bilibili.com/video/"@ + bvid@,
{
    let mut v: Vec<char> = Vec::new();
    extend_str(&mut v, "https://www.bilibili.com/video/");
    extend_str(&mut v, bvid);
    string_of(v.as_slice())
}

/// The stored transcript of a video that was just transcribed: no summary
/// yet, status `transcribed`, the length as minutes and seconds.
pub fn transcript_record_for(
    bvid: &str,
    url: &str,
    info: &VideoInfo,
    result: &TranscriptResult,
) -> (r: TranscriptRecord)
    ensures
        r.id == 0,
        r.bvid@ == bvid@,
        r.url@ == url@,
        r.title@ == info.title@,
        r.author@ == info.author@,
        r.duration@ == minutes_text(info.duration as int),
        r.upload_date@ == info.upload_date@,
        r.transcript_source@ == result.source@,
        r.transcript_text@ == result.text@,
        r.summary is None,
        r.status@ == "transcribed"@,
        r.created_at@ == Seq::<char>::empty(),
        r.updated_at@ == Seq::<char>::empty(),
{
    TranscriptRecord {
        id: 0,
        bvid: owned(bvid),
        url: owned(url),
        title: info.title.clone(),
        author: info.author.clone(),
        duration: video_minutes(info.duration),
        upload_date: info.upload_date.clone(),
        transcript_source: result.source.clone(),
        transcript_text: result.text.clone(),
        summary: None,
        status: owned("transcribed"),
        created_at: String::new(),
        updated_at: String::new(),
    }
}

/// The event announcing that a task finished.
pub fn completed_event(
    task_id: i64,
    task_type: &str,
    title: &str,
    output_path: Option<&str>,
    file_size: Option<&str>,
) -> (e: TaskCompletedEvent)
    ensures
        e.task_id == task_id,
        e.task_type@ == task_type@,
        e.status@ == "completed"@,
        e.title@ == title@,
        opt_view(e.output_path) == opt_str(output_path),
        e.error is None,
        opt_view(e.file_size) == opt_str(file_size),
{
    TaskCompletedEvent {
        task_id,
        task_type: owned(task_type),
        status: owned("completed"),
        title: owned(title),
        output_path: match output_path {
            Some(p) => Some(owned(p)),
            None => None,
        },
        error: None,
        file_size: match file_size {
            Some(f) => Some(owned(f)),
            None => None,
        },
    }
}

/// The event announcing that a task failed, with its error.
pub fn failed_event(task_id: i64, task_type: &str, error: &str) -> (e: TaskCompletedEvent)
    ensures
        e.task_id == task_id,
        e.task_type@ == task_type@,
        e.status@ == "failed"@,
        e.title@ == Seq::<char>::empty(),
        e.output_path is None,
        opt_view(e.error) == Some(error@),
        e.file_size is None,
{
    TaskCompletedEvent {
        task_id,
        task_type: owned(task_type),
        status: owned("failed"),
        title: String::new(),
        output_path: None,
        error: Some(owned(error)),
        file_size: None,
    }
}

} // verus!
