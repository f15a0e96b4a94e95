//! A job from the tap on a format to the file in the chat.
//!
//! The program performs one action at a time and tells what came of it; the next action
//! follows from that. Progress shown in between goes through [`ProgressGate`].

use vstd::prelude::*;

use crate::bot::handlers::job_result_view;
use crate::bot::menu::{cancel_menu, cancel_rows, no_menu, no_rows, FormatChoice};
use crate::bot::post::{html, html_post, Post, PostView};
use crate::bot::wording::{escaped, html_escape, human_size, size_text};
use crate::downloader::metadata::{VideoMeta, VideoMetaView};
use crate::downloader::progress::{bar_text, render_bar, ProgressState, ProgressView};
use crate::error::{result_view, BotError, BotErrorView};
use crate::state::{PendingJob, PendingJobView};
use crate::text::text_view;

verus! {

// ---- the job ---------------------------------------------------------------

/// A job under way.
pub struct Job {
    pub url: String,
    pub meta: VideoMeta,
    pub choice: FormatChoice,
    /// The title, ready to stand in HTML.
    pub title_html: String,
    /// The largest file that may be uploaded.
    pub max_file_bytes: u64,
}

/// A [`Job`] with its texts as sequences of characters.
pub struct JobView {
    pub url: Seq<char>,
    pub meta: VideoMetaView,
    pub choice: FormatChoice,
    pub title_html: Seq<char>,
    pub max_file_bytes: u64,
}

impl View for Job {
    type V = JobView;

    open spec fn view(&self) -> JobView {
        JobView {
            url: self.url@,
            meta: self.meta@,
            choice: self.choice,
            title_html: self.title_html@,
            max_file_bytes: self.max_file_bytes,
        }
    }
}

/// The job that a parked link becomes once a format is chosen.
pub open spec fn job_of(
    pending: PendingJobView,
    choice: FormatChoice,
    max_file_bytes: u64,
) -> JobView {
    JobView {
        url: pending.url,
        meta: pending.meta,
        choice,
        title_html: escaped(pending.meta.title),
        max_file_bytes,
    }
}

impl Job {
    /// The job that a parked link becomes once a format is chosen.
    pub fn new(pending: PendingJob, choice: FormatChoice, max_file_bytes: u64) -> (r: Job)
        ensures
            r@ == job_of(pending@, choice, max_file_bytes),
            r@ == (JobView {
                url: pending.url@,
                meta: pending.meta@,
                choice,
                title_html: escaped(pending.meta.title@),
                max_file_bytes,
            }),
    {
        let title_html = html_escape(pending.meta.title.as_str());
        Job { url: pending.url, meta: pending.meta, choice, title_html, max_file_bytes }
    }
}

// ---- uploads ---------------------------------------------------------------

/// A video to upload, to be streamed inline.
pub struct VideoUpload {
    pub path: String,
    pub supports_streaming: bool,
    /// The caption, in HTML.
    pub caption: String,
    pub width: Option<u32>,
    pub height: Option<u32>,
    pub duration: Option<u32>,
}

/// An audio file to upload.
pub struct AudioUpload {
    pub path: String,
    pub title: String,
    pub performer: Option<String>,
    pub duration: Option<u32>,
}

/// A file to upload.
pub enum Upload {
    Video(VideoUpload),
    Audio(AudioUpload),
}

/// An [`Upload`] with its texts as sequences of characters.
pub enum UploadView {
    Video {
        path: Seq<char>,
        supports_streaming: bool,
        caption: Seq<char>,
        width: Option<u32>,
        height: Option<u32>,
        duration: Option<u32>,
    },
    Audio {
        path: Seq<char>,
        title: Seq<char>,
        performer: Option<Seq<char>>,
        duration: Option<u32>,
    },
}

impl View for Upload {
    type V = UploadView;

    open spec fn view(&self) -> UploadView {
        match self {
            Upload::Video(v) => UploadView::Video {
                path: v.path@,
                supports_streaming: v.supports_streaming,
                caption: v.caption@,
                width: v.width,
                height: v.height,
                duration: v.duration,
            },
            Upload::Audio(a) => UploadView::Audio {
                path: a.path@,
                title: a.title@,
                performer: text_view(a.performer),
                duration: a.duration,
            },
        }
    }
}

/// A file as a streamable video under its title.
pub open spec fn video_upload(
    path: Seq<char>,
    meta: VideoMetaView,
    caption: Seq<char>,
) -> UploadView {
    UploadView::Video {
        path,
        supports_streaming: true,
        caption,
        width: meta.width,
        height: meta.height,
        duration: meta.duration,
    }
}

/// A file as a piece of audio by its uploader.
pub open spec fn audio_upload(path: Seq<char>, meta: VideoMetaView) -> UploadView {
    UploadView::Audio {
        path,
        title: meta.title,
        performer: meta.uploader,
        duration: meta.duration,
    }
}

/// The upload of a job's file.
pub open spec fn upload_of(job: JobView, path: Seq<char>) -> UploadView {
    match job.choice {
        FormatChoice::AudioMp3 => audio_upload(path, job.meta),
        FormatChoice::BestVideo => video_upload(path, job.meta, job.title_html),
    }
}

/// The streamable upload of a video.
pub fn send_video_streamable(path: &str, meta: &VideoMeta, caption_html: &str) -> (r: Upload)
    ensures
        r@ == video_upload(path@, meta@, caption_html@),
        r matches Upload::Video(v) && v.path@ == path@ && v.supports_streaming && v.caption@
            == caption_html@ && v.width == meta.width && v.height == meta.height && v.duration
            == meta.duration,
{
    Upload::Video(
        VideoUpload {
            path: path.to_owned(),
            supports_streaming: true,
            caption: caption_html.to_owned(),
            width: meta.width,
            height: meta.height,
            duration: meta.duration,
        },
    )
}

/// The upload of an audio file.
pub fn send_audio_file(path: &str, meta: &VideoMeta) -> (r: Upload)
    ensures
        r@ == audio_upload(path@, meta@),
        r matches Upload::Audio(a) && a.path@ == path@ && a.title@ == meta.title@ && text_view(
            a.performer,
        ) == text_view(meta.uploader) && a.duration == meta.duration,
{
    Upload::Audio(
        AudioUpload {
            path: path.to_owned(),
            title: meta.title.clone(),
            performer: match &meta.uploader {
                Some(p) => Some(p.clone()),
                None => None,
            },
            duration: meta.duration,
        },
    )
}

// ---- sending again ---------------------------------------------------------

/// How many times an upload is tried again when Telegram asks to slow down.
pub const MAX_RETRIES: u32 = 3;

/// What came of an attempt to upload.
pub enum SendOutcome {
    Sent,
    /// Telegram asked to wait, with its own words.
    RateLimited { secs: u32, words: String },
    /// Telegram refused, with its own words.
    Refused(String),
}

/// A [`SendOutcome`] with its texts as sequences of characters.
pub enum SendOutcomeView {
    Sent,
    RateLimited { secs: u32, words: Seq<char> },
    Refused(Seq<char>),
}

impl View for SendOutcome {
    type V = SendOutcomeView;

    open spec fn view(&self) -> SendOutcomeView {
        match self {
            SendOutcome::Sent => SendOutcomeView::Sent,
            SendOutcome::RateLimited { secs, words } => SendOutcomeView::RateLimited {
                secs: *secs,
                words: words@,
            },
            SendOutcome::Refused(m) => SendOutcomeView::Refused(m@),
        }
    }
}

/// What to do after an attempt to upload.
pub enum SendNext {
    Done,
    /// Sleep so many seconds, then try again.
    Retry(u32),
    Fail(BotError),
}

/// A [`SendNext`] with its texts as sequences of characters.
pub enum SendNextView {
    Done,
    Retry(u32),
    Fail(BotErrorView),
}

impl View for SendNext {
    type V = SendNextView;

    open spec fn view(&self) -> SendNextView {
        match self {
            SendNext::Done => SendNextView::Done,
            SendNext::Retry(secs) => SendNextView::Retry(*secs),
            SendNext::Fail(e) => SendNextView::Fail(e@),
        }
    }
}

/// What to do after an attempt that `retries` others came before.
pub open spec fn send_plan(retries: u32, outcome: SendOutcomeView) -> SendNextView {
    match outcome {
        SendOutcomeView::Sent => SendNextView::Done,
        SendOutcomeView::RateLimited { secs, words } => if retries < MAX_RETRIES {
            SendNextView::Retry(secs)
        } else {
            SendNextView::Fail(BotErrorView::Telegram(words))
        },
        SendOutcomeView::Refused(m) => SendNextView::Fail(BotErrorView::Telegram(m)),
    }
}

/// What to do after an attempt that `retries` others came before: only a rate limit is waited
/// out, and only so often.
pub fn after_send(retries: u32, outcome: SendOutcome) -> (r: SendNext)
    ensures
        r@ == send_plan(retries, outcome@),
{
    match outcome {
        SendOutcome::Sent => SendNext::Done,
        SendOutcome::RateLimited { secs, words } => if retries < MAX_RETRIES {
            SendNext::Retry(secs)
        } else {
            SendNext::Fail(BotError::Telegram(words))
        },
        SendOutcome::Refused(m) => SendNext::Fail(BotError::Telegram(m)),
    }
}

// ---- messages of a job -----------------------------------------------------

/// A line about the job under its title.
pub open spec fn titled(icon: Seq<char>, title: Seq<char>, line: Seq<char>) -> Seq<char> {
    icon + " <b>"@ + title + "</b>\n"@ + line
}

/// What is said of a file that is too large.
pub open spec fn oversize_line(size: u64, limit: u64) -> Seq<char> {
    "File is "@ + size_text(size as nat) + " — over the "@ + size_text(limit as nat)
        + " limit. Try 🎵 MP3 or a shorter video."@
}

/// A line about the job under its title.
fn with_title(icon: &str, title: &str, line: &str) -> (r: String)
    ensures
        r@ == titled(icon@, title@, line@),
{
    icon.to_owned().concat(" <b>").concat(title).concat("</b>\n").concat(line)
}

/// The message that a job opens with.
pub open spec fn start_post(job: JobView) -> PostView {
    html_post(titled("⬇️"@, job.title_html, "Starting…"@), cancel_rows())
}

/// The message that says that the file is too large.
pub open spec fn oversize_post(job: JobView, size: u64) -> PostView {
    html_post(
        titled("⚠️"@, job.title_html, oversize_line(size, job.max_file_bytes)),
        no_rows(),
    )
}

/// The message that says that the upload has begun.
pub open spec fn upload_post(job: JobView) -> PostView {
    html_post(titled("⬆️"@, job.title_html, "Uploading…"@), no_rows())
}

/// The message that a job closes with.
pub open spec fn sent_post(job: JobView) -> PostView {
    html_post(titled("✅"@, job.title_html, "Sent!"@), no_rows())
}

// ---- the course of a job ---------------------------------------------------

/// How far a job is.
pub enum Stage {
    /// The opening message is being shown.
    Opening,
    /// The working directory is being made.
    Preparing,
    /// yt-dlp runs.
    Downloading,
    /// ffmpeg runs.
    Remuxing,
    /// The size of the file is being looked up.
    Measuring(String),
    /// The user is being told that the file is too large.
    Warning,
    /// The user is being told of the upload.
    Announcing(String),
    /// The file is being sent, after so many tries.
    Sending(String, u32),
    /// A rate limit is being waited out.
    Waiting(String, u32),
    /// The user is being told that all is done.
    Confirming,
    /// The job is over.
    Done,
}

/// A [`Stage`] with its texts as sequences of characters.
pub enum StageView {
    Opening,
    Preparing,
    Downloading,
    Remuxing,
    Measuring(Seq<char>),
    Warning,
    Announcing(Seq<char>),
    Sending(Seq<char>, u32),
    Waiting(Seq<char>, u32),
    Confirming,
    Done,
}

impl View for Stage {
    type V = StageView;

    open spec fn view(&self) -> StageView {
        match self {
            Stage::Opening => StageView::Opening,
            Stage::Preparing => StageView::Preparing,
            Stage::Downloading => StageView::Downloading,
            Stage::Remuxing => StageView::Remuxing,
            Stage::Measuring(p) => StageView::Measuring(p@),
            Stage::Warning => StageView::Warning,
            Stage::Announcing(p) => StageView::Announcing(p@),
            Stage::Sending(p, n) => StageView::Sending(p@, *n),
            Stage::Waiting(p, n) => StageView::Waiting(p@, *n),
            Stage::Confirming => StageView::Confirming,
            Stage::Done => StageView::Done,
        }
    }
}

/// What came of an action.
pub enum JobEvent {
    /// The message was shown, or Telegram refused it in its own words.
    Edited(Result<(), String>),
    /// The working directory is there, or the system's own words why not.
    DirMade(Result<(), String>),
    /// The download is over.
    Downloaded(Result<String, BotError>),
    /// ffmpeg is done, and this is the file to go on with.
    Remuxed(String),
    /// The size of the file, or the system's own words why there is none.
    Measured(Result<u64, String>),
    /// An attempt to upload is over.
    Sent(SendOutcome),
    /// A rate limit was waited out.
    Slept,
}

/// A [`JobEvent`] with its texts as sequences of characters.
pub enum JobEventView {
    Edited(Result<(), Seq<char>>),
    DirMade(Result<(), Seq<char>>),
    Downloaded(Result<Seq<char>, BotErrorView>),
    Remuxed(Seq<char>),
    Measured(Result<u64, Seq<char>>),
    Sent(SendOutcomeView),
    Slept,
}

/// A result whose error is a text.
pub open spec fn words_view<T>(r: Result<T, String>) -> Result<T, Seq<char>> {
    match r {
        Ok(t) => Ok(t),
        Err(m) => Err(m@),
    }
}

impl View for JobEvent {
    type V = JobEventView;

    open spec fn view(&self) -> JobEventView {
        match self {
            JobEvent::Edited(r) => JobEventView::Edited(words_view(*r)),
            JobEvent::DirMade(r) => JobEventView::DirMade(words_view(*r)),
            JobEvent::Downloaded(r) => JobEventView::Downloaded(result_view(*r)),
            JobEvent::Remuxed(p) => JobEventView::Remuxed(p@),
            JobEvent::Measured(r) => JobEventView::Measured(words_view(*r)),
            JobEvent::Sent(o) => JobEventView::Sent(o@),
            JobEvent::Slept => JobEventView::Slept,
        }
    }
}

/// What to do next.
pub enum JobAction {
    /// Replace the progress message.
    Edit(Post),
    /// Make the working directory.
    MakeDir,
    /// Run yt-dlp.
    Download,
    /// Run ffmpeg on the file.
    Remux(String),
    /// Look up the size of the file.
    Measure(String),
    /// Upload the file.
    Send(Upload),
    /// Sleep so many seconds.
    Sleep(u32),
    /// The job is over.
    Finish(Result<(), BotError>),
    /// Nothing: the event does not belong to the stage.
    Ignore,
}

/// A [`JobAction`] with its texts as sequences of characters.
pub enum JobActionView {
    Edit(PostView),
    MakeDir,
    Download,
    Remux(Seq<char>),
    Measure(Seq<char>),
    Send(UploadView),
    Sleep(u32),
    Finish(Result<(), BotErrorView>),
    Ignore,
}

impl View for JobAction {
    type V = JobActionView;

    open spec fn view(&self) -> JobActionView {
        match self {
            JobAction::Edit(p) => JobActionView::Edit(p@),
            JobAction::MakeDir => JobActionView::MakeDir,
            JobAction::Download => JobActionView::Download,
            JobAction::Remux(p) => JobActionView::Remux(p@),
            JobAction::Measure(p) => JobActionView::Measure(p@),
            JobAction::Send(u) => JobActionView::Send(u@),
            JobAction::Sleep(secs) => JobActionView::Sleep(*secs),
            JobAction::Finish(r) => JobActionView::Finish(job_result_view(*r)),
            JobAction::Ignore => JobActionView::Ignore,
        }
    }
}

/// The end of a job with an error.
pub open spec fn failed(e: BotErrorView) -> (StageView, JobActionView) {
    (StageView::Done, JobActionView::Finish(Err(e)))
}

/// The end of a job after a last message, which Telegram may have refused.
pub open spec fn closed_with(shown: Result<(), Seq<char>>) -> (StageView, JobActionView) {
    match shown {
        Ok(()) => (StageView::Done, JobActionView::Finish(Ok(()))),
        Err(m) => failed(BotErrorView::Telegram(m)),
    }
}

/// What follows when an upload attempt is over.
pub open spec fn sent_step(job: JobView, path: Seq<char>, retries: u32, o: SendOutcomeView) -> (
    StageView,
    JobActionView,
) {
    match send_plan(retries, o) {
        SendNextView::Done => (StageView::Confirming, JobActionView::Edit(sent_post(job))),
        SendNextView::Retry(secs) => (
            StageView::Waiting(path, (retries + 1) as u32),
            JobActionView::Sleep(secs),
        ),
        SendNextView::Fail(e) => failed(e),
    }
}

/// Where a job goes from a stage on an event, and what is to be done.
pub open spec fn job_step(job: JobView, stage: StageView, event: JobEventView) -> (
    StageView,
    JobActionView,
) {
    match (stage, event) {
        (StageView::Opening, JobEventView::Edited(_)) => (
            StageView::Preparing,
            JobActionView::MakeDir,
        ),
        (StageView::Preparing, JobEventView::DirMade(made)) => match made {
            Ok(()) => (StageView::Downloading, JobActionView::Download),
            Err(m) => failed(BotErrorView::Io(m)),
        },
        (StageView::Downloading, JobEventView::Downloaded(got)) => match got {
            Ok(path) => match job.choice {
                FormatChoice::AudioMp3 => (
                    StageView::Measuring(path),
                    JobActionView::Measure(path),
                ),
                FormatChoice::BestVideo => (StageView::Remuxing, JobActionView::Remux(path)),
            },
            Err(e) => failed(e),
        },
        (StageView::Remuxing, JobEventView::Remuxed(path)) => (
            StageView::Measuring(path),
            JobActionView::Measure(path),
        ),
        (StageView::Measuring(path), JobEventView::Measured(found)) => match found {
            Ok(size) => if size > job.max_file_bytes {
                (StageView::Warning, JobActionView::Edit(oversize_post(job, size)))
            } else {
                (StageView::Announcing(path), JobActionView::Edit(upload_post(job)))
            },
            Err(m) => failed(BotErrorView::Io(m)),
        },
        (StageView::Warning, JobEventView::Edited(shown)) => closed_with(shown),
        (StageView::Announcing(path), JobEventView::Edited(shown)) => match shown {
            Ok(()) => (StageView::Sending(path, 0), JobActionView::Send(upload_of(job, path))),
            Err(m) => failed(BotErrorView::Telegram(m)),
        },
        (StageView::Sending(path, retries), JobEventView::Sent(o)) => sent_step(
            job,
            path,
            retries,
            o,
        ),
        (StageView::Waiting(path, retries), JobEventView::Slept) => (
            StageView::Sending(path, retries),
            JobActionView::Send(upload_of(job, path)),
        ),
        (StageView::Confirming, JobEventView::Edited(shown)) => closed_with(shown),
        _ => (stage, JobActionView::Ignore),
    }
}

/// The first action of a job: the opening message, with a Cancel button.
pub fn start_job(job: &Job) -> (r: (Stage, JobAction))
    ensures
        r.0@ == StageView::Opening,
        r.1@ == JobActionView::Edit(start_post(job@)),
{
    (
        Stage::Opening,
        JobAction::Edit(
            html(with_title("⬇️", job.title_html.as_str(), "Starting…"), cancel_menu()),
        ),
    )
}

/// The end of a job with an error.
fn fail(e: BotError) -> (r: (Stage, JobAction))
    ensures
        (r.0@, r.1@) == failed(e@),
{
    (Stage::Done, JobAction::Finish(Err(e)))
}

/// The end of a job after a last message.
fn close(shown: Result<(), String>) -> (r: (Stage, JobAction))
    ensures
        (r.0@, r.1@) == closed_with(words_view(shown)),
{
    match shown {
        Ok(()) => (Stage::Done, JobAction::Finish(Ok(()))),
        Err(m) => fail(BotError::Telegram(m)),
    }
}

/// The upload of a job's file.
fn upload(job: &Job, path: &str) -> (r: Upload)
    ensures
        r@ == upload_of(job@, path@),
        r is Video <==> job.choice == FormatChoice::BestVideo,
{
    if job.choice.is_audio() {
        send_audio_file(path, &job.meta)
    } else {
        send_video_streamable(path, &job.meta, job.title_html.as_str())
    }
}

/// Download with a live progress bar, then upload the file: where the job goes from a stage
/// on an event, and what is to be done.
pub fn run_job(job: &Job, stage: Stage, event: JobEvent) -> (r: (Stage, JobAction))
    ensures
        (r.0@, r.1@) == job_step(job@, stage@, event@),
        r.1 matches JobAction::Send(up) ==> (up is Video <==> job.choice
            == FormatChoice::BestVideo),
{
    match (stage, event) {
        (Stage::Opening, JobEvent::Edited(_)) => (Stage::Preparing, JobAction::MakeDir),
        (Stage::Preparing, JobEvent::DirMade(made)) => match made {
            Ok(()) => (Stage::Downloading, JobAction::Download),
            Err(m) => fail(BotError::Io(m)),
        },
        (Stage::Downloading, JobEvent::Downloaded(got)) => match got {
            // Make the mp4 streamable (faststart); audio is sent as-is.
            Ok(path) => if job.choice.is_audio() {
                (Stage::Measuring(path.clone()), JobAction::Measure(path))
            } else {
                (Stage::Remuxing, JobAction::Remux(path))
            },
            Err(e) => fail(e),
        },
        (Stage::Remuxing, JobEvent::Remuxed(path)) => (
            Stage::Measuring(path.clone()),
            JobAction::Measure(path),
        ),
        (Stage::Measuring(path), JobEvent::Measured(found)) => match found {
            Ok(size) => if size > job.max_file_bytes {
                let line = "File is ".to_owned().concat(human_size(size).as_str()).concat(
                    " — over the ",
                ).concat(human_size(job.max_file_bytes).as_str()).concat(
                    " limit. Try 🎵 MP3 or a shorter video.",
                );
                let text = with_title("⚠️", job.title_html.as_str(), line.as_str());
                (Stage::Warning, JobAction::Edit(html(text, no_menu())))
            } else {
                let text = with_title("⬆️", job.title_html.as_str(), "Uploading…");
                (Stage::Announcing(path), JobAction::Edit(html(text, no_menu())))
            },
            Err(m) => fail(BotError::Io(m)),
        },
        (Stage::Warning, JobEvent::Edited(shown)) => close(shown),
        (Stage::Announcing(path), JobEvent::Edited(shown)) => match shown {
            Ok(()) => {
                let up = upload(job, path.as_str());
                (Stage::Sending(path, 0), JobAction::Send(up))
            },
            Err(m) => fail(BotError::Telegram(m)),
        },
        (Stage::Sending(path, retries), JobEvent::Sent(o)) => {
            match after_send(retries, o) {
                SendNext::Done => {
                    let text = with_title("✅", job.title_html.as_str(), "Sent!");
                    (Stage::Confirming, JobAction::Edit(html(text, no_menu())))
                },
                SendNext::Retry(secs) => (
                    Stage::Waiting(path, retries + 1),
                    JobAction::Sleep(secs),
                ),
                SendNext::Fail(e) => fail(e),
            }
        },
        (Stage::Waiting(path, retries), JobEvent::Slept) => {
            let up = upload(job, path.as_str());
            (Stage::Sending(path, retries), JobAction::Send(up))
        },
        (Stage::Confirming, JobEvent::Edited(shown)) => close(shown),
        (stage, _) => (stage, JobAction::Ignore),
    }
}

// ---- progress --------------------------------------------------------------

/// How many cells the progress bar has.
pub const BAR_WIDTH: usize = 12;

/// The least time between two progress edits, in nanoseconds.
pub const EDIT_PAUSE_NANOS: u128 = 3_000_000_000;

/// Throttles progress into at most one message edit every three seconds.
pub struct ProgressGate {
    /// When the message was last edited, in nanoseconds on the program's clock.
    pub last_edit: Option<u128>,
}

/// Whether enough time has passed since the last edit.
pub open spec fn is_due(last_edit: Option<u128>, now: u128) -> bool {
    match last_edit {
        Some(t) => now - t >= EDIT_PAUSE_NANOS,
        None => true,
    }
}

impl ProgressGate {
    /// No edit so far.
    pub fn new() -> (r: ProgressGate)
        ensures
            r.last_edit is None,
    {
        ProgressGate { last_edit: None }
    }

    /// Whether a snapshot that arrives `now` is shown. `risen` says whether the percentage is
    /// far enough above the last one that was shown.
    pub fn offer(&mut self, now: u128, risen: bool) -> (r: bool)
        ensures
            r == (is_due(old(self).last_edit, now) && risen),
            r == (risen && (old(self).last_edit matches Some(t) ==> now >= t + 3_000_000_000)),
            final(self).last_edit == if r {
                Some(now)
            } else {
                old(self).last_edit
            },
    {
        let due: bool = match self.last_edit {
            Some(t) => now >= t && now - t >= EDIT_PAUSE_NANOS,
            None => true,
        };
        if due && risen {
            self.last_edit = Some(now);
            true
        } else {
            false
        }
    }
}

/// The progress message with its Cancel button.
pub open spec fn progress_card(
    job: JobView,
    p: ProgressView,
    filled: nat,
    shown: Seq<char>,
) -> PostView {
    html_post(bar_text(job.title_html, p, BAR_WIDTH as nat, filled, shown), cancel_rows())
}

/// The progress message with its Cancel button, `filled` cells of the bar full.
pub fn progress_post(job: &Job, p: &ProgressState, filled: usize, shown: &str) -> (r: Post)
    ensures
        r@ == progress_card(job@, p@, filled as nat, shown@),
        r@ == html_post(
            bar_text(job.title_html@, p@, BAR_WIDTH as nat, filled as nat, shown@),
            cancel_rows(),
        ),
{
    html(render_bar(job.title_html.as_str(), p, BAR_WIDTH, filled, shown), cancel_menu())
}

} // verus!
