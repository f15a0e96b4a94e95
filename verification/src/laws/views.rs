//! What the contracts see of a value: each part under its own name, and nothing changed.

use vstd::prelude::*;

use crate::bot::handlers::{
    job_result_view, post_view, CallbackAction, CallbackActionView, FetchReply, FetchReplyView,
    MessageAction, MessageActionView,
};
use crate::bot::job::{
    words_view, AudioUpload, Job, JobAction, JobActionView, JobEvent, JobEventView, SendNext,
    SendNextView, SendOutcome, SendOutcomeView, Stage, StageView, Upload, UploadView, VideoUpload,
};
use crate::bot::menu::{Button, ButtonView, FormatChoice, Keyboard};
use crate::bot::post::{html_post, plain_post, Answer, Post};
use crate::config::{Config, Environment};
use crate::downloader::json::{value_view, JsonDoc, JsonDocView, JsonScalar, JsonScalarView};
use crate::downloader::metadata::VideoMeta;
use crate::downloader::progress::{progress_view, ProgressState};
use crate::downloader::{DownloadStep, DownloadStepView};
use crate::error::{error_text, result_view, BotError, BotErrorView};
use crate::outside::url_view;
use crate::state::PendingJob;
use crate::text::{text_view, views};
use crate::updater::update_view;

verus! {

/// A text that may be missing, and a row of texts.
pub proof fn law_view_of_texts(t: String, row: Seq<String>, i: int)
    ensures
        text_view(Some(t)) == Some(t@),
        text_view(None) is None,
        views(row).len() == row.len(),
        0 <= i < row.len() ==> views(row)[i] == row[i]@,
{
}

/// Results, and what may be missing.
pub proof fn law_view_of_results(
    t: String,
    m: String,
    e: BotError,
    n: u64,
    p: Post,
    s: ProgressState,
    b: bool,
)
    ensures
        result_view(Ok::<String, String>(t)) == Ok::<Seq<char>, Seq<char>>(t@),
        result_view(Err::<String, String>(m)) == Err::<Seq<char>, Seq<char>>(m@),
        result_view(Ok::<String, BotError>(t)) == Ok::<Seq<char>, BotErrorView>(t@),
        result_view(Err::<String, BotError>(e)) == Err::<Seq<char>, BotErrorView>(e@),
        words_view(Ok::<u64, String>(n)) == Ok::<u64, Seq<char>>(n),
        words_view(Err::<u64, String>(m)) == Err::<u64, Seq<char>>(m@),
        job_result_view(Ok(())) is Ok,
        job_result_view(Err(e)) == Err::<(), BotErrorView>(e@),
        update_view(Ok(())) is Ok,
        update_view(Err(m)) == Err::<(), Seq<char>>(m@),
        post_view(Some(p)) == Some(p@),
        post_view(None) is None,
        progress_view(Some(s)) == Some(s@),
        progress_view(None) is None,
        url_view(Some((t, b))) == Some((t@, b)),
        url_view(None) is None,
{
}

/// Errors, and how they read in a log.
pub proof fn law_view_of_errors(m: String)
    ensures
        BotError::Unavailable@ == BotErrorView::Unavailable,
        BotError::DownloadFailed(m)@ == BotErrorView::DownloadFailed(m@),
        BotError::Metadata(m)@ == BotErrorView::Metadata(m@),
        BotError::Timeout@ == BotErrorView::Timeout,
        BotError::Cancelled@ == BotErrorView::Cancelled,
        BotError::NoOutput@ == BotErrorView::NoOutput,
        BotError::Telegram(m)@ == BotErrorView::Telegram(m@),
        BotError::Io(m)@ == BotErrorView::Io(m@),
        error_text(BotErrorView::DownloadFailed(m@)) == "download failed: "@ + m@,
        error_text(BotErrorView::Metadata(m@)) == "could not read video info: "@ + m@,
        error_text(BotErrorView::Telegram(m@)) == m@,
        error_text(BotErrorView::Io(m@)) == m@,
{
}

/// Settings and their variables.
pub proof fn law_view_of_settings(c: Config, env: Environment, i: int)
    ensures
        c@.bot_token == c.bot_token@,
        c@.api_url == text_view(c.api_url),
        c@.download_dir == c.download_dir@,
        c@.max_file_bytes == c.max_file_bytes,
        c@.allowed_users == c.allowed_users@,
        c@.yt_dlp_bin == c.yt_dlp_bin@,
        c@.update_interval_hours == c.update_interval_hours,
        c@.max_concurrent == c.max_concurrent,
        env@.len() == env.vars@.len(),
        0 <= i < env@.len() ==> env@[i] == (env.vars@[i].0@, env.vars@[i].1@),
{
}

/// Descriptions, parked links and jobs.
pub proof fn law_view_of_jobs(m: VideoMeta, p: PendingJob, j: Job, s: ProgressState)
    ensures
        m@.title == m.title@,
        m@.uploader == text_view(m.uploader),
        m@.duration == m.duration,
        m@.width == m.width,
        m@.height == m.height,
        p@.url == p.url@,
        p@.meta == p.meta@,
        j@.url == j.url@,
        j@.meta == j.meta@,
        j@.choice == j.choice,
        j@.title_html == j.title_html@,
        j@.max_file_bytes == j.max_file_bytes,
        s@.percent == s.percent@,
        s@.speed == s.speed@,
        s@.eta == s.eta@,
{
}

/// JSON documents.
pub proof fn law_view_of_json(
    members: Vec<(String, JsonScalar)>,
    i: int,
    b: bool,
    u: Option<u64>,
    d: Option<u64>,
    t: String,
    v: JsonScalar,
)
    ensures
        value_view(Some(&v)) == Some(v@),
        value_view(None) is None,
        JsonScalar::Null@ == JsonScalarView::Null,
        JsonScalar::Bool(b)@ == JsonScalarView::Bool(b),
        JsonScalar::Number(u, d)@ == JsonScalarView::Number(u, d),
        JsonScalar::Text(t)@ == JsonScalarView::Text(t@),
        JsonScalar::List@ == JsonScalarView::List,
        JsonScalar::Object@ == JsonScalarView::Object,
        JsonDoc::Other@ == JsonDocView::Other,
        JsonDoc::Object(members)@ matches JsonDocView::Object(m) && m.len() == members@.len() && (0
            <= i < m.len() ==> m[i] == (members@[i].0@, members@[i].1@)),
{
}

/// Messages, buttons and answers.
pub proof fn law_view_of_messages(
    p: Post,
    a: Answer,
    b: Button,
    k: Keyboard,
    i: int,
    j: int,
    text: Seq<char>,
    rows: Seq<Seq<ButtonView>>,
)
    ensures
        p@.text == p.text@,
        p@.html == p.html,
        p@.keyboard is Some <==> p.keyboard is Some,
        p.keyboard matches Some(board) ==> p@.keyboard == Some(board@),
        a@.text == text_view(a.text),
        a@.alert == a.alert,
        b@.label == b.label@,
        b@.data == b.data@,
        k@.len() == k.rows@.len(),
        0 <= i < k@.len() ==> k@[i].len() == k.rows@[i]@.len(),
        0 <= i < k@.len() && 0 <= j < k@[i].len() ==> k@[i][j] == k.rows@[i]@[j]@,
        plain_post(text).text == text,
        !plain_post(text).html,
        plain_post(text).keyboard is None,
        html_post(text, rows).text == text,
        html_post(text, rows).html,
        html_post(text, rows).keyboard == Some(rows),
{
}

/// What to do about messages and taps.
pub proof fn law_view_of_decisions(
    p: Post,
    url: String,
    job: PendingJob,
    a: Answer,
    handle: Option<u64>,
    choice: FormatChoice,
)
    ensures
        MessageAction::Reply(p)@ == MessageActionView::Reply(p@),
        (MessageAction::Fetch { url, status: p })@ == (MessageActionView::Fetch {
            url: url@,
            status: p@,
        }),
        (FetchReply::Offer { post: p, job })@ == (FetchReplyView::Offer { post: p@, job: job@ }),
        FetchReply::Sorry(p)@ == FetchReplyView::Sorry(p@),
        CallbackAction::Reply(a)@ == CallbackActionView::Reply(a@),
        (CallbackAction::Cancel { handle, answer: a })@ == (CallbackActionView::Cancel {
            handle,
            answer: a@,
        }),
        (CallbackAction::Start { job, choice })@ == (CallbackActionView::Start {
            job: job@,
            choice,
        }),
{
}

/// Uploads and what comes of them.
pub proof fn law_view_of_uploads(v: VideoUpload, a: AudioUpload, secs: u32, m: String, e: BotError)
    ensures
        Upload::Video(v)@ == (UploadView::Video {
            path: v.path@,
            supports_streaming: v.supports_streaming,
            caption: v.caption@,
            width: v.width,
            height: v.height,
            duration: v.duration,
        }),
        Upload::Audio(a)@ == (UploadView::Audio {
            path: a.path@,
            title: a.title@,
            performer: text_view(a.performer),
            duration: a.duration,
        }),
        SendOutcome::Sent@ == SendOutcomeView::Sent,
        (SendOutcome::RateLimited { secs, words: m })@ == (SendOutcomeView::RateLimited {
            secs,
            words: m@,
        }),
        SendOutcome::Refused(m)@ == SendOutcomeView::Refused(m@),
        SendNext::Done@ == SendNextView::Done,
        SendNext::Retry(secs)@ == SendNextView::Retry(secs),
        SendNext::Fail(e)@ == SendNextView::Fail(e@),
{
}

/// The course of a job.
pub proof fn law_view_of_the_course(
    p: String,
    n: u32,
    shown: Result<(), String>,
    got: Result<String, BotError>,
    size: Result<u64, String>,
    o: SendOutcome,
    post: Post,
    u: Upload,
    end: Result<(), BotError>,
)
    ensures
        Stage::Opening@ == StageView::Opening,
        Stage::Preparing@ == StageView::Preparing,
        Stage::Downloading@ == StageView::Downloading,
        Stage::Remuxing@ == StageView::Remuxing,
        Stage::Measuring(p)@ == StageView::Measuring(p@),
        Stage::Warning@ == StageView::Warning,
        Stage::Announcing(p)@ == StageView::Announcing(p@),
        Stage::Sending(p, n)@ == StageView::Sending(p@, n),
        Stage::Waiting(p, n)@ == StageView::Waiting(p@, n),
        Stage::Confirming@ == StageView::Confirming,
        Stage::Done@ == StageView::Done,
        JobEvent::Edited(shown)@ == JobEventView::Edited(words_view(shown)),
        JobEvent::DirMade(shown)@ == JobEventView::DirMade(words_view(shown)),
        JobEvent::Downloaded(got)@ == JobEventView::Downloaded(result_view(got)),
        JobEvent::Remuxed(p)@ == JobEventView::Remuxed(p@),
        JobEvent::Measured(size)@ == JobEventView::Measured(words_view(size)),
        JobEvent::Sent(o)@ == JobEventView::Sent(o@),
        JobEvent::Slept@ == JobEventView::Slept,
        JobAction::Edit(post)@ == JobActionView::Edit(post@),
        JobAction::MakeDir@ == JobActionView::MakeDir,
        JobAction::Download@ == JobActionView::Download,
        JobAction::Remux(p)@ == JobActionView::Remux(p@),
        JobAction::Measure(p)@ == JobActionView::Measure(p@),
        JobAction::Send(u)@ == JobActionView::Send(u@),
        JobAction::Sleep(n)@ == JobActionView::Sleep(n),
        JobAction::Finish(end)@ == JobActionView::Finish(job_result_view(end)),
        JobAction::Ignore@ == JobActionView::Ignore,
{
}

/// The course of a download.
pub proof fn law_view_of_download_steps(s: ProgressState, e: BotError, p: Option<String>)
    ensures
        DownloadStep::Read@ == DownloadStepView::Read,
        DownloadStep::Report(s)@ == DownloadStepView::Report(s@),
        DownloadStep::Kill(e)@ == DownloadStepView::Kill(e@),
        DownloadStep::Fail(e)@ == DownloadStepView::Fail(e@),
        DownloadStep::Wait@ == DownloadStepView::Wait,
        DownloadStep::Resolve(p)@ == DownloadStepView::Resolve(text_view(p)),
{
}

} // verus!
