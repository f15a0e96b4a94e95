//! What holds of every job, whatever happens to it.

use vstd::prelude::*;

use crate::bot::job::{
    is_due, job_of, job_step, oversize_post, progress_card, send_plan, sent_post, start_post,
    upload_of, upload_post,
    JobActionView, JobEventView, JobView, SendNextView, SendOutcomeView, StageView, UploadView,
    MAX_RETRIES,
};
use crate::bot::menu::{cancel_rows, no_rows, ButtonView, FormatChoice};
use crate::bot::post::PostView;
use crate::bot::wording::{escaped, size_text};
use crate::downloader::progress::{bar_text, ProgressView};
use crate::error::BotErrorView;
use crate::state::PendingJobView;

verus! {

// ---- the course of a job ---------------------------------------------------

/// Where a job is after a row of events.
pub open spec fn stage_after(job: JobView, events: Seq<JobEventView>) -> StageView
    decreases events.len(),
{
    if events.len() == 0 {
        StageView::Opening
    } else {
        job_step(job, stage_after(job, events.drop_last()), events.last()).0
    }
}

/// What has been done on a job after a row of events, the opening message first.
pub open spec fn actions_after(job: JobView, events: Seq<JobEventView>) -> Seq<JobActionView>
    decreases events.len(),
{
    if events.len() == 0 {
        seq![JobActionView::Edit(start_post(job))]
    } else {
        actions_after(job, events.drop_last()).push(
            job_step(job, stage_after(job, events.drop_last()), events.last()).1,
        )
    }
}

/// Whether a file within the limit was measured among the events.
pub open spec fn measured_within(job: JobView, events: Seq<JobEventView>) -> bool {
    exists|i: int|
        0 <= i < events.len() && (#[trigger] events[i] matches JobEventView::Measured(Ok(size))
            && size <= job.max_file_bytes)
}

/// Whether a stage comes after the file was found to be within the limit.
pub open spec fn past_measuring(stage: StageView) -> bool {
    stage is Announcing || stage is Sending || stage is Waiting || stage is Confirming
}

/// No file goes up unless it was measured and found to be within the limit.
pub proof fn law_uploads_stay_within_the_limit(job: JobView, events: Seq<JobEventView>, k: int)
    requires
        0 <= k < actions_after(job, events).len(),
        actions_after(job, events)[k] is Send,
    ensures
        measured_within(job, events),
    decreases events.len(),
{
    lemma_actions_len(job, events);
    if events.len() > 0 {
        let before = events.drop_last();
        lemma_actions_len(job, before);
        if k < events.len() {
            law_uploads_stay_within_the_limit(job, before, k);
            lemma_measured_grows(job, events);
        } else {
            lemma_past_measuring(job, before);
            lemma_measured_grows(job, events);
        }
    }
}

/// One action for the start and one for each event.
proof fn lemma_actions_len(job: JobView, events: Seq<JobEventView>)
    ensures
        actions_after(job, events).len() == events.len() + 1,
    decreases events.len(),
{
    if events.len() > 0 {
        lemma_actions_len(job, events.drop_last());
    }
}

/// What was measured stays measured.
proof fn lemma_measured_grows(job: JobView, events: Seq<JobEventView>)
    requires
        events.len() > 0,
        measured_within(job, events.drop_last()),
    ensures
        measured_within(job, events),
{
    let before = events.drop_last();
    let i = choose|i: int|
        0 <= i < before.len() && (#[trigger] before[i] matches JobEventView::Measured(Ok(size))
            && size <= job.max_file_bytes);
    assert(events[i] == before[i]);
}

/// The later stages are reached through a measurement within the limit alone.
proof fn lemma_past_measuring(job: JobView, events: Seq<JobEventView>)
    requires
        past_measuring(stage_after(job, events)),
    ensures
        measured_within(job, events),
    decreases events.len(),
{
    if events.len() > 0 {
        let before = events.drop_last();
        let stage = stage_after(job, before);
        if past_measuring(stage) {
            lemma_past_measuring(job, before);
            lemma_measured_grows(job, events);
        } else {
            assert(events[events.len() - 1] == events.last());
        }
    }
}

/// How many uploads were attempted.
pub open spec fn sends(actions: Seq<JobActionView>) -> nat
    decreases actions.len(),
{
    if actions.len() == 0 {
        0
    } else {
        sends(actions.drop_last()) + if actions.last() is Send {
            1nat
        } else {
            0
        }
    }
}

/// A file is sent at most four times.
pub proof fn law_retries_are_bounded(job: JobView, events: Seq<JobEventView>)
    ensures
        sends(actions_after(job, events)) <= 4,
{
    lemma_sends(job, events);
}

/// How many uploads were attempted at each stage.
proof fn lemma_sends(job: JobView, events: Seq<JobEventView>)
    ensures
        match stage_after(job, events) {
            StageView::Sending(_, retries) => retries <= MAX_RETRIES && sends(
                actions_after(job, events),
            ) == retries + 1,
            StageView::Waiting(_, retries) => retries <= MAX_RETRIES && sends(
                actions_after(job, events),
            ) == retries,
            StageView::Confirming => sends(actions_after(job, events)) <= MAX_RETRIES + 1,
            StageView::Done => sends(actions_after(job, events)) <= MAX_RETRIES + 1,
            _ => sends(actions_after(job, events)) == 0,
        },
    decreases events.len(),
{
    let actions = actions_after(job, events);
    if events.len() == 0 {
        assert(actions.drop_last() =~= Seq::empty());
        assert(sends(Seq::<JobActionView>::empty()) == 0);
    } else {
        let before = events.drop_last();
        lemma_sends(job, before);
        assert(actions.drop_last() =~= actions_after(job, before));
    }
}

/// However often an upload is tried, it is the same file with the same words each time.
pub proof fn law_retries_send_the_same_file(
    job: JobView,
    events: Seq<JobEventView>,
    i: int,
    j: int,
)
    requires
        0 <= i < actions_after(job, events).len(),
        0 <= j < actions_after(job, events).len(),
        actions_after(job, events)[i] is Send,
        actions_after(job, events)[j] is Send,
    ensures
        actions_after(job, events)[i] == actions_after(job, events)[j],
{
    lemma_same_upload(job, events);
}

/// What has been sent at each stage.
proof fn lemma_same_upload(job: JobView, events: Seq<JobEventView>)
    ensures
        ({
            let actions = actions_after(job, events);
            match stage_after(job, events) {
                StageView::Sending(path, _) => sent_only(job, actions, path),
                StageView::Waiting(path, _) => sent_only(job, actions, path),
                StageView::Confirming => exists|path: Seq<char>| sent_only(job, actions, path),
                StageView::Done => exists|path: Seq<char>| sent_only(job, actions, path),
                _ => forall|path: Seq<char>| sent_only(job, actions, path),
            }
        }),
    decreases events.len(),
{
    if events.len() > 0 {
        let before = events.drop_last();
        lemma_same_upload(job, before);
        let (old_actions, actions) = (actions_after(job, before), actions_after(job, events));
        assert forall|path: Seq<char>|
            sent_only(job, old_actions, path) && (actions.last() is Send ==> actions.last()
                == JobActionView::Send(upload_of(job, path))) implies #[trigger] sent_only(
            job,
            actions,
            path,
        ) by {
            assert forall|k: int|
                0 <= k < actions.len() && #[trigger] actions[k] is Send implies actions[k]
                == JobActionView::Send(upload_of(job, path)) by {
                if k < old_actions.len() {
                    assert(actions[k] == old_actions[k]);
                }
            }
        }
        let stage = stage_after(job, before);
        match stage {
            StageView::Sending(path, _) => {
                assert(sent_only(job, actions, path));
            },
            StageView::Waiting(path, _) => {
                assert(sent_only(job, actions, path));
            },
            StageView::Announcing(path) => {
                assert(sent_only(job, actions, path));
            },
            _ => {
                if !(stage is Confirming) && !(stage is Done) {
                    assert(sent_only(job, old_actions, Seq::empty()));
                }
                let path = choose|path: Seq<char>| sent_only(job, old_actions, path);
                assert(sent_only(job, actions, path));
            },
        }
    }
}

/// Whether nothing but the upload of this path was sent.
pub open spec fn sent_only(job: JobView, actions: Seq<JobActionView>, path: Seq<char>) -> bool {
    forall|k: int|
        0 <= k < actions.len() && #[trigger] actions[k] is Send ==> actions[k]
            == JobActionView::Send(upload_of(job, path))
}

/// A job is about the link, the description and the format that were picked, under the title of
/// that description and the limit that it was given.
pub proof fn law_jobs_are_about_what_was_picked(
    pending: PendingJobView,
    choice: FormatChoice,
    limit: u64,
)
    ensures
        job_of(pending, choice, limit).url == pending.url,
        job_of(pending, choice, limit).meta == pending.meta,
        job_of(pending, choice, limit).choice == choice,
        job_of(pending, choice, limit).title_html == escaped(pending.meta.title),
        job_of(pending, choice, limit).max_file_bytes == limit,
{
}

/// The format that was tapped is the kind of upload, whatever the metadata holds: a video job
/// sends a streamable video under its title and an audio job sends audio by its uploader. What
/// is sent is the file that the stage holds.
pub proof fn law_upload_is_of_the_tapped_format(
    job: JobView,
    stage: StageView,
    event: JobEventView,
)
    ensures
        job_step(job, stage, event).1 matches JobActionView::Send(up) ==> (match up {
            UploadView::Video { path, supports_streaming, caption, width, height, duration } => {
                &&& job.choice == FormatChoice::BestVideo
                &&& holds_file(stage, path)
                &&& supports_streaming
                &&& caption == job.title_html
                &&& width == job.meta.width
                &&& height == job.meta.height
                &&& duration == job.meta.duration
            },
            UploadView::Audio { path, title, performer, duration } => {
                &&& job.choice == FormatChoice::AudioMp3
                &&& holds_file(stage, path)
                &&& title == job.meta.title
                &&& performer == job.meta.uploader
                &&& duration == job.meta.duration
            },
        }),
{
}

/// Whether a stage holds this file, about to be sent.
pub open spec fn holds_file(stage: StageView, path: Seq<char>) -> bool {
    stage == StageView::Announcing(path) || exists|retries: u32|
        stage == StageView::Waiting(path, retries)
}

/// The path of the file that an upload sends.
pub open spec fn sent_path(up: UploadView) -> Seq<char> {
    match up {
        UploadView::Video { path, .. } => path,
        UploadView::Audio { path, .. } => path,
    }
}

/// What is sent is a file that was measured, and it is what ffmpeg left of a video and what
/// yt-dlp left of a piece of audio.
pub proof fn law_sent_file_is_the_measured_one(
    job: JobView,
    events: Seq<JobEventView>,
    k: int,
    up: UploadView,
)
    requires
        0 <= k < actions_after(job, events).len(),
        actions_after(job, events)[k] == JobActionView::Send(up),
    ensures
        actions_after(job, events).contains(JobActionView::Measure(sent_path(up))),
        job.choice == FormatChoice::BestVideo ==> events.contains(
            JobEventView::Remuxed(sent_path(up)),
        ),
        job.choice == FormatChoice::AudioMp3 ==> events.contains(
            JobEventView::Downloaded(Ok(sent_path(up))),
        ),
    decreases events.len(),
{
    lemma_actions_len(job, events);
    if events.len() > 0 {
        let before = events.drop_last();
        lemma_actions_len(job, before);
        if k < events.len() {
            law_sent_file_is_the_measured_one(job, before, k, up);
        } else {
            lemma_file_at_hand(job, before);
        }
        lemma_grows(job, events, sent_path(up));
    }
}

/// The file that a stage is about.
pub open spec fn file_of(stage: StageView) -> Option<Seq<char>> {
    match stage {
        StageView::Measuring(path) => Some(path),
        StageView::Announcing(path) => Some(path),
        StageView::Sending(path, _) => Some(path),
        StageView::Waiting(path, _) => Some(path),
        _ => None,
    }
}

/// Where the file of a stage comes from.
proof fn lemma_file_at_hand(job: JobView, events: Seq<JobEventView>)
    ensures
        file_of(stage_after(job, events)) matches Some(path) ==> {
            &&& actions_after(job, events).contains(JobActionView::Measure(path))
            &&& job.choice == FormatChoice::BestVideo ==> events.contains(
                JobEventView::Remuxed(path),
            )
            &&& job.choice == FormatChoice::AudioMp3 ==> events.contains(
                JobEventView::Downloaded(Ok(path)),
            )
        },
        stage_after(job, events) is Remuxing ==> job.choice == FormatChoice::BestVideo,
    decreases events.len(),
{
    if events.len() > 0 {
        let before = events.drop_last();
        lemma_actions_len(job, before);
        lemma_file_at_hand(job, before);
        let stage = stage_after(job, events);
        if let Some(path) = file_of(stage) {
            if file_of(stage_after(job, before)) == Some(path) {
                lemma_grows(job, events, path);
            } else {
                assert(actions_after(job, events)[events.len() as int] == JobActionView::Measure(
                    path,
                ));
                assert(events[events.len() - 1] == events.last());
            }
        }
    }
}

/// What was done and what happened stays so.
proof fn lemma_grows(job: JobView, events: Seq<JobEventView>, path: Seq<char>)
    requires
        events.len() > 0,
    ensures
        actions_after(job, events.drop_last()).contains(JobActionView::Measure(path))
            ==> actions_after(job, events).contains(JobActionView::Measure(path)),
        events.drop_last().contains(JobEventView::Remuxed(path)) ==> events.contains(
            JobEventView::Remuxed(path),
        ),
        events.drop_last().contains(JobEventView::Downloaded(Ok(path))) ==> events.contains(
            JobEventView::Downloaded(Ok(path)),
        ),
{
    let before = events.drop_last();
    let (old_actions, actions) = (actions_after(job, before), actions_after(job, events));
    if old_actions.contains(JobActionView::Measure(path)) {
        let i = choose|i: int|
            0 <= i < old_actions.len() && old_actions[i] == JobActionView::Measure(path);
        assert(actions[i] == old_actions[i]);
    }
    if before.contains(JobEventView::Remuxed(path)) {
        let i = choose|i: int| 0 <= i < before.len() && before[i] == JobEventView::Remuxed(path);
        assert(events[i] == before[i]);
    }
    if before.contains(JobEventView::Downloaded(Ok(path))) {
        let i = choose|i: int|
            0 <= i < before.len() && before[i] == JobEventView::Downloaded(Ok(path));
        assert(events[i] == before[i]);
    }
}

// ---- a run without trouble -------------------------------------------------

/// A message in HTML above the given rows of buttons.
pub open spec fn card(text: Seq<char>, rows: Seq<Seq<ButtonView>>) -> PostView {
    PostView { text, html: true, keyboard: Some(rows) }
}

/// A video job without trouble: yt-dlp, ffmpeg on its file, the size of what ffmpeg left, the
/// upload of that file, with a word to the user before and after.
#[verifier::spinoff_prover]
pub proof fn law_video_job_runs_to_its_end(
    job: JobView,
    opened: Result<(), Seq<char>>,
    got: Seq<char>,
    remuxed: Seq<char>,
    size: u64,
)
    requires
        job.choice == FormatChoice::BestVideo,
        size <= job.max_file_bytes,
    ensures
        actions_after(
            job,
            seq![
                JobEventView::Edited(opened),
                JobEventView::DirMade(Ok(())),
                JobEventView::Downloaded(Ok(got)),
                JobEventView::Remuxed(remuxed),
                JobEventView::Measured(Ok(size)),
                JobEventView::Edited(Ok(())),
                JobEventView::Sent(SendOutcomeView::Sent),
                JobEventView::Edited(Ok(())),
            ],
        ) == seq![
            JobActionView::Edit(
                card(
                    "⬇️ <b>"@ + job.title_html + "</b>\nStarting…"@,
                    seq![seq![ButtonView { label: "✖ Cancel"@, data: "cancel"@ }]],
                ),
            ),
            JobActionView::MakeDir,
            JobActionView::Download,
            JobActionView::Remux(got),
            JobActionView::Measure(remuxed),
            JobActionView::Edit(
                card("⬆️ <b>"@ + job.title_html + "</b>\nUploading…"@, Seq::empty()),
            ),
            JobActionView::Send(
                UploadView::Video {
                    path: remuxed,
                    supports_streaming: true,
                    caption: job.title_html,
                    width: job.meta.width,
                    height: job.meta.height,
                    duration: job.meta.duration,
                },
            ),
            JobActionView::Edit(card("✅ <b>"@ + job.title_html + "</b>\nSent!"@, Seq::empty())),
            JobActionView::Finish(Ok(())),
        ],
{
    let events = seq![
        JobEventView::Edited(opened),
        JobEventView::DirMade(Ok(())),
        JobEventView::Downloaded(Ok(got)),
        JobEventView::Remuxed(remuxed),
        JobEventView::Measured(Ok(size)),
        JobEventView::Edited(Ok(())),
        JobEventView::Sent(SendOutcomeView::Sent),
        JobEventView::Edited(Ok(())),
    ];
    let video = UploadView::Video {
        path: remuxed,
        supports_streaming: true,
        caption: job.title_html,
        width: job.meta.width,
        height: job.meta.height,
        duration: job.meta.duration,
    };
    lemma_job_messages(job);
    assert(events.take(0) =~= Seq::empty());
    let a0 = seq![JobActionView::Edit(start_post(job))];
    assert(actions_after(job, events.take(0)) == a0);
    lemma_step_to(job, events, 0, StageView::Preparing, a0, JobActionView::MakeDir);
    let a1 = a0.push(JobActionView::MakeDir);
    lemma_step_to(job, events, 1, StageView::Downloading, a1, JobActionView::Download);
    let a2 = a1.push(JobActionView::Download);
    lemma_step_to(job, events, 2, StageView::Remuxing, a2, JobActionView::Remux(got));
    let a3 = a2.push(JobActionView::Remux(got));
    let measuring = StageView::Measuring(remuxed);
    lemma_step_to(job, events, 3, measuring, a3, JobActionView::Measure(remuxed));
    let a4 = a3.push(JobActionView::Measure(remuxed));
    let announced = JobActionView::Edit(upload_post(job));
    lemma_step_to(job, events, 4, StageView::Announcing(remuxed), a4, announced);
    let a5 = a4.push(announced);
    let sending = StageView::Sending(remuxed, 0);
    lemma_step_to(job, events, 5, sending, a5, JobActionView::Send(video));
    let a6 = a5.push(JobActionView::Send(video));
    let told = JobActionView::Edit(sent_post(job));
    lemma_step_to(job, events, 6, StageView::Confirming, a6, told);
    let a7 = a6.push(told);
    lemma_step_to(job, events, 7, StageView::Done, a7, JobActionView::Finish(Ok(())));
    assert(events.take(8) =~= events);
}

/// An audio job without trouble: yt-dlp, the size of its file, the upload of that file, with a
/// word to the user before and after.
#[verifier::spinoff_prover]
pub proof fn law_audio_job_runs_to_its_end(
    job: JobView,
    opened: Result<(), Seq<char>>,
    got: Seq<char>,
    size: u64,
)
    requires
        job.choice == FormatChoice::AudioMp3,
        size <= job.max_file_bytes,
    ensures
        actions_after(
            job,
            seq![
                JobEventView::Edited(opened),
                JobEventView::DirMade(Ok(())),
                JobEventView::Downloaded(Ok(got)),
                JobEventView::Measured(Ok(size)),
                JobEventView::Edited(Ok(())),
                JobEventView::Sent(SendOutcomeView::Sent),
                JobEventView::Edited(Ok(())),
            ],
        ) == seq![
            JobActionView::Edit(
                card(
                    "⬇️ <b>"@ + job.title_html + "</b>\nStarting…"@,
                    seq![seq![ButtonView { label: "✖ Cancel"@, data: "cancel"@ }]],
                ),
            ),
            JobActionView::MakeDir,
            JobActionView::Download,
            JobActionView::Measure(got),
            JobActionView::Edit(
                card("⬆️ <b>"@ + job.title_html + "</b>\nUploading…"@, Seq::empty()),
            ),
            JobActionView::Send(
                UploadView::Audio {
                    path: got,
                    title: job.meta.title,
                    performer: job.meta.uploader,
                    duration: job.meta.duration,
                },
            ),
            JobActionView::Edit(card("✅ <b>"@ + job.title_html + "</b>\nSent!"@, Seq::empty())),
            JobActionView::Finish(Ok(())),
        ],
{
    let events = seq![
        JobEventView::Edited(opened),
        JobEventView::DirMade(Ok(())),
        JobEventView::Downloaded(Ok(got)),
        JobEventView::Measured(Ok(size)),
        JobEventView::Edited(Ok(())),
        JobEventView::Sent(SendOutcomeView::Sent),
        JobEventView::Edited(Ok(())),
    ];
    let audio = UploadView::Audio {
        path: got,
        title: job.meta.title,
        performer: job.meta.uploader,
        duration: job.meta.duration,
    };
    lemma_job_messages(job);
    assert(events.take(0) =~= Seq::empty());
    let a0 = seq![JobActionView::Edit(start_post(job))];
    assert(actions_after(job, events.take(0)) == a0);
    lemma_step_to(job, events, 0, StageView::Preparing, a0, JobActionView::MakeDir);
    let a1 = a0.push(JobActionView::MakeDir);
    lemma_step_to(job, events, 1, StageView::Downloading, a1, JobActionView::Download);
    let a2 = a1.push(JobActionView::Download);
    lemma_step_to(job, events, 2, StageView::Measuring(got), a2, JobActionView::Measure(got));
    let a3 = a2.push(JobActionView::Measure(got));
    let announced = JobActionView::Edit(upload_post(job));
    lemma_step_to(job, events, 3, StageView::Announcing(got), a3, announced);
    let a4 = a3.push(announced);
    lemma_step_to(job, events, 4, StageView::Sending(got, 0), a4, JobActionView::Send(audio));
    let a5 = a4.push(JobActionView::Send(audio));
    let told = JobActionView::Edit(sent_post(job));
    lemma_step_to(job, events, 5, StageView::Confirming, a5, told);
    let a6 = a5.push(told);
    lemma_step_to(job, events, 6, StageView::Done, a6, JobActionView::Finish(Ok(())));
    assert(events.take(7) =~= events);
}

/// One more event, one more step.
proof fn lemma_step_to(
    job: JobView,
    events: Seq<JobEventView>,
    k: int,
    next: StageView,
    done: Seq<JobActionView>,
    action: JobActionView,
)
    requires
        0 <= k < events.len(),
        job_step(job, stage_after(job, events.take(k)), events[k]) == (next, action),
        actions_after(job, events.take(k)) == done,
    ensures
        stage_after(job, events.take(k + 1)) == next,
        actions_after(job, events.take(k + 1)) == done.push(action),
{
    assert(events.take(k + 1).drop_last() =~= events.take(k));
    assert(events.take(k + 1).last() == events[k]);
}

/// How the messages of a job read.
proof fn lemma_job_messages(job: JobView)
    ensures
        start_post(job) == card(
            "⬇️ <b>"@ + job.title_html + "</b>\nStarting…"@,
            seq![seq![ButtonView { label: "✖ Cancel"@, data: "cancel"@ }]],
        ),
        upload_post(job) == card(
            "⬆️ <b>"@ + job.title_html + "</b>\nUploading…"@,
            Seq::empty(),
        ),
        sent_post(job) == card("✅ <b>"@ + job.title_html + "</b>\nSent!"@, Seq::empty()),
{
    reveal_strlit("⬇️");
    reveal_strlit("⬆️");
    reveal_strlit("✅");
    reveal_strlit(" <b>");
    reveal_strlit("</b>\n");
    reveal_strlit("⬇️ <b>");
    reveal_strlit("⬆️ <b>");
    reveal_strlit("✅ <b>");
    reveal_strlit("Starting…");
    reveal_strlit("Uploading…");
    reveal_strlit("Sent!");
    reveal_strlit("</b>\nStarting…");
    reveal_strlit("</b>\nUploading…");
    reveal_strlit("</b>\nSent!");
    assert(start_post(job).text =~= "⬇️ <b>"@ + job.title_html + "</b>\nStarting…"@);
    assert(upload_post(job).text =~= "⬆️ <b>"@ + job.title_html + "</b>\nUploading…"@);
    assert(sent_post(job).text =~= "✅ <b>"@ + job.title_html + "</b>\nSent!"@);
}

// ---- a run with trouble ----------------------------------------------------

/// A file over the limit is not sent: the user is told both sizes, and the job ends well.
pub proof fn law_oversized_file_is_reported(
    job: JobView,
    path: Seq<char>,
    size: u64,
    shown: Result<(), Seq<char>>,
)
    requires
        size > job.max_file_bytes,
    ensures
        job_step(job, StageView::Measuring(path), JobEventView::Measured(Ok(size))) == (
            StageView::Warning,
            JobActionView::Edit(
                card(
                    "⚠️ <b>"@ + job.title_html + "</b>\nFile is "@ + size_text(size as nat)
                        + " — over the "@ + size_text(job.max_file_bytes as nat)
                        + " limit. Try 🎵 MP3 or a shorter video."@,
                    Seq::empty(),
                ),
            ),
        ),
        job_step(job, StageView::Warning, JobEventView::Edited(shown)) == (
            StageView::Done,
            JobActionView::Finish(
                match shown {
                    Ok(_) => Ok(()),
                    Err(m) => Err(BotErrorView::Telegram(m)),
                },
            ),
        ),
{
    reveal_strlit("⚠️");
    reveal_strlit(" <b>");
    reveal_strlit("</b>\n");
    reveal_strlit("⚠️ <b>");
    reveal_strlit("File is ");
    reveal_strlit("</b>\nFile is ");
    let text = "⚠️ <b>"@ + job.title_html + "</b>\nFile is "@ + size_text(size as nat)
        + " — over the "@ + size_text(job.max_file_bytes as nat)
        + " limit. Try 🎵 MP3 or a shorter video."@;
    assert(oversize_post(job, size).text =~= text);
}

/// A file is too large exactly when it has more bytes than the limit.
pub proof fn law_limit_itself_is_allowed(job: JobView, path: Seq<char>, size: u64)
    ensures
        job_step(job, StageView::Measuring(path), JobEventView::Measured(Ok(size))).0 == (
        if size <= job.max_file_bytes {
            StageView::Announcing(path)
        } else {
            StageView::Warning
        }),
{
}

/// A rate limit is waited out as long as Telegram asks, and the same file is sent again, three
/// times over; the fourth one ends the job in Telegram's words. A refusal ends it at once.
pub proof fn law_rate_limits_are_waited_out(
    job: JobView,
    path: Seq<char>,
    retries: u32,
    secs: u32,
    words: Seq<char>,
)
    ensures
        retries < 3 ==> job_step(
            job,
            StageView::Sending(path, retries),
            JobEventView::Sent(SendOutcomeView::RateLimited { secs, words }),
        ) == (StageView::Waiting(path, (retries + 1) as u32), JobActionView::Sleep(secs)),
        job_step(job, StageView::Waiting(path, retries), JobEventView::Slept) == (
            StageView::Sending(path, retries),
            job_step(job, StageView::Announcing(path), JobEventView::Edited(Ok(()))).1,
        ),
        retries >= 3 ==> job_step(
            job,
            StageView::Sending(path, retries),
            JobEventView::Sent(SendOutcomeView::RateLimited { secs, words }),
        ) == (StageView::Done, JobActionView::Finish(Err(BotErrorView::Telegram(words)))),
        job_step(
            job,
            StageView::Sending(path, retries),
            JobEventView::Sent(SendOutcomeView::Refused(words)),
        ) == (StageView::Done, JobActionView::Finish(Err(BotErrorView::Telegram(words)))),
        job_step(
            job,
            StageView::Sending(path, retries),
            JobEventView::Sent(SendOutcomeView::Sent),
        ) == (
            StageView::Confirming,
            JobActionView::Edit(card("✅ <b>"@ + job.title_html + "</b>\nSent!"@, Seq::empty())),
        ),
        job_step(job, StageView::Announcing(path), JobEventView::Edited(Ok(()))).0
            == StageView::Sending(path, 0),
{
    lemma_job_messages(job);
}

/// An attempt to upload by itself: sent is done, a rate limit is waited out three times, and
/// everything else is an error in Telegram's words.
pub proof fn law_attempts_are_judged(retries: u32, secs: u32, words: Seq<char>)
    ensures
        send_plan(retries, SendOutcomeView::Sent) == SendNextView::Done,
        retries < 3 ==> send_plan(retries, SendOutcomeView::RateLimited { secs, words })
            == SendNextView::Retry(secs),
        retries >= 3 ==> send_plan(retries, SendOutcomeView::RateLimited { secs, words })
            == SendNextView::Fail(BotErrorView::Telegram(words)),
        send_plan(retries, SendOutcomeView::Refused(words)) == SendNextView::Fail(
            BotErrorView::Telegram(words),
        ),
{
}

/// Whatever goes wrong on this machine or at Telegram ends the job with the words that came.
pub proof fn law_failures_keep_their_words(job: JobView, path: Seq<char>, m: Seq<char>)
    ensures
        job_step(job, StageView::Preparing, JobEventView::DirMade(Err(m))) == (
            StageView::Done,
            JobActionView::Finish(Err(BotErrorView::Io(m))),
        ),
        job_step(job, StageView::Measuring(path), JobEventView::Measured(Err(m))) == (
            StageView::Done,
            JobActionView::Finish(Err(BotErrorView::Io(m))),
        ),
        job_step(job, StageView::Announcing(path), JobEventView::Edited(Err(m))) == (
            StageView::Done,
            JobActionView::Finish(Err(BotErrorView::Telegram(m))),
        ),
        job_step(job, StageView::Confirming, JobEventView::Edited(Err(m))) == (
            StageView::Done,
            JobActionView::Finish(Err(BotErrorView::Telegram(m))),
        ),
{
}

/// Whether an event is the answer that a stage waits for.
pub open spec fn answers(stage: StageView, event: JobEventView) -> bool {
    match stage {
        StageView::Opening => event is Edited,
        StageView::Preparing => event is DirMade,
        StageView::Downloading => event is Downloaded,
        StageView::Remuxing => event is Remuxed,
        StageView::Measuring(_) => event is Measured,
        StageView::Warning => event is Edited,
        StageView::Announcing(_) => event is Edited,
        StageView::Sending(_, _) => event is Sent,
        StageView::Waiting(_, _) => event is Slept,
        StageView::Confirming => event is Edited,
        StageView::Done => false,
    }
}

/// An event is passed over exactly where the stage does not wait for it, and then nothing moves.
pub proof fn law_only_answers_move_a_job(job: JobView, stage: StageView, event: JobEventView)
    ensures
        job_step(job, stage, event).1 is Ignore <==> !answers(stage, event),
        !answers(stage, event) ==> job_step(job, stage, event).0 == stage,
{
}

/// Audio is sent as it is: ffmpeg is never asked to touch it.
pub proof fn law_audio_is_not_remuxed(job: JobView, events: Seq<JobEventView>, k: int)
    requires
        job.choice == FormatChoice::AudioMp3,
        0 <= k < actions_after(job, events).len(),
    ensures
        !(actions_after(job, events)[k] is Remux),
    decreases events.len(),
{
    lemma_actions_len(job, events);
    if events.len() > 0 {
        lemma_actions_len(job, events.drop_last());
        if k < events.len() {
            law_audio_is_not_remuxed(job, events.drop_last(), k);
        }
    }
}

/// The opening message alone has a Cancel button: what replaces it later removes all buttons.
pub proof fn law_later_messages_have_no_buttons(
    job: JobView,
    stage: StageView,
    event: JobEventView,
)
    ensures
        start_post(job).keyboard == Some(cancel_rows()),
        job_step(job, stage, event).1 matches JobActionView::Edit(post) ==> post.keyboard == Some(
            no_rows(),
        ),
{
}

/// A job that is over stays over: no event moves it and nothing more is done.
pub proof fn law_done_is_final(job: JobView, event: JobEventView)
    ensures
        job_step(job, StageView::Done, event) == (StageView::Done, JobActionView::Ignore),
{
}

/// A job is over exactly when it has said how it ended.
pub proof fn law_finish_means_done(job: JobView, stage: StageView, event: JobEventView)
    requires
        !(stage is Done),
    ensures
        job_step(job, stage, event).0 is Done <==> job_step(job, stage, event).1 is Finish,
{
}

/// A job ends well only once a last message was shown: that the file is sent or that it is
/// too large.
pub proof fn law_success_is_announced(job: JobView, stage: StageView, event: JobEventView)
    ensures
        job_step(job, stage, event).1 matches JobActionView::Finish(Ok(_)) ==> (stage is Confirming
            || stage is Warning) && event matches JobEventView::Edited(Ok(_)),
{
}

/// Whether the file went up among the events.
pub open spec fn went_up(events: Seq<JobEventView>) -> bool {
    exists|i: int|
        0 <= i < events.len() && #[trigger] events[i] == JobEventView::Sent(SendOutcomeView::Sent)
}

/// Whether a file over the limit was measured among the events.
pub open spec fn measured_over(job: JobView, events: Seq<JobEventView>) -> bool {
    exists|i: int|
        0 <= i < events.len() && (#[trigger] events[i] matches JobEventView::Measured(Ok(size))
            && size > job.max_file_bytes)
}

/// A job that ends well has put the file into the chat, unless the file is too large for it.
pub proof fn law_success_means_sent(job: JobView, events: Seq<JobEventView>)
    requires
        actions_after(job, events).last() matches JobActionView::Finish(Ok(_)),
    ensures
        went_up(events) || measured_over(job, events),
{
    if events.len() > 0 {
        let before = events.drop_last();
        lemma_last_message(job, before);
        if went_up(before) {
            let i = choose|i: int|
                0 <= i < before.len() && #[trigger] before[i] == JobEventView::Sent(
                    SendOutcomeView::Sent,
                );
            assert(events[i] == before[i]);
        }
        if measured_over(job, before) {
            let i = choose|i: int|
                0 <= i < before.len() && (#[trigger] before[i] matches JobEventView::Measured(
                    Ok(size),
                ) && size > job.max_file_bytes);
            assert(events[i] == before[i]);
        }
    }
}

/// What came before a last message.
proof fn lemma_last_message(job: JobView, events: Seq<JobEventView>)
    ensures
        stage_after(job, events) is Confirming ==> went_up(events),
        stage_after(job, events) is Warning ==> measured_over(job, events),
    decreases events.len(),
{
    if events.len() > 0 {
        let before = events.drop_last();
        lemma_last_message(job, before);
        assert(events[events.len() - 1] == events.last());
        if stage_after(job, before) is Confirming && stage_after(job, events) is Confirming {
            let i = choose|i: int|
                0 <= i < before.len() && #[trigger] before[i] == JobEventView::Sent(
                    SendOutcomeView::Sent,
                );
            assert(events[i] == before[i]);
        }
        if stage_after(job, before) is Warning && stage_after(job, events) is Warning {
            let i = choose|i: int|
                0 <= i < before.len() && (#[trigger] before[i] matches JobEventView::Measured(
                    Ok(size),
                ) && size > job.max_file_bytes);
            assert(events[i] == before[i]);
        }
    }
}

/// How many more steps a job can take at most.
pub open spec fn steps_left(stage: StageView) -> int {
    match stage {
        StageView::Opening => 14,
        StageView::Preparing => 13,
        StageView::Downloading => 12,
        StageView::Remuxing => 11,
        StageView::Measuring(_) => 10,
        StageView::Announcing(_) => 9,
        StageView::Sending(_, retries) => 2 + 2 * (MAX_RETRIES - retries),
        StageView::Waiting(_, retries) => 3 + 2 * (MAX_RETRIES - retries),
        StageView::Warning => 1,
        StageView::Confirming => 1,
        StageView::Done => 0,
    }
}

/// Every job comes to an end: each action that is not idle uses up one of a bounded number of
/// steps, and one is idle only where the event did not belong to the stage.
pub proof fn law_every_job_ends(job: JobView, events: Seq<JobEventView>, event: JobEventView)
    ensures
        ({
            let stage = stage_after(job, events);
            let (next, action) = job_step(job, stage, event);
            &&& 0 <= steps_left(stage) <= 14
            &&& action is Ignore ==> next == stage
            &&& !(action is Ignore) ==> 0 <= steps_left(next) < steps_left(stage)
        }),
{
    lemma_sends(job, events);
}

/// Cancelling and every other way for a download to fail ends the job with that very error.
pub proof fn law_download_errors_end_the_job(job: JobView, e: BotErrorView)
    ensures
        job_step(job, StageView::Downloading, JobEventView::Downloaded(Err(e))) == (
            StageView::Done,
            JobActionView::Finish(Err(e)),
        ),
{
}

// ---- progress --------------------------------------------------------------

/// When a snapshot was last shown, after a row of offers, each with its time and whether the
/// percentage had risen far enough.
pub open spec fn last_shown(offers: Seq<(u128, bool)>) -> Option<u128>
    decreases offers.len(),
{
    if offers.len() == 0 {
        None
    } else {
        let before = last_shown(offers.drop_last());
        if is_due(before, offers.last().0) && offers.last().1 {
            Some(offers.last().0)
        } else {
            before
        }
    }
}

/// When snapshots were shown, of a row of offers.
pub open spec fn shown_times(offers: Seq<(u128, bool)>) -> Seq<u128>
    decreases offers.len(),
{
    if offers.len() == 0 {
        Seq::empty()
    } else {
        let before = last_shown(offers.drop_last());
        if is_due(before, offers.last().0) && offers.last().1 {
            shown_times(offers.drop_last()).push(offers.last().0)
        } else {
            shown_times(offers.drop_last())
        }
    }
}

/// Progress is shown by a bar of twelve cells under the job's title, with a Cancel button.
pub proof fn law_progress_comes_with_a_cancel_button(
    job: JobView,
    p: ProgressView,
    filled: nat,
    shown: Seq<char>,
)
    ensures
        progress_card(job, p, filled, shown) == card(
            bar_text(job.title_html, p, 12, filled, shown),
            seq![seq![ButtonView { label: "✖ Cancel"@, data: "cancel"@ }]],
        ),
{
}

/// Waiting longer never hides progress: the first snapshot and every one that comes three
/// seconds or more after the last edit is due, and no other one.
pub proof fn law_progress_is_due_after_the_pause(last: u128, now: u128)
    ensures
        is_due(None, now),
        is_due(Some(last), now) <==> now >= last + 3_000_000_000,
{
}

/// The latest of a row of snapshots is shown where it has risen and comes three seconds or more
/// after everything that was shown before it.
pub proof fn law_risen_progress_is_shown(offers: Seq<(u128, bool)>, now: u128)
    requires
        forall|i: int|
            0 <= i < shown_times(offers).len() ==> now >= #[trigger] shown_times(offers)[i]
                + 3_000_000_000,
    ensures
        shown_times(offers.push((now, true))) == shown_times(offers).push(now),
        shown_times(offers.push((now, false))) == shown_times(offers),
{
    lemma_last_shown(offers);
    assert(offers.push((now, true)).drop_last() =~= offers);
    assert(offers.push((now, false)).drop_last() =~= offers);
    if shown_times(offers).len() > 0 {
        assert(shown_times(offers).last() == shown_times(offers)[shown_times(offers).len() - 1]);
    }
}

/// Two progress edits in a row are at least the pause apart.
pub proof fn law_edits_are_paced(offers: Seq<(u128, bool)>, i: int)
    requires
        0 <= i < shown_times(offers).len() - 1,
    ensures
        shown_times(offers)[i + 1] - shown_times(offers)[i] >= 3_000_000_000,
    decreases offers.len(),
{
    if offers.len() > 0 {
        lemma_last_shown(offers.drop_last());
        if i < shown_times(offers.drop_last()).len() - 1 {
            law_edits_are_paced(offers.drop_last(), i);
        }
    }
}

/// What is remembered is the last time that a snapshot was shown.
proof fn lemma_last_shown(offers: Seq<(u128, bool)>)
    ensures
        last_shown(offers) == if shown_times(offers).len() > 0 {
            Some(shown_times(offers).last())
        } else {
            None
        },
    decreases offers.len(),
{
    if offers.len() > 0 {
        lemma_last_shown(offers.drop_last());
    }
}

} // verus!
