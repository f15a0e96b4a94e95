//! A job from the tap to the upload.

use telegram_yt_dlp::bot::job::{
    after_send, progress_post, run_job, send_audio_file, send_video_streamable, start_job, Job,
    JobAction, JobEvent, SendNext, SendOutcome, Stage, Upload, MAX_RETRIES,
};
use telegram_yt_dlp::bot::menu::{FormatChoice, CB_CANCEL};
use telegram_yt_dlp::bot::post::Post;
use telegram_yt_dlp::downloader::metadata::VideoMeta;
use telegram_yt_dlp::downloader::progress::ProgressState;
use telegram_yt_dlp::error::BotError;
use telegram_yt_dlp::state::PendingJob;

fn meta() -> VideoMeta {
    VideoMeta {
        title: "A & B".to_string(),
        uploader: Some("up".to_string()),
        duration: Some(83),
        width: Some(1920),
        height: Some(1080),
    }
}

fn job(choice: FormatChoice) -> Job {
    Job::new(PendingJob { url: "u".to_string(), meta: meta() }, choice, 1536)
}

fn edit(action: JobAction) -> Post {
    match action {
        JobAction::Edit(p) => p,
        _ => panic!("an edit was expected"),
    }
}

/// Feeds events in and hands back every action.
fn play(j: &Job, events: Vec<JobEvent>) -> Vec<JobAction> {
    let (mut stage, first) = start_job(j);
    let mut actions = vec![first];
    for e in events {
        let (next, action) = run_job(j, stage, e);
        stage = next;
        actions.push(action);
    }
    actions
}

fn limited() -> JobEvent {
    JobEvent::Sent(SendOutcome::RateLimited { secs: 5, words: "slow down".to_string() })
}

fn up_to_sending() -> Vec<JobEvent> {
    vec![
        JobEvent::Edited(Err("not shown".to_string())),
        JobEvent::DirMade(Ok(())),
        JobEvent::Downloaded(Ok("/w/a.mp3".to_string())),
        JobEvent::Measured(Ok(1536)),
        JobEvent::Edited(Ok(())),
    ]
}

#[test]
fn a_video_job_runs_to_its_end() {
    let j = job(FormatChoice::BestVideo);
    assert_eq!((j.url.as_str(), j.title_html.as_str()), ("u", "A &amp; B"));
    let (stage, action) = start_job(&j);
    let p = edit(action);
    assert_eq!(p.text, "⬇️ <b>A &amp; B</b>\nStarting…");
    assert!(p.html);
    assert_eq!(p.keyboard.unwrap().rows[0][0].data, CB_CANCEL);
    let (stage, action) = run_job(&j, stage, JobEvent::Edited(Ok(())));
    assert!(matches!(action, JobAction::MakeDir));
    let (stage, action) = run_job(&j, stage, JobEvent::DirMade(Ok(())));
    assert!(matches!(action, JobAction::Download));
    let done = JobEvent::Downloaded(Ok("/w/a.mp4".to_string()));
    let (stage, action) = run_job(&j, stage, done);
    assert!(matches!(action, JobAction::Remux(ref p) if p == "/w/a.mp4"));
    let remuxed = JobEvent::Remuxed("/w/a.stream.mp4".to_string());
    let (stage, action) = run_job(&j, stage, remuxed);
    assert!(matches!(action, JobAction::Measure(ref p) if p == "/w/a.stream.mp4"));
    let (stage, action) = run_job(&j, stage, JobEvent::Measured(Ok(1536)));
    let p = edit(action);
    assert_eq!(p.text, "⬆️ <b>A &amp; B</b>\nUploading…");
    assert!(p.html && p.keyboard.unwrap().rows.is_empty());
    let (stage, action) = run_job(&j, stage, JobEvent::Edited(Ok(())));
    match action {
        JobAction::Send(Upload::Video(v)) => {
            assert_eq!(v.path, "/w/a.stream.mp4");
            assert_eq!(v.caption, "A &amp; B");
            assert!(v.supports_streaming);
            assert_eq!((v.width, v.height, v.duration), (Some(1920), Some(1080), Some(83)));
        }
        _ => panic!("a video was expected"),
    }
    let (stage, action) = run_job(&j, stage, JobEvent::Sent(SendOutcome::Sent));
    let p = edit(action);
    assert_eq!(p.text, "✅ <b>A &amp; B</b>\nSent!");
    assert!(p.html && p.keyboard.unwrap().rows.is_empty());
    let (stage, action) = run_job(&j, stage, JobEvent::Edited(Ok(())));
    assert!(matches!(stage, Stage::Done));
    assert!(matches!(action, JobAction::Finish(Ok(()))));
    let (stage, action) = run_job(&j, stage, JobEvent::Slept);
    assert!(matches!((stage, action), (Stage::Done, JobAction::Ignore)));
}

#[test]
fn audio_is_sent_as_it_is() {
    let j = job(FormatChoice::AudioMp3);
    let actions = play(&j, up_to_sending());
    assert!(!actions.iter().any(|a| matches!(a, JobAction::Remux(_))));
    match actions.last().unwrap() {
        JobAction::Send(Upload::Audio(a)) => {
            assert_eq!(a.path, "/w/a.mp3");
            assert_eq!(a.title, "A & B");
            assert_eq!(a.performer.as_deref(), Some("up"));
            assert_eq!(a.duration, Some(83));
        }
        _ => panic!("an audio file was expected"),
    }
}

#[test]
fn a_large_file_is_not_sent() {
    let j = job(FormatChoice::AudioMp3);
    let mut events = up_to_sending();
    events[3] = JobEvent::Measured(Ok(1537));
    events.pop();
    let p = edit(play(&j, events).pop().unwrap());
    assert_eq!(
        p.text,
        "⚠️ <b>A &amp; B</b>\nFile is 1.5 KiB — over the 1.5 KiB limit. Try 🎵 MP3 or a shorter \
         video."
    );
    assert!(p.html && p.keyboard.unwrap().rows.is_empty());
    let (stage, action) = run_job(&j, Stage::Warning, JobEvent::Edited(Ok(())));
    assert!(matches!((stage, action), (Stage::Done, JobAction::Finish(Ok(())))));
}

#[test]
fn rate_limits_are_waited_out_so_often() {
    assert_eq!(MAX_RETRIES, 3);
    let j = job(FormatChoice::AudioMp3);
    let mut events = up_to_sending();
    for _ in 0..3 {
        events.push(limited());
        events.push(JobEvent::Slept);
    }
    events.push(limited());
    let actions = play(&j, events);
    let sends = actions.iter().filter(|a| matches!(a, JobAction::Send(_))).count();
    let sleeps = actions.iter().filter(|a| matches!(a, JobAction::Sleep(5))).count();
    assert_eq!((sends, sleeps), (4, 3));
    for a in &actions {
        if let JobAction::Send(Upload::Audio(a)) = a {
            assert_eq!((a.path.as_str(), a.title.as_str()), ("/w/a.mp3", "A & B"));
        }
    }
    match actions.last().unwrap() {
        JobAction::Finish(Err(BotError::Telegram(m))) => assert_eq!(m, "slow down"),
        _ => panic!("an error was expected"),
    }
}

#[test]
fn an_attempt_is_judged() {
    let wait = |n| after_send(n, SendOutcome::RateLimited { secs: 9, words: "w".to_string() });
    assert!(matches!(after_send(0, SendOutcome::Sent), SendNext::Done));
    assert!(matches!(wait(0), SendNext::Retry(9)));
    assert!(matches!(wait(2), SendNext::Retry(9)));
    assert!(matches!(wait(3), SendNext::Fail(BotError::Telegram(ref m)) if m == "w"));
    let refused = after_send(0, SendOutcome::Refused("no".to_string()));
    assert!(matches!(refused, SendNext::Fail(BotError::Telegram(ref m)) if m == "no"));
}

fn error_of(stage: Stage, event: JobEvent) -> BotError {
    match run_job(&job(FormatChoice::BestVideo), stage, event) {
        (Stage::Done, JobAction::Finish(Err(e))) => e,
        _ => panic!("an error was expected"),
    }
}

#[test]
fn every_failure_ends_the_job() {
    let m = || "m".to_string();
    let p = || "/w/a.mp4".to_string();
    assert!(matches!(error_of(Stage::Preparing, JobEvent::DirMade(Err(m()))), BotError::Io(_)));
    let cancelled = JobEvent::Downloaded(Err(BotError::Cancelled));
    assert!(matches!(error_of(Stage::Downloading, cancelled), BotError::Cancelled));
    let nothing = JobEvent::Downloaded(Err(BotError::NoOutput));
    assert!(matches!(error_of(Stage::Downloading, nothing), BotError::NoOutput));
    let e = error_of(Stage::Measuring(p()), JobEvent::Measured(Err(m())));
    assert!(matches!(e, BotError::Io(_)));
    for stage in [Stage::Warning, Stage::Announcing(p()), Stage::Confirming] {
        let e = error_of(stage, JobEvent::Edited(Err(m())));
        assert!(matches!(e, BotError::Telegram(ref w) if w == "m"));
    }
    let e = error_of(Stage::Sending(p(), 0), JobEvent::Sent(SendOutcome::Refused(m())));
    assert!(matches!(e, BotError::Telegram(_)));
}

#[test]
fn stray_events_are_ignored() {
    let j = job(FormatChoice::BestVideo);
    let (stage, action) = run_job(&j, Stage::Downloading, JobEvent::Slept);
    assert!(matches!((stage, action), (Stage::Downloading, JobAction::Ignore)));
    let (stage, action) = run_job(&j, Stage::Sending("p".to_string(), 2), JobEvent::Edited(Ok(())));
    assert!(matches!(action, JobAction::Ignore));
    assert!(matches!(stage, Stage::Sending(ref p, 2) if p == "p"));
}

#[test]
fn uploads_carry_what_is_known() {
    let bare = VideoMeta { title: "t".to_string(), ..VideoMeta::default() };
    match send_video_streamable("/p", &bare, "c") {
        Upload::Video(v) => {
            assert_eq!((v.path.as_str(), v.caption.as_str()), ("/p", "c"));
            assert!(v.supports_streaming);
            assert_eq!((v.width, v.height, v.duration), (None, None, None));
        }
        Upload::Audio(_) => panic!("a video was expected"),
    }
    match send_audio_file("/p", &bare) {
        Upload::Audio(a) => {
            assert_eq!((a.path.as_str(), a.title.as_str()), ("/p", "t"));
            assert_eq!((a.performer, a.duration), (None, None));
        }
        Upload::Video(_) => panic!("an audio file was expected"),
    }
}

#[test]
fn progress_is_shown_with_a_cancel_button() {
    let p = ProgressState {
        percent: "50".to_string(),
        speed: "1MiB/s".to_string(),
        eta: "00:01".to_string(),
    };
    let post = progress_post(&job(FormatChoice::BestVideo), &p, 6, "50");
    assert_eq!(
        post.text,
        "⬇️ <b>A &amp; B</b>\n<code>[██████░░░░░░]</code> 50% · 1MiB/s · ETA 00:01"
    );
    assert!(post.html);
    assert_eq!(post.keyboard.unwrap().rows[0][0].data, CB_CANCEL);
}
