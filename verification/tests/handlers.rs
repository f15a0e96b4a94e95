//! What the bot does about messages and taps.

use telegram_yt_dlp::bot::handlers::{
    accept_url, after_fetch, callback_handler, decide_message, job_report, message_handler,
    parse_url, CallbackAction, FetchReply, Incoming, MessageAction, Tap,
};
use telegram_yt_dlp::bot::menu::{FormatChoice, CB_AUDIO_MP3, CB_BEST_VIDEO, CB_CANCEL};
use telegram_yt_dlp::bot::post::{Answer, Post};
use telegram_yt_dlp::bot::wording::{
    fmt_duration, help_text, html_escape, human_size, render_info, user_error,
};
use telegram_yt_dlp::config::{Config, Environment};
use telegram_yt_dlp::downloader::metadata::VideoMeta;
use telegram_yt_dlp::error::BotError;
use telegram_yt_dlp::state::{AppState, PendingJob};

#[test]
fn url_validation() {
    assert!(parse_url("https://youtu.be/abc").is_some());
    assert!(parse_url("http://example.com/v").is_some());
    assert!(parse_url("just some text").is_none());
    assert!(parse_url("ftp://x/y").is_none());
}

#[test]
fn escaping_and_formatting() {
    assert_eq!(html_escape("a<b>&c"), "a&lt;b&gt;&amp;c");
    assert_eq!(fmt_duration(83), "1:23");
    assert_eq!(fmt_duration(3661), "1:01:01");
    assert_eq!(human_size(1536), "1.5 KiB");
    assert_eq!(human_size(2 * 1024 * 1024 * 1024), "2.0 GiB");
}

#[test]
fn links_are_kept_as_written() {
    assert_eq!(parse_url("  HTTPS://Youtu.be/abc \n").as_deref(), Some("HTTPS://Youtu.be/abc"));
    for text in ["", "youtu.be/abc", "mailto:a@b.c", "file:///etc/passwd", "https://", "data:,x"] {
        assert_eq!(parse_url(text), None, "{}", text);
    }
    let web = |s: &str| Some((s.to_string(), true));
    assert_eq!(accept_url("x", web("http")).as_deref(), Some("x"));
    assert_eq!(accept_url("x", web("https")).as_deref(), Some("x"));
    assert_eq!(accept_url("x", web("ftp")), None);
    assert_eq!(accept_url("x", Some(("https".to_string(), false))), None);
    assert_eq!(accept_url("x", None), None);
}

fn state() -> AppState {
    let vars = [("BOT_TOKEN", "t"), ("ALLOWED_USER_IDS", "7")];
    let env =
        Environment { vars: vars.iter().map(|(k, v)| (k.to_string(), v.to_string())).collect() };
    AppState::new(Config::from_env(&env).unwrap())
}

fn message(user: Option<u64>, text: &str) -> Incoming {
    Incoming { chat: 1, user, text: Some(text.to_string()) }
}

fn reply(action: MessageAction) -> Post {
    match action {
        MessageAction::Reply(p) => p,
        MessageAction::Fetch { .. } => panic!("a reply was expected"),
    }
}

const REFUSAL: &str = "⛔ You are not authorized to use this bot.";
const NO_LINK: &str = "🔗 Send me a video link and I'll download it. Type /help for details.";

#[test]
fn strangers_are_turned_away() {
    let s = state();
    for text in ["", "/start", "hello", "https://youtu.be/abc"] {
        for user in [None, Some(8), Some(0)] {
            let p = reply(message_handler(&s, &message(user, text)));
            assert_eq!((p.text.as_str(), p.html, p.keyboard.is_none()), (REFUSAL, false, true));
        }
    }
}

#[test]
fn help_is_given() {
    let s = state();
    for text in ["", "   ", "/start", "/start abc", " /help", "/helpme"] {
        let p = reply(message_handler(&s, &message(Some(7), text)));
        assert_eq!((p.text, p.html, p.keyboard.is_none()), (help_text(), true, true));
    }
    let p = reply(message_handler(&s, &Incoming { chat: 1, user: Some(7), text: None }));
    assert_eq!(p.text, help_text());
    assert_eq!(
        help_text(),
        "<b>🎬 Video Downloader</b>\n\nSend me a link (YouTube and many other sites) and pick a \
         format:\n• <b>Best video (MP4)</b> — streamable, highest quality\n• <b>MP3 audio</b> — \
         audio only\n\nYou'll get a live progress bar while it downloads."
    );
}

#[test]
fn links_are_fetched_unless_the_chat_is_busy() {
    let mut s = state();
    let p = reply(message_handler(&s, &message(Some(7), "hello")));
    assert_eq!((p.text.as_str(), p.html), (NO_LINK, false));
    match message_handler(&s, &message(Some(7), " https://youtu.be/abc ")) {
        MessageAction::Fetch { url, status } => {
            assert_eq!(url, "https://youtu.be/abc");
            assert_eq!(status.text, "🔎 Fetching video info…");
            assert!(!status.html && status.keyboard.is_none());
        }
        MessageAction::Reply(_) => panic!("a fetch was expected"),
    }
    s.begin(1, 99);
    let p = reply(message_handler(&s, &message(Some(7), "https://youtu.be/abc")));
    assert_eq!(
        p.text,
        "⏳ A download is already running in this chat. Please wait or press Cancel."
    );
    assert_eq!(reply(message_handler(&s, &message(Some(7), "hello"))).text, NO_LINK);
    s.finish(1);
    s.begin(2, 99);
    let m = message(Some(7), "https://youtu.be/abc");
    assert!(matches!(message_handler(&s, &m), MessageAction::Fetch { .. }));
    let d = decide_message(true, "x", Some("u".to_string()), false);
    assert!(matches!(d, MessageAction::Fetch { .. }));
}

fn meta() -> VideoMeta {
    VideoMeta {
        title: "A & B".to_string(),
        uploader: Some("<up>".to_string()),
        duration: Some(83),
        width: Some(1920),
        height: Some(1080),
    }
}

#[test]
fn the_info_card_shows_what_is_known() {
    assert_eq!(
        render_info(&meta()),
        "🎬 <b>A &amp; B</b>\n👤 &lt;up&gt;\n⏱ 1:23\n📐 1920×1080\n\nChoose a format:"
    );
    let bare = VideoMeta { title: "t".to_string(), ..VideoMeta::default() };
    assert_eq!(render_info(&bare), "🎬 <b>t</b>\n\nChoose a format:");
    let half = VideoMeta { title: "t".to_string(), width: Some(1), ..VideoMeta::default() };
    assert_eq!(render_info(&half), "🎬 <b>t</b>\n\nChoose a format:");
}

#[test]
fn a_fetch_offers_formats_or_is_sorry() {
    match after_fetch("u".to_string(), Ok(meta())) {
        FetchReply::Offer { post, job } => {
            assert_eq!(post.text, render_info(&meta()));
            assert!(post.html);
            let rows = post.keyboard.unwrap().rows;
            let buttons: Vec<(&str, &str)> =
                rows[0].iter().map(|b| (b.label.as_str(), b.data.as_str())).collect();
            assert_eq!(rows.len(), 1);
            assert_eq!(
                buttons,
                [("🎬 Best video (MP4)", CB_BEST_VIDEO), ("🎵 MP3 audio", CB_AUDIO_MP3)]
            );
            assert_eq!(job.url, "u");
            assert_eq!(job.meta.title, "A & B");
        }
        FetchReply::Sorry(_) => panic!("an offer was expected"),
    }
    match after_fetch("u".to_string(), Err(BotError::Timeout)) {
        FetchReply::Sorry(p) => {
            assert_eq!(p.text, "❌ The source took too long to respond. Try again.");
            assert!(!p.html && p.keyboard.is_none());
        }
        FetchReply::Offer { .. } => panic!("an error was expected"),
    }
}

fn tap(chat: Option<i64>, user: u64, data: &str) -> Tap {
    Tap { chat, user, data: Some(data.to_string()) }
}

fn answer(action: CallbackAction) -> (Option<String>, bool) {
    match action {
        CallbackAction::Reply(Answer { text, alert }) => (text, alert),
        _ => panic!("an answer was expected"),
    }
}

fn parked(url: &str) -> PendingJob {
    PendingJob { url: url.to_string(), meta: meta() }
}

#[test]
fn a_parked_link_is_started_once() {
    let mut s = state();
    s.park(1, parked("old"));
    s.park(1, parked("u"));
    s.park(2, parked("other"));
    match callback_handler(&mut s, &tap(Some(1), 7, CB_AUDIO_MP3)) {
        CallbackAction::Start { job, choice } => {
            assert_eq!(job.url, "u");
            assert_eq!(choice, FormatChoice::AudioMp3);
        }
        _ => panic!("a start was expected"),
    }
    let expired = (Some("Session expired — please resend the link.".to_string()), true);
    assert_eq!(answer(callback_handler(&mut s, &tap(Some(1), 7, CB_BEST_VIDEO))), expired);
    assert!(s.pending.contains_key(&2));
    assert_eq!(s.claim(2).unwrap().url, "other");
    assert!(s.claim(2).is_none());
}

#[test]
fn an_offered_link_is_what_is_started() {
    let mut s = state();
    match after_fetch("https://youtu.be/abc".to_string(), Ok(meta())) {
        FetchReply::Offer { job, .. } => s.park(1, job),
        FetchReply::Sorry(_) => panic!("an offer was expected"),
    }
    match callback_handler(&mut s, &tap(Some(1), 7, CB_BEST_VIDEO)) {
        CallbackAction::Start { job, choice } => {
            assert_eq!(job.url, "https://youtu.be/abc");
            assert_eq!(job.meta.uploader.as_deref(), Some("<up>"));
            assert_eq!(choice, FormatChoice::BestVideo);
        }
        _ => panic!("a start was expected"),
    }
}

#[test]
fn a_running_download_keeps_the_parked_link() {
    let mut s = state();
    s.park(1, parked("u"));
    s.begin(1, 5);
    assert!(s.is_busy(1) && !s.is_busy(2));
    let busy = (Some("A download is already running.".to_string()), false);
    assert_eq!(answer(callback_handler(&mut s, &tap(Some(1), 7, CB_BEST_VIDEO))), busy);
    assert!(s.pending.contains_key(&1));
    s.finish(1);
    let action = callback_handler(&mut s, &tap(Some(1), 7, CB_BEST_VIDEO));
    assert!(matches!(action, CallbackAction::Start { .. }));
}

#[test]
fn cancel_is_passed_on() {
    let mut s = state();
    for expected in [None, Some(5)] {
        if expected.is_some() {
            s.begin(1, 5);
        }
        match callback_handler(&mut s, &tap(Some(1), 7, CB_CANCEL)) {
            CallbackAction::Cancel { handle, answer } => {
                assert_eq!(handle, expected);
                assert_eq!(answer.text.as_deref(), Some("Cancelling…"));
                assert!(!answer.alert);
            }
            _ => panic!("a cancel was expected"),
        }
    }
}

#[test]
fn other_taps_are_answered() {
    let mut s = state();
    s.park(1, parked("u"));
    s.begin(2, 5);
    let refused = (Some("Not authorized".to_string()), true);
    for data in [CB_BEST_VIDEO, CB_CANCEL, ""] {
        for chat in [1, 2] {
            assert_eq!(answer(callback_handler(&mut s, &tap(Some(chat), 8, data))), refused);
        }
    }
    assert!(s.pending.contains_key(&1) && s.is_busy(2));
    assert_eq!(answer(callback_handler(&mut s, &tap(None, 7, CB_BEST_VIDEO))), (None, false));
    assert_eq!(answer(callback_handler(&mut s, &tap(Some(1), 7, "nonsense"))), (None, false));
    let dataless = Tap { chat: Some(1), user: 7, data: None };
    assert_eq!(answer(callback_handler(&mut s, &dataless)), (None, false));
}

#[test]
fn every_error_has_words() {
    let m = || "detail".to_string();
    let table = [
        (
            BotError::Unavailable,
            "This video is unavailable (private, age-restricted, or geo-blocked).",
            "the video is unavailable (private, age-restricted, or geo-blocked)",
        ),
        (
            BotError::Timeout,
            "The source took too long to respond. Try again.",
            "the source took too long to respond",
        ),
        (BotError::DownloadFailed(m()), "Download failed.\ndetail", "download failed: detail"),
        (
            BotError::Metadata(m()),
            "Couldn't read this video's info.",
            "could not read video info: detail",
        ),
        (BotError::NoOutput, "No file was produced.", "no output file was produced"),
        (BotError::Cancelled, "Cancelled.", "cancelled"),
        (BotError::Telegram(m()), "Telegram error while sending. Try again.", "detail"),
        (BotError::Io(m()), "A local error occurred.", "detail"),
    ];
    for (e, user, log) in table {
        assert_eq!(user_error(&e), user);
        assert_eq!(e.to_text(), log);
        let cancelled = matches!(e, BotError::Cancelled);
        let p = job_report(&Err(e)).unwrap();
        let expected = if cancelled { "✖ Cancelled.".to_string() } else { format!("❌ {}", user) };
        assert_eq!(p.text, expected);
        assert!(!p.html && p.keyboard.is_none());
    }
    assert!(job_report(&Ok(())).is_none());
}

#[test]
fn parked_links_are_cloned_whole() {
    let p = parked("u").clone();
    assert_eq!((p.url.as_str(), p.meta.title.as_str()), ("u", "A & B"));
}
