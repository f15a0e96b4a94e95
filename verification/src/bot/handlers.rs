//! What the bot does about a message and about a button tap.

use vstd::prelude::*;

use crate::bot::menu::{choice_of, format_menu, format_rows, FormatChoice, CB_CANCEL};
use crate::bot::post::{html, html_post, plain, plain_post, Answer, AnswerView, Post, PostView};
use crate::bot::wording::{help_text, info_text, render_info, user_error, user_error_text, HELP};
use crate::downloader::metadata::{VideoMeta, VideoMetaView};
use crate::error::{result_view, BotError, BotErrorView};
use crate::laws::words::law_trimming_is_idempotent;
use crate::outside::{parse_absolute_url, parsed_url, url_view};
use crate::state::{AppState, PendingJob, PendingJobView};
use crate::text::{begins, same, starts_with, text_view, trim, trimmed};

verus! {

broadcast use vstd::std_specs::hash::group_hash_axioms;

// ---- links -----------------------------------------------------------------

/// The link that a text is, given what was found in it: it has to be a web address with a
/// host.
pub open spec fn accepted(text: Seq<char>, parts: Option<(Seq<char>, bool)>) -> Option<Seq<char>> {
    match parts {
        Some((scheme, host)) => if (scheme == "http"@ || scheme == "https"@) && host {
            Some(text)
        } else {
            None
        },
        None => None,
    }
}

/// The link that a message's text is.
pub open spec fn link_of(text: Seq<char>) -> Option<Seq<char>> {
    accepted(trimmed(text), parsed_url(trimmed(text)))
}

/// The link that a text is, given what was found in it.
pub fn accept_url(text: &str, parts: Option<(String, bool)>) -> (r: Option<String>)
    ensures
        text_view(r) == accepted(text@, url_view(parts)),
        r matches Some(u) ==> u@ == text@,
{
    match parts {
        Some((scheme, host)) => if (same(scheme.as_str(), "http") || same(
            scheme.as_str(),
            "https",
        )) && host {
            Some(text.to_owned())
        } else {
            None
        },
        None => None,
    }
}

/// The link that a message's text is, blanks around it aside.
pub fn parse_url(text: &str) -> (r: Option<String>)
    ensures
        text_view(r) == link_of(text@),
        r matches Some(u) ==> u@ == trimmed(text@),
{
    let t = trim(text);
    let parts = parse_absolute_url(t.as_str());
    accept_url(t.as_str(), parts)
}

// ---- messages --------------------------------------------------------------

/// A message as it comes in.
pub struct Incoming {
    pub chat: i64,
    /// Who sent it, where that is known.
    pub user: Option<u64>,
    pub text: Option<String>,
}

/// What to do about a message.
pub enum MessageAction {
    /// Send this.
    Reply(Post),
    /// Send `status`, then ask yt-dlp about the link.
    Fetch { url: String, status: Post },
}

/// A [`MessageAction`] with its texts as sequences of characters.
pub enum MessageActionView {
    Reply(PostView),
    Fetch { url: Seq<char>, status: PostView },
}

impl View for MessageAction {
    type V = MessageActionView;

    open spec fn view(&self) -> MessageActionView {
        match self {
            MessageAction::Reply(p) => MessageActionView::Reply(p@),
            MessageAction::Fetch { url, status } => MessageActionView::Fetch {
                url: url@,
                status: status@,
            },
        }
    }
}

/// Whether a text asks for help.
pub open spec fn asks_help(text: Seq<char>) -> bool {
    text.len() == 0 || begins(text, "/start"@) || begins(text, "/help"@)
}

/// The help card as a message.
pub open spec fn help_post() -> PostView {
    PostView { text: HELP@, html: true, keyboard: None }
}

/// What to do about a message: strangers are turned away before anything else, then help,
/// then what is no link, then links while a download runs.
pub open spec fn message_plan(
    allowed: bool,
    text: Seq<char>,
    link: Option<Seq<char>>,
    busy: bool,
) -> MessageActionView {
    if !allowed {
        MessageActionView::Reply(plain_post("⛔ You are not authorized to use this bot."@))
    } else if asks_help(text) {
        MessageActionView::Reply(help_post())
    } else {
        match link {
            None => MessageActionView::Reply(
                plain_post(
                    "🔗 Send me a video link and I'll download it. Type /help for details."@,
                ),
            ),
            Some(url) => if busy {
                MessageActionView::Reply(
                    plain_post(
                        "⏳ A download is already running in this chat. Please wait or press Cancel."@,
                    ),
                )
            } else {
                MessageActionView::Fetch { url, status: plain_post("🔎 Fetching video info…"@) }
            },
        }
    }
}

/// Whether a text asks for help.
fn is_help(text: &str) -> (r: bool)
    ensures
        r == asks_help(text@),
{
    text.is_empty() || starts_with(text, "/start") || starts_with(text, "/help")
}

/// What to do about a message, given whether its sender is allowed, its text without blanks
/// around it, the link that it is and whether a download runs in the chat.
pub fn decide_message(allowed: bool, text: &str, link: Option<String>, busy: bool) -> (r:
    MessageAction)
    ensures
        r@ == message_plan(allowed, text@, text_view(link), busy),
{
    if !allowed {
        return MessageAction::Reply(plain("⛔ You are not authorized to use this bot.".to_owned()));
    }
    if is_help(text) {
        return MessageAction::Reply(Post { text: help_text(), html: true, keyboard: None });
    }
    match link {
        None => MessageAction::Reply(
            plain(
                "🔗 Send me a video link and I'll download it. Type /help for details.".to_owned(),
            ),
        ),
        Some(url) => if busy {
            MessageAction::Reply(
                plain(
                    "⏳ A download is already running in this chat. Please wait or press Cancel.".to_owned(),
                ),
            )
        } else {
            MessageAction::Fetch { url, status: plain("🔎 Fetching video info…".to_owned()) }
        },
    }
}

/// Whether a user who may be unknown is on the allowlist.
pub open spec fn user_allowed(state: AppState, user: Option<u64>) -> bool {
    match user {
        Some(u) => state.cfg@.allowed_users.contains(u),
        None => false,
    }
}

/// A message's text without blanks around it; none counts as empty.
pub open spec fn message_text(text: Option<String>) -> Seq<char> {
    match text {
        Some(t) => trimmed(t@),
        None => Seq::empty(),
    }
}

/// Handle a plain message: validate a URL, ask for its info, or say what is wrong.
pub fn message_handler(state: &AppState, msg: &Incoming) -> (r: MessageAction)
    ensures
        r@ == message_plan(
            user_allowed(*state, msg.user),
            message_text(msg.text),
            link_of(message_text(msg.text)),
            state.active@.contains_key(msg.chat),
        ),
        r matches MessageAction::Fetch { url, .. } ==> (msg.text matches Some(t) && url@
            == trimmed(t@)),
{
    let allowed: bool = match msg.user {
        Some(u) => state.cfg.is_allowed(u),
        None => false,
    };
    let text = match &msg.text {
        Some(t) => trim(t.as_str()),
        None => String::new(),
    };
    let link = if allowed && !is_help(text.as_str()) {
        parse_url(text.as_str())
    } else {
        None
    };
    proof {
        if msg.text is Some {
            law_trimming_is_idempotent(msg.text->0@);
        }
    }
    decide_message(allowed, text.as_str(), link, state.is_busy(msg.chat))
}

/// What to do once yt-dlp has told about the link, or has not.
pub enum FetchReply {
    /// Replace the status message by this, then park the job.
    Offer { post: Post, job: PendingJob },
    /// Replace the status message by this.
    Sorry(Post),
}

/// A [`FetchReply`] with its texts as sequences of characters.
pub enum FetchReplyView {
    Offer { post: PostView, job: PendingJobView },
    Sorry(PostView),
}

impl View for FetchReply {
    type V = FetchReplyView;

    open spec fn view(&self) -> FetchReplyView {
        match self {
            FetchReply::Offer { post, job } => FetchReplyView::Offer { post: post@, job: job@ },
            FetchReply::Sorry(p) => FetchReplyView::Sorry(p@),
        }
    }
}

/// The message that tells of an error.
pub open spec fn error_post(e: BotErrorView) -> PostView {
    plain_post("❌ "@ + user_error_text(e))
}

/// What to do once yt-dlp has told about the link, or has not: the info card with the format
/// menu, or the error.
pub open spec fn fetch_plan(
    url: Seq<char>,
    fetched: Result<VideoMetaView, BotErrorView>,
) -> FetchReplyView {
    match fetched {
        Ok(meta) => FetchReplyView::Offer {
            post: html_post(info_text(meta), format_rows()),
            job: PendingJobView { url, meta },
        },
        Err(e) => FetchReplyView::Sorry(error_post(e)),
    }
}

/// The message that tells of an error.
fn sorry(e: &BotError) -> (r: Post)
    ensures
        r@ == error_post(e@),
{
    plain("❌ ".to_owned().concat(user_error(e).as_str()))
}

/// Offers the formats of a video that yt-dlp told about, or says why it did not.
pub fn after_fetch(url: String, fetched: Result<VideoMeta, BotError>) -> (r: FetchReply)
    ensures
        r@ == fetch_plan(url@, result_view(fetched)),
{
    match fetched {
        Ok(meta) => FetchReply::Offer {
            post: html(render_info(&meta), format_menu()),
            job: PendingJob { url, meta },
        },
        Err(e) => FetchReply::Sorry(sorry(&e)),
    }
}

// ---- button taps -----------------------------------------------------------

/// A button tap as it comes in.
pub struct Tap {
    /// The chat of the message that the button is on, where that is known.
    pub chat: Option<i64>,
    pub user: u64,
    /// The button's token.
    pub data: Option<String>,
}

/// What to do about a button tap.
pub enum CallbackAction {
    /// Answer it.
    Reply(Answer),
    /// Cancel the download with this handle, if there is one, and answer.
    Cancel { handle: Option<u64>, answer: Answer },
    /// Answer without words, then run the job.
    Start { job: PendingJob, choice: FormatChoice },
}

/// A [`CallbackAction`] with its texts as sequences of characters.
pub enum CallbackActionView {
    Reply(AnswerView),
    Cancel { handle: Option<u64>, answer: AnswerView },
    Start { job: PendingJobView, choice: FormatChoice },
}

impl View for CallbackAction {
    type V = CallbackActionView;

    open spec fn view(&self) -> CallbackActionView {
        match self {
            CallbackAction::Reply(a) => CallbackActionView::Reply(a@),
            CallbackAction::Cancel { handle, answer } => CallbackActionView::Cancel {
                handle: *handle,
                answer: answer@,
            },
            CallbackAction::Start { job, choice } => CallbackActionView::Start {
                job: job@,
                choice: *choice,
            },
        }
    }
}

/// An answer without words.
pub open spec fn silent() -> AnswerView {
    AnswerView { text: None, alert: false }
}

/// An answer in passing.
pub open spec fn toast(text: Seq<char>) -> AnswerView {
    AnswerView { text: Some(text), alert: false }
}

/// An answer that has to be dismissed.
pub open spec fn alarm(text: Seq<char>) -> AnswerView {
    AnswerView { text: Some(text), alert: true }
}

/// The token of a tap; none counts as empty.
pub open spec fn tap_data(data: Option<String>) -> Seq<char> {
    match data {
        Some(d) => d@,
        None => Seq::empty(),
    }
}

/// What the map holds for a key.
pub open spec fn held<V>(m: Map<i64, V>, key: i64) -> Option<V> {
    if m.contains_key(key) {
        Some(m[key])
    } else {
        None
    }
}

/// What to do about a button tap: strangers are turned away, Cancel is passed on, and a
/// format starts the parked job unless a download runs already.
pub open spec fn tap_plan(
    chat: Option<i64>,
    allowed: bool,
    data: Seq<char>,
    active: Map<i64, u64>,
    pending: Map<i64, PendingJob>,
) -> CallbackActionView {
    match chat {
        None => CallbackActionView::Reply(silent()),
        Some(c) => if !allowed {
            CallbackActionView::Reply(alarm("Not authorized"@))
        } else if data == CB_CANCEL@ {
            CallbackActionView::Cancel { handle: held(active, c), answer: toast("Cancelling…"@) }
        } else {
            match choice_of(data) {
                None => CallbackActionView::Reply(silent()),
                Some(choice) => if active.contains_key(c) {
                    CallbackActionView::Reply(toast("A download is already running."@))
                } else if !pending.contains_key(c) {
                    CallbackActionView::Reply(
                        alarm("Session expired — please resend the link."@),
                    )
                } else {
                    CallbackActionView::Start { job: pending[c]@, choice }
                },
            }
        },
    }
}

/// The links that wait after a button tap: the job that is started no longer does.
pub open spec fn pending_after(
    plan: CallbackActionView,
    chat: Option<i64>,
    pending: Map<i64, PendingJob>,
) -> Map<i64, PendingJob> {
    match (plan, chat) {
        (CallbackActionView::Start { .. }, Some(c)) => pending.remove(c),
        _ => pending,
    }
}

/// What to do about a tap in a state.
pub open spec fn tap_outcome(state: AppState, tap: Tap) -> CallbackActionView {
    tap_plan(
        tap.chat,
        state.cfg@.allowed_users.contains(tap.user),
        tap_data(tap.data),
        state.active@,
        state.pending@,
    )
}

/// Handle a button tap: cancel, or claim the job to run. Claiming takes the job out of the
/// chat at once, which guards against double taps.
pub fn callback_handler(state: &mut AppState, tap: &Tap) -> (r: CallbackAction)
    ensures
        r@ == tap_outcome(*old(state), *tap),
        final(state).pending@ == pending_after(r@, tap.chat, old(state).pending@),
        final(state).active == old(state).active,
        final(state).cfg == old(state).cfg,
        final(state).permits == old(state).permits,
{
    let chat: i64 = match tap.chat {
        Some(c) => c,
        None => return CallbackAction::Reply(Answer { text: None, alert: false }),
    };
    if !state.cfg.is_allowed(tap.user) {
        return CallbackAction::Reply(
            Answer { text: Some("Not authorized".to_owned()), alert: true },
        );
    }
    let data = match &tap.data {
        Some(d) => d.clone(),
        None => String::new(),
    };
    if same(data.as_str(), CB_CANCEL) {
        let handle: Option<u64> = match state.active.get(&chat) {
            Some(h) => Some(*h),
            None => None,
        };
        return CallbackAction::Cancel {
            handle,
            answer: Answer { text: Some("Cancelling…".to_owned()), alert: false },
        };
    }
    let choice = match FormatChoice::from_callback(data.as_str()) {
        Some(c) => c,
        None => return CallbackAction::Reply(Answer { text: None, alert: false }),
    };
    if state.is_busy(chat) {
        return CallbackAction::Reply(
            Answer { text: Some("A download is already running.".to_owned()), alert: false },
        );
    }
    match state.claim(chat) {
        Some(job) => CallbackAction::Start { job, choice },
        None => {
            assert(state.pending@ =~= old(state).pending@);
            CallbackAction::Reply(
                Answer {
                    text: Some("Session expired — please resend the link.".to_owned()),
                    alert: true,
                },
            )
        },
    }
}

// ---- the end of a job ------------------------------------------------------

/// What replaces the progress message once a job is over: nothing where it went well, for the
/// job has said so itself.
pub open spec fn report_plan(result: Result<(), BotErrorView>) -> Option<PostView> {
    match result {
        Ok(()) => None,
        Err(BotErrorView::Cancelled) => Some(plain_post("✖ Cancelled."@)),
        Err(e) => Some(error_post(e)),
    }
}

/// The view of a job's result.
pub open spec fn job_result_view(r: Result<(), BotError>) -> Result<(), BotErrorView> {
    match r {
        Ok(()) => Ok(()),
        Err(e) => Err(e@),
    }
}

/// The view of a message that may be missing.
pub open spec fn post_view(p: Option<Post>) -> Option<PostView> {
    match p {
        Some(x) => Some(x@),
        None => None,
    }
}

/// What replaces the progress message once a job is over.
pub fn job_report(result: &Result<(), BotError>) -> (r: Option<Post>)
    ensures
        post_view(r) == report_plan(job_result_view(*result)),
{
    match result {
        Ok(()) => None,
        Err(e) => match e {
            BotError::Cancelled => Some(plain("✖ Cancelled.".to_owned())),
            _ => Some(sorry(e)),
        },
    }
}

} // verus!
