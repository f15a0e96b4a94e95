//! What holds of every message that comes in and of the answer to it.

use vstd::prelude::*;

use crate::bot::handlers::{
    accepted, fetch_plan, link_of, message_plan, message_text, report_plan, user_allowed,
    FetchReplyView, MessageActionView,
};
use crate::bot::menu::ButtonView;
use crate::bot::post::PostView;
use crate::bot::wording::{info_text, user_error_text, HELP};
use crate::downloader::metadata::VideoMetaView;
use crate::error::BotErrorView;
use crate::laws::texts::law_beginnings;
use crate::outside::parsed_url;
use crate::state::{AppState, PendingJobView};
use crate::text::trimmed;

verus! {

// ---- links -----------------------------------------------------------------

/// An accepted link is the text as it was written, and it is accepted exactly where it was
/// found to be a web address with a host.
pub proof fn law_links_are_kept_as_written(
    text: Seq<char>,
    scheme: Seq<char>,
    host: bool,
    parts: Option<(Seq<char>, bool)>,
)
    ensures
        accepted(text, parts) matches Some(u) ==> u == text,
        accepted(text, Some((scheme, host))) is Some <==> host && (scheme == "http"@ || scheme
            == "https"@),
        accepted(text, None) is None,
{
}

/// The link that a message is, is the message without the blanks around it, and whether it is
/// one depends on what the URL parser finds in that very text.
pub proof fn law_link_is_the_message(text: Seq<char>)
    ensures
        link_of(text) matches Some(u) ==> u == trimmed(text),
        link_of(text) is Some <==> (parsed_url(trimmed(text)) matches Some((scheme, host)) && host
            && (scheme == "http"@ || scheme == "https"@)),
{
}

// ---- messages --------------------------------------------------------------

/// A message in plain words without buttons.
pub open spec fn words(text: Seq<char>) -> PostView {
    PostView { text, html: false, keyboard: None }
}

/// Whether a text is a command, or nothing at all.
pub open spec fn is_command(text: Seq<char>) -> bool {
    ||| text.len() == 0
    ||| exists|rest: Seq<char>| text == #[trigger] ("/start"@ + rest)
    ||| exists|rest: Seq<char>| text == #[trigger] ("/help"@ + rest)
}

/// An allowed user's link is asked about as it is, in a chat where nothing runs.
pub proof fn law_links_are_asked_about(text: Seq<char>, url: Seq<char>)
    requires
        !is_command(text),
    ensures
        message_plan(true, text, Some(url), false) == (MessageActionView::Fetch {
            url,
            status: words("🔎 Fetching video info…"@),
        }),
        message_plan(true, text, Some(url), true) == MessageActionView::Reply(
            words(
                "⏳ A download is already running in this chat. Please wait or press Cancel."@,
            ),
        ),
        forall|busy: bool|
            #![trigger message_plan(true, text, None, busy)]
            message_plan(true, text, None, busy) == MessageActionView::Reply(
                words("🔗 Send me a video link and I'll download it. Type /help for details."@),
            ),
{
    law_beginnings(text, "/start"@);
    law_beginnings(text, "/help"@);
}

/// An allowed user who writes a command, or nothing, gets the help card whatever else holds.
pub proof fn law_commands_get_help(text: Seq<char>, link: Option<Seq<char>>, busy: bool)
    requires
        is_command(text),
    ensures
        message_plan(true, text, link, busy) == MessageActionView::Reply(
            PostView { text: HELP@, html: true, keyboard: None },
        ),
{
    law_beginnings(text, "/start"@);
    law_beginnings(text, "/help"@);
}

/// Nothing is asked about but the link of an allowed user, and nothing but that link.
pub proof fn law_only_the_link_is_asked_about(
    allowed: bool,
    text: Seq<char>,
    link: Option<Seq<char>>,
    busy: bool,
)
    ensures
        message_plan(allowed, text, link, busy) matches MessageActionView::Fetch { url, .. }
            ==> allowed && !busy && !is_command(text) && link == Some(url),
        !allowed ==> message_plan(allowed, text, link, busy) == MessageActionView::Reply(
            words("⛔ You are not authorized to use this bot."@),
        ),
{
    law_beginnings(text, "/start"@);
    law_beginnings(text, "/help"@);
}

/// What of a message counts: its text without blanks around it, and whether its sender is known
/// and on the list.
pub proof fn law_what_counts_of_a_message(state: AppState, user: u64, text: String)
    ensures
        message_text(Some(text)) == trimmed(text@),
        message_text(None) == Seq::<char>::empty(),
        user_allowed(state, Some(user)) <==> state.cfg.allowed_users@.contains(user),
        !user_allowed(state, None),
{
}

// ---- what yt-dlp told ------------------------------------------------------

/// A video that yt-dlp described is offered with a button for each format, and what is kept is
/// its link and its description as they came.
pub proof fn law_described_videos_are_offered(url: Seq<char>, meta: VideoMetaView)
    ensures
        fetch_plan(url, Ok(meta)) == (FetchReplyView::Offer {
            post: PostView {
                text: info_text(meta),
                html: true,
                keyboard: Some(
                    seq![
                        seq![
                            ButtonView { label: "🎬 Best video (MP4)"@, data: "f:bv"@ },
                            ButtonView { label: "🎵 MP3 audio"@, data: "f:mp3"@ },
                        ],
                    ],
                ),
            },
            job: PendingJobView { url, meta },
        }),
{
}

/// An error is told in plain words and nothing is offered.
pub proof fn law_errors_are_told(url: Seq<char>, e: BotErrorView)
    ensures
        fetch_plan(url, Err(e)) == FetchReplyView::Sorry(words("❌ "@ + user_error_text(e))),
{
}

/// The end of a job is told unless it went well; a cancelled one is told in its own words.
pub proof fn law_endings_are_told(e: BotErrorView)
    ensures
        report_plan(Ok(())) is None,
        report_plan(Err(BotErrorView::Cancelled)) == Some(words("✖ Cancelled."@)),
        !(e is Cancelled) ==> report_plan(Err(e)) == Some(words("❌ "@ + user_error_text(e))),
{
}

/// What the user is told of each error. Only a failed download shows what yt-dlp said.
pub proof fn law_each_error_has_its_words(m: Seq<char>)
    ensures
        user_error_text(BotErrorView::Unavailable)
            == "This video is unavailable (private, age-restricted, or geo-blocked)."@,
        user_error_text(BotErrorView::Timeout)
            == "The source took too long to respond. Try again."@,
        user_error_text(BotErrorView::DownloadFailed(m)) == "Download failed.\n"@ + m,
        user_error_text(BotErrorView::Metadata(m)) == "Couldn't read this video's info."@,
        user_error_text(BotErrorView::NoOutput) == "No file was produced."@,
        user_error_text(BotErrorView::Cancelled) == "Cancelled."@,
        user_error_text(BotErrorView::Telegram(m)) == "Telegram error while sending. Try again."@,
        user_error_text(BotErrorView::Io(m)) == "A local error occurred."@,
{
}

} // verus!
