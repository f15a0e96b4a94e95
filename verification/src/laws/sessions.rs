//! What holds between messages and button taps.

use vstd::prelude::*;
use vstd::utf8::{encode_utf8, is_ascii_chars, is_ascii_chars_encode_utf8};

use crate::bot::handlers::{
    alarm, fetch_plan, message_plan, pending_after, tap_outcome, tap_plan, toast,
    CallbackActionView, FetchReplyView, MessageActionView, Tap,
};
use crate::bot::menu::{
    cancel_rows, choice_of, format_rows, FormatChoice, CB_AUDIO_MP3, CB_BEST_VIDEO, CB_CANCEL,
};
use crate::bot::post::{plain_post, AnswerView};
use crate::downloader::metadata::VideoMetaView;
use crate::state::{AppState, PendingJob, PendingJobView};

verus! {

// ---- the allowlist ---------------------------------------------------------

/// A stranger is turned away whatever they write: no link of theirs is looked at.
pub proof fn law_strangers_are_refused(text: Seq<char>, link: Option<Seq<char>>, busy: bool)
    ensures
        message_plan(false, text, link, busy) == MessageActionView::Reply(
            plain_post("⛔ You are not authorized to use this bot."@),
        ),
{
}

/// A stranger's tap changes nothing: it starts no job, cancels none and takes no link.
pub proof fn law_strangers_change_nothing(
    chat: Option<i64>,
    data: Seq<char>,
    active: Map<i64, u64>,
    pending: Map<i64, PendingJob>,
)
    ensures
        tap_plan(chat, false, data, active, pending) is Reply,
        pending_after(tap_plan(chat, false, data, active, pending), chat, pending) == pending,
{
}

// ---- buttons ---------------------------------------------------------------

/// The token of a format's button.
pub open spec fn token_of(choice: FormatChoice) -> Seq<char> {
    match choice {
        FormatChoice::BestVideo => CB_BEST_VIDEO@,
        FormatChoice::AudioMp3 => CB_AUDIO_MP3@,
    }
}

/// A format's token is read back as that format.
pub proof fn law_tokens_round_trip(choice: FormatChoice)
    ensures
        choice_of(token_of(choice)) == Some(choice),
{
    lemma_tokens_differ();
}

/// Only the two tokens are read as a format, and Cancel is not one of them.
pub proof fn law_other_data_is_no_format(data: Seq<char>)
    requires
        forall|c: FormatChoice| data != token_of(c),
    ensures
        choice_of(data) is None,
        choice_of(CB_CANCEL@) is None,
{
    lemma_tokens_differ();
    assert(data != token_of(FormatChoice::BestVideo));
    assert(data != token_of(FormatChoice::AudioMp3));
}

/// No two buttons share a token.
proof fn lemma_tokens_differ()
    ensures
        CB_BEST_VIDEO@ != CB_AUDIO_MP3@,
        CB_BEST_VIDEO@ != CB_CANCEL@,
        CB_AUDIO_MP3@ != CB_CANCEL@,
{
    reveal_strlit("f:bv");
    reveal_strlit("f:mp3");
    reveal_strlit("cancel");
    assert(CB_BEST_VIDEO@.len() == 4);
    assert(CB_AUDIO_MP3@.len() == 5);
    assert(CB_CANCEL@.len() == 6);
}

/// How many bytes of callback data Telegram takes.
pub open spec fn callback_limit() -> nat {
    64
}

/// Every button's token fits Telegram's limit on callback data.
pub proof fn law_tokens_fit(i: int, j: int)
    ensures
        0 <= i < format_rows().len() && 0 <= j < format_rows()[i].len() ==> encode_utf8(
            format_rows()[i][j].data,
        ).len() <= callback_limit(),
        0 <= i < cancel_rows().len() && 0 <= j < cancel_rows()[i].len() ==> encode_utf8(
            cancel_rows()[i][j].data,
        ).len() <= callback_limit(),
{
    reveal_strlit("f:bv");
    reveal_strlit("f:mp3");
    reveal_strlit("cancel");
    assert(is_ascii_chars(CB_BEST_VIDEO@));
    assert(is_ascii_chars(CB_AUDIO_MP3@));
    assert(is_ascii_chars(CB_CANCEL@));
    is_ascii_chars_encode_utf8(CB_BEST_VIDEO@);
    is_ascii_chars_encode_utf8(CB_AUDIO_MP3@);
    is_ascii_chars_encode_utf8(CB_CANCEL@);
}

// ---- parked links and running downloads ------------------------------------

/// A parked link is what a tap on a format starts.
pub proof fn law_parked_link_is_started(
    chat: i64,
    choice: FormatChoice,
    active: Map<i64, u64>,
    pending: Map<i64, PendingJob>,
    job: PendingJob,
)
    requires
        !active.contains_key(chat),
    ensures
        tap_plan(Some(chat), true, token_of(choice), active, pending.insert(chat, job))
            == (CallbackActionView::Start { job: job@, choice }),
{
    lemma_tokens_differ();
}

/// The link and the description that were offered are what a tap on a format starts.
pub proof fn law_offered_link_is_what_is_started(
    url: Seq<char>,
    meta: VideoMetaView,
    offered: PendingJob,
    chat: i64,
    choice: FormatChoice,
    active: Map<i64, u64>,
    pending: Map<i64, PendingJob>,
)
    requires
        !active.contains_key(chat),
        fetch_plan(url, Ok(meta)) matches FetchReplyView::Offer { job, .. } && offered@ == job,
    ensures
        tap_plan(Some(chat), true, token_of(choice), active, pending.insert(chat, offered))
            == (CallbackActionView::Start { job: PendingJobView { url, meta }, choice }),
{
    lemma_tokens_differ();
}

/// Of two taps on a format only the first gets the job: the second finds the session expired.
pub proof fn law_double_tap_claims_once(
    chat: i64,
    first: Seq<char>,
    second: FormatChoice,
    active: Map<i64, u64>,
    pending: Map<i64, PendingJob>,
)
    requires
        tap_plan(Some(chat), true, first, active, pending) is Start,
    ensures
        tap_plan(
            Some(chat),
            true,
            token_of(second),
            active,
            pending_after(
                tap_plan(Some(chat), true, first, active, pending),
                Some(chat),
                pending,
            ),
        ) == CallbackActionView::Reply(alarm("Session expired — please resend the link."@)),
{
    lemma_tokens_differ();
}

/// A tap on a format of which nothing is remembered is told to send the link again.
pub proof fn law_lost_session_is_reported(
    chat: i64,
    choice: FormatChoice,
    active: Map<i64, u64>,
    pending: Map<i64, PendingJob>,
)
    requires
        !active.contains_key(chat),
        !pending.contains_key(chat),
    ensures
        tap_plan(Some(chat), true, token_of(choice), active, pending)
            == CallbackActionView::Reply(alarm("Session expired — please resend the link."@)),
{
    lemma_tokens_differ();
}

/// While a download runs in a chat no tap starts another one there, and no link is looked at.
pub proof fn law_one_download_per_chat(
    chat: i64,
    data: Seq<char>,
    allowed: bool,
    active: Map<i64, u64>,
    pending: Map<i64, PendingJob>,
    text: Seq<char>,
    link: Option<Seq<char>>,
)
    requires
        active.contains_key(chat),
    ensures
        !(tap_plan(Some(chat), allowed, data, active, pending) is Start),
        pending_after(
            tap_plan(Some(chat), allowed, data, active, pending),
            Some(chat),
            pending,
        ) == pending,
        !(message_plan(allowed, text, link, true) is Fetch),
{
}

/// Cancel reaches the download that was begun in the chat.
pub proof fn law_cancel_finds_the_download(
    chat: i64,
    handle: u64,
    active: Map<i64, u64>,
    pending: Map<i64, PendingJob>,
)
    ensures
        tap_plan(Some(chat), true, CB_CANCEL@, active.insert(chat, handle), pending)
            == (CallbackActionView::Cancel {
            handle: Some(handle),
            answer: toast("Cancelling…"@),
        }),
        tap_plan(Some(chat), true, CB_CANCEL@, active.remove(chat), pending)
            == (CallbackActionView::Cancel { handle: None, answer: toast("Cancelling…"@) }),
{
}

/// Every tap is answered: one of no chat and one of no known button in silence, a stranger's
/// with an alert, Cancel with the handle of the chat's own download, and a format while a
/// download runs in passing.
pub proof fn law_taps_are_answered(
    chat: i64,
    data: Seq<char>,
    allowed: bool,
    active: Map<i64, u64>,
    pending: Map<i64, PendingJob>,
)
    ensures
        tap_plan(None, allowed, data, active, pending) == CallbackActionView::Reply(
            AnswerView { text: None, alert: false },
        ),
        tap_plan(Some(chat), false, data, active, pending) == CallbackActionView::Reply(
            AnswerView { text: Some("Not authorized"@), alert: true },
        ),
        data != "f:bv"@ && data != "f:mp3"@ && data != "cancel"@ ==> tap_plan(
            Some(chat),
            true,
            data,
            active,
            pending,
        ) == CallbackActionView::Reply(AnswerView { text: None, alert: false }),
        tap_plan(Some(chat), true, "cancel"@, active, pending) == (CallbackActionView::Cancel {
            handle: if active.contains_key(chat) {
                Some(active[chat])
            } else {
                None
            },
            answer: AnswerView { text: Some("Cancelling…"@), alert: false },
        }),
        active.contains_key(chat) && (data == "f:bv"@ || data == "f:mp3"@) ==> tap_plan(
            Some(chat),
            true,
            data,
            active,
            pending,
        ) == CallbackActionView::Reply(
            AnswerView { text: Some("A download is already running."@), alert: false },
        ),
{
    lemma_tokens_differ();
}

/// A format starts the chat's own parked job in that very format, and no other tap starts one.
pub proof fn law_only_formats_start_jobs(
    chat: i64,
    data: Seq<char>,
    allowed: bool,
    active: Map<i64, u64>,
    pending: Map<i64, PendingJob>,
)
    ensures
        tap_plan(Some(chat), allowed, data, active, pending) is Start <==> allowed
            && !active.contains_key(chat) && pending.contains_key(chat) && (data == "f:bv"@ || data
            == "f:mp3"@),
        tap_plan(Some(chat), allowed, data, active, pending) matches CallbackActionView::Start {
            job,
            choice,
        } ==> job == pending[chat]@ && (choice == FormatChoice::BestVideo <==> data == "f:bv"@),
{
    lemma_tokens_differ();
}

/// A tap takes a parked link away exactly when it starts it, and only that one.
pub proof fn law_only_started_links_go(
    plan: CallbackActionView,
    chat: i64,
    pending: Map<i64, PendingJob>,
)
    ensures
        plan is Start ==> pending_after(plan, Some(chat), pending) == pending.remove(chat),
        !(plan is Start) ==> pending_after(plan, Some(chat), pending) == pending,
        pending_after(plan, None, pending) == pending,
{
}

/// What counts of a tap: its chat, whether its sender is on the list, and the button's token,
/// none of which counts as empty.
pub proof fn law_what_counts_of_a_tap(state: AppState, tap: Tap)
    ensures
        tap_outcome(state, tap) == tap_plan(
            tap.chat,
            state.cfg.allowed_users@.contains(tap.user),
            match tap.data {
                Some(d) => d@,
                None => Seq::empty(),
            },
            state.active@,
            state.pending@,
        ),
{
}

/// Chats do not touch each other: what a tap does depends on its own chat alone, and the links
/// of other chats stay where they are.
pub proof fn law_chats_are_independent(
    chat: i64,
    other: i64,
    data: Seq<char>,
    allowed: bool,
    active1: Map<i64, u64>,
    active2: Map<i64, u64>,
    pending1: Map<i64, PendingJob>,
    pending2: Map<i64, PendingJob>,
)
    requires
        chat != other,
        active1.contains_key(chat) == active2.contains_key(chat),
        active1.contains_key(chat) ==> active1[chat] == active2[chat],
        pending1.contains_key(chat) == pending2.contains_key(chat),
        pending1.contains_key(chat) ==> pending1[chat] == pending2[chat],
    ensures
        tap_plan(Some(chat), allowed, data, active1, pending1) == tap_plan(
            Some(chat),
            allowed,
            data,
            active2,
            pending2,
        ),
        ({
            let after = pending_after(
                tap_plan(Some(chat), allowed, data, active1, pending1),
                Some(chat),
                pending1,
            );
            &&& after.contains_key(other) == pending1.contains_key(other)
            &&& pending1.contains_key(other) ==> after[other] == pending1[other]
        }),
{
}

} // verus!
