//! What can go wrong on the way from a link to an upload.

use vstd::prelude::*;

verus! {

/// Typed errors for the download pipeline. [`crate::bot::wording::user_error`] words them
/// for the user.
#[derive(Debug)]
pub enum BotError {
    Unavailable,
    DownloadFailed(String),
    Metadata(String),
    Timeout,
    Cancelled,
    NoOutput,
    /// Telegram refused a request, with its own words.
    Telegram(String),
    /// The disk or a process failed, with the system's own words.
    Io(String),
}

/// A [`BotError`] with its texts as sequences of characters.
pub enum BotErrorView {
    Unavailable,
    DownloadFailed(Seq<char>),
    Metadata(Seq<char>),
    Timeout,
    Cancelled,
    NoOutput,
    Telegram(Seq<char>),
    Io(Seq<char>),
}

impl View for BotError {
    type V = BotErrorView;

    open spec fn view(&self) -> BotErrorView {
        match self {
            BotError::Unavailable => BotErrorView::Unavailable,
            BotError::DownloadFailed(m) => BotErrorView::DownloadFailed(m@),
            BotError::Metadata(m) => BotErrorView::Metadata(m@),
            BotError::Timeout => BotErrorView::Timeout,
            BotError::Cancelled => BotErrorView::Cancelled,
            BotError::NoOutput => BotErrorView::NoOutput,
            BotError::Telegram(m) => BotErrorView::Telegram(m@),
            BotError::Io(m) => BotErrorView::Io(m@),
        }
    }
}

/// How an error reads in a log.
pub open spec fn error_text(e: BotErrorView) -> Seq<char> {
    match e {
        BotErrorView::Unavailable =>
            "the video is unavailable (private, age-restricted, or geo-blocked)"@,
        BotErrorView::DownloadFailed(m) => "download failed: "@ + m,
        BotErrorView::Metadata(m) => "could not read video info: "@ + m,
        BotErrorView::Timeout => "the source took too long to respond"@,
        BotErrorView::Cancelled => "cancelled"@,
        BotErrorView::NoOutput => "no output file was produced"@,
        BotErrorView::Telegram(m) => m,
        BotErrorView::Io(m) => m,
    }
}

impl BotError {
    /// How the error reads in a log.
    pub fn to_text(&self) -> (s: String)
        ensures
            s@ == error_text(self@),
    {
        match self {
            BotError::Unavailable =>
                "the video is unavailable (private, age-restricted, or geo-blocked)".to_owned(),
            BotError::DownloadFailed(m) => "download failed: ".to_owned().concat(m.as_str()),
            BotError::Metadata(m) => "could not read video info: ".to_owned().concat(m.as_str()),
            BotError::Timeout => "the source took too long to respond".to_owned(),
            BotError::Cancelled => "cancelled".to_owned(),
            BotError::NoOutput => "no output file was produced".to_owned(),
            BotError::Telegram(m) => m.clone(),
            BotError::Io(m) => m.clone(),
        }
    }
}

/// A result with both sides taken by their views.
pub open spec fn result_view<T: View, E: View>(r: Result<T, E>) -> Result<T::V, E::V> {
    match r {
        Ok(t) => Ok(t@),
        Err(e) => Err(e@),
    }
}

} // verus!
