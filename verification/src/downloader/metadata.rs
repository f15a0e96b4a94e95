//! What yt-dlp says about a video before it is downloaded.

use vstd::arithmetic::div_mod::lemma_basic_div;
use vstd::arithmetic::power2::{
    lemma2_to64_rest, lemma_pow2_pos, lemma_pow2_strictly_increases, pow2,
};
use vstd::bits::lemma_u64_shr_is_div;
use vstd::prelude::*;

use crate::downloader::arg;
use crate::downloader::json::{
    member, value_view, JsonDoc, JsonDocView, JsonScalar, JsonScalarView,
};
use crate::error::{result_view, BotError, BotErrorView};
use crate::outside::{from_utf8_lossy, json_document, lossy_text, lowercase, read_json};
use crate::text::{chars_of, contains, occurs, text_of, text_view, trim, trimmed, views};

verus! {

/// Minimal metadata used to build the info card and the streaming upload.
#[derive(Debug)]
pub struct VideoMeta {
    pub title: String,
    pub uploader: Option<String>,
    pub duration: Option<u32>,
    pub width: Option<u32>,
    pub height: Option<u32>,
}

/// A [`VideoMeta`] with its texts as sequences of characters.
pub struct VideoMetaView {
    pub title: Seq<char>,
    pub uploader: Option<Seq<char>>,
    pub duration: Option<u32>,
    pub width: Option<u32>,
    pub height: Option<u32>,
}

impl View for VideoMeta {
    type V = VideoMetaView;

    open spec fn view(&self) -> VideoMetaView {
        VideoMetaView {
            title: self.title@,
            uploader: text_view(self.uploader),
            duration: self.duration,
            width: self.width,
            height: self.height,
        }
    }
}

impl Clone for VideoMeta {
    fn clone(&self) -> (r: Self)
        ensures
            r@ == self@,
    {
        VideoMeta {
            title: self.title.clone(),
            uploader: self.uploader.clone(),
            duration: self.duration,
            width: self.width,
            height: self.height,
        }
    }
}

impl Default for VideoMeta {
    fn default() -> (r: Self)
        ensures
            r@ == (VideoMetaView {
                title: Seq::empty(),
                uploader: None,
                duration: None,
                width: None,
                height: None,
            }),
    {
        VideoMeta {
            title: String::new(),
            uploader: None,
            duration: None,
            width: None,
            height: None,
        }
    }
}

/// The last `n` characters of the trimmed text, behind an ellipsis where something was cut.
pub open spec fn tail_text(s: Seq<char>, n: nat) -> Seq<char> {
    let t = trimmed(s);
    if t.len() <= n {
        t
    } else {
        "…"@ + t.skip(t.len() - n)
    }
}

/// Last `n` characters of trimmed text, char-boundary safe.
pub fn tail(s: &str, n: usize) -> (r: String)
    ensures
        r@ == tail_text(s@, n as nat),
{
    let t = trim(s);
    let chars = chars_of(t.as_str());
    if chars.len() <= n {
        t
    } else {
        "…".to_owned().concat(text_of(&chars, chars.len() - n, chars.len()).as_str())
    }
}

// ---- reading yt-dlp's JSON -------------------------------------------------

/// The whole number of seconds, pixels or the like in a double-precision number given by its
/// bits: the fraction cut off, what is below zero or no number at all taken as zero, and what
/// is too large for 32 bits taken as the largest number that fits.
pub open spec fn whole_of_double(bits: u64) -> nat {
    let negative = bits / 0x8000_0000_0000_0000 == 1;
    let exponent = bits / 0x10_0000_0000_0000 % 0x800;
    let fraction = bits % 0x10_0000_0000_0000;
    if (exponent == 0x7ff && fraction != 0) || negative || exponent == 0 {
        0
    } else if exponent == 0x7ff {
        u32::MAX as nat
    } else {
        let significand = (0x10_0000_0000_0000 + fraction) as nat;
        let whole = if exponent >= 1075 {
            significand * pow2((exponent - 1075) as nat)
        } else {
            significand / pow2((1075 - exponent) as nat)
        };
        if whole <= u32::MAX {
            whole
        } else {
            u32::MAX as nat
        }
    }
}

/// The whole number in a double-precision number given by its bits.
fn double_to_u32(bits: u64) -> (r: u32)
    ensures
        r == whole_of_double(bits),
{
    let negative: bool = bits / 0x8000_0000_0000_0000 == 1;
    let exponent: u64 = bits / 0x10_0000_0000_0000 % 0x800;
    let fraction: u64 = bits % 0x10_0000_0000_0000;
    if (exponent == 0x7ff && fraction != 0) || negative || exponent == 0 {
        return 0;
    }
    if exponent == 0x7ff {
        return u32::MAX;
    }
    let significand: u64 = 0x10_0000_0000_0000 + fraction;
    if exponent >= 1075 {
        proof {
            lemma_pow2_pos((exponent - 1075) as nat);
            let p = pow2((exponent - 1075) as nat);
            assert(significand * p >= significand) by (nonlinear_arith)
                requires
                    p >= 1,
                    significand >= 0,
            ;
        }
        return u32::MAX;
    }
    let cut: u64 = 1075 - exponent;
    if cut >= 54 {
        proof {
            lemma2_to64_rest();
            if cut > 54 {
                lemma_pow2_strictly_increases(54, cut as nat);
            }
            lemma_basic_div(significand as int, pow2(cut as nat) as int);
        }
        return 0;
    }
    let whole: u64 = significand >> cut;
    proof {
        lemma_u64_shr_is_div(significand, cut);
    }
    if whole <= u32::MAX as u64 {
        whole as u32
    } else {
        u32::MAX
    }
}

/// The text that a value is.
pub open spec fn as_text(v: Option<JsonScalarView>) -> Option<Seq<char>> {
    match v {
        Some(JsonScalarView::Text(s)) => Some(s),
        _ => None,
    }
}

/// The low 32 bits of the unsigned integer that a value is.
pub open spec fn as_pixels(v: Option<JsonScalarView>) -> Option<u32> {
    match v {
        Some(JsonScalarView::Number(Some(n), _)) => Some((n % 0x1_0000_0000) as u32),
        _ => None,
    }
}

/// The whole seconds of the number that a value is.
pub open spec fn as_seconds(v: Option<JsonScalarView>) -> Option<u32> {
    match v {
        Some(JsonScalarView::Number(_, Some(bits))) => Some(whole_of_double(bits) as u32),
        _ => None,
    }
}

/// What the bot keeps of yt-dlp's description of a video. A missing or empty title becomes
/// `video`; the channel stands in only where no uploader is given at all.
pub open spec fn meta_of(doc: JsonDocView) -> VideoMetaView {
    VideoMetaView {
        title: match as_text(member(doc, "title"@)) {
            Some(t) => if t.len() > 0 {
                t
            } else {
                "video"@
            },
            None => "video"@,
        },
        uploader: as_text(
            if member(doc, "uploader"@) is Some {
                member(doc, "uploader"@)
            } else {
                member(doc, "channel"@)
            },
        ),
        duration: as_seconds(member(doc, "duration"@)),
        width: as_pixels(member(doc, "width"@)),
        height: as_pixels(member(doc, "height"@)),
    }
}

/// The text that a value is.
fn text_value(v: Option<&JsonScalar>) -> (r: Option<String>)
    ensures
        text_view(r) == as_text(value_view(v)),
{
    match v {
        Some(JsonScalar::Text(s)) => Some(s.clone()),
        _ => None,
    }
}

/// The low 32 bits of the unsigned integer that a value is.
fn pixels_value(v: Option<&JsonScalar>) -> (r: Option<u32>)
    ensures
        r == as_pixels(value_view(v)),
{
    match v {
        Some(JsonScalar::Number(Some(n), _)) => Some((*n % 0x1_0000_0000) as u32),
        _ => None,
    }
}

/// The whole seconds of the number that a value is.
fn seconds_value(v: Option<&JsonScalar>) -> (r: Option<u32>)
    ensures
        r == as_seconds(value_view(v)),
{
    match v {
        Some(JsonScalar::Number(_, Some(bits))) => Some(double_to_u32(*bits)),
        _ => None,
    }
}

/// Keeps what the bot needs of yt-dlp's description of a video.
pub fn parse_meta(doc: &JsonDoc) -> (r: VideoMeta)
    ensures
        r@ == meta_of(doc@),
        member(doc@, "width"@) matches Some(JsonScalarView::Number(Some(w), _)) ==> (w
            < 0x1_0000_0000 ==> r.width == Some(w as u32)),
        member(doc@, "height"@) matches Some(JsonScalarView::Number(Some(h), _)) ==> (h
            < 0x1_0000_0000 ==> r.height == Some(h as u32)),
{
    let title = match text_value(doc.get("title")) {
        Some(t) => if t.as_str().is_empty() {
            "video".to_owned()
        } else {
            t
        },
        None => "video".to_owned(),
    };
    let uploader = match doc.get("uploader") {
        Some(v) => text_value(Some(v)),
        None => text_value(doc.get("channel")),
    };
    VideoMeta {
        title,
        uploader,
        duration: seconds_value(doc.get("duration")),
        width: pixels_value(doc.get("width")),
        height: pixels_value(doc.get("height")),
    }
}

/// What a reading of yt-dlp's output comes to.
pub open spec fn info_of(doc: Result<JsonDocView, Seq<char>>) -> Result<
    VideoMetaView,
    BotErrorView,
> {
    match doc {
        Ok(d) => Ok(meta_of(d)),
        Err(m) => Err(BotErrorView::Metadata(m)),
    }
}

/// The metadata in a document that was read, or the error that it could not be.
pub fn info_from(doc: Result<JsonDoc, String>) -> (r: Result<VideoMeta, BotError>)
    ensures
        result_view(r) == info_of(result_view(doc)),
{
    match doc {
        Ok(d) => Ok(parse_meta(&d)),
        Err(m) => Err(BotError::Metadata(m)),
    }
}

/// The metadata in what `yt-dlp -J` printed.
pub fn read_info(stdout: &[u8]) -> (r: Result<VideoMeta, BotError>)
    ensures
        result_view(r) == info_of(json_document(stdout@)),
{
    info_from(read_json(stdout))
}

// ---- yt-dlp's complaints ---------------------------------------------------

/// Whether a complaint in lower case says that the video cannot be had.
pub open spec fn says_unavailable(s: Seq<char>) -> bool {
    ||| occurs(s, "private video"@)
    ||| occurs(s, "sign in to confirm your age"@)
    ||| occurs(s, "confirm your age"@)
    ||| occurs(s, "not available in your country"@)
    ||| occurs(s, "video unavailable"@)
    ||| occurs(s, "members-only"@)
}

/// The error that a complaint stands for, given the complaint in lower case too.
pub open spec fn class_of(lowered: Seq<char>, stderr: Seq<char>) -> BotErrorView {
    if says_unavailable(lowered) {
        BotErrorView::Unavailable
    } else {
        BotErrorView::DownloadFailed(tail_text(stderr, 300))
    }
}

/// The error that a complaint stands for, given the complaint in lower case too.
pub fn classify_lowered(lowered: &str, stderr: &str) -> (r: BotError)
    ensures
        r@ == class_of(lowered@, stderr@),
{
    if contains(lowered, "private video") || contains(lowered, "sign in to confirm your age")
        || contains(lowered, "confirm your age") || contains(
        lowered,
        "not available in your country",
    ) || contains(lowered, "video unavailable") || contains(lowered, "members-only") {
        BotError::Unavailable
    } else {
        BotError::DownloadFailed(tail(stderr, 300))
    }
}

/// Best-effort classification of yt-dlp stderr into a friendly error.
pub fn classify_stderr(stderr: &str) -> (r: BotError)
    ensures
        r@ == class_of(lowercase(stderr@), stderr@),
{
    classify_lowered(stderr.to_lowercase().as_str(), stderr)
}

// ---- fetching --------------------------------------------------------------

/// How long yt-dlp may take to describe a video.
pub const FETCH_TIMEOUT_SECS: u64 = 30;

/// The command line that describes a video without downloading it.
pub open spec fn fetch_line(url: Seq<char>) -> Seq<Seq<char>> {
    seq!["-J"@, "--no-playlist"@, "--no-warnings"@, url]
}

/// Build the yt-dlp argument vector that describes a video.
pub fn fetch_args(url: &str) -> (args: Vec<String>)
    ensures
        views(args@) == fetch_line(url@),
{
    let mut args: Vec<String> = Vec::new();
    arg(&mut args, "-J");
    arg(&mut args, "--no-playlist");
    arg(&mut args, "--no-warnings");
    arg(&mut args, url);
    assert(views(args@) =~= fetch_line(url@));
    args
}

/// How a run of yt-dlp that describes a video came out.
pub enum FetchOutcome {
    /// It was not done in time.
    TimedOut,
    /// It could not be run, with the system's own words.
    NotRun(String),
    /// It ended by itself.
    Exited { success: bool, stdout: Vec<u8>, stderr: Vec<u8> },
}

/// What a run of `yt-dlp -J` comes to.
pub open spec fn fetched(outcome: FetchOutcome) -> Result<VideoMetaView, BotErrorView> {
    match outcome {
        FetchOutcome::TimedOut => Err(BotErrorView::Timeout),
        FetchOutcome::NotRun(m) => Err(BotErrorView::Io(m@)),
        FetchOutcome::Exited { success, stdout, stderr } => if success {
            info_of(json_document(stdout@))
        } else {
            Err(class_of(lowercase(lossy_text(stderr@)), lossy_text(stderr@)))
        },
    }
}

/// Metadata from a run of `yt-dlp -J`, or why there is none.
pub fn fetch(outcome: FetchOutcome) -> (r: Result<VideoMeta, BotError>)
    ensures
        result_view(r) == fetched(outcome),
        outcome is TimedOut ==> result_view(r) == Err::<VideoMetaView, BotErrorView>(
            BotErrorView::Timeout,
        ),
        outcome matches FetchOutcome::NotRun(m) ==> result_view(r) == Err::<
            VideoMetaView,
            BotErrorView,
        >(BotErrorView::Io(m@)),
        outcome matches FetchOutcome::Exited { success, stdout, stderr } ==> result_view(r) == (
        if success {
            info_of(json_document(stdout@))
        } else {
            Err(class_of(lowercase(lossy_text(stderr@)), lossy_text(stderr@)))
        }),
{
    match outcome {
        FetchOutcome::TimedOut => Err(BotError::Timeout),
        FetchOutcome::NotRun(m) => Err(BotError::Io(m)),
        FetchOutcome::Exited { success, stdout, stderr } => if success {
            read_info(stdout.as_slice())
        } else {
            let words = from_utf8_lossy(stderr.as_slice());
            Err(classify_stderr(words.as_str()))
        },
    }
}

} // verus!
