//! The words the bot shows: escaping, durations, sizes, cards and error messages.

use vstd::prelude::*;

use crate::downloader::metadata::{VideoMeta, VideoMetaView};
use crate::error::{BotError, BotErrorView};
use crate::text::{chars_of, digit, nat_text, u64_text};

verus! {

// ---- HTML ------------------------------------------------------------------

/// How one character is written in Telegram's HTML.
pub open spec fn escaped_char(c: char) -> Seq<char> {
    if c == '&' {
        "&amp;"@
    } else if c == '<' {
        "&lt;"@
    } else if c == '>' {
        "&gt;"@
    } else {
        seq![c]
    }
}

/// How a text is written in Telegram's HTML.
pub open spec fn escaped(s: Seq<char>) -> Seq<char>
    decreases s.len(),
{
    if s.len() == 0 {
        Seq::empty()
    } else {
        escaped(s.drop_last()) + escaped_char(s.last())
    }
}

/// Writes `s` so that Telegram's HTML shows it as it is.
pub fn html_escape(s: &str) -> (r: String)
    ensures
        r@ == escaped(s@),
{
    let v = chars_of(s);
    let mut r = String::new();
    let mut i: usize = 0;
    while i < v.len()
        invariant
            i <= v@.len(),
            r@ == escaped(v@.take(i as int)),
        decreases v@.len() - i,
    {
        assert(v@.take(i + 1).drop_last() == v@.take(i as int));
        let c = v[i];
        let ghost before = r@;
        if c == '&' {
            r.append("&amp;");
        } else if c == '<' {
            r.append("&lt;");
        } else if c == '>' {
            r.append("&gt;");
        } else {
            r.push(c);
            assert(r@ =~= before + seq![c]);
        }
        i = i + 1;
    }
    assert(v@.take(i as int) == s@);
    r
}

// ---- durations -------------------------------------------------------------

/// A number below a hundred in two digits.
pub open spec fn two_digits(n: int) -> Seq<char> {
    seq![digit(n / 10), digit(n % 10)]
}

/// A duration as `h:mm:ss`, or as `m:ss` where it is under an hour.
pub open spec fn duration_text(secs: int) -> Seq<char> {
    let h = secs / 3600;
    let m = (secs % 3600) / 60;
    let s = secs % 60;
    if h > 0 {
        nat_text(h as nat) + ":"@ + two_digits(m) + ":"@ + two_digits(s)
    } else {
        nat_text(m as nat) + ":"@ + two_digits(s)
    }
}

/// Appends a number below a hundred in two digits.
fn push_two(s: &mut String, n: u32)
    requires
        n < 100,
    ensures
        final(s)@ == old(s)@ + two_digits(n as int),
{
    s.push((48u8 + (n / 10) as u8) as char);
    s.push((48u8 + (n % 10) as u8) as char);
    assert(s@ =~= old(s)@ + two_digits(n as int));
}

/// Writes a duration in seconds as a clock would show it.
pub fn fmt_duration(secs: u32) -> (r: String)
    ensures
        r@ == duration_text(secs as int),
{
    let h: u32 = secs / 3600;
    let m: u32 = (secs % 3600) / 60;
    let s: u32 = secs % 60;
    if h > 0 {
        let mut r = u64_text(h as u64).concat(":");
        push_two(&mut r, m);
        r.append(":");
        push_two(&mut r, s);
        r
    } else {
        let mut r = u64_text(m as u64).concat(":");
        push_two(&mut r, s);
        r
    }
}

// ---- sizes -----------------------------------------------------------------

/// `num / den` rounded to the nearest whole number, a tie to the even one.
pub open spec fn round_half_even(num: nat, den: nat) -> nat {
    let q = num / den;
    let r = num % den;
    if 2 * r < den {
        q
    } else if 2 * r > den {
        q + 1
    } else if q % 2 == 0 {
        q
    } else {
        q + 1
    }
}

/// The distance between neighbouring double-precision numbers at `n`, where that is above 1.
pub open spec fn double_step(n: nat) -> nat
    decreases n,
{
    if n < 0x20_0000_0000_0000 {
        1
    } else {
        2 * double_step(n / 2)
    }
}

/// The double-precision number nearest to `n`.
pub open spec fn nearest_double(n: nat) -> nat {
    round_half_even(n, double_step(n)) * double_step(n)
}

/// How many bytes the unit has in which a size of `n` bytes is told.
pub open spec fn unit_bytes(n: nat) -> nat {
    if n < 0x400 {
        1
    } else if n < 0x10_0000 {
        0x400
    } else if n < 0x4000_0000 {
        0x10_0000
    } else if n < 0x100_0000_0000 {
        0x4000_0000
    } else {
        0x100_0000_0000
    }
}

/// The name of that unit.
pub open spec fn unit_name(n: nat) -> Seq<char> {
    if n < 0x400 {
        "B"@
    } else if n < 0x10_0000 {
        "KiB"@
    } else if n < 0x4000_0000 {
        "MiB"@
    } else if n < 0x100_0000_0000 {
        "GiB"@
    } else {
        "TiB"@
    }
}

/// A size with one decimal in the largest fitting binary unit. Sizes are kept in double
/// precision, which matters from 2^53 bytes on.
pub open spec fn size_text(bytes: nat) -> Seq<char> {
    let n = nearest_double(bytes);
    let tenths = round_half_even(n * 10, unit_bytes(n));
    nat_text(tenths / 10) + "."@ + seq![digit((tenths % 10) as int)] + " "@ + unit_name(n)
}

/// The distance between neighbouring double-precision numbers at `n`.
fn step_at(n: u64) -> (r: u64)
    ensures
        r == double_step(n as nat),
        0 < r,
        r == 1 || r * 0x10_0000_0000_0000 <= n,
    decreases n,
{
    if n < 0x20_0000_0000_0000 {
        1
    } else {
        2 * step_at(n / 2)
    }
}

/// `num / den` rounded to the nearest whole number, a tie to the even one.
fn rounded(num: u128, den: u128) -> (r: u128)
    requires
        0 < den,
        num < 0x1_0000_0000_0000_0000_0000,
        den < 0x1_0000_0000_0000_0000,
    ensures
        r == round_half_even(num as nat, den as nat),
        r <= num / den + 1,
{
    let q: u128 = num / den;
    let r: u128 = num % den;
    proof {
        assert(q <= num) by (nonlinear_arith)
            requires
                q == num / den,
                0 < den,
        ;
    }
    if 2 * r < den {
        q
    } else if 2 * r > den {
        q + 1
    } else if q % 2 == 0 {
        q
    } else {
        q + 1
    }
}

/// The double-precision number nearest to `n`.
fn as_double(n: u64) -> (r: u128)
    ensures
        r == nearest_double(n as nat),
        r <= 0x2_0000_0000_0000_0000,
{
    let step: u64 = step_at(n);
    let q: u128 = rounded(n as u128, step as u128);
    proof {
        assert(q * step <= n + step) by (nonlinear_arith)
            requires
                q <= (n as u128) / (step as u128) + 1,
                0 < step,
        ;
        assert(q * step <= 0x2_0000_0000_0000_0000);
    }
    q * (step as u128)
}

/// Writes a size in bytes with one decimal, in the largest binary unit that fits.
pub fn human_size(bytes: u64) -> (r: String)
    ensures
        r@ == size_text(bytes as nat),
{
    let n: u128 = as_double(bytes);
    let (unit, name): (u128, &str) = if n < 0x400 {
        (1, "B")
    } else if n < 0x10_0000 {
        (0x400, "KiB")
    } else if n < 0x4000_0000 {
        (0x10_0000, "MiB")
    } else if n < 0x100_0000_0000 {
        (0x4000_0000, "GiB")
    } else {
        (0x100_0000_0000, "TiB")
    };
    let tenths: u128 = rounded(n * 10, unit);
    assert(tenths <= u64::MAX);
    let t: u64 = tenths as u64;
    let mut r = u64_text(t / 10).concat(".");
    let ghost before = r@;
    r.push((48u8 + (t % 10) as u8) as char);
    assert(r@ =~= before + seq![digit((t % 10) as int)]);
    r.append(" ");
    r.append(name);
    r
}

// ---- cards and messages ----------------------------------------------------

/// What `/start` and `/help` answer.
pub const HELP: &'static str = "<b>🎬 Video Downloader</b>\n\n\
     Send me a link (YouTube and many other sites) and pick a format:\n\
     • <b>Best video (MP4)</b> — streamable, highest quality\n\
     • <b>MP3 audio</b> — audio only\n\n\
     You'll get a live progress bar while it downloads.";

/// The help card.
pub fn help_text() -> (r: String)
    ensures
        r@ == HELP@,
{
    HELP.to_owned()
}

/// The uploader's line of the info card.
pub open spec fn uploader_line(meta: VideoMetaView) -> Seq<char> {
    match meta.uploader {
        Some(up) => "👤 "@ + escaped(up) + "\n"@,
        None => Seq::empty(),
    }
}

/// The duration's line of the info card.
pub open spec fn duration_line(meta: VideoMetaView) -> Seq<char> {
    match meta.duration {
        Some(d) => "⏱ "@ + duration_text(d as int) + "\n"@,
        None => Seq::empty(),
    }
}

/// The picture size's line of the info card.
pub open spec fn picture_line(meta: VideoMetaView) -> Seq<char> {
    match (meta.width, meta.height) {
        (Some(w), Some(h)) => "📐 "@ + nat_text(w as nat) + "×"@ + nat_text(h as nat) + "\n"@,
        _ => Seq::empty(),
    }
}

/// The info card: the title, then a line for each thing that is known.
pub open spec fn info_text(meta: VideoMetaView) -> Seq<char> {
    "🎬 <b>"@ + escaped(meta.title) + "</b>\n"@ + uploader_line(meta) + duration_line(meta)
        + picture_line(meta) + "\nChoose a format:"@
}

/// Words the info card shown above the format menu.
pub fn render_info(meta: &VideoMeta) -> (r: String)
    ensures
        r@ == info_text(meta@),
{
    let mut s = "🎬 <b>".to_owned();
    s.append(html_escape(meta.title.as_str()).as_str());
    s.append("</b>\n");
    let ghost head = s@;
    if let Some(up) = &meta.uploader {
        s.append("👤 ");
        s.append(html_escape(up.as_str()).as_str());
        s.append("\n");
    }
    assert(s@ =~= head + uploader_line(meta@));
    let ghost head = s@;
    if let Some(d) = meta.duration {
        s.append("⏱ ");
        s.append(fmt_duration(d).as_str());
        s.append("\n");
    }
    assert(s@ =~= head + duration_line(meta@));
    let ghost head = s@;
    if let (Some(w), Some(h)) = (meta.width, meta.height) {
        s.append("📐 ");
        s.append(u64_text(w as u64).as_str());
        s.append("×");
        s.append(u64_text(h as u64).as_str());
        s.append("\n");
    }
    assert(s@ =~= head + picture_line(meta@));
    s.append("\nChoose a format:");
    s
}

/// What the user is told of an error.
pub open spec fn user_error_text(e: BotErrorView) -> Seq<char> {
    match e {
        BotErrorView::Unavailable =>
            "This video is unavailable (private, age-restricted, or geo-blocked)."@,
        BotErrorView::Timeout => "The source took too long to respond. Try again."@,
        BotErrorView::DownloadFailed(m) => "Download failed.\n"@ + m,
        BotErrorView::Metadata(_) => "Couldn't read this video's info."@,
        BotErrorView::NoOutput => "No file was produced."@,
        BotErrorView::Cancelled => "Cancelled."@,
        BotErrorView::Telegram(_) => "Telegram error while sending. Try again."@,
        BotErrorView::Io(_) => "A local error occurred."@,
    }
}

/// Words an error for the user.
pub fn user_error(e: &BotError) -> (r: String)
    ensures
        r@ == user_error_text(e@),
{
    match e {
        BotError::Unavailable =>
            "This video is unavailable (private, age-restricted, or geo-blocked).".to_owned(),
        BotError::Timeout => "The source took too long to respond. Try again.".to_owned(),
        BotError::DownloadFailed(m) => "Download failed.\n".to_owned().concat(m.as_str()),
        BotError::Metadata(_) => "Couldn't read this video's info.".to_owned(),
        BotError::NoOutput => "No file was produced.".to_owned(),
        BotError::Cancelled => "Cancelled.".to_owned(),
        BotError::Telegram(_) => "Telegram error while sending. Try again.".to_owned(),
        BotError::Io(_) => "A local error occurred.".to_owned(),
    }
}

} // verus!
