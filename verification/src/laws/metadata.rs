//! What holds of yt-dlp's description of a video and of its complaints.

use vstd::arithmetic::div_mod::{lemma_fundamental_div_mod, lemma_mod_bound};
use vstd::arithmetic::power2::{lemma2_to64, lemma_pow2_pos, pow2};
use vstd::prelude::*;
use vstd::utf8::is_ascii_chars;

use crate::downloader::json::{member, JsonDocView, JsonScalarView};
use crate::downloader::metadata::{
    class_of, fetched, info_of, meta_of, tail_text, whole_of_double, FetchOutcome, VideoMetaView,
};
use crate::error::BotErrorView;
use crate::laws::texts::{law_first_pair_counts, law_missing_key_has_no_value, law_occurrences};
use crate::outside::{json_document, lossy_text, lowercase};

verus! {

// ---- members ---------------------------------------------------------------

/// The member of a name is the first pair of that name; what is no object has none.
pub proof fn law_members_are_found_by_name(
    pairs: Seq<(Seq<char>, JsonScalarView)>,
    i: int,
    key: Seq<char>,
)
    requires
        0 <= i < pairs.len(),
        forall|j: int| 0 <= j < i ==> (#[trigger] pairs[j]).0 != pairs[i].0,
    ensures
        member(JsonDocView::Object(pairs), pairs[i].0) == Some(pairs[i].1),
        (forall|j: int| 0 <= j < pairs.len() ==> (#[trigger] pairs[j]).0 != key) ==> member(
            JsonDocView::Object(pairs),
            key,
        ) is None,
        member(JsonDocView::Other, key) is None,
{
    law_first_pair_counts(pairs, i);
    if forall|j: int| 0 <= j < pairs.len() ==> (#[trigger] pairs[j]).0 != key {
        law_missing_key_has_no_value(pairs, key);
    }
}

// ---- width and height ------------------------------------------------------

/// Each number of the picture comes from the member of its own name, whatever the other members
/// hold: an unsigned integer is kept in 32 bits, and nothing else is taken for one.
pub proof fn law_picture_size_comes_from_its_own_members(
    doc: JsonDocView,
    n: u64,
    d: Option<u64>,
)
    ensures
        member(doc, "width"@) == Some(JsonScalarView::Number(Some(n), d)) && n < 0x1_0000_0000
            ==> meta_of(doc).width == Some(n as u32),
        member(doc, "height"@) == Some(JsonScalarView::Number(Some(n), d)) && n < 0x1_0000_0000
            ==> meta_of(doc).height == Some(n as u32),
        member(doc, "width"@) == Some(JsonScalarView::Number(Some(n), d)) ==> (
        meta_of(doc).width matches Some(w) && (n - w) % 0x1_0000_0000 == 0),
        member(doc, "height"@) == Some(JsonScalarView::Number(Some(n), d)) ==> (
        meta_of(doc).height matches Some(h) && (n - h) % 0x1_0000_0000 == 0),
        meta_of(doc).width is Some <==> (member(doc, "width"@) matches Some(
            JsonScalarView::Number(Some(_), _),
        )),
        meta_of(doc).height is Some <==> (member(doc, "height"@) matches Some(
            JsonScalarView::Number(Some(_), _),
        )),
{
}

/// Two descriptions that agree on a member agree on what comes from it.
pub proof fn law_fields_depend_on_their_own_members(a: JsonDocView, b: JsonDocView)
    ensures
        member(a, "title"@) == member(b, "title"@) ==> meta_of(a).title == meta_of(b).title,
        member(a, "uploader"@) == member(b, "uploader"@) && member(a, "channel"@) == member(
            b,
            "channel"@,
        ) ==> meta_of(a).uploader == meta_of(b).uploader,
        member(a, "duration"@) == member(b, "duration"@) ==> meta_of(a).duration == meta_of(
            b,
        ).duration,
        member(a, "width"@) == member(b, "width"@) ==> meta_of(a).width == meta_of(b).width,
        member(a, "height"@) == member(b, "height"@) ==> meta_of(a).height == meta_of(b).height,
{
}

// ---- title and uploader ----------------------------------------------------

/// The title is the member of that name where it is a text that is not empty, else `video`.
pub proof fn law_title_comes_from_its_own_member(doc: JsonDocView, t: Seq<char>)
    ensures
        member(doc, "title"@) == Some(JsonScalarView::Text(t)) && t.len() > 0 ==> meta_of(
            doc,
        ).title == t,
        member(doc, "title"@) == Some(JsonScalarView::Text(t)) && t.len() == 0 ==> meta_of(
            doc,
        ).title == "video"@,
        !(member(doc, "title"@) matches Some(JsonScalarView::Text(_))) ==> meta_of(doc).title
            == "video"@,
{
}

/// The uploader is the text under that name; the channel stands in only where there is no
/// member of that name at all.
pub proof fn law_uploader_comes_before_the_channel(doc: JsonDocView, t: Seq<char>)
    ensures
        member(doc, "uploader"@) == Some(JsonScalarView::Text(t)) ==> meta_of(doc).uploader == Some(
            t,
        ),
        member(doc, "uploader"@) is Some && !(member(doc, "uploader"@) matches Some(
            JsonScalarView::Text(_),
        )) ==> meta_of(doc).uploader is None,
        member(doc, "uploader"@) is None && member(doc, "channel"@) == Some(
            JsonScalarView::Text(t),
        ) ==> meta_of(doc).uploader == Some(t),
        member(doc, "uploader"@) is None && !(member(doc, "channel"@) matches Some(
            JsonScalarView::Text(_),
        )) ==> meta_of(doc).uploader is None,
{
}

// ---- duration --------------------------------------------------------------

/// The duration is the whole seconds of the number under that name, and nothing else is.
pub proof fn law_duration_comes_from_its_own_member(doc: JsonDocView, n: Option<u64>, bits: u64)
    ensures
        member(doc, "duration"@) == Some(JsonScalarView::Number(n, Some(bits))) ==> (
        meta_of(doc).duration matches Some(secs) && secs == whole_of_double(bits)),
        meta_of(doc).duration is Some <==> (member(doc, "duration"@) matches Some(
            JsonScalarView::Number(_, Some(_)),
        )),
{
    assert(whole_of_double(bits) <= u32::MAX);
}

/// The whole part of a double that is `(2^52 + fraction) * 2^(exponent - 1075)`: the number of
/// wholes that fit into it, as far as 32 bits go.
pub proof fn law_seconds_are_cut_not_rounded(exponent: int, fraction: int)
    requires
        1 <= exponent <= 2046,
        0 <= fraction < 0x10_0000_0000_0000,
    ensures
        ({
            let bits = (exponent * 0x10_0000_0000_0000 + fraction) as u64;
            let significand = 0x10_0000_0000_0000 + fraction;
            let secs = whole_of_double(bits);
            &&& secs <= u32::MAX
            &&& exponent <= 1075 ==> {
                let unit = pow2((1075 - exponent) as nat);
                &&& secs * unit <= significand
                &&& secs < u32::MAX ==> significand < (secs + 1) * unit
            }
            &&& exponent > 1075 ==> secs == u32::MAX
        }),
{
    let bits = (exponent * 0x10_0000_0000_0000 + fraction) as u64;
    let significand = 0x10_0000_0000_0000 + fraction;
    assert(exponent * 0x10_0000_0000_0000 + fraction <= u64::MAX);
    assert(bits == exponent * 0x10_0000_0000_0000 + fraction);
    assert(bits / 0x10_0000_0000_0000 == exponent);
    assert(bits % 0x10_0000_0000_0000 == fraction);
    assert(bits / 0x8000_0000_0000_0000 == 0);
    if exponent <= 1075 {
        let unit = pow2((1075 - exponent) as nat) as int;
        lemma_pow2_pos((1075 - exponent) as nat);
        lemma_fundamental_div_mod(significand, unit);
        lemma_mod_bound(significand, unit);
        let whole = significand / unit;
        assert(whole * unit <= significand && significand < (whole + 1) * unit)
            by (nonlinear_arith)
            requires
                significand == unit * whole + significand % unit,
                0 <= significand % unit < unit,
        ;
        if exponent == 1075 {
            lemma2_to64();
            assert(unit == 1);
            assert(significand * 1 == significand);
            assert(significand / 1 == significand);
        }
        if whole > u32::MAX {
            assert(u32::MAX as int * unit <= significand) by (nonlinear_arith)
                requires
                    whole * unit <= significand,
                    whole > u32::MAX as int,
                    unit > 0,
            ;
        }
        assert(whole_of_double(bits) == if whole <= u32::MAX {
            whole
        } else {
            u32::MAX as int
        });
    } else {
        let p = pow2((exponent - 1075) as nat) as int;
        lemma_pow2_pos((exponent - 1075) as nat);
        assert(significand * p >= significand) by (nonlinear_arith)
            requires
                p >= 1,
                significand >= 0,
        ;
    }
}

/// What is below zero, no number at all or smaller than every normal number counts as zero
/// seconds; infinity counts as the longest time.
pub proof fn law_odd_doubles_count_as_the_ends(bits: u64)
    ensures
        bits >= 0x8000_0000_0000_0000 ==> whole_of_double(bits) == 0,
        bits < 0x10_0000_0000_0000 ==> whole_of_double(bits) == 0,
        bits == 0x7ff0_0000_0000_0000 ==> whole_of_double(bits) == u32::MAX,
        0x7ff0_0000_0000_0000 < bits < 0x8000_0000_0000_0000 ==> whole_of_double(bits) == 0,
{
}

// ---- readings and complaints -----------------------------------------------

/// What was read is what is kept; what could not be read is an error in the reader's words.
pub proof fn law_readings(doc: JsonDocView, m: Seq<char>)
    ensures
        info_of(Ok(doc)) == Ok::<VideoMetaView, BotErrorView>(meta_of(doc)),
        info_of(Err(m)) == Err::<VideoMetaView, BotErrorView>(BotErrorView::Metadata(m)),
{
}

/// A fetch that took too long or could not be run is an error of its own; of one that ended,
/// what it printed counts where it went well and what it complained of where it did not.
pub proof fn law_fetches_are_told_by_their_outcome(m: String, stdout: Vec<u8>, stderr: Vec<u8>)
    ensures
        fetched(FetchOutcome::TimedOut) == Err::<VideoMetaView, BotErrorView>(
            BotErrorView::Timeout,
        ),
        fetched(FetchOutcome::NotRun(m)) == Err::<VideoMetaView, BotErrorView>(
            BotErrorView::Io(m@),
        ),
        fetched(FetchOutcome::Exited { success: true, stdout, stderr }) == info_of(
            json_document(stdout@),
        ),
        fetched(FetchOutcome::Exited { success: false, stdout, stderr }) == Err::<
            VideoMetaView,
            BotErrorView,
        >(class_of(lowercase(lossy_text(stderr@)), lossy_text(stderr@))),
{
}

/// A complaint that holds one of the known phrases, wherever it stands, says that the video
/// cannot be had.
pub proof fn law_known_phrases_mean_unavailable(
    a: Seq<char>,
    b: Seq<char>,
    phrase: Seq<char>,
    stderr: Seq<char>,
)
    requires
        phrase == "private video"@ || phrase == "confirm your age"@ || phrase
            == "not available in your country"@ || phrase == "video unavailable"@ || phrase
            == "members-only"@ || phrase == "sign in to confirm your age"@,
    ensures
        class_of(a + phrase + b, stderr) == BotErrorView::Unavailable,
{
    law_occurrences(a + phrase + b, phrase);
}

/// Every other complaint is shown: its end, all of it where it is no longer than 300 characters.
pub proof fn law_other_complaints_are_shown(lowered: Seq<char>, stderr: Seq<char>)
    requires
        forall|a: Seq<char>, b: Seq<char>| lowered != #[trigger] (a + "private video"@ + b),
        forall|a: Seq<char>, b: Seq<char>| lowered != #[trigger] (a + "confirm your age"@ + b),
        forall|a: Seq<char>, b: Seq<char>|
            lowered != #[trigger] (a + "not available in your country"@ + b),
        forall|a: Seq<char>, b: Seq<char>| lowered != #[trigger] (a + "video unavailable"@ + b),
        forall|a: Seq<char>, b: Seq<char>| lowered != #[trigger] (a + "members-only"@ + b),
    ensures
        class_of(lowered, stderr) == BotErrorView::DownloadFailed(tail_text(stderr, 300)),
{
    law_occurrences(lowered, "private video"@);
    law_occurrences(lowered, "confirm your age"@);
    law_occurrences(lowered, "not available in your country"@);
    law_occurrences(lowered, "video unavailable"@);
    law_occurrences(lowered, "members-only"@);
    law_occurrences(lowered, "sign in to confirm your age"@);
    if exists|a: Seq<char>, b: Seq<char>|
        lowered == #[trigger] (a + "sign in to confirm your age"@ + b) {
        let (a, b) = choose|a: Seq<char>, b: Seq<char>|
            lowered == #[trigger] (a + "sign in to confirm your age"@ + b);
        reveal_strlit("sign in to confirm your age");
        reveal_strlit("confirm your age");
        let head = "sign in to confirm your age"@.take(11);
        assert("sign in to confirm your age"@ =~= head + "confirm your age"@);
        assert(lowered =~= (a + head) + "confirm your age"@ + b);
    }
}

/// A complaint in ASCII is read in small letters, as long as it was.
pub proof fn law_complaints_are_read_in_small_letters(s: Seq<char>, i: int)
    requires
        is_ascii_chars(s),
        0 <= i < s.len(),
    ensures
        lowercase(s).len() == s.len(),
        'A' <= s[i] <= 'Z' ==> lowercase(s)[i] as int == s[i] as int + 32,
        !('A' <= s[i] <= 'Z') ==> lowercase(s)[i] == s[i],
{
}

} // verus!
