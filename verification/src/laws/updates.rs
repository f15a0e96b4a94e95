//! What holds of keeping yt-dlp up to date.

use vstd::prelude::*;
use vstd::utf8::{decode_utf8, valid_utf8};

use crate::config::at_least_one;
use crate::outside::{lossy_text, patched_utf8};
use crate::text::trimmed;
use crate::updater::{
    pause_secs, update_of, update_outcome, update_report, version_of, version_outcome, RunOutcome,
};

verus! {

/// A self-update went well exactly when yt-dlp says so; else its complaints tell why, blanks
/// around them aside.
pub proof fn law_updates_are_judged_by_their_exit(complaints: Seq<char>)
    ensures
        update_of(true, complaints) is Ok,
        update_of(false, complaints) == Err::<(), Seq<char>>(trimmed(complaints)),
{
}

/// The version is what was printed, blanks around it aside, where yt-dlp could be asked.
pub proof fn law_versions_are_what_was_printed(printed: Seq<char>)
    ensures
        version_of(true, printed) == Ok::<Seq<char>, Seq<char>>(trimmed(printed)),
        version_of(false, printed) == Err::<Seq<char>, Seq<char>>(
            "yt-dlp --version exited non-zero"@,
        ),
{
}

/// A yt-dlp that could not be run is told in the system's words; of one that ran, an update is
/// told by its exit and its complaints, and a version by its exit and what it printed.
pub proof fn law_runs_are_told_by_their_outcome(
    m: String,
    success: bool,
    stdout: Vec<u8>,
    stderr: Vec<u8>,
)
    ensures
        update_outcome(RunOutcome::NotRun(m)) == Err::<(), Seq<char>>(m@),
        version_outcome(RunOutcome::NotRun(m)) == Err::<Seq<char>, Seq<char>>(m@),
        update_outcome(RunOutcome::Exited { success, stdout, stderr }) is Ok <==> success,
        !success ==> update_outcome(RunOutcome::Exited { success, stdout, stderr }) == Err::<
            (),
            Seq<char>,
        >(trimmed(lossy_text(stderr@))),
        version_outcome(RunOutcome::Exited { success, stdout, stderr }) is Ok <==> success,
        success ==> version_outcome(RunOutcome::Exited { success, stdout, stderr }) == Ok::<
            Seq<char>,
            Seq<char>,
        >(trimmed(lossy_text(stdout@))),
{
}

/// Bytes that are UTF-8 are read as such.
pub proof fn law_output_is_read_as_text(bytes: Seq<u8>)
    ensures
        valid_utf8(bytes) ==> lossy_text(bytes) == decode_utf8(bytes),
        !valid_utf8(bytes) ==> lossy_text(bytes) == patched_utf8(bytes),
{
}

/// The hours between two updates are the configured ones, but never none.
pub proof fn law_at_least_an_hour_passes(hours: nat)
    ensures
        hours >= 1 ==> at_least_one(hours) == hours,
        at_least_one(0) == 1,
        hours >= 1 ==> pause_secs(hours) == 3600 * hours,
        pause_secs(0) == 3600,
{
}

/// The log tells the version of a good update and the words of a failed one.
pub proof fn law_updates_are_logged(words: Seq<char>)
    ensures
        update_report(Ok(words)) == "yt-dlp self-update ok; version: "@ + words,
        update_report(Err(words)) == "yt-dlp self-update failed (continuing): "@ + words,
{
}

} // verus!
