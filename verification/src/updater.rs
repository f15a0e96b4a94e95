//! Keeping yt-dlp up to date.

use vstd::prelude::*;

use crate::config::at_least_one;
use crate::error::result_view;
use crate::outside::{from_utf8_lossy, lossy_text};
use crate::text::{trim, trimmed};

verus! {

/// How a run of yt-dlp came out.
pub enum RunOutcome {
    /// It could not be run, with the system's own words.
    NotRun(String),
    /// It ended by itself.
    Exited { success: bool, stdout: Vec<u8>, stderr: Vec<u8> },
}

/// What a self-update that ended by itself comes to, given its complaints.
pub open spec fn update_of(success: bool, complaints: Seq<char>) -> Result<(), Seq<char>> {
    if success {
        Ok(())
    } else {
        Err(trimmed(complaints))
    }
}

/// What asking for the version comes to, given what was printed.
pub open spec fn version_of(success: bool, printed: Seq<char>) -> Result<Seq<char>, Seq<char>> {
    if success {
        Ok(trimmed(printed))
    } else {
        Err("yt-dlp --version exited non-zero"@)
    }
}

/// The view of a self-update's result.
pub open spec fn update_view(r: Result<(), String>) -> Result<(), Seq<char>> {
    match r {
        Ok(()) => Ok(()),
        Err(m) => Err(m@),
    }
}

/// Whether a self-update went well, and what it complained of where it did not.
pub fn update_result(success: bool, complaints: &str) -> (r: Result<(), String>)
    ensures
        update_view(r) == update_of(success, complaints@),
{
    if success {
        Ok(())
    } else {
        Err(trim(complaints))
    }
}

/// The version string that was printed.
pub fn version_result(success: bool, printed: &str) -> (r: Result<String, String>)
    ensures
        result_view(r) == version_of(success, printed@),
{
    if success {
        Ok(trim(printed))
    } else {
        Err("yt-dlp --version exited non-zero".to_owned())
    }
}

/// What a run of `yt-dlp -U` comes to.
pub open spec fn update_outcome(outcome: RunOutcome) -> Result<(), Seq<char>> {
    match outcome {
        RunOutcome::NotRun(m) => Err(m@),
        RunOutcome::Exited { success, stdout, stderr } => update_of(success, lossy_text(stderr@)),
    }
}

/// What a run of `yt-dlp --version` comes to.
pub open spec fn version_outcome(outcome: RunOutcome) -> Result<Seq<char>, Seq<char>> {
    match outcome {
        RunOutcome::NotRun(m) => Err(m@),
        RunOutcome::Exited { success, stdout, stderr } => version_of(success, lossy_text(stdout@)),
    }
}

/// How many seconds pass between two self-updates.
pub open spec fn pause_secs(hours: nat) -> nat {
    at_least_one(hours) * 3600
}

/// Whether a run of `yt-dlp -U` went well, and what it complained of where it did not. After
/// a good one the version is asked for.
pub fn run_update(outcome: &RunOutcome) -> (r: Result<(), String>)
    ensures
        update_view(r) == update_outcome(*outcome),
        update_view(r) == match *outcome {
            RunOutcome::NotRun(m) => Err(m@),
            RunOutcome::Exited { success, stdout, stderr } => update_of(
                success,
                lossy_text(stderr@),
            ),
        },
{
    match outcome {
        RunOutcome::NotRun(m) => Err(m.clone()),
        RunOutcome::Exited { success, stdout, stderr } => update_result(
            *success,
            from_utf8_lossy(stderr.as_slice()).as_str(),
        ),
    }
}

/// The version string that a run of `yt-dlp --version` printed.
pub fn version(outcome: &RunOutcome) -> (r: Result<String, String>)
    ensures
        result_view(r) == version_outcome(*outcome),
        result_view(r) == match *outcome {
            RunOutcome::NotRun(m) => Err(m@),
            RunOutcome::Exited { success, stdout, stderr } => version_of(
                success,
                lossy_text(stdout@),
            ),
        },
{
    match outcome {
        RunOutcome::NotRun(m) => Err(m.clone()),
        RunOutcome::Exited { success, stdout, stderr } => version_result(
            *success,
            from_utf8_lossy(stdout.as_slice()).as_str(),
        ),
    }
}

/// How a self-update reads in the log.
pub open spec fn update_report(result: Result<Seq<char>, Seq<char>>) -> Seq<char> {
    match result {
        Ok(version) => "yt-dlp self-update ok; version: "@ + version,
        Err(e) => "yt-dlp self-update failed (continuing): "@ + e,
    }
}

/// The line that a self-update leaves in the log; a failed one is a warning and nothing more.
pub fn update_once(result: &Result<String, String>) -> (r: String)
    ensures
        r@ == update_report(result_view(*result)),
{
    match result {
        Ok(version) => "yt-dlp self-update ok; version: ".to_owned().concat(version.as_str()),
        Err(e) => "yt-dlp self-update failed (continuing): ".to_owned().concat(e.as_str()),
    }
}

/// How many seconds pass between two self-updates: the configured hours, but at least one.
pub fn spawn_periodic(interval_hours: u64) -> (secs: u64)
    requires
        at_least_one(interval_hours as nat) * 3600 <= u64::MAX,
    ensures
        secs == pause_secs(interval_hours as nat),
        secs == at_least_one(interval_hours as nat) * 3600,
{
    let hours: u64 = if interval_hours < 1 {
        1
    } else {
        interval_hours
    };
    hours * 3600
}

} // verus!
