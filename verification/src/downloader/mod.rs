//! Running yt-dlp and ffmpeg: their command lines, what they print, what they leave behind.

use vstd::prelude::*;

use crate::bot::menu::FormatChoice;
use crate::downloader::metadata::{class_of, classify_stderr};
use crate::downloader::progress::{
    parse_progress_line, progress_of, progress_view, ProgressState, ProgressView,
};
use crate::error::{BotError, BotErrorView};
use crate::outside::{is_v4_text, lowercase, new_uuid_v4};
use crate::text::{
    chars_of, ends, ends_with, i64_text, int_text, text_view, trim, trimmed, views,
};

pub mod json;
pub mod metadata;
pub mod progress;
pub mod remux;

pub use crate::downloader::metadata::{fetch as fetch_metadata, VideoMeta};

verus! {

// ---- the working directory -------------------------------------------------

/// A per-job temporary directory, removed with everything in it once the job is over.
pub struct WorkDir {
    pub path: String,
}

/// A name inside a directory.
pub open spec fn joined(base: Seq<char>, name: Seq<char>) -> Seq<char> {
    if base.len() == 0 || base.last() == '/' {
        base + name
    } else {
        base + "/"@ + name
    }
}

/// The name of a job's directory.
pub open spec fn job_name(chat: int, id: Seq<char>) -> Seq<char> {
    "job-"@ + int_text(chat) + "-"@ + id
}

/// The working directory of the job `id` of a chat.
pub fn work_dir_for(base: &str, chat: i64, id: &str) -> (r: WorkDir)
    ensures
        r.path@ == joined(base@, job_name(chat as int, id@)),
{
    let name = "job-".to_owned().concat(i64_text(chat).as_str()).concat("-").concat(id);
    let v = chars_of(base);
    let path = if v.len() == 0 || v[v.len() - 1] == '/' {
        base.to_owned().concat(name.as_str())
    } else {
        base.to_owned().concat("/").concat(name.as_str())
    };
    WorkDir { path }
}

/// An isolated working directory for one job: its name ends in a fresh random UUID.
pub fn make_work_dir(base: &str, chat: i64) -> (r: WorkDir)
    ensures
        exists|id: Seq<char>| #[trigger]
            is_v4_text(id) && r.path@ == joined(base@, job_name(chat as int, id)),
{
    let id = new_uuid_v4();
    work_dir_for(base, chat, id.as_str())
}

// ---- the command line ------------------------------------------------------

/// The arguments that every download starts with.
pub open spec fn common_args(work_dir: Seq<char>) -> Seq<Seq<char>> {
    seq![
        "--no-playlist"@,
        "--newline"@,
        "--no-color"@,
        "--no-warnings"@,
        "--restrict-filenames"@,
        "-o"@,
        work_dir + "/%(title).80B [%(id)s].%(ext)s"@,
        "--progress-template"@,
        "download:%(progress._percent_str)s|%(progress._speed_str)s|%(progress._eta_str)s"@,
        "--print"@,
        "after_move:filepath"@,
    ]
}

/// The arguments that ask for a format.
pub open spec fn format_args_of(choice: FormatChoice) -> Seq<Seq<char>> {
    match choice {
        FormatChoice::BestVideo => seq![
            "-S"@,
            "res,vcodec:h264,acodec:aac"@,
            "-f"@,
            "bv*+ba/b"@,
            "--merge-output-format"@,
            "mp4"@,
        ],
        FormatChoice::AudioMp3 => seq![
            "-x"@,
            "--audio-format"@,
            "mp3"@,
            "--audio-quality"@,
            "0"@,
        ],
    }
}

/// The whole command line of a download, the link last.
pub open spec fn download_args(
    url: Seq<char>,
    choice: FormatChoice,
    work_dir: Seq<char>,
) -> Seq<Seq<char>> {
    (common_args(work_dir) + format_args_of(choice)).push(url)
}

/// Appends one argument.
pub(crate) fn arg(args: &mut Vec<String>, a: &str)
    ensures
        views(final(args)@) == views(old(args)@).push(a@),
{
    args.push(a.to_owned());
    assert(views(args@) =~= views(old(args)@).push(a@));
}

/// Build the yt-dlp argument vector for a given choice and working directory.
pub fn build_args(url: &str, choice: FormatChoice, work_dir: &str) -> (args: Vec<String>)
    ensures
        views(args@) == download_args(url@, choice, work_dir@),
{
    let mut args: Vec<String> = Vec::new();
    arg(&mut args, "--no-playlist");
    arg(&mut args, "--newline");
    arg(&mut args, "--no-color");
    arg(&mut args, "--no-warnings");
    arg(&mut args, "--restrict-filenames");
    arg(&mut args, "-o");
    arg(&mut args, work_dir.to_owned().concat("/%(title).80B [%(id)s].%(ext)s").as_str());
    arg(&mut args, "--progress-template");
    arg(
        &mut args,
        "download:%(progress._percent_str)s|%(progress._speed_str)s|%(progress._eta_str)s",
    );
    arg(&mut args, "--print");
    arg(&mut args, "after_move:filepath");
    assert(views(args@) =~= common_args(work_dir@));
    match choice {
        FormatChoice::BestVideo => {
            // Prefer Telegram-playable codecs (H.264/AAC), then force an mp4 container.
            arg(&mut args, "-S");
            arg(&mut args, "res,vcodec:h264,acodec:aac");
            arg(&mut args, "-f");
            arg(&mut args, "bv*+ba/b");
            arg(&mut args, "--merge-output-format");
            arg(&mut args, "mp4");
        },
        FormatChoice::AudioMp3 => {
            arg(&mut args, "-x");
            arg(&mut args, "--audio-format");
            arg(&mut args, "mp3");
            arg(&mut args, "--audio-quality");
            arg(&mut args, "0");
        },
    }
    assert(views(args@) =~= common_args(work_dir@) + format_args_of(choice));
    arg(&mut args, url);
    args
}

// ---- following a download --------------------------------------------------

/// What is remembered of a running download.
pub struct DownloadWatch {
    /// The last path that yt-dlp printed.
    pub printed: Option<String>,
    /// What yt-dlp wrote to its standard error.
    pub complaints: String,
}

/// Something that happened to a running download.
pub enum DownloadEvent {
    /// yt-dlp could not be started, read from or waited for, with the system's own words.
    Failed(String),
    /// The user pressed Cancel.
    Cancelled,
    /// yt-dlp printed a line.
    Line(String),
    /// yt-dlp wrote a line to its standard error.
    Complaint(String),
    /// yt-dlp closed its output.
    OutputEnded,
    /// yt-dlp is gone.
    Exited { success: bool },
}

/// What to do about it.
pub enum DownloadStep {
    /// Go on reading.
    Read,
    /// Hand a snapshot on and go on reading.
    Report(ProgressState),
    /// Kill yt-dlp and give the job up.
    Kill(BotError),
    /// Give the job up.
    Fail(BotError),
    /// Wait for yt-dlp to exit.
    Wait,
    /// Look for the file, given the path that yt-dlp printed.
    Resolve(Option<String>),
}

/// A [`DownloadStep`] with its texts as sequences of characters.
pub enum DownloadStepView {
    Read,
    Report(ProgressView),
    Kill(BotErrorView),
    Fail(BotErrorView),
    Wait,
    Resolve(Option<Seq<char>>),
}

impl View for DownloadStep {
    type V = DownloadStepView;

    open spec fn view(&self) -> DownloadStepView {
        match self {
            DownloadStep::Read => DownloadStepView::Read,
            DownloadStep::Report(p) => DownloadStepView::Report(p@),
            DownloadStep::Kill(e) => DownloadStepView::Kill(e@),
            DownloadStep::Fail(e) => DownloadStepView::Fail(e@),
            DownloadStep::Wait => DownloadStepView::Wait,
            DownloadStep::Resolve(p) => DownloadStepView::Resolve(text_view(*p)),
        }
    }
}

/// Whether a text is an absolute path.
pub open spec fn is_absolute(s: Seq<char>) -> bool {
    s.len() > 0 && s[0] == '/'
}

/// The last printed path after a line: a line that is no progress line and is an absolute
/// path, blanks aside, replaces it.
pub open spec fn printed_after(printed: Option<Seq<char>>, line: Seq<char>) -> Option<Seq<char>> {
    if progress_of(line) is None && is_absolute(trimmed(line)) {
        Some(trimmed(line))
    } else {
        printed
    }
}

/// What to do about an event, given the last printed path and the complaints so far.
pub open spec fn download_step(
    printed: Option<Seq<char>>,
    complaints: Seq<char>,
    event: DownloadEvent,
) -> DownloadStepView {
    match event {
        DownloadEvent::Failed(m) => DownloadStepView::Fail(BotErrorView::Io(m@)),
        DownloadEvent::Cancelled => DownloadStepView::Kill(BotErrorView::Cancelled),
        DownloadEvent::Line(line) => match progress_of(line@) {
            Some(p) => DownloadStepView::Report(p),
            None => DownloadStepView::Read,
        },
        DownloadEvent::Complaint(_) => DownloadStepView::Read,
        DownloadEvent::OutputEnded => DownloadStepView::Wait,
        DownloadEvent::Exited { success } => if success {
            DownloadStepView::Resolve(printed)
        } else {
            DownloadStepView::Fail(class_of(lowercase(complaints), complaints))
        },
    }
}

/// The last printed path after an event.
pub open spec fn remembered_after(
    printed: Option<Seq<char>>,
    event: DownloadEvent,
) -> Option<Seq<char>> {
    match event {
        DownloadEvent::Line(line) => printed_after(printed, line@),
        _ => printed,
    }
}

/// The complaints after an event.
pub open spec fn complaints_after(complaints: Seq<char>, event: DownloadEvent) -> Seq<char> {
    match event {
        DownloadEvent::Complaint(line) => complaints + line@ + "\n"@,
        _ => complaints,
    }
}

impl DownloadWatch {
    /// A download of which nothing is known yet.
    pub fn new() -> (r: DownloadWatch)
        ensures
            r.printed is None,
            r.complaints@ == Seq::<char>::empty(),
    {
        DownloadWatch { printed: None, complaints: String::new() }
    }

    /// Takes a line of output: a snapshot where it is a progress line; else a path is kept.
    pub fn on_line(&mut self, line: &str) -> (r: Option<ProgressState>)
        ensures
            progress_view(r) == progress_of(line@),
            text_view(final(self).printed) == printed_after(text_view(old(self).printed), line@),
            final(self).complaints == old(self).complaints,
    {
        match parse_progress_line(line) {
            Some(p) => Some(p),
            None => {
                let t = trim(line);
                let v = chars_of(t.as_str());
                if v.len() > 0 && v[0] == '/' {
                    self.printed = Some(t);
                }
                None
            },
        }
    }
}

/// Follows a download: what to do about an event. The caller feeds in what yt-dlp prints and
/// does what it is told.
pub fn run_download(watch: &mut DownloadWatch, event: DownloadEvent) -> (r: DownloadStep)
    ensures
        r@ == download_step(
            text_view(old(watch).printed),
            old(watch).complaints@,
            event,
        ),
        event matches DownloadEvent::Exited { success } ==> (success ==> (
        r matches DownloadStep::Resolve(p) && text_view(p) == text_view(old(watch).printed))),
        text_view(final(watch).printed) == remembered_after(text_view(old(watch).printed), event),
        final(watch).complaints@ == complaints_after(old(watch).complaints@, event),
        text_view(final(watch).printed) == match event {
            DownloadEvent::Line(line) => printed_after(text_view(old(watch).printed), line@),
            _ => text_view(old(watch).printed),
        },
        final(watch).complaints@ == match event {
            DownloadEvent::Complaint(line) => old(watch).complaints@ + line@ + "\n"@,
            _ => old(watch).complaints@,
        },
{
    match event {
        DownloadEvent::Failed(m) => DownloadStep::Fail(BotError::Io(m)),
        DownloadEvent::Cancelled => DownloadStep::Kill(BotError::Cancelled),
        DownloadEvent::Line(line) => match watch.on_line(line.as_str()) {
            Some(p) => DownloadStep::Report(p),
            None => DownloadStep::Read,
        },
        DownloadEvent::Complaint(line) => {
            watch.complaints.append(line.as_str());
            watch.complaints.append("\n");
            DownloadStep::Read
        },
        DownloadEvent::OutputEnded => DownloadStep::Wait,
        DownloadEvent::Exited { success } => if success {
            DownloadStep::Resolve(watch.printed.clone())
        } else {
            DownloadStep::Fail(classify_stderr(watch.complaints.as_str()))
        },
    }
}

// ---- finding the file ------------------------------------------------------

/// One entry of the working directory.
pub struct FileEntry {
    /// Its name, where that is text.
    pub name: Option<String>,
    pub is_file: bool,
    /// Its size in bytes.
    pub len: u64,
}

/// Whether a file of this name is a leftover of a download and not its product.
pub open spec fn is_leftover(name: Seq<char>) -> bool {
    ||| ends(name, ".part"@)
    ||| ends(name, ".ytdl"@)
    ||| ends(name, ".json"@)
    ||| ends(name, ".webp"@)
    ||| ends(name, ".jpg"@)
}

/// Whether an entry can be the product of a download.
pub open spec fn is_candidate(e: FileEntry) -> bool {
    e.is_file && (e.name matches Some(n) ==> !is_leftover(n@))
}

/// Whether the `i`th entry is the largest candidate, the first of its size.
pub open spec fn is_largest(entries: Seq<FileEntry>, i: int) -> bool {
    &&& 0 <= i < entries.len()
    &&& is_candidate(entries[i])
    &&& forall|j: int|
        0 <= j < entries.len() && is_candidate(#[trigger] entries[j]) ==> if j < i {
            entries[j].len < entries[i].len
        } else {
            entries[j].len <= entries[i].len
        }
}

/// Where the product of a download is.
pub enum OutputFile {
    /// At the path that yt-dlp printed.
    Printed(String),
    /// The entry of this number in the working directory.
    Listed(usize),
}

/// Whether a result says where the product of a download is: at the path that yt-dlp printed
/// where that is `present`, else the largest candidate of the working directory.
pub open spec fn is_output(
    printed: Option<String>,
    present: bool,
    entries: Seq<FileEntry>,
    r: Result<OutputFile, BotError>,
) -> bool {
    match r {
        Ok(OutputFile::Printed(p)) => present && printed == Some(p),
        Ok(OutputFile::Listed(i)) => !(printed is Some && present) && is_largest(entries, i as int),
        Err(e) => !(printed is Some && present) && e is NoOutput && forall|j: int|
            0 <= j < entries.len() ==> !is_candidate(#[trigger] entries[j]),
    }
}

/// Whether an entry can be the product of a download.
fn candidate(e: &FileEntry) -> (r: bool)
    ensures
        r == is_candidate(*e),
{
    if !e.is_file {
        return false;
    }
    match &e.name {
        Some(n) => !(ends_with(n.as_str(), ".part") || ends_with(n.as_str(), ".ytdl") || ends_with(
            n.as_str(),
            ".json",
        ) || ends_with(n.as_str(), ".webp") || ends_with(n.as_str(), ".jpg")),
        None => true,
    }
}

/// The largest real media file among the entries.
pub fn largest_file(entries: &Vec<FileEntry>) -> (r: Option<usize>)
    ensures
        r matches Some(i) ==> is_largest(entries@, i as int),
        r is None ==> forall|j: int|
            0 <= j < entries@.len() ==> !is_candidate(#[trigger] entries@[j]),
{
    let mut best: Option<usize> = None;
    let mut i: usize = 0;
    while i < entries.len()
        invariant
            i <= entries@.len(),
            best matches Some(b) ==> b < i && is_largest(entries@.take(i as int), b as int),
            best is None ==> forall|j: int|
                0 <= j < i ==> !is_candidate(#[trigger] entries@[j]),
        decreases entries@.len() - i,
    {
        let ghost seen = entries@.take(i as int);
        let ghost more = entries@.take(i + 1);
        assert(forall|j: int| 0 <= j < i ==> more[j] == #[trigger] seen[j]);
        assert(forall|j: int| 0 <= j < i ==> seen[j] == #[trigger] more[j]);
        assert(more[i as int] == entries@[i as int]);
        if candidate(&entries[i]) {
            let better: bool = match best {
                Some(b) => entries[i].len > entries[b].len,
                None => true,
            };
            if better {
                best = Some(i);
            }
        }
        i = i + 1;
    }
    assert(entries@.take(i as int) == entries@);
    best
}

/// Determine the produced file: trust yt-dlp's printed path if it exists, else pick the
/// largest real media file in the (single-job) working directory.
pub fn resolve_output(printed: Option<String>, present: bool, entries: &Vec<FileEntry>) -> (r:
    Result<OutputFile, BotError>)
    ensures
        is_output(printed, present, entries@, r),
        printed is Some && present ==> r == Ok::<OutputFile, BotError>(
            OutputFile::Printed(printed->0),
        ),
        !(printed is Some && present) ==> match r {
            Ok(OutputFile::Listed(i)) => is_largest(entries@, i as int),
            Ok(OutputFile::Printed(_)) => false,
            Err(e) => e is NoOutput && forall|j: int|
                0 <= j < entries@.len() ==> !is_candidate(#[trigger] entries@[j]),
        },
{
    if present {
        if let Some(p) = printed {
            return Ok(OutputFile::Printed(p));
        }
    }
    match largest_file(entries) {
        Some(i) => Ok(OutputFile::Listed(i)),
        None => Err(BotError::NoOutput),
    }
}

} // verus!
