//! What holds of downloads: their command lines, their directories, their files, their errors.

use vstd::prelude::*;
use vstd::utf8::is_ascii_chars;

use crate::bot::menu::FormatChoice;
use crate::bot::wording::user_error_text;
use crate::downloader::metadata::{class_of, fetch_line};
use crate::downloader::progress::progress_of;
use crate::downloader::remux::{
    bare_path, dir_len, dot_len, file_after_remux, names_file, remux_line, stem_len, stream_path,
    with_extension,
};
use crate::downloader::{
    common_args, complaints_after, download_args, download_step, format_args_of, is_absolute,
    is_candidate, is_largest, is_leftover, is_output, job_name, joined, printed_after,
    remembered_after, DownloadEvent, DownloadStepView, FileEntry, OutputFile,
};
use crate::error::{BotError, BotErrorView};
use crate::laws::texts::law_endings;
use crate::laws::words::law_written_numbers_differ;
use crate::outside::{is_v4_text, lowercase};
use crate::text::{
    begins, ends, int_text, is_digit, lemma_nat_text, nat_text, same_but_case, trimmed,
};

verus! {

// ---- command lines ---------------------------------------------------------

/// The link is the last argument, and changes no other one.
pub proof fn law_link_comes_last(
    url: Seq<char>,
    other: Seq<char>,
    choice: FormatChoice,
    work_dir: Seq<char>,
)
    ensures
        download_args(url, choice, work_dir).last() == url,
        download_args(url, choice, work_dir).drop_last() == download_args(
            other,
            choice,
            work_dir,
        ).drop_last(),
        fetch_line(url).last() == url,
        fetch_line(url).drop_last() == fetch_line(other).drop_last(),
{
    let args = common_args(work_dir) + format_args_of(choice);
    assert(args.push(url).drop_last() =~= args);
    assert(args.push(other).drop_last() =~= args);
    assert(fetch_line(url).drop_last() =~= fetch_line(other).drop_last());
}

/// Whether the argument `value` follows the argument `option`.
pub open spec fn given(args: Seq<Seq<char>>, option: Seq<char>, value: Seq<char>) -> bool {
    exists|i: int| 0 <= i < args.len() - 1 && #[trigger] args[i] == option && args[i + 1] == value
}

/// Only one video is ever fetched, and yt-dlp writes into the working directory alone.
pub proof fn law_download_is_confined(url: Seq<char>, choice: FormatChoice, work_dir: Seq<char>)
    ensures
        download_args(url, choice, work_dir).contains("--no-playlist"@),
        given(
            download_args(url, choice, work_dir),
            "-o"@,
            work_dir + "/%(title).80B [%(id)s].%(ext)s"@,
        ),
        fetch_line(url).contains("--no-playlist"@),
{
    let args = download_args(url, choice, work_dir);
    assert(args[0] == "--no-playlist"@);
    assert(args[5] == "-o"@);
    assert(fetch_line(url)[1] == "--no-playlist"@);
}

/// A video is asked for in codecs that Telegram plays and in an mp4 container.
pub proof fn law_video_is_streamable(url: Seq<char>, work_dir: Seq<char>)
    ensures
        given(
            download_args(url, FormatChoice::BestVideo, work_dir),
            "-S"@,
            "res,vcodec:h264,acodec:aac"@,
        ),
        given(
            download_args(url, FormatChoice::BestVideo, work_dir),
            "--merge-output-format"@,
            "mp4"@,
        ),
{
    let args = download_args(url, FormatChoice::BestVideo, work_dir);
    assert(args[11] == "-S"@);
    assert(args[15] == "--merge-output-format"@);
}

/// Audio is extracted as MP3 in the best quality.
pub proof fn law_audio_is_mp3(url: Seq<char>, work_dir: Seq<char>)
    ensures
        download_args(url, FormatChoice::AudioMp3, work_dir).contains("-x"@),
        given(
            download_args(url, FormatChoice::AudioMp3, work_dir),
            "--audio-format"@,
            "mp3"@,
        ),
        given(download_args(url, FormatChoice::AudioMp3, work_dir), "--audio-quality"@, "0"@),
{
    let args = download_args(url, FormatChoice::AudioMp3, work_dir);
    assert(args[11] == "-x"@);
    assert(args[12] == "--audio-format"@);
    assert(args[14] == "--audio-quality"@);
}

/// The working directory shows in one argument alone: where yt-dlp is told to put the file.
pub proof fn law_work_dir_is_told_once(
    url: Seq<char>,
    choice: FormatChoice,
    dir: Seq<char>,
    other: Seq<char>,
    i: int,
)
    ensures
        download_args(url, choice, dir).len() == download_args(url, choice, other).len(),
        download_args(url, choice, dir)[5] == "-o"@,
        download_args(url, choice, dir)[6] == dir + "/%(title).80B [%(id)s].%(ext)s"@,
        0 <= i < download_args(url, choice, dir).len() && i != 6 ==> download_args(
            url,
            choice,
            dir,
        )[i] == download_args(url, choice, other)[i],
{
    assert(common_args(dir) =~= common_args(other).update(6, common_args(dir)[6]));
}

/// The two formats differ in what they ask for and in nothing else.
pub proof fn law_formats_share_the_rest(url: Seq<char>, dir: Seq<char>)
    ensures
        ({
            let video = download_args(url, FormatChoice::BestVideo, dir);
            let audio = download_args(url, FormatChoice::AudioMp3, dir);
            &&& video.take(11) == audio.take(11)
            &&& video.skip(11) == seq![
                "-S"@,
                "res,vcodec:h264,acodec:aac"@,
                "-f"@,
                "bv*+ba/b"@,
                "--merge-output-format"@,
                "mp4"@,
                url,
            ]
            &&& audio.skip(11) == seq![
                "-x"@,
                "--audio-format"@,
                "mp3"@,
                "--audio-quality"@,
                "0"@,
                url,
            ]
        }),
{
    let video = download_args(url, FormatChoice::BestVideo, dir);
    let audio = download_args(url, FormatChoice::AudioMp3, dir);
    assert(video.take(11) =~= common_args(dir));
    assert(audio.take(11) =~= common_args(dir));
    assert(video.skip(11) =~= format_args_of(FormatChoice::BestVideo).push(url));
    assert(audio.skip(11) =~= format_args_of(FormatChoice::AudioMp3).push(url));
}

/// ffmpeg copies the streams of its input into the streamable file, the index first.
pub proof fn law_ffmpeg_copies_its_input(input: Seq<char>)
    ensures
        remux_line(input) == seq![
            "-y"@,
            "-i"@,
            input,
            "-c"@,
            "copy"@,
            "-movflags"@,
            "+faststart"@,
            stream_path(input),
        ],
{
}

// ---- working directories ---------------------------------------------------

/// Jobs of different chats, and jobs with different identifiers, never share a directory.
pub proof fn law_work_dirs_differ(
    base: Seq<char>,
    chat1: int,
    id1: Seq<char>,
    chat2: int,
    id2: Seq<char>,
)
    requires
        is_v4_text(id1),
        is_v4_text(id2),
        joined(base, job_name(chat1, id1)) == joined(base, job_name(chat2, id2)),
    ensures
        chat1 == chat2,
        id1 == id2,
{
    reveal_strlit("job-");
    reveal_strlit("-");
    reveal_strlit("/");
    let (n1, n2) = (job_name(chat1, id1), job_name(chat2, id2));
    let whole = joined(base, n1);
    let cut: int = if base.len() == 0 || base.last() == '/' {
        base.len() as int
    } else {
        base.len() as int + 1
    };
    assert(n1 =~= whole.skip(cut));
    assert(n2 =~= whole.skip(cut));
    let (c1, c2) = (int_text(chat1), int_text(chat2));
    let n = n1.len() as int;
    assert(c1 =~= n1.subrange(4, n - 37));
    assert(c2 =~= n2.subrange(4, n - 37));
    assert(id1 =~= n1.skip(n - 36));
    assert(id2 =~= n2.skip(n - 36));
    law_written_numbers_differ(chat1, chat2);
}

/// A job's directory is called after its chat and its identifier, and a slash is put between it
/// and the download directory where none is there.
pub proof fn law_work_dirs_are_named(base: Seq<char>, chat: int, id: Seq<char>)
    ensures
        job_name(chat, id) == "job-"@ + int_text(chat) + "-"@ + id,
        joined(base + "/"@, job_name(chat, id)) == base + "/"@ + job_name(chat, id),
        joined(Seq::empty(), job_name(chat, id)) == job_name(chat, id),
        base.len() > 0 && base.last() != '/' ==> joined(base, job_name(chat, id)) == base + "/"@
            + job_name(chat, id),
{
    reveal_strlit("/");
    assert((base + "/"@).last() == '/');
    assert(Seq::<char>::empty() + job_name(chat, id) =~= job_name(chat, id));
}

/// A job's directory stands directly inside the download directory.
pub proof fn law_work_dir_is_inside(base: Seq<char>, chat: int, id: Seq<char>)
    requires
        is_v4_text(id),
    ensures
        begins(joined(base, job_name(chat, id)), base),
        forall|i: int|
            0 <= i < job_name(chat, id).len() ==> #[trigger] job_name(chat, id)[i] != '/',
{
    reveal_strlit("job-");
    reveal_strlit("-");
    let path = joined(base, job_name(chat, id));
    assert(path.subrange(0, base.len() as int) =~= base);
    let name = job_name(chat, id);
    let c = int_text(chat);
    let size: nat = if chat < 0 {
        (-chat) as nat
    } else {
        chat as nat
    };
    lemma_nat_text(size);
    assert forall|i: int| 0 <= i < name.len() implies #[trigger] name[i] != '/' by {
        if 4 <= i < 4 + c.len() {
            assert(name[i] == c[i - 4]);
            if chat >= 0 {
                assert(is_digit(nat_text(size)[i - 4]));
            } else if i > 4 {
                assert(is_digit(nat_text(size)[i - 5]));
            }
        } else if i > 4 + c.len() {
            let k = i - 5 - c.len();
            assert(name[i] == id[k]);
        }
    }
}

// ---- following a download --------------------------------------------------

/// The path that is remembered after a row of printed lines.
pub open spec fn printed_by(lines: Seq<Seq<char>>) -> Option<Seq<char>>
    decreases lines.len(),
{
    if lines.len() == 0 {
        None
    } else {
        printed_after(printed_by(lines.drop_last()), lines.last())
    }
}

/// Whether a printed line is taken for the path of the file.
pub open spec fn is_path_line(line: Seq<char>) -> bool {
    progress_of(line) is None && is_absolute(trimmed(line))
}

/// The last path that yt-dlp prints is the one that counts, whatever else it prints.
pub proof fn law_last_printed_path_counts(lines: Seq<Seq<char>>, k: int)
    requires
        0 <= k < lines.len(),
        is_path_line(lines[k]),
        forall|j: int| k < j < lines.len() ==> !is_path_line(#[trigger] lines[j]),
    ensures
        printed_by(lines) == Some(trimmed(lines[k])),
    decreases lines.len(),
{
    if k < lines.len() - 1 {
        assert(!is_path_line(lines[lines.len() - 1]));
        assert forall|j: int| k < j < lines.drop_last().len() implies !is_path_line(
            #[trigger] lines.drop_last()[j],
        ) by {
            assert(!is_path_line(lines[j]));
        }
        law_last_printed_path_counts(lines.drop_last(), k);
    }
}

/// Where yt-dlp prints no path, none is remembered.
pub proof fn law_no_path_is_made_up(lines: Seq<Seq<char>>)
    requires
        forall|j: int| 0 <= j < lines.len() ==> !is_path_line(#[trigger] lines[j]),
    ensures
        printed_by(lines) is None,
    decreases lines.len(),
{
    if lines.len() > 0 {
        assert(!is_path_line(lines[lines.len() - 1]));
        assert forall|j: int| 0 <= j < lines.drop_last().len() implies !is_path_line(
            #[trigger] lines.drop_last()[j],
        ) by {
            assert(!is_path_line(lines[j]));
        }
        law_no_path_is_made_up(lines.drop_last());
    }
}

/// A good exit always leads to the file: whatever path was printed and whatever yt-dlp
/// complained of on the way.
pub proof fn law_good_exit_leads_to_the_file(printed: Option<Seq<char>>, complaints: Seq<char>)
    ensures
        download_step(printed, complaints, DownloadEvent::Exited { success: true })
            == DownloadStepView::Resolve(printed),
{
}

/// A bad exit is told by the complaints alone, and never by what was printed.
pub proof fn law_bad_exit_is_told_by_the_complaints(
    printed: Option<Seq<char>>,
    other: Option<Seq<char>>,
    complaints: Seq<char>,
)
    ensures
        download_step(printed, complaints, DownloadEvent::Exited { success: false })
            == DownloadStepView::Fail(class_of(lowercase(complaints), complaints)),
        download_step(printed, complaints, DownloadEvent::Exited { success: false })
            == download_step(other, complaints, DownloadEvent::Exited { success: false }),
{
}

/// While yt-dlp runs, a progress line is handed on, every other line and every complaint is
/// read over, the end of the output is followed by waiting, and what breaks is an error in the
/// system's words. None of this depends on what came before.
pub proof fn law_running_downloads_are_read(
    printed: Option<Seq<char>>,
    complaints: Seq<char>,
    line: String,
)
    ensures
        download_step(printed, complaints, DownloadEvent::Line(line)) == (match progress_of(
            line@,
        ) {
            Some(p) => DownloadStepView::Report(p),
            None => DownloadStepView::Read,
        }),
        download_step(printed, complaints, DownloadEvent::Complaint(line))
            == DownloadStepView::Read,
        download_step(printed, complaints, DownloadEvent::OutputEnded) == DownloadStepView::Wait,
        download_step(printed, complaints, DownloadEvent::Failed(line)) == DownloadStepView::Fail(
            BotErrorView::Io(line@),
        ),
{
}

/// A line that is no progress line and is an absolute path, blanks aside, is remembered as the
/// path of the file; every other line leaves what is remembered as it is.
pub proof fn law_printed_paths_are_remembered(
    printed: Option<Seq<char>>,
    line: Seq<char>,
    rest: Seq<char>,
)
    ensures
        progress_of(line) is None && trimmed(line) == seq!['/'] + rest ==> printed_after(
            printed,
            line,
        ) == Some(seq!['/'] + rest),
        progress_of(line) is Some ==> printed_after(printed, line) == printed,
        trimmed(line).len() == 0 || trimmed(line)[0] != '/' ==> printed_after(printed, line)
            == printed,
{
}

/// Each complaint is kept in full on a line of its own behind the ones before it; each printed
/// line is held for a path; and nothing else changes what is remembered.
pub proof fn law_what_is_remembered_of_a_download(
    printed: Option<Seq<char>>,
    complaints: Seq<char>,
    line: String,
    event: DownloadEvent,
)
    ensures
        complaints_after(complaints, DownloadEvent::Complaint(line)) == complaints + line@ + "\n"@,
        !(event is Complaint) ==> complaints_after(complaints, event) == complaints,
        remembered_after(printed, DownloadEvent::Line(line)) == printed_after(printed, line@),
        !(event is Line) ==> remembered_after(printed, event) == printed,
{
}

/// Whatever was printed so far, Cancel kills yt-dlp and ends the job as cancelled, and a bad
/// exit never leads to a file.
pub proof fn law_cancel_and_failure_yield_no_file(
    printed: Option<Seq<char>>,
    complaints: Seq<char>,
)
    ensures
        download_step(printed, complaints, DownloadEvent::Cancelled) == DownloadStepView::Kill(
            BotErrorView::Cancelled,
        ),
        download_step(printed, complaints, DownloadEvent::Exited { success: false }) is Fail,
{
}

// ---- files -----------------------------------------------------------------

/// There is at most one file to go on with.
pub proof fn law_largest_file_is_unique(entries: Seq<FileEntry>, i: int, j: int)
    requires
        is_largest(entries, i),
        is_largest(entries, j),
    ensures
        i == j,
{
    assert(is_candidate(entries[i]) && is_candidate(entries[j]));
}

/// Partial downloads, thumbnails and notes of yt-dlp are never taken for the product.
pub proof fn law_leftovers_are_never_sent(entries: Seq<FileEntry>, i: int)
    requires
        is_largest(entries, i),
    ensures
        entries[i].is_file,
        entries[i].name matches Some(name) ==> !is_leftover(name@),
{
}

/// A file is a leftover exactly when its name ends in one of five ways.
pub proof fn law_leftovers_are_told_by_their_ends(name: Seq<char>, stem: Seq<char>)
    ensures
        is_leftover(stem + ".part"@),
        is_leftover(stem + ".ytdl"@),
        is_leftover(stem + ".json"@),
        is_leftover(stem + ".webp"@),
        is_leftover(stem + ".jpg"@),
        is_leftover(name) ==> exists|head: Seq<char>|
            name == #[trigger] (head + ".part"@) || name == (head + ".ytdl"@) || name == (head
                + ".json"@) || name == (head + ".webp"@) || name == (head + ".jpg"@),
{
    law_endings(stem + ".part"@, ".part"@);
    law_endings(stem + ".ytdl"@, ".ytdl"@);
    law_endings(stem + ".json"@, ".json"@);
    law_endings(stem + ".webp"@, ".webp"@);
    law_endings(stem + ".jpg"@, ".jpg"@);
    law_endings(name, ".part"@);
    law_endings(name, ".ytdl"@);
    law_endings(name, ".json"@);
    law_endings(name, ".webp"@);
    law_endings(name, ".jpg"@);
    if is_leftover(name) {
        let p = if ends(name, ".part"@) {
            ".part"@
        } else if ends(name, ".ytdl"@) {
            ".ytdl"@
        } else if ends(name, ".json"@) {
            ".json"@
        } else if ends(name, ".webp"@) {
            ".webp"@
        } else {
            ".jpg"@
        };
        let head = choose|head: Seq<char>| name == #[trigger] (head + p);
        let seen = head + ".part"@;
        assert(name == seen || name == (head + ".ytdl"@) || name == (head + ".json"@) || name == (
        head + ".webp"@) || name == (head + ".jpg"@));
    }
}

/// Whether an entry is a file that is no leftover; a file whose name is no text is none.
pub open spec fn is_product(e: FileEntry) -> bool {
    e.is_file && match e.name {
        Some(name) => !is_leftover(name@),
        None => true,
    }
}

/// The file that is taken is a product, no product is larger, and of equal ones it comes first;
/// and every such file is the one that is taken.
pub proof fn law_largest_product_is_taken(entries: Seq<FileEntry>, i: int)
    requires
        0 <= i < entries.len(),
    ensures
        is_largest(entries, i) <==> is_product(entries[i]) && forall|j: int|
            0 <= j < entries.len() && is_product(#[trigger] entries[j]) ==> {
                &&& entries[j].len <= entries[i].len
                &&& j < i ==> entries[j].len != entries[i].len
            },
        is_candidate(entries[i]) <==> is_product(entries[i]),
{
    assert forall|j: int| 0 <= j < entries.len() implies is_candidate(#[trigger] entries[j])
        == is_product(entries[j]) by {}
    if is_largest(entries, i) {
        assert forall|j: int|
            0 <= j < entries.len() && is_product(#[trigger] entries[j]) implies {
            &&& entries[j].len <= entries[i].len
            &&& j < i ==> entries[j].len != entries[i].len
        } by {
            assert(is_candidate(entries[j]));
        }
    }
}

/// A path that yt-dlp printed and that is there is the product, whatever else lies around; else
/// it is a product of the working directory, and only where there is none is there no output.
pub proof fn law_output_is_found(
    printed: Option<String>,
    present: bool,
    entries: Seq<FileEntry>,
    r: Result<OutputFile, BotError>,
)
    requires
        is_output(printed, present, entries, r),
    ensures
        printed is Some && present ==> r == Ok::<OutputFile, BotError>(
            OutputFile::Printed(printed->0),
        ),
        !(printed is Some && present) && (exists|j: int|
            0 <= j < entries.len() && is_product(#[trigger] entries[j])) ==> (r matches Ok(
            OutputFile::Listed(i),
        ) && i < entries.len() && is_product(entries[i as int]) && forall|j: int|
            0 <= j < entries.len() && is_product(#[trigger] entries[j]) ==> entries[j].len
                <= entries[i as int].len),
        !(printed is Some && present) && (forall|j: int|
            0 <= j < entries.len() ==> !is_product(#[trigger] entries[j])) ==> (r matches Err(e)
            && e is NoOutput),
{
    if !(printed is Some && present) {
        if exists|j: int| 0 <= j < entries.len() && is_product(#[trigger] entries[j]) {
            let j = choose|j: int| 0 <= j < entries.len() && is_product(#[trigger] entries[j]);
            assert(is_candidate(entries[j]));
            if let Ok(OutputFile::Listed(i)) = r {
                law_largest_product_is_taken(entries, i as int);
            }
        } else if let Ok(OutputFile::Listed(i)) = r {
            law_largest_product_is_taken(entries, i as int);
            assert(!is_product(entries[i as int]));
        }
    }
}

/// Where there is a product, one is taken.
pub proof fn law_some_product_is_taken(entries: Seq<FileEntry>, k: int)
    requires
        0 <= k < entries.len(),
        is_product(entries[k]),
    ensures
        exists|i: int| is_largest(entries, i),
    decreases entries.len(),
{
    let n = entries.len() - 1;
    let before = entries.drop_last();
    if exists|j: int| 0 <= j < n && is_product(#[trigger] entries[j]) {
        let j = choose|j: int| 0 <= j < n && is_product(#[trigger] entries[j]);
        assert(before[j] == entries[j]);
        law_some_product_is_taken(before, j);
        let b = choose|i: int| is_largest(before, i);
        assert(forall|j: int| 0 <= j < n ==> before[j] == #[trigger] entries[j]);
        if is_candidate(entries[n]) && entries[n].len > entries[b].len {
            assert(is_largest(entries, n));
        } else {
            assert(is_largest(entries, b));
        }
    } else {
        assert(is_largest(entries, k));
    }
}

/// Replacing the extension of a file keeps its directory and its name up to the last point.
pub proof fn law_extension_is_replaced(
    dir: Seq<char>,
    stem: Seq<char>,
    ext: Seq<char>,
    new: Seq<char>,
)
    requires
        dir.len() == 0 || dir.last() == '/',
        stem.len() > 0,
        stem != seq!['.'] || ext.len() > 0,
        plain_name(stem),
        plain_name(ext),
        forall|i: int| 0 <= i < ext.len() ==> #[trigger] ext[i] != '.',
    ensures
        with_extension(dir + (stem + seq!['.'] + ext), new) == dir + stem + seq!['.'] + new,
{
    let name = stem + seq!['.'] + ext;
    let p = dir + name;
    lemma_dotted_name(stem, ext);
    lemma_plain_file(dir, name);
    lemma_dot_at(name, stem.len() as int);
    assert(p.take((dir.len() + stem.len()) as int) =~= dir + stem);
    assert("."@ =~= seq!['.']) by {
        reveal_strlit(".");
    }
}

/// A name with a point in it names a file.
proof fn lemma_dotted_name(stem: Seq<char>, ext: Seq<char>)
    requires
        stem.len() > 0,
        stem != seq!['.'] || ext.len() > 0,
        plain_name(stem),
        plain_name(ext),
    ensures
        plain_name(stem + seq!['.'] + ext),
        names_file(stem + seq!['.'] + ext),
{
    reveal_strlit(".");
    reveal_strlit("..");
    let name = stem + seq!['.'] + ext;
    assert forall|i: int| 0 <= i < name.len() implies #[trigger] name[i] != '/' by {
        if i < stem.len() {
            assert(stem[i] != '/');
        } else if i > stem.len() {
            assert(ext[i - stem.len() - 1] != '/');
        }
    }
    assert("."@.len() == 1 && ".."@.len() == 2);
    assert(name.len() == stem.len() + 1 + ext.len());
    assert(name != "."@);
    assert(name != ".."@) by {
        if name == ".."@ {
            assert(stem.len() == 1);
            assert(stem[0] == name[0]);
            assert(".."@[0] == '.');
            assert(stem =~= seq!['.']);
        }
    }
}

/// A file without an extension gets the new one behind its name; a point in front of a name
/// begins no extension.
pub proof fn law_extension_is_added(dir: Seq<char>, name: Seq<char>, new: Seq<char>)
    requires
        dir.len() == 0 || dir.last() == '/',
        plain_name(name),
        name.len() > 0,
        name != seq!['.'],
        forall|i: int| 0 < i < name.len() ==> #[trigger] name[i] != '.',
    ensures
        with_extension(dir + name, new) == dir + name + seq!['.'] + new,
{
    reveal_strlit(".");
    reveal_strlit("..");
    assert("."@ =~= seq!['.']);
    if name == ".."@ {
        assert(name[1] == '.');
    }
    lemma_plain_file(dir, name);
    lemma_no_later_dot(name);
    assert((dir + name).take((dir.len() + name.len()) as int) =~= dir + name);
}

/// The streamable copy of a file stands beside it, under its name with another extension.
pub proof fn law_streamable_copy_stands_beside(dir: Seq<char>, stem: Seq<char>, ext: Seq<char>)
    requires
        dir.len() == 0 || dir.last() == '/',
        stem.len() > 0,
        stem != seq!['.'] || ext.len() > 0,
        plain_name(stem),
        plain_name(ext),
        forall|i: int| 0 <= i < ext.len() ==> #[trigger] ext[i] != '.',
    ensures
        stream_path(dir + (stem + seq!['.'] + ext)) == dir + stem + ".stream.mp4"@,
{
    law_extension_is_replaced(dir, stem, ext, "stream.mp4"@);
    reveal_strlit("stream.mp4");
    reveal_strlit(".stream.mp4");
    assert(dir + stem + seq!['.'] + "stream.mp4"@ =~= dir + stem + ".stream.mp4"@);
}

/// Whether a text holds no slash.
pub open spec fn plain_name(s: Seq<char>) -> bool {
    forall|i: int| 0 <= i < s.len() ==> #[trigger] s[i] != '/'
}

/// A path that ends in a file's name is bare, and its directory is what comes before the name.
proof fn lemma_plain_file(dir: Seq<char>, name: Seq<char>)
    requires
        dir.len() == 0 || dir.last() == '/',
        plain_name(name),
        names_file(name),
    ensures
        bare_path(dir + name) == dir + name,
        dir_len(dir + name) == dir.len(),
        (dir + name).skip(dir.len() as int) == name,
{
    reveal_strlit(".");
    let p = dir + name;
    assert(name[name.len() - 1] != '/');
    assert(p.last() == name.last());
    if p.len() > 1 && p.last() == '.' && p[p.len() - 2] == '/' {
        if name.len() > 1 {
            assert(name[name.len() - 2] == p[p.len() - 2]);
        } else {
            assert(name =~= "."@);
        }
    }
    lemma_dir_before(dir, name);
    assert(p.skip(dir.len() as int) =~= name);
}

/// The directory of a path is what comes before a text without slashes.
proof fn lemma_dir_before(dir: Seq<char>, name: Seq<char>)
    requires
        dir.len() == 0 || dir.last() == '/',
        plain_name(name),
    ensures
        dir_len(dir + name) == dir.len(),
    decreases name.len(),
{
    if name.len() > 0 {
        assert(name[name.len() - 1] != '/');
        assert((dir + name).drop_last() =~= dir + name.drop_last());
        assert forall|i: int| 0 <= i < name.drop_last().len() implies #[trigger] name.drop_last()[i]
            != '/' by {
            assert(name[i] != '/');
        }
        lemma_dir_before(dir, name.drop_last());
    } else {
        assert(dir + name =~= dir);
    }
}

/// The last point of a name is where no point follows.
proof fn lemma_dot_at(name: Seq<char>, k: int)
    requires
        0 <= k < name.len(),
        name[k] == '.',
        forall|i: int| k < i < name.len() ==> #[trigger] name[i] != '.',
    ensures
        dot_len(name) == Some(k as nat),
    decreases name.len(),
{
    if k < name.len() - 1 {
        assert(name[name.len() - 1] != '.');
        lemma_dot_at(name.drop_last(), k);
    }
}

/// A name without a point but perhaps one in front is all stem.
proof fn lemma_no_later_dot(name: Seq<char>)
    requires
        name.len() > 0,
        forall|i: int| 0 < i < name.len() ==> #[trigger] name[i] != '.',
    ensures
        dot_len(name) == (if name[0] == '.' {
            Some(0nat)
        } else {
            None
        }),
    decreases name.len(),
{
    if name.len() == 1 {
        assert(name.drop_last().len() == 0);
        assert(dot_len(name.drop_last()) is None);
    } else {
        assert(name[name.len() - 1] != '.');
        assert forall|i: int| 0 < i < name.drop_last().len() implies #[trigger] name.drop_last()[i]
            != '.' by {
            assert(name[i] != '.');
        }
        lemma_no_later_dot(name.drop_last());
    }
}

/// The streamable copy is sent where ffmpeg made one; whatever went wrong, the file itself is.
pub proof fn law_remux_falls_back(input: Seq<char>, succeeded: bool, present: bool)
    ensures
        file_after_remux(input, true, true) == stream_path(input),
        !(succeeded && present) ==> file_after_remux(input, succeeded, present) == input,
{
}

/// Slashes behind a file's path do not count, nor does a point behind them.
pub proof fn law_trailing_slashes_do_not_count(dir: Seq<char>, name: Seq<char>, new: Seq<char>)
    requires
        dir.len() == 0 || dir.last() == '/',
        plain_name(name),
        names_file(name),
    ensures
        with_extension((dir + name).push('/'), new) == with_extension(dir + name, new),
        with_extension((dir + name).push('/').push('/'), new) == with_extension(dir + name, new),
        with_extension((dir + name).push('/').push('.'), new) == with_extension(dir + name, new),
{
    let p = dir + name;
    lemma_plain_file(dir, name);
    lemma_bare_slash(p);
    lemma_bare_slash(p.push('/'));
}

/// A slash at the end of a path goes, and so does a point behind it.
proof fn lemma_bare_slash(p: Seq<char>)
    ensures
        bare_path(p.push('/')) == bare_path(p),
        bare_path(p.push('/').push('.')) == bare_path(p),
{
    assert(p.push('/').drop_last() =~= p);
    assert(p.push('/').push('.').drop_last() =~= p.push('/'));
    assert(p.push('/').push('.')[p.len() as int] == '/');
}

/// A path that names no file stays as it is: an empty one, the root, and one that ends in the
/// name of the directory above.
pub proof fn law_nameless_paths_stay(dir: Seq<char>, new: Seq<char>)
    requires
        dir.len() == 0 || dir.last() == '/',
    ensures
        with_extension(Seq::empty(), new) == Seq::<char>::empty(),
        with_extension(seq!['/'], new) == seq!['/'],
        with_extension(seq!['.'], new) == seq!['.'],
        with_extension(dir + ".."@, new) == dir + ".."@,
{
    reveal_strlit(".");
    reveal_strlit("..");
    let none = Seq::<char>::empty();
    assert(none.skip(0) =~= none);
    assert(bare_path(none) == none);
    assert(seq!['/'] =~= none.push('/'));
    lemma_bare_slash(none);
    assert(bare_path(seq!['.']) == seq!['.']);
    assert("."@ =~= seq!['.']);
    lemma_dir_before(none, "."@);
    assert(none + "."@ =~= seq!['.']);
    assert(seq!['.'].skip(0) =~= "."@);
    let up = dir + ".."@;
    assert(up.last() == '.' && up[up.len() - 2] == '.');
    assert(plain_name(".."@));
    lemma_dir_before(dir, ".."@);
    assert(up.skip(dir.len() as int) =~= ".."@);
}

/// The streamable copy never overwrites the file that it is made of.
pub proof fn law_remux_spares_its_input(path: Seq<char>)
    requires
        names_file(bare_path(path).skip(dir_len(bare_path(path)) as int)),
    ensures
        stream_path(path) != path,
{
    reveal_strlit(".");
    reveal_strlit("stream.mp4");
    let b = bare_path(path);
    let name = b.skip(dir_len(b) as int);
    let stem = b.take((dir_len(b) + stem_len(name)) as int);
    let out = stream_path(path);
    lemma_dir_len(b);
    lemma_dot_len(name);
    assert(out =~= stem + "."@ + "stream.mp4"@);
    assert(out.last() == '4');
    if out == path {
        assert(bare_path(path) == path);
        let n = name.len() as int;
        assert(b.len() == stem.len() + 11);
        assert(b.len() == dir_len(b) + n);
        assert(stem_len(name) == n - 11);
        assert(b[b.len() - 4] == '.');
        assert(name[n - 4] == b[b.len() - 4]);
        assert(name[n - 3] == b[b.len() - 3]);
        assert(name[n - 2] == b[b.len() - 2]);
        assert(name[n - 1] == b[b.len() - 1]);
        lemma_last_dot(name, n - 4);
    }
}

/// A directory is no longer than the path.
proof fn lemma_dir_len(p: Seq<char>)
    ensures
        dir_len(p) <= p.len(),
    decreases p.len(),
{
    if p.len() > 0 && p.last() != '/' {
        lemma_dir_len(p.drop_last());
    }
}

/// The last point is inside the name.
proof fn lemma_dot_len(name: Seq<char>)
    ensures
        dot_len(name) matches Some(k) ==> k < name.len(),
    decreases name.len(),
{
    if name.len() > 0 && name.last() != '.' {
        lemma_dot_len(name.drop_last());
    }
}

/// The last point is no earlier than any point.
proof fn lemma_last_dot(name: Seq<char>, i: int)
    requires
        0 <= i < name.len(),
        name[i] == '.',
    ensures
        dot_len(name) matches Some(k) && k >= i,
    decreases name.len(),
{
    if name.last() != '.' {
        lemma_last_dot(name.drop_last(), i);
    }
}

// ---- errors ----------------------------------------------------------------

/// Whether a complaint in ASCII says that the video cannot be had does not depend on the case of
/// its letters.
pub proof fn law_complaints_are_read_in_any_case(a: Seq<char>, b: Seq<char>)
    requires
        is_ascii_chars(a),
        is_ascii_chars(b),
        same_but_case(a, b),
    ensures
        class_of(lowercase(a), a) is Unavailable <==> class_of(lowercase(b), b) is Unavailable,
{
}

/// Whatever yt-dlp complains of, the job ends in one of two errors.
pub proof fn law_complaints_come_to_two_errors(complaints: Seq<char>)
    ensures
        ({
            let e = class_of(lowercase(complaints), complaints);
            e is Unavailable || e is DownloadFailed
        }),
{
}

/// Details of local failures, of Telegram's refusals and of unreadable descriptions are not
/// shown in the chat.
pub proof fn law_internal_details_are_not_shown(a: Seq<char>, b: Seq<char>)
    ensures
        user_error_text(BotErrorView::Io(a)) == user_error_text(BotErrorView::Io(b)),
        user_error_text(BotErrorView::Telegram(a)) == user_error_text(BotErrorView::Telegram(b)),
        user_error_text(BotErrorView::Metadata(a)) == user_error_text(BotErrorView::Metadata(b)),
{
}

} // verus!
