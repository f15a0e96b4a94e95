//! Command lines, working directories, the course of a download and the file it leaves.

use telegram_yt_dlp::bot::menu::FormatChoice;
use telegram_yt_dlp::downloader::remux::{faststart_remux, remux_args, remux_target};
use telegram_yt_dlp::downloader::{
    build_args, largest_file, make_work_dir, resolve_output, run_download, work_dir_for,
    DownloadEvent, DownloadStep, DownloadWatch, FileEntry, OutputFile,
};
use telegram_yt_dlp::error::BotError;

#[test]
fn video_args_force_mp4_and_streamable_codecs() {
    let args = build_args("URL", FormatChoice::BestVideo, "/tmp/job");
    assert!(args.contains(&"--merge-output-format".to_string()));
    assert!(args.iter().any(|a| a == "mp4"));
    assert!(args.iter().any(|a| a.contains("vcodec:h264")));
    assert!(args.contains(&"--no-playlist".to_string()));
    assert_eq!(args.last().unwrap(), "URL");
}

#[test]
fn audio_args_extract_mp3() {
    let args = build_args("URL", FormatChoice::AudioMp3, "/tmp/job");
    assert!(args.contains(&"-x".to_string()));
    assert!(args.iter().any(|a| a == "mp3"));
}

#[test]
fn whole_command_lines() {
    let common = [
        "--no-playlist",
        "--newline",
        "--no-color",
        "--no-warnings",
        "--restrict-filenames",
        "-o",
        "/tmp/job/%(title).80B [%(id)s].%(ext)s",
        "--progress-template",
        "download:%(progress._percent_str)s|%(progress._speed_str)s|%(progress._eta_str)s",
        "--print",
        "after_move:filepath",
    ];
    let video = [
        "-S",
        "res,vcodec:h264,acodec:aac",
        "-f",
        "bv*+ba/b",
        "--merge-output-format",
        "mp4",
        "URL",
    ];
    let audio = ["-x", "--audio-format", "mp3", "--audio-quality", "0", "URL"];
    assert_eq!(
        build_args("URL", FormatChoice::BestVideo, "/tmp/job"),
        [&common[..], &video[..]].concat()
    );
    assert_eq!(
        build_args("URL", FormatChoice::AudioMp3, "/tmp/job"),
        [&common[..], &audio[..]].concat()
    );
}

#[test]
fn links_change_the_last_argument_alone() {
    let a = build_args("URL", FormatChoice::BestVideo, "/tmp/job");
    let b = build_args("--exec", FormatChoice::BestVideo, "/tmp/job");
    assert_eq!(a[..a.len() - 1], b[..b.len() - 1]);
    assert_eq!(b.last().unwrap(), "--exec");
}

#[test]
fn work_dirs_are_named_after_chat_and_job() {
    assert_eq!(work_dir_for("/downloads", -100123, "id").path, "/downloads/job--100123-id");
    assert_eq!(work_dir_for("/downloads/", 7, "id").path, "/downloads/job-7-id");
    assert_eq!(work_dir_for("", 7, "id").path, "job-7-id");
    for base in ["/downloads", "/downloads/", "", "rel", "/"] {
        let expected = std::path::Path::new(base).join("job-7-id");
        assert_eq!(work_dir_for(base, 7, "id").path, expected.to_str().unwrap());
    }
}

#[test]
fn work_dirs_are_fresh() {
    let a = make_work_dir("/downloads", 42).path;
    let b = make_work_dir("/downloads", 42).path;
    assert_ne!(a, b);
    for path in [a, b] {
        let id = path.strip_prefix("/downloads/job-42-").unwrap();
        assert_eq!(id.len(), 36);
        for (i, c) in id.chars().enumerate() {
            if [8, 13, 18, 23].contains(&i) {
                assert_eq!(c, '-');
            } else {
                assert!(c.is_ascii_hexdigit() && !c.is_ascii_uppercase());
            }
        }
        let parsed = uuid::Uuid::parse_str(id).unwrap();
        assert_eq!(parsed.get_version_num(), 4);
    }
}

fn line(watch: &mut DownloadWatch, text: &str) -> DownloadStep {
    run_download(watch, DownloadEvent::Line(text.to_string()))
}

#[test]
fn a_download_is_followed_to_its_end() {
    let mut w = DownloadWatch::new();
    assert!(matches!(line(&mut w, "[info] something"), DownloadStep::Read));
    match line(&mut w, "download:  1.0%|x|y") {
        DownloadStep::Report(p) => assert_eq!(p.percent, "1.0"),
        _ => panic!("a snapshot was expected"),
    }
    assert!(matches!(line(&mut w, "download:nan%|x|y"), DownloadStep::Read));
    assert!(matches!(line(&mut w, "download:/etc/passwd"), DownloadStep::Read));
    assert!(w.printed.is_none());
    assert!(matches!(line(&mut w, "  /w/first.mp4 "), DownloadStep::Read));
    assert!(matches!(line(&mut w, "/w/second.mp4"), DownloadStep::Read));
    assert!(matches!(line(&mut w, "relative/path.mp4"), DownloadStep::Read));
    assert!(matches!(line(&mut w, ""), DownloadStep::Read));
    assert!(matches!(run_download(&mut w, DownloadEvent::OutputEnded), DownloadStep::Wait));
    match run_download(&mut w, DownloadEvent::Exited { success: true }) {
        DownloadStep::Resolve(p) => assert_eq!(p.as_deref(), Some("/w/second.mp4")),
        _ => panic!("the file was expected to be looked for"),
    }
}

#[test]
fn a_failed_download_is_classified() {
    let mut w = DownloadWatch::new();
    for c in ["WARNING: x", "ERROR: Private video"] {
        let step = run_download(&mut w, DownloadEvent::Complaint(c.to_string()));
        assert!(matches!(step, DownloadStep::Read));
    }
    assert_eq!(w.complaints, "WARNING: x\nERROR: Private video\n");
    assert!(matches!(
        run_download(&mut w, DownloadEvent::Exited { success: false }),
        DownloadStep::Fail(BotError::Unavailable)
    ));
    let mut w = DownloadWatch::new();
    line(&mut w, "/w/file.mp4");
    match run_download(&mut w, DownloadEvent::Exited { success: false }) {
        DownloadStep::Fail(BotError::DownloadFailed(m)) => assert_eq!(m, ""),
        _ => panic!("an error was expected"),
    }
}

#[test]
fn a_download_can_be_cancelled_or_break() {
    let mut w = DownloadWatch::new();
    assert!(matches!(
        run_download(&mut w, DownloadEvent::Cancelled),
        DownloadStep::Kill(BotError::Cancelled)
    ));
    match run_download(&mut w, DownloadEvent::Failed("broken pipe".to_string())) {
        DownloadStep::Fail(BotError::Io(m)) => assert_eq!(m, "broken pipe"),
        _ => panic!("an error was expected"),
    }
}

fn file(name: &str, len: u64) -> FileEntry {
    FileEntry { name: Some(name.to_string()), is_file: true, len }
}

#[test]
fn the_largest_real_file_is_taken() {
    let entries = vec![
        file("a.mp4", 5),
        file("big.part", 100),
        file("big.ytdl", 100),
        file("info.json", 100),
        file("thumb.webp", 100),
        file("thumb.jpg", 100),
        FileEntry { name: Some("dir".to_string()), is_file: false, len: 1000 },
        file("b.mp4", 7),
        file("c.mp4", 7),
    ];
    assert_eq!(largest_file(&entries), Some(7));
    assert_eq!(largest_file(&vec![]), None);
    assert_eq!(largest_file(&vec![file("x.part", 9)]), None);
    assert_eq!(largest_file(&vec![file("empty.mp4", 0)]), Some(0));
    assert_eq!(largest_file(&vec![FileEntry { name: None, is_file: true, len: 1 }]), Some(0));
    assert_eq!(largest_file(&vec![file("PHOTO.JPG", 1)]), Some(0));
}

#[test]
fn a_printed_path_is_trusted_where_it_exists() {
    let entries = vec![file("a.mp4", 5)];
    match resolve_output(Some("/w/p.mp4".to_string()), true, &entries) {
        Ok(OutputFile::Printed(p)) => assert_eq!(p, "/w/p.mp4"),
        _ => panic!("the printed path was expected"),
    }
    assert!(matches!(
        resolve_output(Some("/w/p.mp4".to_string()), false, &entries),
        Ok(OutputFile::Listed(0))
    ));
    assert!(matches!(resolve_output(None, true, &entries), Ok(OutputFile::Listed(0))));
    assert!(matches!(resolve_output(None, false, &vec![]), Err(BotError::NoOutput)));
}

#[test]
fn remuxing_falls_back_to_its_input() {
    assert_eq!(remux_target("/w/a.mp4"), "/w/a.stream.mp4");
    assert_eq!(
        remux_args("/w/a.mp4"),
        ["-y", "-i", "/w/a.mp4", "-c", "copy", "-movflags", "+faststart", "/w/a.stream.mp4"]
    );
    assert_eq!(faststart_remux("/w/a.mp4", true, true), "/w/a.stream.mp4");
    assert_eq!(faststart_remux("/w/a.mp4", true, false), "/w/a.mp4");
    assert_eq!(faststart_remux("/w/a.mp4", false, true), "/w/a.mp4");
    for path in ["/w/a.stream.mp4", "/w/stream.mp4", "/w/.stream.mp4", "/w/x"] {
        assert_ne!(remux_target(path), path);
    }
}
