//! yt-dlp's description of a video and its complaints.

use telegram_yt_dlp::downloader::json::{JsonDoc, JsonScalar};
use telegram_yt_dlp::downloader::metadata::{
    classify_lowered, classify_stderr, fetch, fetch_args, info_from, parse_meta, read_info, tail,
    FetchOutcome, VideoMeta, FETCH_TIMEOUT_SECS,
};
use telegram_yt_dlp::error::BotError;

fn described(json: &str) -> VideoMeta {
    read_info(json.as_bytes()).unwrap()
}

#[test]
fn parses_metadata_json() {
    let m = described(
        r#"{"title":"My Clip","channel":"Someone","duration":83.0,"width":1920,"height":1080}"#,
    );
    assert_eq!(m.title, "My Clip");
    assert_eq!(m.uploader.as_deref(), Some("Someone"));
    assert_eq!(m.duration, Some(83));
    assert_eq!(m.width, Some(1920));
    assert_eq!(m.height, Some(1080));
}

#[test]
fn classifies_private() {
    assert!(matches!(
        classify_stderr("ERROR: Private video. Sign in if you've been granted access"),
        BotError::Unavailable
    ));
    assert!(matches!(
        classify_stderr("ERROR: some random failure"),
        BotError::DownloadFailed(_)
    ));
}

#[test]
fn missing_fields_have_stand_ins() {
    let m = described("{}");
    assert_eq!(m.title, "video");
    assert_eq!(m.uploader, None);
    assert_eq!((m.duration, m.width, m.height), (None, None, None));
    assert_eq!(described(r#"{"title":""}"#).title, "video");
    assert_eq!(described(r#"{"title":7}"#).title, "video");
    assert_eq!(described(r#"{"title":" "}"#).title, " ");
    assert_eq!(described("[1,2]").title, "video");
    assert_eq!(described("\"text\"").uploader, None);
}

#[test]
fn channel_stands_in_for_a_missing_uploader_only() {
    let both = r#"{"uploader":"Up","channel":"Ch"}"#;
    assert_eq!(described(both).uploader.as_deref(), Some("Up"));
    assert_eq!(described(r#"{"channel":"Ch"}"#).uploader.as_deref(), Some("Ch"));
    assert_eq!(described(r#"{"uploader":null,"channel":"Ch"}"#).uploader, None);
    assert_eq!(described(r#"{"uploader":"","channel":"Ch"}"#).uploader.as_deref(), Some(""));
}

#[test]
fn numbers_are_cut_as_casts_do() {
    let seconds = [
        "0", "0.0", "-0.0", "0.999", "1", "1.0", "1.999999", "59.5", "-1", "-0.5", "-1e300",
        "1e300", "4294967294.9", "4294967295", "4294967295.5", "4294967296", "1e-300", "5e-324",
        "123456789", "1e9", "9007199254740993", "18446744073709551615", "3.5e0", "2147483648.25",
    ];
    for s in seconds {
        let m = described(&format!("{{\"duration\":{}}}", s));
        assert_eq!(m.duration, Some(s.parse::<f64>().unwrap() as u32), "{}", s);
    }
    assert_eq!(described(r#"{"duration":"83"}"#).duration, None);
    let pixels = [0u64, 1, 1080, 4294967295, 4294967296, 4294967297, u64::MAX];
    for p in pixels {
        assert_eq!(described(&format!("{{\"width\":{}}}", p)).width, Some(p as u32), "{}", p);
    }
    assert_eq!(described(r#"{"width":1920.0,"height":-5}"#).width, None);
    assert_eq!(described(r#"{"width":1920.0,"height":-5}"#).height, None);
}

#[test]
fn every_double_is_cut_as_casts_do() {
    let mut bits: u64 = 1;
    for i in 0..100000u64 {
        bits = bits.wrapping_mul(6364136223846793005).wrapping_add(1442695040888963407);
        let b = if i % 2 == 0 { bits } else { 0x3fe0_0000_0000_0000 + (bits >> 10) % (36 << 52) };
        let doc = JsonDoc::Object(vec![(
            "duration".to_string(),
            JsonScalar::Number(None, Some(b)),
        )]);
        assert_eq!(parse_meta(&doc).duration, Some(f64::from_bits(b) as u32), "{:x}", b);
    }
    for d in [f64::NAN, f64::INFINITY, f64::NEG_INFINITY, f64::MIN_POSITIVE, f64::MAX] {
        let doc = JsonDoc::Object(vec![(
            "duration".to_string(),
            JsonScalar::Number(None, Some(d.to_bits())),
        )]);
        assert_eq!(parse_meta(&doc).duration, Some(d as u32), "{}", d);
    }
}

#[test]
fn what_is_no_json_is_an_error_with_its_words() {
    let error = serde_json::from_slice::<serde_json::Value>(b"not json").unwrap_err();
    match read_info(b"not json") {
        Err(BotError::Metadata(m)) => assert_eq!(m, error.to_string()),
        _ => panic!("an error was expected"),
    }
    assert!(matches!(read_info(b""), Err(BotError::Metadata(_))));
    assert!(matches!(read_info(b"{\"title\":"), Err(BotError::Metadata(_))));
    match info_from(Err("words".to_string())) {
        Err(BotError::Metadata(m)) => assert_eq!(m, "words"),
        _ => panic!("an error was expected"),
    }
}

#[test]
fn the_last_of_two_members_counts() {
    assert_eq!(described(r#"{"title":"a","title":"b"}"#).title, "b");
}

#[test]
fn every_sign_of_unavailability_is_known() {
    let complaints = [
        "PRIVATE VIDEO", "Sign in to confirm your age", "please Confirm Your Age now",
        "The uploader has not made this: not available in your country", "Video unavailable",
        "This is MEMBERS-ONLY content", "Ünfair: Private Video",
    ];
    for c in complaints {
        assert!(matches!(classify_stderr(c), BotError::Unavailable), "{}", c);
        assert!(matches!(classify_stderr(&c.to_lowercase()), BotError::Unavailable), "{}", c);
        assert!(matches!(classify_lowered(&c.to_lowercase(), c), BotError::Unavailable), "{}", c);
        assert!(matches!(classify_lowered("something else", c), BotError::DownloadFailed(_)));
    }
    match classify_stderr("  Sign in to confirm you're not a bot\n") {
        BotError::DownloadFailed(m) => assert_eq!(m, "Sign in to confirm you're not a bot"),
        _ => panic!("an error was expected"),
    }
    // The dotted capital I has a two-character lower case.
    match classify_stderr("İ") {
        BotError::DownloadFailed(m) => assert_eq!(m, "İ"),
        _ => panic!("an error was expected"),
    }
}

#[test]
fn long_complaints_are_cut_at_the_front() {
    assert_eq!(tail("  abc  ", 3), "abc");
    assert_eq!(tail("abcd", 3), "…bcd");
    assert_eq!(tail("äöüß", 2), "…üß");
    assert_eq!(tail("abc", 0), "…");
    assert_eq!(tail("   ", 0), "");
    let long = "x".repeat(400);
    match classify_stderr(&long) {
        BotError::DownloadFailed(m) => {
            assert_eq!(m.chars().count(), 301);
            assert!(m.starts_with('…'));
        }
        _ => panic!("an error was expected"),
    }
}

#[test]
fn a_fetch_comes_to_metadata_or_to_an_error() {
    assert_eq!(FETCH_TIMEOUT_SECS, 30);
    assert_eq!(fetch_args("URL"), ["-J", "--no-playlist", "--no-warnings", "URL"]);
    assert!(matches!(fetch(FetchOutcome::TimedOut), Err(BotError::Timeout)));
    match fetch(FetchOutcome::NotRun("no such file".to_string())) {
        Err(BotError::Io(m)) => assert_eq!(m, "no such file"),
        _ => panic!("an error was expected"),
    }
    let good = FetchOutcome::Exited {
        success: true,
        stdout: br#"{"title":"T"}"#.to_vec(),
        stderr: b"Private video".to_vec(),
    };
    assert_eq!(fetch(good).unwrap().title, "T");
    let gone = FetchOutcome::Exited {
        success: false,
        stdout: br#"{"title":"T"}"#.to_vec(),
        stderr: b"ERROR: Private video".to_vec(),
    };
    assert!(matches!(fetch(gone), Err(BotError::Unavailable)));
    let garbled = FetchOutcome::Exited {
        success: false,
        stdout: vec![],
        stderr: b"bad \xff\xfe byte\xe2\x82".to_vec(),
    };
    match fetch(garbled) {
        Err(BotError::DownloadFailed(m)) => {
            assert_eq!(m, String::from_utf8_lossy(b"bad \xff\xfe byte\xe2\x82"));
        }
        _ => panic!("an error was expected"),
    }
}

#[test]
fn metadata_is_cloned_whole() {
    let m = described(r#"{"title":"T","uploader":"U","duration":1,"width":2,"height":3}"#);
    let c = m.clone();
    assert_eq!((c.title, c.uploader), (m.title, m.uploader));
    assert_eq!((c.duration, c.width, c.height), (Some(1), Some(2), Some(3)));
    let d = VideoMeta::default();
    assert_eq!((d.title.as_str(), d.uploader, d.duration), ("", None, None));
}
