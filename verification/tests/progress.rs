//! Progress lines, the bar and the pace of edits.

use telegram_yt_dlp::bot::job::{ProgressGate, BAR_WIDTH, EDIT_PAUSE_NANOS};
use telegram_yt_dlp::downloader::progress::{
    clean, parse_progress_line, reads_as_percent, render_bar, ProgressState,
};

fn percent(p: &ProgressState) -> f32 {
    p.percent.parse::<f32>().unwrap().clamp(0.0, 100.0)
}

fn bar(title: &str, pct: f32, width: usize) -> String {
    let p = ProgressState {
        percent: pct.to_string(),
        speed: "—".to_string(),
        eta: "—".to_string(),
    };
    let filled = ((pct / 100.0) * width as f32).round() as usize;
    render_bar(title, &p, width, filled, &format!("{:.0}", pct))
}

#[test]
fn parses_typical_line() {
    let p = parse_progress_line("download:  45.2%|2.34MiB/s|00:12").unwrap();
    assert!((percent(&p) - 45.2).abs() < 0.01);
    assert_eq!(p.speed, "2.34MiB/s");
    assert_eq!(p.eta, "00:12");
}

#[test]
fn handles_na_fields() {
    let p = parse_progress_line("download:100.0%|N/A|N/A").unwrap();
    assert_eq!(percent(&p), 100.0);
    assert_eq!(p.speed, "—");
    assert_eq!(p.eta, "—");
}

#[test]
fn rejects_non_progress_and_bad_percent() {
    assert!(parse_progress_line("[download] Destination: foo.mp4").is_none());
    assert!(parse_progress_line("download:N/A%|x|y").is_none());
}

#[test]
fn bar_boundaries() {
    assert!(bar("t", 0.0, 12).contains("[░░░░░░░░░░░░]"));
    assert!(bar("t", 100.0, 12).contains("[████████████]"));
    assert!(bar("t", 50.0, 12).contains("██████░░░░░░"));
}

#[test]
fn missing_fields_become_dashes() {
    let p = parse_progress_line("download:5%").unwrap();
    assert_eq!((p.percent.as_str(), p.speed.as_str(), p.eta.as_str()), ("5", "—", "—"));
    let p = parse_progress_line("download: 5 %% | n/a |  | more").unwrap();
    assert_eq!((p.percent.as_str(), p.speed.as_str(), p.eta.as_str()), ("5", "—", "—"));
    assert!(parse_progress_line("download:").is_none());
    assert!(parse_progress_line("download:|a|b").is_none());
    assert!(parse_progress_line("download:%|a|b").is_none());
    assert!(parse_progress_line(" download:5%|a|b").is_none());
    assert!(parse_progress_line("").is_none());
    assert_eq!(parse_progress_line("download:-3%|a|b").unwrap().percent, "-3");
    assert_eq!(parse_progress_line("download:1e3|a|b").unwrap().percent, "1e3");
    assert_eq!(clean("n/A"), "—");
    assert_eq!(clean(""), "—");
    assert_eq!(clean("1MiB/s"), "1MiB/s");
}

#[test]
fn what_is_no_number_is_no_snapshot() {
    for text in ["nan", "NaN", "-nan", "+NAN", " nan "] {
        assert!(!reads_as_percent(text.trim()), "{}", text);
        let line = format!("download:{}%|x|y", text);
        assert!(parse_progress_line(&line).is_none(), "{}", line);
    }
    for text in ["inf", "-inf", "Infinity", "150", "-3", "1e9", "0", "100.0", "45.2"] {
        assert!(reads_as_percent(text), "{}", text);
        let p = parse_progress_line(&format!("download:{}%|x|y", text)).unwrap();
        assert_eq!(p.percent, text);
        assert!((0.0..=100.0).contains(&percent(&p)), "{}", text);
    }
    for text in ["", "nano", "n/a", "1,5"] {
        assert!(!reads_as_percent(text), "{}", text);
    }
}

#[test]
fn the_message_reads_exactly_so() {
    let p = ProgressState {
        percent: "45.2".to_string(),
        speed: "2.34MiB/s".to_string(),
        eta: "00:12".to_string(),
    };
    assert_eq!(
        render_bar("A &amp; B", &p, 10, 5, "45"),
        "⬇️ <b>A &amp; B</b>\n<code>[█████░░░░░]</code> 45% · 2.34MiB/s · ETA 00:12"
    );
    assert_eq!(BAR_WIDTH, 12);
}

#[test]
fn the_bar_never_overflows() {
    let p = ProgressState::default();
    for width in 0..20usize {
        for filled in 0..30usize {
            let text = render_bar("t", &p, width, filled, "0");
            assert_eq!(text.matches('█').count(), filled.min(width));
            assert_eq!(text.matches('░').count(), width - filled.min(width));
        }
    }
}

#[test]
fn snapshots_are_cloned_and_compared() {
    let p = parse_progress_line("download:  45.2%|2.34MiB/s|00:12").unwrap();
    assert_eq!(p.clone(), p);
    assert_ne!(ProgressState::default(), p);
    assert_eq!(percent(&ProgressState::default()), 0.0);
}

#[test]
fn edits_keep_their_pace() {
    let mut gate = ProgressGate::new();
    assert!(!gate.offer(5, false));
    assert!(gate.offer(10, true));
    assert!(!gate.offer(10, true));
    assert!(!gate.offer(9, true));
    assert!(!gate.offer(10 + EDIT_PAUSE_NANOS - 1, true));
    assert!(!gate.offer(10 + EDIT_PAUSE_NANOS, false));
    assert!(gate.offer(10 + EDIT_PAUSE_NANOS, true));
    assert!(!gate.offer(10 + EDIT_PAUSE_NANOS + 1, true));
    assert_eq!(EDIT_PAUSE_NANOS, 3_000_000_000);
}
