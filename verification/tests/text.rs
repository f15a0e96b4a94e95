//! Text handling, held against what std does with the same texts.

use telegram_yt_dlp::bot::wording::{fmt_duration, html_escape, human_size};
use telegram_yt_dlp::downloader::progress::reads_as_float;
use telegram_yt_dlp::downloader::remux::replace_extension;
use telegram_yt_dlp::text::{
    contains, ends_with, i64_text, parse_u64, parse_usize, same, same_ignoring_case, split,
    starts_with, strip_prefix, trim, u64_text, white_space,
};

#[test]
fn white_space_is_unicodes() {
    for c in '\0'..=char::MAX {
        assert_eq!(white_space(c), c.is_whitespace(), "{:?}", c);
    }
}

#[test]
fn trimming_agrees_with_std() {
    for s in ["", " ", "\t\n ", "a", " a", "a ", " a b ", "\u{3000}x\u{85}", "\u{200b}x", "  …  "] {
        assert_eq!(trim(s), s.trim(), "{:?}", s);
        assert_eq!(trim(&trim(s)), trim(s), "{:?}", s);
    }
}

#[test]
fn searching_agrees_with_std() {
    let texts = ["", "a", "ab", "aab", "abab", "naïve", "members-only", "xmembers-onl"];
    let words = ["", "a", "ab", "b", "ï", "members-only", "aaaa"];
    for s in texts {
        for p in words {
            assert_eq!(contains(s, p), s.contains(p), "{:?} {:?}", s, p);
            assert_eq!(starts_with(s, p), s.starts_with(p), "{:?} {:?}", s, p);
            assert_eq!(ends_with(s, p), s.ends_with(p), "{:?} {:?}", s, p);
            assert_eq!(strip_prefix(s, p).as_deref(), s.strip_prefix(p), "{:?} {:?}", s, p);
            assert_eq!(same(s, p), s == p);
        }
    }
}

#[test]
fn ascii_case_is_ignored() {
    for a in ["", "n/a", "N/A", "N/a", "ä", "Ä", "[", "{", "@", "`", "nan"] {
        for b in ["", "n/a", "N/A", "ä", "Ä", "[", "{", "@", "`", "NAN"] {
            assert_eq!(same_ignoring_case(a, b), a.eq_ignore_ascii_case(b), "{:?} {:?}", a, b);
        }
    }
}

#[test]
fn splitting_agrees_with_std() {
    for s in ["", ",", "a", "a,b", ",a,,b,", "1, 2 ,3", "é,ü"] {
        let parts: Vec<&str> = s.split(',').collect();
        assert_eq!(split(s, ','), parts, "{:?}", s);
    }
}

#[test]
fn numbers_are_written_as_std_does() {
    for n in [0, 1, 9, 10, 42, 99, 100, 1000, 4294967295, u64::MAX] {
        assert_eq!(u64_text(n), n.to_string());
        assert_eq!(parse_u64(&u64_text(n)), Some(n));
    }
    for i in [0, 1, -1, 9, -10, i64::MAX, i64::MIN, -1001234567890] {
        assert_eq!(i64_text(i), i.to_string());
    }
}

#[test]
fn numbers_are_read_as_std_does() {
    let texts = [
        "", "+", "-", "0", "+7", "++7", "-0", "-1", "007", "12a", " 1", "1 ", "1_000", "٣",
        "18446744073709551615", "18446744073709551616", "18446744073709551620",
        "99999999999999999999999", "4294967296",
    ];
    for s in texts {
        assert_eq!(parse_u64(s), s.parse::<u64>().ok(), "{:?}", s);
        assert_eq!(parse_usize(s), s.parse::<usize>().ok(), "{:?}", s);
    }
}

#[test]
fn floats_are_recognised_as_std_does() {
    let texts = [
        "", ".", "+", "-", "+.", "1", "1.", ".5", "1.5", "1.5.2", "1e5", "1E5", "1e+5", "1e-5",
        "1e", "e5", ".e5", "1.e5", ".5e5", "1e5.0", "1e5e5", "inf", "-INF", "infinity",
        "+Infinity", "infinit", "nan", "NaN", "-nan", "nano", "0x1", "1_0", " 1", "1 ", "45.2",
        "100.0", "N/A", "1,5", "٣", "--1", "1-", "e", "ee", "1e--5", "3.4e99999",
    ];
    for s in texts {
        assert_eq!(reads_as_float(s), s.parse::<f32>().is_ok(), "{:?}", s);
    }
}

#[test]
fn extensions_are_replaced_as_std_does() {
    let paths = [
        "", "/", "a", "a.mp4", "/w/a.mp4", "/w/a.b.mp4", "/w.x/a", "/w/.mp4", "/w/a.", "/w/..",
        "..", ".", "./a.mp4", "/w/a.mp4/", "/w/a.mp4//", "/w/a.mp4/.", "/w/a.mp4/./", "/w/./a.mp4",
        "/w/...", "/w/a [id].webm", "/w/x.stream.mp4", "/.", "a/..", "a/../", "//a.b",
    ];
    for p in paths {
        let expected = std::path::Path::new(p).with_extension("stream.mp4");
        assert_eq!(replace_extension(p, "stream.mp4"), expected.to_str().unwrap(), "{:?}", p);
    }
}

#[test]
fn escaping_keeps_texts_apart() {
    assert_eq!(html_escape(""), "");
    assert_eq!(html_escape("&lt;"), "&amp;lt;");
    assert_eq!(html_escape("<"), "&lt;");
    assert_ne!(html_escape("&lt;"), html_escape("<"));
    for s in ["<script>", "a > b && c < d", "\"'é"] {
        let e = html_escape(s);
        assert!(!e.contains('<') && !e.contains('>'));
        assert_eq!(e, s.replace('&', "&amp;").replace('<', "&lt;").replace('>', "&gt;"));
    }
}

#[test]
fn durations_read_like_a_clock() {
    assert_eq!(fmt_duration(0), "0:00");
    assert_eq!(fmt_duration(59), "0:59");
    assert_eq!(fmt_duration(60), "1:00");
    assert_eq!(fmt_duration(3599), "59:59");
    assert_eq!(fmt_duration(3600), "1:00:00");
    assert_eq!(fmt_duration(36000), "10:00:00");
    assert_eq!(fmt_duration(u32::MAX), "1193046:28:15");
}

fn size_in_floats(bytes: u64) -> String {
    let units = ["B", "KiB", "MiB", "GiB", "TiB"];
    let mut b = bytes as f64;
    let mut i = 0;
    while b >= 1024.0 && i < units.len() - 1 {
        b /= 1024.0;
        i += 1;
    }
    format!("{:.1} {}", b, units[i])
}

#[test]
fn sizes_agree_with_floating_point() {
    let mut sizes: Vec<u64> = vec![0, 1, 9, 1023, 1024, 1025, 1536, 1587, 1588, 1638, u64::MAX];
    for shift in 0..64 {
        let p = 1u64 << shift;
        for d in 0..70 {
            sizes.push(p.wrapping_add(d));
            sizes.push(p.wrapping_sub(d));
            sizes.push(p.wrapping_mul(d));
            sizes.push((p / 20).wrapping_mul(d));
            sizes.push((p / 20).wrapping_mul(d).wrapping_add(1));
        }
    }
    let mut x: u64 = 0x9e37_79b9_7f4a_7c15;
    for _ in 0..20000 {
        x = x.wrapping_mul(6364136223846793005).wrapping_add(1442695040888963407);
        sizes.push(x);
        sizes.push(x >> (x % 64));
    }
    for n in sizes {
        assert_eq!(human_size(n), size_in_floats(n), "{}", n);
    }
    assert_eq!(human_size(0), "0.0 B");
    assert_eq!(human_size(1023), "1023.0 B");
    assert_eq!(human_size(u64::MAX), "16777216.0 TiB");
}
