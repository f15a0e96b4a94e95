//! The configuration and the updater.

use telegram_yt_dlp::config::{parse_allowed_users, Config, ConfigError, Environment, VARIABLES};
use telegram_yt_dlp::state::AppState;
use telegram_yt_dlp::updater::{
    run_update, spawn_periodic, update_once, update_result, version, version_result, RunOutcome,
};

fn env(vars: &[(&str, &str)]) -> Environment {
    Environment { vars: vars.iter().map(|(k, v)| (k.to_string(), v.to_string())).collect() }
}

fn config(vars: &[(&str, &str)]) -> Config {
    Config::from_env(&env(vars)).unwrap()
}

#[test]
fn a_token_alone_gives_the_defaults() {
    let c = config(&[("BOT_TOKEN", "t")]);
    assert_eq!(c.bot_token, "t");
    assert_eq!(c.api_url, None);
    assert_eq!(c.download_dir, "/downloads");
    assert_eq!(c.max_file_bytes, 2000 * 1024 * 1024);
    assert!(c.allowed_users.is_empty());
    assert_eq!(c.yt_dlp_bin, "yt-dlp");
    assert_eq!(c.update_interval_hours, 12);
    assert_eq!(c.max_concurrent, 3);
}

#[test]
fn a_token_is_needed() {
    let e = Config::from_env(&env(&[("YTDLP_BIN", "x")])).unwrap_err();
    assert!(matches!(e, ConfigError::MissingToken));
    assert_eq!(e.to_text(), "BOT_TOKEN (or TELOXIDE_TOKEN) must be set");
    assert_eq!(config(&[("TELOXIDE_TOKEN", "b")]).bot_token, "b");
    assert_eq!(config(&[("TELOXIDE_TOKEN", "b"), ("BOT_TOKEN", "a")]).bot_token, "a");
    assert_eq!(config(&[("BOT_TOKEN", "")]).bot_token, "");
}

#[test]
fn every_variable_is_read() {
    let c = config(&[
        ("BOT_TOKEN", "t"),
        ("TELEGRAM_API_URL", " http://bot:8081 "),
        ("DOWNLOAD_DIR", "/d"),
        ("MAX_FILE_MB", " 50 "),
        ("ALLOWED_USER_IDS", "1, 2,x,,+3,-4"),
        ("YTDLP_BIN", "/bin/yt"),
        ("UPDATE_INTERVAL_HOURS", "6"),
        ("MAX_CONCURRENT_DOWNLOADS", "9"),
    ]);
    assert_eq!(c.api_url.as_deref(), Some(" http://bot:8081 "));
    assert_eq!(c.download_dir, "/d");
    assert_eq!(c.max_file_bytes, 50 * 1024 * 1024);
    assert_eq!(c.allowed_users, [1, 2, 3].into_iter().collect());
    assert_eq!(c.yt_dlp_bin, "/bin/yt");
    assert_eq!(c.update_interval_hours, 6);
    assert_eq!(c.max_concurrent, 9);
    assert_eq!(VARIABLES.len(), 9);
    assert!(VARIABLES.contains(&"TELOXIDE_TOKEN"));
}

#[test]
fn bad_numbers_give_way_to_defaults_and_limits() {
    let c = config(&[
        ("BOT_TOKEN", "t"),
        ("TELEGRAM_API_URL", "  \t"),
        ("MAX_FILE_MB", "lots"),
        ("UPDATE_INTERVAL_HOURS", "0"),
        ("MAX_CONCURRENT_DOWNLOADS", "0"),
    ]);
    assert_eq!(c.api_url, None);
    assert_eq!(c.max_file_bytes, 2000 * 1024 * 1024);
    assert_eq!(c.update_interval_hours, 1);
    assert_eq!(c.max_concurrent, 1);
    assert_eq!(AppState::new(c).permits, 1);
    let c = config(&[("BOT_TOKEN", "t"), ("MAX_FILE_MB", "18446744073709551615")]);
    assert_eq!(c.max_file_bytes, u64::MAX);
    let c = config(&[("BOT_TOKEN", "t"), ("MAX_FILE_MB", "17592186044415")]);
    assert_eq!(c.max_file_bytes, 17592186044415 * 1024 * 1024);
    let c = config(&[("BOT_TOKEN", "t"), ("MAX_FILE_MB", "0")]);
    assert_eq!(c.max_file_bytes, 0);
}

#[test]
fn the_allowlist_lets_in_who_is_on_it() {
    let c = config(&[("BOT_TOKEN", "t"), ("ALLOWED_USER_IDS", "7,42")]);
    assert!(c.is_allowed(7) && c.is_allowed(42));
    assert!(!c.is_allowed(8) && !c.is_allowed(0));
    let none = config(&[("BOT_TOKEN", "t")]);
    for user in [0, 1, 7, u64::MAX] {
        assert!(!none.is_allowed(user));
    }
    let ids: Vec<u64> = vec![5, 1, u64::MAX, 5, 0];
    let csv = ids.iter().map(|i| i.to_string()).collect::<Vec<_>>().join(",");
    assert_eq!(parse_allowed_users(&csv), ids.into_iter().collect());
    assert!(parse_allowed_users("").is_empty());
    assert!(parse_allowed_users("a;b").is_empty());
}

#[test]
fn a_configuration_is_cloned_whole() {
    let c = config(&[
        ("BOT_TOKEN", "t"),
        ("TELEGRAM_API_URL", "http://bot"),
        ("DOWNLOAD_DIR", "/d"),
        ("MAX_FILE_MB", "5"),
        ("ALLOWED_USER_IDS", "1,2,3,18446744073709551615"),
        ("YTDLP_BIN", "y"),
        ("UPDATE_INTERVAL_HOURS", "6"),
        ("MAX_CONCURRENT_DOWNLOADS", "9"),
    ]);
    let d = c.clone();
    assert_eq!((d.bot_token, d.api_url), (c.bot_token, c.api_url));
    assert_eq!((d.download_dir, d.yt_dlp_bin), (c.download_dir, c.yt_dlp_bin));
    assert_eq!(d.allowed_users, c.allowed_users);
    assert_eq!(d.allowed_users.len(), 4);
    assert_eq!(d.max_file_bytes, 5 * 1024 * 1024);
    assert_eq!((d.update_interval_hours, d.max_concurrent), (6, 9));
}

fn exited(success: bool, stdout: &[u8], stderr: &[u8]) -> RunOutcome {
    RunOutcome::Exited { success, stdout: stdout.to_vec(), stderr: stderr.to_vec() }
}

#[test]
fn updates_and_versions_are_read() {
    assert_eq!(run_update(&exited(true, b"x", b"warn")), Ok(()));
    assert_eq!(run_update(&exited(false, b"x", b" denied \n")), Err("denied".to_string()));
    assert_eq!(run_update(&exited(false, b"", b"a\xffb")), Err("a\u{fffd}b".to_string()));
    assert_eq!(run_update(&RunOutcome::NotRun("gone".to_string())), Err("gone".to_string()));
    assert_eq!(version(&exited(true, b"2025.01.01\n", b"")), Ok("2025.01.01".to_string()));
    assert_eq!(
        version(&exited(false, b"2025", b"")),
        Err("yt-dlp --version exited non-zero".to_string())
    );
    assert_eq!(version(&RunOutcome::NotRun("gone".to_string())), Err("gone".to_string()));
    assert_eq!(update_result(false, " e "), Err("e".to_string()));
    assert_eq!(version_result(true, " v "), Ok("v".to_string()));
}

#[test]
fn updates_are_logged() {
    assert_eq!(update_once(&Ok("1".to_string())), "yt-dlp self-update ok; version: 1");
    assert_eq!(
        update_once(&Err("e".to_string())),
        "yt-dlp self-update failed (continuing): e"
    );
}

#[test]
fn updates_are_at_least_an_hour_apart() {
    assert_eq!(spawn_periodic(0), 3600);
    assert_eq!(spawn_periodic(1), 3600);
    assert_eq!(spawn_periodic(12), 43200);
}
