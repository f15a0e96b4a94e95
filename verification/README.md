# telegram_yt_dlp

A self-hosted Telegram bot that downloads videos with yt-dlp: an inline format menu, a live
progress bar with a Cancel button, MP3 conversion, streamable video, an allowlist of users and
a yt-dlp that keeps itself up to date.

- `src/` is the verified library: the decisions of the bot, with contracts proved by Verus.
  Calls into std and other crates that are taken on trust stand in `src/outside.rs`; what holds
  of the bot as a whole stands in `src/laws/`.
- `app/` is the program around it: Telegram, processes, files, the clock
  and the percentage of a download, which is a floating-point number.
- `tests/` runs the library on concrete values.

`Cargo.toml` names `takecell`, which only teloxide uses, to hold it at a version that builds
with the Rust named there.

| Variable | Default | Description |
|---|---|---|
| `BOT_TOKEN` | none | Bot token from @BotFather (required; `TELOXIDE_TOKEN` works too) |
| `ALLOWED_USER_IDS` | *(empty = deny all)* | CSV of numeric Telegram user IDs |
| `TELEGRAM_API_URL` | *(cloud API)* | Base URL of the Bot API server |
| `MAX_FILE_MB` | `2000` | Upload size cap (use `50` on the cloud API) |
| `DOWNLOAD_DIR` | `/downloads` | Working directory |
| `YTDLP_BIN` | `yt-dlp` | The yt-dlp to run |
| `UPDATE_INTERVAL_HOURS` | `12` | yt-dlp self-update cadence |
| `MAX_CONCURRENT_DOWNLOADS` | `3` | Global concurrency cap |
| `RUST_LOG` | `info` | Log level |
