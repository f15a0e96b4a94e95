//! The configuration, read once from environment variables at startup.

use std::collections::HashSet;

use vstd::prelude::*;
use vstd::std_specs::iter::IteratorSpec;

use crate::text::{
    fields, first_value, parse_u64, parse_usize, same, split, text_view, trim, trimmed,
    unsigned_value, views,
};

verus! {

broadcast use vstd::std_specs::hash::group_hash_axioms;

// ---- the environment -------------------------------------------------------

/// The names of the variables that are read.
pub const VARIABLES: [&'static str; 9] = [
    "BOT_TOKEN",
    "TELOXIDE_TOKEN",
    "TELEGRAM_API_URL",
    "DOWNLOAD_DIR",
    "MAX_FILE_MB",
    "ALLOWED_USER_IDS",
    "YTDLP_BIN",
    "UPDATE_INTERVAL_HOURS",
    "MAX_CONCURRENT_DOWNLOADS",
];

/// The environment variables that are set to a text, with their values.
pub struct Environment {
    pub vars: Vec<(String, String)>,
}

impl View for Environment {
    type V = Seq<(Seq<char>, Seq<char>)>;

    open spec fn view(&self) -> Seq<(Seq<char>, Seq<char>)> {
        self.vars@.map_values(|p: (String, String)| (p.0@, p.1@))
    }
}

impl Environment {
    /// The value of a variable, where it is set.
    pub fn var(&self, key: &str) -> (r: Option<String>)
        ensures
            text_view(r) == first_value(self@, key@),
    {
        let ghost all = self@;
        let mut i: usize = 0;
        assert(all.skip(0) == all);
        while i < self.vars.len()
            invariant
                i <= self.vars@.len(),
                all == self@,
                first_value(all, key@) == first_value(all.skip(i as int), key@),
            decreases self.vars@.len() - i,
        {
            assert(all.skip(i as int)[0] == all[i as int]);
            if same(self.vars[i].0.as_str(), key) {
                return Some(self.vars[i].1.clone());
            }
            assert(all.skip(i as int).drop_first() == all.skip(i + 1));
            i = i + 1;
        }
        None
    }
}

// ---- single variables ------------------------------------------------------

/// A text, or `default` where there is none.
pub open spec fn or_text(v: Option<Seq<char>>, default: Seq<char>) -> Seq<char> {
    match v {
        Some(t) => t,
        None => default,
    }
}

/// A number from a variable, blanks around it aside, or `default` where the variable is
/// missing or holds no number up to `max`.
pub open spec fn env_number(v: Option<Seq<char>>, max: nat, default: nat) -> nat {
    match v {
        Some(t) => match unsigned_value(trimmed(t), max) {
            Some(n) => n,
            None => default,
        },
        None => default,
    }
}

/// Whether a comma-separated list names `user`. Items that are no number are passed over.
pub open spec fn lists(csv: Seq<char>, user: u64) -> bool {
    exists|i: int|
        0 <= i < fields(csv, ',').len() && unsigned_value(
            trimmed(#[trigger] fields(csv, ',')[i]),
            u64::MAX as nat,
        ) == Some(user as nat)
}

/// The users that a comma-separated list names.
pub open spec fn allowlist(csv: Seq<char>) -> Set<u64> {
    Set::new(|user: u64| lists(csv, user))
}

/// A number from a variable.
fn parse_env(env: &Environment, key: &str, default: u64) -> (r: u64)
    ensures
        r == env_number(first_value(env@, key@), u64::MAX as nat, default as nat),
{
    match env.var(key) {
        Some(v) => match parse_u64(trim(v.as_str()).as_str()) {
            Some(n) => n,
            None => default,
        },
        None => default,
    }
}

/// A size from a variable.
fn parse_env_usize(env: &Environment, key: &str, default: usize) -> (r: usize)
    ensures
        r == env_number(first_value(env@, key@), usize::MAX as nat, default as nat),
{
    match env.var(key) {
        Some(v) => match parse_usize(trim(v.as_str()).as_str()) {
            Some(n) => n,
            None => default,
        },
        None => default,
    }
}

/// The users that a comma-separated list names.
pub fn parse_allowed_users(csv: &str) -> (r: HashSet<u64>)
    ensures
        r@ == allowlist(csv@),
{
    let parts = split(csv, ',');
    let ghost f = fields(csv@, ',');
    let mut users: HashSet<u64> = HashSet::new();
    let mut i: usize = 0;
    while i < parts.len()
        invariant
            i <= parts@.len(),
            f == views(parts@),
            forall|u: u64| #[trigger]
                users@.contains(u) <==> exists|j: int|
                    0 <= j < i && unsigned_value(trimmed(#[trigger] f[j]), u64::MAX as nat)
                        == Some(u as nat),
        decreases parts@.len() - i,
    {
        let ghost before = users@;
        assert(f[i as int] == parts@[i as int]@);
        match parse_u64(trim(parts[i].as_str()).as_str()) {
            Some(n) => {
                users.insert(n);
                assert forall|u: u64| #[trigger]
                    users@.contains(u) <==> exists|j: int|
                        0 <= j < i + 1 && unsigned_value(
                            trimmed(#[trigger] f[j]),
                            u64::MAX as nat,
                        ) == Some(u as nat) by {
                    if u == n {
                        assert(unsigned_value(trimmed(f[i as int]), u64::MAX as nat) == Some(
                            u as nat,
                        ));
                    }
                    if before.contains(u) {
                        let j = choose|j: int|
                            0 <= j < i && unsigned_value(
                                trimmed(#[trigger] f[j]),
                                u64::MAX as nat,
                            ) == Some(u as nat);
                        assert(0 <= j < i + 1);
                    }
                }
            },
            None => {
                assert forall|u: u64| #[trigger]
                    users@.contains(u) <==> exists|j: int|
                        0 <= j < i + 1 && unsigned_value(
                            trimmed(#[trigger] f[j]),
                            u64::MAX as nat,
                        ) == Some(u as nat) by {
                    if before.contains(u) {
                        let j = choose|j: int|
                            0 <= j < i && unsigned_value(
                                trimmed(#[trigger] f[j]),
                                u64::MAX as nat,
                            ) == Some(u as nat);
                        assert(0 <= j < i + 1);
                    }
                }
            },
        }
        i = i + 1;
    }
    assert(users@ =~= allowlist(csv@));
    users
}

// ---- the configuration -----------------------------------------------------

/// Runtime configuration.
#[derive(Debug)]
pub struct Config {
    pub bot_token: String,
    /// Custom Bot API base URL (e.g. a self-hosted server for 2 GB uploads).
    pub api_url: Option<String>,
    pub download_dir: String,
    pub max_file_bytes: u64,
    /// Allowlist of Telegram user IDs. Empty = nobody is allowed (deny-all).
    pub allowed_users: HashSet<u64>,
    pub yt_dlp_bin: String,
    pub update_interval_hours: u64,
    pub max_concurrent: usize,
}

/// A [`Config`] with its texts as sequences of characters.
pub struct ConfigView {
    pub bot_token: Seq<char>,
    pub api_url: Option<Seq<char>>,
    pub download_dir: Seq<char>,
    pub max_file_bytes: nat,
    pub allowed_users: Set<u64>,
    pub yt_dlp_bin: Seq<char>,
    pub update_interval_hours: nat,
    pub max_concurrent: nat,
}

impl View for Config {
    type V = ConfigView;

    open spec fn view(&self) -> ConfigView {
        ConfigView {
            bot_token: self.bot_token@,
            api_url: text_view(self.api_url),
            download_dir: self.download_dir@,
            max_file_bytes: self.max_file_bytes as nat,
            allowed_users: self.allowed_users@,
            yt_dlp_bin: self.yt_dlp_bin@,
            update_interval_hours: self.update_interval_hours as nat,
            max_concurrent: self.max_concurrent as nat,
        }
    }
}

/// A copy of a set of users.
fn copy_users(users: &HashSet<u64>) -> (r: HashSet<u64>)
    ensures
        r@ == users@,
{
    let mut r: HashSet<u64> = HashSet::new();
    let ghost order = users.iter().remaining().unref();
    for u in it: users.iter()
        invariant
            it.seq().unref() == order,
            r@ == order.take(it.index() as int).to_set(),
    {
        let ghost seen = order.take(it.index() as int);
        r.insert(*u);
        assert(order.take(it.index() + 1) =~= seen.push(*u));
        assert(seen.push(*u).to_set() =~= seen.to_set().insert(*u)) by {
            assert(seen.push(*u)[seen.len() as int] == *u);
            assert forall|x: u64| seen.contains(x) implies seen.push(*u).contains(x) by {
                let i = choose|i: int| 0 <= i < seen.len() && seen[i] == x;
                assert(seen.push(*u)[i] == x);
            }
        }
    }
    assert(order.take(order.len() as int) =~= order);
    r
}

impl Clone for Config {
    fn clone(&self) -> (r: Self)
        ensures
            r@ == self@,
    {
        Config {
            bot_token: self.bot_token.clone(),
            api_url: self.api_url.clone(),
            download_dir: self.download_dir.clone(),
            max_file_bytes: self.max_file_bytes,
            allowed_users: copy_users(&self.allowed_users),
            yt_dlp_bin: self.yt_dlp_bin.clone(),
            update_interval_hours: self.update_interval_hours,
            max_concurrent: self.max_concurrent,
        }
    }
}

/// Why there is no configuration.
#[derive(Debug)]
pub enum ConfigError {
    /// Neither token variable is set.
    MissingToken,
}

impl ConfigError {
    /// How the error reads.
    pub fn to_text(&self) -> (s: String)
        ensures
            s@ == "BOT_TOKEN (or TELOXIDE_TOKEN) must be set"@,
    {
        "BOT_TOKEN (or TELOXIDE_TOKEN) must be set".to_owned()
    }
}

/// The token: `BOT_TOKEN`, else `TELOXIDE_TOKEN`.
pub open spec fn token_of(env: Seq<(Seq<char>, Seq<char>)>) -> Option<Seq<char>> {
    if first_value(env, "BOT_TOKEN"@) is Some {
        first_value(env, "BOT_TOKEN"@)
    } else {
        first_value(env, "TELOXIDE_TOKEN"@)
    }
}

/// A Bot API server's address, as long as it is not blank.
pub open spec fn api_url_of(v: Option<Seq<char>>) -> Option<Seq<char>> {
    match v {
        Some(t) => if trimmed(t).len() > 0 {
            Some(t)
        } else {
            None
        },
        None => None,
    }
}

/// A number of mebibytes in bytes, as far as 64 bits go.
pub open spec fn mebibytes(n: nat) -> nat {
    if n * 0x10_0000 <= u64::MAX {
        n * 0x10_0000
    } else {
        u64::MAX as nat
    }
}

/// A number, but at least one.
pub open spec fn at_least_one(n: nat) -> nat {
    if n < 1 {
        1
    } else {
        n
    }
}

/// The configuration that an environment stands for, once the token is known.
pub open spec fn config_of(env: Seq<(Seq<char>, Seq<char>)>, token: Seq<char>) -> ConfigView {
    ConfigView {
        bot_token: token,
        api_url: api_url_of(first_value(env, "TELEGRAM_API_URL"@)),
        download_dir: or_text(first_value(env, "DOWNLOAD_DIR"@), "/downloads"@),
        max_file_bytes: mebibytes(
            env_number(first_value(env, "MAX_FILE_MB"@), u64::MAX as nat, 2000),
        ),
        allowed_users: allowlist(or_text(first_value(env, "ALLOWED_USER_IDS"@), Seq::empty())),
        yt_dlp_bin: or_text(first_value(env, "YTDLP_BIN"@), "yt-dlp"@),
        update_interval_hours: at_least_one(
            env_number(first_value(env, "UPDATE_INTERVAL_HOURS"@), u64::MAX as nat, 12),
        ),
        max_concurrent: at_least_one(
            env_number(first_value(env, "MAX_CONCURRENT_DOWNLOADS"@), usize::MAX as nat, 3),
        ),
    }
}

/// The value of a variable, or `default` where it is not set.
fn var_or(env: &Environment, key: &str, default: &str) -> (r: String)
    ensures
        r@ == or_text(first_value(env@, key@), default@),
{
    match env.var(key) {
        Some(v) => v,
        None => default.to_owned(),
    }
}

impl Config {
    /// The configuration that the environment stands for. Only a missing token is an error.
    pub fn from_env(env: &Environment) -> (r: Result<Config, ConfigError>)
        ensures
            match token_of(env@) {
                Some(token) => r is Ok && r->Ok_0@ == config_of(env@, token),
                None => r == Err::<Config, ConfigError>(ConfigError::MissingToken),
            },
    {
        let bot_token = match env.var("BOT_TOKEN") {
            Some(t) => t,
            None => match env.var("TELOXIDE_TOKEN") {
                Some(t) => t,
                None => return Err(ConfigError::MissingToken),
            },
        };
        let api_url = match env.var("TELEGRAM_API_URL") {
            Some(t) => if trim(t.as_str()).as_str().is_empty() {
                None
            } else {
                Some(t)
            },
            None => None,
        };
        let download_dir = var_or(env, "DOWNLOAD_DIR", "/downloads");
        let max_file_mb: u64 = parse_env(env, "MAX_FILE_MB", 2000);
        let max_file_bytes: u64 = if max_file_mb <= u64::MAX / 0x10_0000 {
            max_file_mb * 0x10_0000
        } else {
            u64::MAX
        };
        let ids = var_or(env, "ALLOWED_USER_IDS", "");
        proof {
            reveal_strlit("");
            assert(""@ =~= Seq::<char>::empty());
        }
        let allowed_users = parse_allowed_users(ids.as_str());
        let yt_dlp_bin = var_or(env, "YTDLP_BIN", "yt-dlp");
        let hours: u64 = parse_env(env, "UPDATE_INTERVAL_HOURS", 12);
        let downloads: usize = parse_env_usize(env, "MAX_CONCURRENT_DOWNLOADS", 3);
        Ok(
            Config {
                bot_token,
                api_url,
                download_dir,
                max_file_bytes,
                allowed_users,
                yt_dlp_bin,
                update_interval_hours: if hours < 1 {
                    1
                } else {
                    hours
                },
                max_concurrent: if downloads < 1 {
                    1
                } else {
                    downloads
                },
            },
        )
    }

    /// A user is allowed only if they appear in a non-empty allowlist.
    pub fn is_allowed(&self, user: u64) -> (r: bool)
        ensures
            r == self@.allowed_users.contains(user),
    {
        !self.allowed_users.is_empty() && self.allowed_users.contains(&user)
    }
}

} // verus!
