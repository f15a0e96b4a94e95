//! What holds of every configuration.

use vstd::prelude::*;

use crate::bot::handlers::{message_plan, MessageActionView};
use crate::bot::post::plain_post;
use crate::config::{
    allowlist, config_of, env_number, lists, or_text, token_of, ConfigView, VARIABLES,
};
use crate::laws::words::law_numbers_round_trip;
use crate::text::{
    fields, first_value, is_digit, lemma_last_field, lemma_nat_text, lemma_single_field, nat_text,
    trim_end, trim_start, trimmed, unsigned_value,
};

verus! {

/// What a token alone configures: the cloud API, nobody allowed, and the defaults for the
/// rest.
pub open spec fn defaults(token: Seq<char>) -> ConfigView {
    ConfigView {
        bot_token: token,
        api_url: None,
        download_dir: "/downloads"@,
        max_file_bytes: 2000 * 0x10_0000,
        allowed_users: Set::empty(),
        yt_dlp_bin: "yt-dlp"@,
        update_interval_hours: 12,
        max_concurrent: 3,
    }
}

/// The token is the one thing that has to be set.
pub proof fn law_a_token_is_enough(token: Seq<char>)
    ensures
        config_of(seq![("BOT_TOKEN"@, token)], token) == defaults(token),
{
    reveal_strlit("BOT_TOKEN");
    reveal_strlit("TELEGRAM_API_URL");
    reveal_strlit("DOWNLOAD_DIR");
    reveal_strlit("MAX_FILE_MB");
    reveal_strlit("ALLOWED_USER_IDS");
    reveal_strlit("YTDLP_BIN");
    reveal_strlit("UPDATE_INTERVAL_HOURS");
    reveal_strlit("MAX_CONCURRENT_DOWNLOADS");
    let env = seq![("BOT_TOKEN"@, token)];
    assert("BOT_TOKEN"@[0] == 'B');
    assert("YTDLP_BIN"@[0] == 'Y');
    lemma_only_pair(env, "TELEGRAM_API_URL"@);
    lemma_only_pair(env, "DOWNLOAD_DIR"@);
    lemma_only_pair(env, "MAX_FILE_MB"@);
    lemma_only_pair(env, "ALLOWED_USER_IDS"@);
    lemma_only_pair(env, "YTDLP_BIN"@);
    lemma_only_pair(env, "UPDATE_INTERVAL_HOURS"@);
    lemma_only_pair(env, "MAX_CONCURRENT_DOWNLOADS"@);
    assert forall|user: u64| !allowlist(Seq::empty()).contains(user) by {
        law_empty_allowlist_denies_all(user);
    }
    assert(allowlist(Seq::empty()) =~= Set::empty());
}

/// Where there is one pair, no other key has a value.
proof fn lemma_only_pair(env: Seq<(Seq<char>, Seq<char>)>, key: Seq<char>)
    requires
        env.len() == 1,
        env[0].0 != key,
    ensures
        first_value(env, key) is None,
{
    assert(env.drop_first().len() == 0);
    assert(first_value(env.drop_first(), key) is None);
}

/// Whatever the environment holds, at least one download may run and at least an hour passes
/// between two updates.
pub proof fn law_limits_are_positive(env: Seq<(Seq<char>, Seq<char>)>, token: Seq<char>)
    ensures
        config_of(env, token).max_concurrent >= 1,
        config_of(env, token).update_interval_hours >= 1,
        config_of(env, token).max_file_bytes <= u64::MAX,
{
}

/// Each setting comes from the variable of its own name and from no other one.
pub proof fn law_settings_come_from_their_own_variables(
    env: Seq<(Seq<char>, Seq<char>)>,
    token: Seq<char>,
    v: Seq<char>,
)
    ensures
        config_of(env, token).bot_token == token,
        first_value(env, "DOWNLOAD_DIR"@) == Some(v) ==> config_of(env, token).download_dir == v,
        first_value(env, "DOWNLOAD_DIR"@) is None ==> config_of(env, token).download_dir
            == "/downloads"@,
        first_value(env, "YTDLP_BIN"@) == Some(v) ==> config_of(env, token).yt_dlp_bin == v,
        first_value(env, "YTDLP_BIN"@) is None ==> config_of(env, token).yt_dlp_bin == "yt-dlp"@,
        first_value(env, "TELEGRAM_API_URL"@) == Some(v) && trimmed(v).len() > 0 ==> config_of(
            env,
            token,
        ).api_url == Some(v),
        first_value(env, "TELEGRAM_API_URL"@) == Some(v) && trimmed(v).len() == 0 ==> config_of(
            env,
            token,
        ).api_url is None,
        first_value(env, "TELEGRAM_API_URL"@) is None ==> config_of(env, token).api_url is None,
        first_value(env, "ALLOWED_USER_IDS"@) == Some(v) ==> config_of(env, token).allowed_users
            == allowlist(v),
        first_value(env, "ALLOWED_USER_IDS"@) is None ==> config_of(env, token).allowed_users
            == Set::<u64>::empty(),
{
    if first_value(env, "ALLOWED_USER_IDS"@) is None {
        assert forall|user: u64| !allowlist(Seq::empty()).contains(user) by {
            law_empty_allowlist_denies_all(user);
        }
        assert(allowlist(Seq::empty()) =~= Set::empty());
    }
}

/// The variables that are read, by name.
pub proof fn law_variables_have_these_names()
    ensures
        VARIABLES@.len() == 9,
        VARIABLES@[0]@ == "BOT_TOKEN"@,
        VARIABLES@[1]@ == "TELOXIDE_TOKEN"@,
        VARIABLES@[2]@ == "TELEGRAM_API_URL"@,
        VARIABLES@[3]@ == "DOWNLOAD_DIR"@,
        VARIABLES@[4]@ == "MAX_FILE_MB"@,
        VARIABLES@[5]@ == "ALLOWED_USER_IDS"@,
        VARIABLES@[6]@ == "YTDLP_BIN"@,
        VARIABLES@[7]@ == "UPDATE_INTERVAL_HOURS"@,
        VARIABLES@[8]@ == "MAX_CONCURRENT_DOWNLOADS"@,
{
}

/// The numbers come from the variables of their own names: the cap in mebibytes, as far as 64
/// bits of bytes go, and two that are at least one.
pub proof fn law_numbers_come_from_their_own_variables(
    env: Seq<(Seq<char>, Seq<char>)>,
    token: Seq<char>,
)
    ensures
        ({
            let mb = env_number(first_value(env, "MAX_FILE_MB"@), u64::MAX as nat, 2000);
            let bytes = config_of(env, token).max_file_bytes;
            &&& mb * 1048576 <= u64::MAX ==> bytes == mb * 1048576
            &&& mb * 1048576 > u64::MAX ==> bytes == u64::MAX
        }),
        ({
            let hours = env_number(first_value(env, "UPDATE_INTERVAL_HOURS"@), u64::MAX as nat, 12);
            let told = config_of(env, token).update_interval_hours;
            &&& hours >= 1 ==> told == hours
            &&& hours == 0 ==> told == 1
        }),
        ({
            let jobs = env_number(
                first_value(env, "MAX_CONCURRENT_DOWNLOADS"@),
                usize::MAX as nat,
                3,
            );
            let told = config_of(env, token).max_concurrent;
            &&& jobs >= 1 ==> told == jobs
            &&& jobs == 0 ==> told == 1
        }),
{
}

/// The token is the bot's own variable, else the framework's; there is none only where neither
/// is set.
pub proof fn law_tokens_are_looked_up_in_order(env: Seq<(Seq<char>, Seq<char>)>, v: Seq<char>)
    ensures
        first_value(env, "BOT_TOKEN"@) == Some(v) ==> token_of(env) == Some(v),
        first_value(env, "BOT_TOKEN"@) is None ==> token_of(env) == first_value(
            env,
            "TELOXIDE_TOKEN"@,
        ),
{
}

/// A list of users is read item by item: a longer list lets in whom its parts let in, and an
/// item by itself lets in the one user whose number it is, blanks aside, or nobody.
pub proof fn law_lists_are_read_item_by_item(a: Seq<char>, item: Seq<char>, user: u64)
    requires
        forall|i: int| 0 <= i < item.len() ==> #[trigger] item[i] != ',',
    ensures
        allowlist(a + seq![','] + item).contains(user) <==> allowlist(a).contains(user)
            || allowlist(item).contains(user),
        allowlist(item).contains(user) <==> unsigned_value(trimmed(item), u64::MAX as nat) == Some(
            user as nat,
        ),
{
    lemma_last_field(a, ',', item);
    lemma_single_field(item, ',');
    let (before, all) = (fields(a, ','), fields(a + seq![','] + item, ','));
    assert(fields(item, ',')[0] == item);
    assert(all[before.len() as int] == item);
    if lists(a, user) {
        let i = choose|i: int|
            0 <= i < before.len() && unsigned_value(trimmed(#[trigger] before[i]), u64::MAX as nat)
                == Some(user as nat);
        assert(all[i] == before[i]);
    }
    if lists(a + seq![','] + item, user) {
        let i = choose|i: int|
            0 <= i < all.len() && unsigned_value(trimmed(#[trigger] all[i]), u64::MAX as nat)
                == Some(user as nat);
        if i < before.len() {
            assert(all[i] == before[i]);
        }
    }
}

/// With an empty allowlist everybody is a stranger.
pub proof fn law_empty_allowlist_denies_all(user: u64)
    ensures
        !allowlist(Seq::empty()).contains(user),
{
    let none = Seq::<char>::empty();
    assert(fields(none, ',') =~= seq![none]);
    assert(trimmed(none) =~= none);
}

/// Only users on the configured list get further than being turned away.
pub proof fn law_only_listed_users_are_served(
    env: Seq<(Seq<char>, Seq<char>)>,
    token: Seq<char>,
    user: u64,
    text: Seq<char>,
    link: Option<Seq<char>>,
    busy: bool,
)
    requires
        !lists(or_text(first_value(env, "ALLOWED_USER_IDS"@), Seq::empty()), user),
    ensures
        message_plan(config_of(env, token).allowed_users.contains(user), text, link, busy)
            == MessageActionView::Reply(plain_post("⛔ You are not authorized to use this bot."@)),
{
}

/// User IDs with commas between them.
pub open spec fn csv_of(ids: Seq<u64>) -> Seq<char>
    decreases ids.len(),
{
    if ids.len() == 0 {
        Seq::empty()
    } else if ids.len() == 1 {
        nat_text(ids[0] as nat)
    } else {
        csv_of(ids.drop_last()) + seq![','] + nat_text(ids.last() as nat)
    }
}

/// A list of user IDs lets in those users and nobody else.
pub proof fn law_listed_users_are_the_allowed_ones(ids: Seq<u64>, user: u64)
    ensures
        allowlist(csv_of(ids)).contains(user) <==> ids.contains(user),
{
    if ids.len() == 0 {
        law_empty_allowlist_denies_all(user);
    } else {
        lemma_csv_fields(ids);
        let f = fields(csv_of(ids), ',');
        assert forall|i: int| 0 <= i < ids.len() implies unsigned_value(
            trimmed(#[trigger] f[i]),
            u64::MAX as nat,
        ) == Some(ids[i] as nat) by {
            lemma_trimmed_number(ids[i] as nat);
            law_numbers_round_trip(ids[i] as nat, u64::MAX as nat);
        }
        if ids.contains(user) {
            let i = choose|i: int| 0 <= i < ids.len() && ids[i] == user;
            assert(unsigned_value(trimmed(f[i]), u64::MAX as nat) == Some(user as nat));
        }
    }
}

/// A written number has no blanks to trim.
proof fn lemma_trimmed_number(n: nat)
    ensures
        trimmed(nat_text(n)) == nat_text(n),
{
    let s = nat_text(n);
    lemma_nat_text(n);
    assert(is_digit(s[0]));
    assert(is_digit(s[s.len() - 1]));
    assert(trim_start(s) == s);
    assert(trim_end(s) == s);
}

/// The fields of a written list are the written numbers.
proof fn lemma_csv_fields(ids: Seq<u64>)
    requires
        ids.len() > 0,
    ensures
        fields(csv_of(ids), ',').len() == ids.len(),
        forall|i: int|
            0 <= i < ids.len() ==> #[trigger] fields(csv_of(ids), ',')[i] == nat_text(
                ids[i] as nat,
            ),
    decreases ids.len(),
{
    let last = nat_text(ids.last() as nat);
    lemma_nat_text(ids.last() as nat);
    assert forall|i: int| 0 <= i < last.len() implies #[trigger] last[i] != ',' by {
        assert(is_digit(last[i]));
    }
    if ids.len() == 1 {
        lemma_single_field(last, ',');
    } else {
        lemma_csv_fields(ids.drop_last());
        lemma_last_field(csv_of(ids.drop_last()), ',', last);
        let before = fields(csv_of(ids.drop_last()), ',');
        assert forall|i: int| 0 <= i < ids.len() implies #[trigger] fields(csv_of(ids), ',')[i]
            == nat_text(ids[i] as nat) by {
            if i < ids.len() - 1 {
                assert(before[i] == nat_text(ids.drop_last()[i] as nat));
            }
        }
    }
}

} // verus!
