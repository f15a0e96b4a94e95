//! What holds of the texts that the bot reads and writes.

use vstd::prelude::*;

use crate::bot::wording::{
    double_step, duration_line, duration_text, escaped, escaped_char, info_text, nearest_double,
    picture_line, round_half_even, size_text, two_digits, unit_bytes, uploader_line,
};
use crate::downloader::metadata::{tail_text, VideoMetaView};
use crate::text::{
    digit, int_text, is_digit, is_white_space, lemma_nat_text, lemma_trim_end, lemma_trim_start,
    nat_text, occurs, stands_at, trim_start, trimmed, unsigned_value,
};

verus! {

// ---- escaping --------------------------------------------------------------

/// Escaped text holds no angle bracket, so it cannot open or close a tag.
pub proof fn law_escaped_text_has_no_tags(s: Seq<char>, i: int)
    requires
        0 <= i < escaped(s).len(),
    ensures
        escaped(s)[i] != '<',
        escaped(s)[i] != '>',
    decreases s.len(),
{
    reveal_strlit("&amp;");
    reveal_strlit("&lt;");
    reveal_strlit("&gt;");
    if s.len() > 0 {
        let before = escaped(s.drop_last());
        if i < before.len() {
            law_escaped_text_has_no_tags(s.drop_last(), i);
        } else {
            assert(escaped(s)[i] == escaped_char(s.last())[i - before.len()]);
        }
    }
}

/// Nothing is lost by escaping: texts that differ are escaped differently.
pub proof fn law_escaping_is_reversible(a: Seq<char>, b: Seq<char>)
    requires
        escaped(a) == escaped(b),
    ensures
        a == b,
    decreases a.len(),
{
    reveal_strlit("&amp;");
    reveal_strlit("&lt;");
    reveal_strlit("&gt;");
    if a.len() == 0 {
        if b.len() > 0 {
            lemma_escaped_front(b);
            assert(escaped_char(b[0]).len() > 0);
        }
        assert(a =~= b);
    } else if b.len() == 0 {
        lemma_escaped_front(a);
        assert(escaped_char(a[0]).len() > 0);
    } else {
        lemma_escaped_front(a);
        lemma_escaped_front(b);
        let (ea, eb) = (escaped_char(a[0]), escaped_char(b[0]));
        let whole = escaped(a);
        assert(whole[0] == ea[0] && whole[0] == eb[0]);
        if ea.len() > 1 && eb.len() > 1 {
            assert(whole[1] == ea[1] && whole[1] == eb[1]);
        }
        assert(a[0] == b[0]);
        assert(escaped(a.drop_first()) =~= whole.skip(ea.len() as int));
        assert(escaped(b.drop_first()) =~= whole.skip(eb.len() as int));
        law_escaping_is_reversible(a.drop_first(), b.drop_first());
        assert(a =~= seq![a[0]] + a.drop_first());
        assert(b =~= seq![b[0]] + b.drop_first());
    }
}

/// Escaping goes character by character: three of them have a form of their own and every other
/// one stays as it is.
pub proof fn law_escaping_goes_by_characters(a: Seq<char>, b: Seq<char>, c: char)
    ensures
        escaped(a + b) == escaped(a) + escaped(b),
        escaped(seq!['&']) == "&amp;"@,
        escaped(seq!['<']) == "&lt;"@,
        escaped(seq!['>']) == "&gt;"@,
        c != '&' && c != '<' && c != '>' ==> escaped(seq![c]) == seq![c],
        escaped(Seq::empty()) == Seq::<char>::empty(),
    decreases b.len(),
{
    lemma_escaped_one('&');
    lemma_escaped_one('<');
    lemma_escaped_one('>');
    lemma_escaped_one(c);
    if b.len() == 0 {
        assert(a + b =~= a);
        assert(escaped(b) =~= Seq::empty());
        assert(escaped(a) + escaped(b) =~= escaped(a));
    } else {
        law_escaping_goes_by_characters(a, b.drop_last(), c);
        assert((a + b).drop_last() =~= a + b.drop_last());
        assert(escaped(a + b) =~= escaped(a) + escaped(b));
    }
}

/// One character by itself.
proof fn lemma_escaped_one(c: char)
    ensures
        escaped(seq![c]) == escaped_char(c),
{
    assert(seq![c].drop_last() =~= Seq::empty());
    assert(escaped(Seq::<char>::empty()) =~= Seq::empty());
    assert(escaped(seq![c]) =~= escaped_char(c));
}

/// The first character's form stands in front.
proof fn lemma_escaped_front(s: Seq<char>)
    requires
        s.len() > 0,
    ensures
        escaped(s) == escaped_char(s[0]) + escaped(s.drop_first()),
    decreases s.len(),
{
    if s.len() == 1 {
        assert(s.drop_last() =~= Seq::empty());
        assert(s.drop_first() =~= Seq::empty());
        assert(escaped(Seq::<char>::empty()) =~= Seq::empty());
        assert(escaped(s) =~= escaped_char(s[0]) + escaped(s.drop_first()));
    } else {
        lemma_escaped_front(s.drop_last());
        assert(s.drop_first().drop_last() =~= s.drop_last().drop_first());
        assert(escaped(s) =~= escaped_char(s[0]) + escaped(s.drop_first()));
    }
}

// ---- trimming --------------------------------------------------------------

/// Trimmed text neither begins nor ends with white space.
pub proof fn law_trimmed_text_is_bare(s: Seq<char>)
    ensures
        trimmed(s).len() > 0 ==> !is_white_space(trimmed(s)[0]) && !is_white_space(
            trimmed(s).last(),
        ),
{
    lemma_trim_start(s);
    lemma_trim_end(trim_start(s));
}

/// Trimming twice is trimming once.
pub proof fn law_trimming_is_idempotent(s: Seq<char>)
    ensures
        trimmed(trimmed(s)) == trimmed(s),
{
    law_trimmed_text_is_bare(s);
}

/// What is left of an error's output is its end: all of it where it is short, else the last
/// `n` characters behind one ellipsis.
pub proof fn law_tail_keeps_the_end(s: Seq<char>, n: nat)
    ensures
        tail_text(s, n).len() <= n + 1,
        trimmed(s).len() <= n ==> tail_text(s, n) == trimmed(s),
        trimmed(s).len() > n ==> tail_text(s, n).len() == n + 1 && tail_text(s, n).skip(1)
            == trimmed(s).skip(trimmed(s).len() - n),
{
    reveal_strlit("…");
    assert("…"@.len() == 1);
    let t = trimmed(s);
    if t.len() > n {
        assert(tail_text(s, n).skip(1) =~= t.skip(t.len() - n));
    }
}

// ---- numbers ---------------------------------------------------------------

/// A number that is written out is read back as itself.
pub proof fn law_numbers_round_trip(n: nat, max: nat)
    requires
        n <= max,
    ensures
        unsigned_value(nat_text(n), max) == Some(n),
{
    lemma_nat_text(n);
    assert(is_digit(nat_text(n)[0]));
}

/// Numbers that differ are written differently.
pub proof fn law_written_numbers_differ(a: int, b: int)
    requires
        int_text(a) == int_text(b),
    ensures
        a == b,
{
    if a < 0 {
        lemma_nat_text((-a) as nat);
    } else {
        lemma_nat_text(a as nat);
    }
    if b < 0 {
        lemma_nat_text((-b) as nat);
    } else {
        lemma_nat_text(b as nat);
    }
    if a < 0 && b < 0 {
        assert(int_text(a).drop_first() =~= nat_text((-a) as nat));
        assert(int_text(b).drop_first() =~= nat_text((-b) as nat));
    } else if a < 0 {
        assert(int_text(a)[0] == '-');
        assert(is_digit(int_text(b)[0]));
    } else if b < 0 {
        assert(int_text(b)[0] == '-');
        assert(is_digit(int_text(a)[0]));
    }
}

// ---- durations -------------------------------------------------------------

/// Durations that differ are written differently.
pub proof fn law_durations_differ(a: nat, b: nat)
    requires
        duration_text(a as int) == duration_text(b as int),
    ensures
        a == b,
{
    reveal_strlit(":");
    lemma_duration_shape(a as int);
    lemma_duration_shape(b as int);
    let (ta, tb) = (duration_text(a as int), duration_text(b as int));
    let n = ta.len() as int;
    // The seconds are the last two characters of both.
    assert(ta[n - 2] == digit((a as int % 60) / 10) && ta[n - 1] == digit((a as int % 60) % 10));
    assert(tb[n - 2] == digit((b as int % 60) / 10) && tb[n - 1] == digit((b as int % 60) % 10));
    assert(a as int % 60 == b as int % 60);
    let (ha, hb) = (a as int / 3600, b as int / 3600);
    let (ma, mb) = ((a as int % 3600) / 60, (b as int % 3600) / 60);
    if ha > 0 && hb > 0 {
        assert(ta[n - 5] == digit(ma / 10) && ta[n - 4] == digit(ma % 10));
        assert(tb[n - 5] == digit(mb / 10) && tb[n - 4] == digit(mb % 10));
        assert(ma == mb);
        assert(nat_text(ha as nat) =~= ta.take(n - 6));
        assert(nat_text(hb as nat) =~= tb.take(n - 6));
        lemma_nat_text(ha as nat);
        lemma_nat_text(hb as nat);
    } else if ha == 0 && hb == 0 {
        assert(nat_text(ma as nat) =~= ta.take(n - 3));
        assert(nat_text(mb as nat) =~= tb.take(n - 3));
        lemma_nat_text(ma as nat);
        lemma_nat_text(mb as nat);
    } else if ha > 0 {
        lemma_nat_text(mb as nat);
        assert(ta[n - 6] == ':');
        assert(tb.take(n - 3) =~= nat_text(mb as nat));
        assert(tb[n - 6] == nat_text(mb as nat)[n - 6]);
    } else {
        lemma_nat_text(ma as nat);
        assert(tb[n - 6] == ':');
        assert(ta.take(n - 3) =~= nat_text(ma as nat));
        assert(ta[n - 6] == nat_text(ma as nat)[n - 6]);
    }
}

/// A duration is written as on a clock: hours, minutes and seconds, the latter two in two
/// digits, and without the hours where there are none.
pub proof fn law_durations_read_like_a_clock(h: nat, m: nat, s: nat)
    requires
        m < 60,
        s < 60,
    ensures
        h > 0 ==> duration_text((3600 * h + 60 * m + s) as int) == nat_text(h) + ":"@ + nat_text(
            100 + m,
        ).drop_first() + ":"@ + nat_text(100 + s).drop_first(),
        duration_text((60 * m + s) as int) == nat_text(m) + ":"@ + nat_text(100 + s).drop_first(),
{
    let all = (3600 * h + 60 * m + s) as int;
    assert(all / 3600 == h);
    assert((all % 3600) / 60 == m);
    assert(all % 60 == s);
    let short = (60 * m + s) as int;
    assert(short / 3600 == 0);
    assert((short % 3600) / 60 == m);
    assert(short % 60 == s);
    lemma_two_digits(m);
    lemma_two_digits(s);
}

/// Two digits are what follows the one of a hundred.
proof fn lemma_two_digits(n: nat)
    requires
        n < 100,
    ensures
        two_digits(n as int) == nat_text(100 + n).drop_first(),
{
    reveal_with_fuel(nat_text, 4);
    let t = nat_text(100 + n);
    assert((100 + n) / 10 == 10 + n / 10);
    assert((100 + n) % 10 == n % 10);
    assert((10 + n / 10) / 10 == 1);
    assert((10 + n / 10) % 10 == n / 10);
    assert(t =~= seq![digit(1), digit((n / 10) as int), digit((n % 10) as int)]);
    assert(t.drop_first() =~= two_digits(n as int));
}

/// How long a written duration is.
proof fn lemma_duration_shape(secs: int)
    requires
        secs >= 0,
    ensures
        secs / 3600 > 0 ==> duration_text(secs).len() == nat_text((secs / 3600) as nat).len() + 6
            && nat_text((secs / 3600) as nat).len() > 0,
        secs / 3600 == 0 ==> duration_text(secs).len() == nat_text(
            ((secs % 3600) / 60) as nat,
        ).len() + 3,
{
    reveal_strlit(":");
    lemma_nat_text((secs / 3600) as nat);
}

// ---- the info card ---------------------------------------------------------

/// The info card shows the title, and the uploader and the duration where they are known.
pub proof fn law_card_shows_what_is_known(meta: VideoMetaView)
    ensures
        occurs(info_text(meta), escaped(meta.title)),
        meta.uploader matches Some(up) ==> occurs(info_text(meta), escaped(up)),
        meta.duration matches Some(d) ==> occurs(info_text(meta), duration_text(d as int)),
{
    let head = "🎬 <b>"@;
    let title = escaped(meta.title);
    let (up, dur, pic) = (uploader_line(meta), duration_line(meta), picture_line(meta));
    let whole = info_text(meta);
    lemma_part_occurs(
        head,
        title,
        "</b>\n"@ + up + dur + pic + "\nChoose a format:"@,
        whole,
    );
    let before_up = head + title + "</b>\n"@;
    if let Some(u) = meta.uploader {
        let rest = "\n"@ + dur + pic + "\nChoose a format:"@;
        lemma_part_occurs(before_up + "👤 "@, escaped(u), rest, whole);
    }
    if let Some(d) = meta.duration {
        let rest = "\n"@ + pic + "\nChoose a format:"@;
        lemma_part_occurs(before_up + up + "⏱ "@, duration_text(d as int), rest, whole);
    }
}

/// The info card, line by line: each line is there where its thing is known and missing where it
/// is not.
pub proof fn law_card_reads_line_by_line(
    title: Seq<char>,
    uploader: Option<Seq<char>>,
    duration: Option<u32>,
    width: Option<u32>,
    height: Option<u32>,
)
    ensures
        info_text(VideoMetaView { title, uploader, duration, width, height }) == "🎬 <b>"@
            + escaped(title) + "</b>\n"@ + (match uploader {
            Some(up) => "👤 "@ + escaped(up) + "\n"@,
            None => Seq::empty(),
        }) + (match duration {
            Some(d) => "⏱ "@ + duration_text(d as int) + "\n"@,
            None => Seq::empty(),
        }) + (if width is Some && height is Some {
            "📐 "@ + nat_text(width->0 as nat) + "×"@ + nat_text(height->0 as nat) + "\n"@
        } else {
            Seq::empty()
        }) + "\nChoose a format:"@,
{
}

/// A part of a text occurs in it.
proof fn lemma_part_occurs(before: Seq<char>, part: Seq<char>, after: Seq<char>, whole: Seq<char>)
    requires
        whole =~= before + part + after,
    ensures
        occurs(whole, part),
{
    let i = before.len() as int;
    assert(whole.subrange(i, i + part.len()) =~= part);
    assert(stands_at(whole, part, i));
}

// ---- sizes -----------------------------------------------------------------

/// Rounding never moves a value by more than half a unit.
pub proof fn law_rounding_is_close(num: nat, den: nat)
    requires
        den > 0,
    ensures
        2 * (round_half_even(num, den) * den - num) <= den,
        2 * (num - round_half_even(num, den) * den) <= den,
{
    let q = num / den;
    let r = num % den;
    assert(num == q * den + r && r < den) by (nonlinear_arith)
        requires
            q == num / den,
            r == num % den,
            den > 0,
    ;
    assert((q + 1) * den == q * den + den) by (nonlinear_arith);
}

/// Whether `t` tenths of a unit are the nearest to `n` bytes, the even one of two.
pub open spec fn nearest_tenths(t: nat, n: nat, unit: nat) -> bool {
    &&& 2 * (t * unit - 10 * n) <= unit
    &&& 2 * (10 * n - t * unit) <= unit
    &&& 2 * (t * unit - 10 * n) == unit || 2 * (10 * n - t * unit) == unit ==> t % 2 == 0
}

/// A size is told in the largest unit that it fills, to the nearest tenth.
pub proof fn law_sizes_are_told_to_the_nearest_tenth(n: nat, t: nat, unit: nat, name: Seq<char>)
    requires
        n < 0x20_0000_0000_0000,
        n < 0x400 ==> unit == 1 && name == "B"@,
        0x400 <= n < 0x10_0000 ==> unit == 0x400 && name == "KiB"@,
        0x10_0000 <= n < 0x4000_0000 ==> unit == 0x10_0000 && name == "MiB"@,
        0x4000_0000 <= n < 0x100_0000_0000 ==> unit == 0x4000_0000 && name == "GiB"@,
        0x100_0000_0000 <= n ==> unit == 0x100_0000_0000 && name == "TiB"@,
        nearest_tenths(t, n, unit),
    ensures
        size_text(n) == nat_text(t / 10) + "."@ + nat_text(t % 10) + " "@ + name,
{
    law_ordinary_sizes_are_exact(n);
    assert(n * 10 == 10 * n);
    law_rounding_is_close(10 * n, unit);
    law_rounding_ties_to_even(10 * n, unit, t);
    assert(nat_text(t % 10) =~= seq![digit((t % 10) as int)]);
}

/// Rounding gives the one whole number that is nearest, the even one of two.
pub proof fn law_rounding_ties_to_even(num: nat, den: nat, t: nat)
    requires
        den > 0,
        2 * (t * den - num) <= den,
        2 * (num - t * den) <= den,
        2 * (t * den - num) == den || 2 * (num - t * den) == den ==> t % 2 == 0,
    ensures
        round_half_even(num, den) == t,
{
    let q = num / den;
    let r = num % den;
    assert(num == q * den + r && r < den) by (nonlinear_arith)
        requires
            q == num / den,
            r == num % den,
            den > 0,
    ;
    assert((q + 1) * den == q * den + den) by (nonlinear_arith);
    if t < q {
        assert(t * den + den <= q * den) by (nonlinear_arith)
            requires
                t < q,
        ;
    } else if t > q + 1 {
        assert((q + 1) * den + den <= t * den) by (nonlinear_arith)
            requires
                t > q + 1,
        ;
    }
}

/// The largest sizes are first brought to the nearest number of double precision: the nearest
/// multiple of the power of two by which such numbers are apart there, the even one of two.
pub proof fn law_large_sizes_are_brought_to_a_double(n: nat)
    ensures
        size_text(n) == size_text_of(nearest_double(n)),
        2 * (nearest_double(n) - n) <= double_step(n),
        2 * (n - nearest_double(n)) <= double_step(n),
        nearest_double(n) % double_step(n) == 0,
        0 < double_step(n),
        n < 0x20_0000_0000_0000 * double_step(n),
        double_step(n) == 1 || n >= 0x10_0000_0000_0000 * double_step(n),
        double_step(n) == 1 || double_step(n) % 2 == 0,
    decreases n,
{
    lemma_double_step(n);
    let step = double_step(n);
    law_rounding_is_close(n, step);
    let q = round_half_even(n, step);
    assert((q * step) % step == 0) by (nonlinear_arith)
        requires
            step > 0,
    ;
    let m = nearest_double(n);
    let unit = unit_bytes(m);
    let t = round_half_even(m * 10, unit);
    assert(m * 10 == 10 * m);
    law_rounding_is_close(10 * m, unit);
    assert(nearest_tenths(t, m, unit)) by {
        lemma_ties(10 * m, unit);
    }
    let u = choose|u: nat| nearest_tenths(u, m, unit);
    law_rounding_ties_to_even(10 * m, unit, u);
    assert(nat_text(t % 10) =~= seq![digit((t % 10) as int)]);
}

/// Of two nearest whole numbers rounding gives the even one.
proof fn lemma_ties(num: nat, den: nat)
    requires
        den > 0,
    ensures
        ({
            let t = round_half_even(num, den);
            2 * (t * den - num) == den || 2 * (num - t * den) == den ==> t % 2 == 0
        }),
{
    let q = num / den;
    let r = num % den;
    assert(num == q * den + r && r < den) by (nonlinear_arith)
        requires
            q == num / den,
            r == num % den,
            den > 0,
    ;
    assert((q + 1) * den == q * den + den) by (nonlinear_arith);
}

/// A size of `n` bytes that needs no rounding, in the largest unit that it fills.
pub open spec fn size_text_of(n: nat) -> Seq<char> {
    let (unit, name): (nat, Seq<char>) = if n < 0x400 {
        (1, "B"@)
    } else if n < 0x10_0000 {
        (0x400, "KiB"@)
    } else if n < 0x4000_0000 {
        (0x10_0000, "MiB"@)
    } else if n < 0x100_0000_0000 {
        (0x4000_0000, "GiB"@)
    } else {
        (0x100_0000_0000, "TiB"@)
    };
    let t = choose|t: nat| nearest_tenths(t, n, unit);
    nat_text(t / 10) + "."@ + nat_text(t % 10) + " "@ + name
}

/// How far apart numbers of double precision are.
proof fn lemma_double_step(n: nat)
    ensures
        0 < double_step(n),
        n < 0x20_0000_0000_0000 * double_step(n),
        double_step(n) == 1 || n >= 0x10_0000_0000_0000 * double_step(n),
        double_step(n) == 1 || double_step(n) % 2 == 0,
    decreases n,
{
    if n >= 0x20_0000_0000_0000 {
        lemma_double_step(n / 2);
    }
}

/// Sizes that double precision holds are told as they are.
pub proof fn law_ordinary_sizes_are_exact(n: nat)
    requires
        n < 0x20_0000_0000_0000,
    ensures
        nearest_double(n) == n,
{
    assert(double_step(n) == 1);
    assert(n / 1 == n && n % 1 == 0);
}

} // verus!
