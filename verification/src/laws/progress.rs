//! What holds of progress lines and of the bar.

use vstd::prelude::*;

use crate::downloader::printed_after;
use crate::downloader::progress::{
    bar_cells, bar_text, clean_text, is_exponent, is_float_text, is_mantissa, is_number,
    is_percent_text, percent_text, progress_of, without_sign, without_trailing, ProgressView,
};
use crate::laws::texts::{
    law_beginnings, law_case_is_that_of_ascii_letters, law_trimming_takes_white_space_alone,
    lemma_padded, white,
};
use crate::text::{
    all_digits, ascii_lower, begins, fields, is_digit, is_white_space, lemma_last_field,
    lemma_single_field, lemma_trim_end, same_but_case, trim_start, trimmed,
};

verus! {

// ---- the bar ---------------------------------------------------------------

/// The bar has as many cells as it is wide: the full ones first, the empty ones behind them.
pub proof fn law_bar_is_as_wide_as_told(filled: nat, width: nat, i: int)
    ensures
        bar_cells(filled, width).len() == width,
        0 <= i < width ==> bar_cells(filled, width)[i] == if i < filled {
            '█'
        } else {
            '░'
        },
{
}

/// The progress message in full: title, bar, percentage, speed and time left.
pub proof fn law_progress_message_in_full(
    title: Seq<char>,
    percent: Seq<char>,
    speed: Seq<char>,
    eta: Seq<char>,
    width: nat,
    filled: nat,
    shown: Seq<char>,
)
    ensures
        bar_text(title, ProgressView { percent, speed, eta }, width, filled, shown)
            == "⬇️ <b>"@ + title + "</b>\n<code>["@ + bar_cells(filled, width) + "]</code> "@
            + shown + "% · "@ + speed + " · ETA "@ + eta,
{
}

// ---- progress lines --------------------------------------------------------

/// A line as the progress template makes yt-dlp write it, the percentage padded on the left.
pub open spec fn template_line(
    pad: Seq<char>,
    percent: Seq<char>,
    speed: Seq<char>,
    eta: Seq<char>,
) -> Seq<char> {
    "download:"@ + (pad + percent + seq!['%'] + seq!['|'] + speed + seq!['|'] + eta)
}

/// Whether a text is blank.
pub open spec fn blank(s: Seq<char>) -> bool {
    forall|i: int| 0 <= i < s.len() ==> is_white_space(#[trigger] s[i])
}

/// Whether a character does not occur in a text.
pub open spec fn lacks(s: Seq<char>, c: char) -> bool {
    forall|i: int| 0 <= i < s.len() ==> #[trigger] s[i] != c
}

/// What the template wrote is read back: the percentage as it stands, speed and time left
/// without blanks around them and with a dash for what is not available.
pub proof fn law_template_lines_are_read_back(
    pad: Seq<char>,
    percent: Seq<char>,
    speed: Seq<char>,
    eta: Seq<char>,
)
    requires
        blank(pad),
        is_percent_text(percent),
        lacks(speed, '|'),
        lacks(eta, '|'),
    ensures
        progress_of(template_line(pad, percent, speed, eta)) == Some(
            ProgressView {
                percent,
                speed: clean_text(trimmed(speed)),
                eta: clean_text(trimmed(eta)),
            },
        ),
{
    let line = template_line(pad, percent, speed, eta);
    let head = "download:"@;
    let rest = pad + percent + seq!['%'] + seq!['|'] + speed + seq!['|'] + eta;
    let first = pad + percent + seq!['%'];
    assert(line.subrange(0, head.len() as int) =~= head);
    assert(line.skip(head.len() as int) =~= rest);
    lemma_percent_field(pad, percent);
    lemma_single_field(first, '|');
    lemma_last_field(first, '|', speed);
    lemma_last_field(first + seq!['|'] + speed, '|', eta);
    assert(rest =~= first + seq!['|'] + speed + seq!['|'] + eta);
    let f = fields(rest, '|');
    assert(f =~= seq![first, speed, eta]);
    assert(percent_text(first) == percent);
}

/// A line with a percentage alone is a snapshot too: what is missing is shown as not available,
/// and what follows the time left is not looked at.
pub proof fn law_short_and_long_lines_are_read(
    pad: Seq<char>,
    percent: Seq<char>,
    speed: Seq<char>,
    eta: Seq<char>,
    more: Seq<char>,
)
    requires
        blank(pad),
        is_percent_text(percent),
        lacks(speed, '|'),
        lacks(eta, '|'),
        lacks(more, '|'),
    ensures
        progress_of("download:"@ + (pad + percent + seq!['%'])) == Some(
            ProgressView { percent, speed: "—"@, eta: "—"@ },
        ),
        progress_of("download:"@ + (pad + percent + seq!['%'] + seq!['|'] + speed)) == Some(
            ProgressView { percent, speed: clean_text(trimmed(speed)), eta: "—"@ },
        ),
        progress_of(template_line(pad, percent, speed, eta) + seq!['|'] + more) == Some(
            ProgressView {
                percent,
                speed: clean_text(trimmed(speed)),
                eta: clean_text(trimmed(eta)),
            },
        ),
{
    let head = "download:"@;
    let first = pad + percent + seq!['%'];
    lemma_percent_field(pad, percent);
    lemma_single_field(first, '|');
    lemma_after_head(first);
    assert(fields(first, '|') =~= seq![first]);
    let two = first + seq!['|'] + speed;
    lemma_last_field(first, '|', speed);
    lemma_after_head(two);
    assert(pad + percent + seq!['%'] + seq!['|'] + speed =~= two);
    assert(fields(two, '|') =~= seq![first, speed]);
    let three = two + seq!['|'] + eta;
    lemma_last_field(two, '|', eta);
    let four = three + seq!['|'] + more;
    lemma_last_field(three, '|', more);
    lemma_after_head(four);
    assert(fields(four, '|') =~= seq![first, speed, eta, more]);
    assert(template_line(pad, percent, speed, eta) + seq!['|'] + more =~= head + four);
}

/// What follows the template's word.
proof fn lemma_after_head(rest: Seq<char>)
    ensures
        begins("download:"@ + rest, "download:"@),
        ("download:"@ + rest).skip("download:"@.len() as int) == rest,
{
    let head = "download:"@;
    assert((head + rest).subrange(0, head.len() as int) =~= head);
    assert((head + rest).skip(head.len() as int) =~= rest);
}

/// The percentage in the first field.
proof fn lemma_percent_field(pad: Seq<char>, percent: Seq<char>)
    requires
        blank(pad),
        is_percent_text(percent),
    ensures
        percent_text(pad + percent + seq!['%']) == percent,
        lacks(pad + percent + seq!['%'], '|'),
{
    let first = pad + percent + seq!['%'];
    lemma_float_chars(percent);
    assert forall|i: int| 0 <= i < first.len() implies #[trigger] first[i] != '|' by {
        if i < pad.len() {
            assert(is_white_space(pad[i]));
        } else if i < pad.len() + percent.len() {
            assert(float_char(percent[i - pad.len()]));
        }
    }
    assert(float_char(percent[0]));
    assert(float_char(percent[percent.len() - 1]));
    let marked = percent + seq!['%'];
    assert(first =~= pad + marked);
    lemma_pad_goes(pad, marked);
    assert(marked.last() == '%');
    assert(trimmed(first) == marked);
    assert(marked.drop_last() =~= percent);
    assert(without_trailing(percent, '%') == percent);
    assert(without_trailing(marked, '%') == percent);
    assert(trim_start(percent) == percent);
}

/// Any number of percent signs, none among them, and any blanks around the number and around the
/// signs leave the percentage as it is.
pub proof fn law_percent_signs_and_blanks_are_taken_off(
    pad: Seq<char>,
    percent: Seq<char>,
    gap: Seq<char>,
    signs: nat,
    end: Seq<char>,
)
    requires
        blank(pad),
        blank(gap),
        blank(end),
        is_percent_text(percent),
    ensures
        percent_text(pad + percent + gap + Seq::new(signs, |i: int| '%') + end) == percent,
{
    let marks = Seq::new(signs, |i: int| '%');
    let field = pad + percent + gap + marks + end;
    lemma_float_chars(percent);
    assert(float_char(percent[0]));
    assert(float_char(percent[percent.len() - 1]));
    let none = Seq::<char>::empty();
    if signs == 0 {
        assert(blank(gap + end)) by {
            assert forall|i: int| 0 <= i < (gap + end).len() implies is_white_space(
                #[trigger] (gap + end)[i],
            ) by {
                if i < gap.len() {
                    assert(is_white_space(gap[i]));
                } else {
                    assert(is_white_space(end[i - gap.len()]));
                }
            }
        }
        lemma_padded(pad, percent, gap + end);
        assert(field =~= pad + percent + (gap + end));
        assert(without_trailing(percent, '%') == percent);
        lemma_padded(none, percent, none);
        assert(none + percent + none =~= percent);
    } else {
        let core = percent + gap + marks;
        assert(core.last() == '%');
        assert(core[0] == percent[0]);
        lemma_padded(pad, core, end);
        assert(field =~= pad + core + end);
        lemma_signs_go(percent + gap, signs);
        assert(core =~= (percent + gap) + marks);
        lemma_padded(none, percent, gap);
        assert(none + percent + gap =~= percent + gap);
    }
}

/// Percent signs behind a text without one at its end.
proof fn lemma_signs_go(s: Seq<char>, signs: nat)
    requires
        s.len() > 0,
        s.last() != '%',
    ensures
        without_trailing(s + Seq::new(signs, |i: int| '%'), '%') == s,
    decreases signs,
{
    let marks = Seq::new(signs, |i: int| '%');
    if signs == 0 {
        assert(s + marks =~= s);
    } else {
        let fewer = Seq::new((signs - 1) as nat, |i: int| '%');
        assert((s + marks).drop_last() =~= s + fewer);
        lemma_signs_go(s, (signs - 1) as nat);
    }
}

/// What is taken off a percentage is blanks and percent signs alone.
pub proof fn law_percentages_are_not_changed(field: Seq<char>)
    ensures
        exists|a: Seq<char>, b: Seq<char>| #[trigger]
            (a + percent_text(field) + b) == field && blank(a) && forall|i: int|
                0 <= i < b.len() ==> is_white_space(#[trigger] b[i]) || b[i] == '%',
{
    law_trimming_takes_white_space_alone(field);
    let t = trimmed(field);
    let (a, b) = choose|a: Seq<char>, b: Seq<char>| #[trigger]
        (a + t + b) == field && white(a) && white(b);
    lemma_trailing_cut(t, '%');
    let u = without_trailing(t, '%');
    let marks = t.skip(u.len() as int);
    law_trimming_takes_white_space_alone(u);
    let (c, d) = choose|c: Seq<char>, d: Seq<char>| #[trigger]
        (c + trimmed(u) + d) == u && white(c) && white(d);
    let front = a + c;
    let back = d + marks + b;
    let p = percent_text(field);
    assert(t =~= u + marks);
    assert(field == a + (c + p + d + marks) + b);
    assert(front + p + back =~= a + (c + p + d + marks) + b);
    assert forall|i: int| 0 <= i < front.len() implies is_white_space(#[trigger] front[i]) by {
        if i < a.len() {
            assert(is_white_space(a[i]));
        } else {
            assert(is_white_space(c[i - a.len()]));
        }
    }
    assert forall|i: int| 0 <= i < back.len() implies is_white_space(#[trigger] back[i]) || back[i]
        == '%' by {
        if i < d.len() {
            assert(is_white_space(d[i]));
        } else if i < d.len() + marks.len() {
            assert(marks[i - d.len()] == '%');
        } else {
            assert(is_white_space(b[i - d.len() - marks.len()]));
        }
    }
}

/// What is cut off at the end is the one character alone.
proof fn lemma_trailing_cut(s: Seq<char>, c: char)
    ensures
        without_trailing(s, c).len() <= s.len(),
        without_trailing(s, c) == s.take(without_trailing(s, c).len() as int),
        forall|i: int|
            0 <= i < s.skip(without_trailing(s, c).len() as int).len() ==> #[trigger] s.skip(
                without_trailing(s, c).len() as int,
            )[i] == c,
    decreases s.len(),
{
    if s.len() > 0 && s.last() == c {
        let r = s.drop_last();
        lemma_trailing_cut(r, c);
        let n = without_trailing(s, c).len() as int;
        assert(r.take(n) =~= s.take(n));
        assert forall|i: int| 0 <= i < s.skip(n).len() implies #[trigger] s.skip(n)[i] == c by {
            if i < r.skip(n).len() {
                assert(r.skip(n)[i] == s.skip(n)[i]);
            }
        }
    } else {
        assert(s.take(s.len() as int) =~= s);
    }
}

/// A line is judged by what stands between its bars: the first field has to be a percentage, the
/// second is the speed and the third the time left.
pub proof fn law_lines_are_judged_field_by_field(rest: Seq<char>)
    ensures
        ({
            let f = fields(rest, '|');
            let p = progress_of("download:"@ + rest);
            &&& p is Some <==> is_percent_text(percent_text(f[0]))
            &&& p matches Some(x) ==> x.percent == percent_text(f[0])
            &&& p matches Some(x) ==> x.speed == (if f.len() > 1 {
                clean_text(trimmed(f[1]))
            } else {
                "—"@
            })
            &&& p matches Some(x) ==> x.eta == (if f.len() > 2 {
                clean_text(trimmed(f[2]))
            } else {
                "—"@
            })
        }),
{
    lemma_after_head(rest);
}

/// A snapshot comes from a line that the template began, and from no other one.
pub proof fn law_other_lines_are_no_snapshots(line: Seq<char>)
    ensures
        progress_of(line) is Some ==> exists|rest: Seq<char>| line == #[trigger] ("download:"@
            + rest),
{
    law_beginnings(line, "download:"@);
}

/// A field is shown as it is, but for an empty one and one that says that nothing is available.
pub proof fn law_fields_are_shown_as_they_are(s: Seq<char>)
    ensures
        clean_text(Seq::empty()) == "—"@,
        s.len() == 3 && (s[0] == 'n' || s[0] == 'N') && s[1] == '/' && (s[2] == 'a' || s[2] == 'A')
            ==> clean_text(s) == "—"@,
        s.len() > 0 && !(s.len() == 3 && (s[0] == 'n' || s[0] == 'N') && s[1] == '/' && (s[2] == 'a'
            || s[2] == 'A')) ==> clean_text(s) == s,
{
    reveal_strlit("n/a");
    law_case_is_that_of_ascii_letters(s, "n/a"@);
    if s.len() == 3 && (s[0] == 'n' || s[0] == 'N') && s[1] == '/' && (s[2] == 'a' || s[2] == 'A') {
        assert(same_but_case(s, "n/a"@));
    }
    if same_but_case(s, "n/a"@) {
        assert(s.len() == 3);
        assert(s[0] == s[0] && s[1] == s[1] && s[2] == s[2]);
    }
}

// ---- percentages -----------------------------------------------------------

/// Every decimal number is a percentage: digits, with a point among, before or behind them, with
/// an exponent, with a sign.
pub proof fn law_decimal_numbers_are_percentages(
    a: Seq<char>,
    b: Seq<char>,
    x: Seq<char>,
    sign: char,
    e: char,
)
    requires
        all_digits(a),
        all_digits(b),
        all_digits(x),
        x.len() > 0,
        a.len() + b.len() > 0,
        sign == '+' || sign == '-',
        e == 'e' || e == 'E',
    ensures
        is_percent_text(a + seq!['.'] + b),
        is_percent_text(seq![sign] + (a + seq!['.'] + b)),
        a.len() > 0 ==> is_percent_text(a),
        a.len() > 0 ==> is_percent_text(seq![sign] + a),
        is_percent_text(a + seq!['.'] + b + seq![e] + x),
        is_percent_text(a + seq!['.'] + b + seq![e] + (seq![sign] + x)),
        a.len() > 0 ==> is_percent_text(a + seq![e] + x),
{
    let m = a + seq!['.'] + b;
    let k = a.len() as int;
    assert(m[k] == '.');
    assert(m.take(k) =~= a);
    assert(m.skip(k + 1) =~= b);
    assert(is_mantissa(m));
    lemma_number_is_percent(m, sign);
    lemma_exponent(m, e, x);
    lemma_number_is_percent(m + seq![e] + x, sign);
    let sx = seq![sign] + x;
    assert(sx.drop_first() =~= x);
    lemma_exponent(m, e, sx);
    lemma_number_is_percent(m + seq![e] + sx, sign);
    if a.len() > 0 {
        lemma_number_is_percent(a, sign);
        lemma_exponent(a, e, x);
        lemma_number_is_percent(a + seq![e] + x, sign);
    }
}

/// A mantissa with an exponent is a number.
proof fn lemma_exponent(m: Seq<char>, e: char, x: Seq<char>)
    requires
        is_mantissa(m),
        e == 'e' || e == 'E',
        without_sign(x).len() > 0,
        all_digits(without_sign(x)),
    ensures
        is_number(m + seq![e] + x),
{
    let n = m + seq![e] + x;
    let k = m.len() as int;
    assert(n[k] == e);
    assert(n.take(k) =~= m);
    assert(n.skip(k + 1) =~= x);
}

/// A decimal number is a percentage, with a sign and without.
proof fn lemma_number_is_percent(n: Seq<char>, sign: char)
    requires
        is_number(n),
        sign == '+' || sign == '-',
    ensures
        is_percent_text(n),
        is_percent_text(seq![sign] + n),
{
    reveal_strlit("nan");
    lemma_number_start(n);
    assert((seq![sign] + n).drop_first() =~= n);
    assert(without_sign(n) == n);
    assert(without_sign(seq![sign] + n) == n);
    law_case_is_that_of_ascii_letters(n, "nan"@);
    assert(n[0] == n[0]);
}

/// A decimal number begins with a digit or a point.
proof fn lemma_number_start(n: Seq<char>)
    requires
        is_number(n),
    ensures
        n.len() > 0,
        is_digit(n[0]) || n[0] == '.',
{
    if is_mantissa(n) {
        lemma_mantissa_start(n);
    } else {
        let k = choose|k: int|
            0 <= k < n.len() && (#[trigger] n[k] == 'e' || n[k] == 'E') && is_mantissa(n.take(k))
                && is_exponent(n.skip(k + 1));
        lemma_mantissa_start(n.take(k));
        assert(n.take(k)[0] == n[0]);
    }
}

/// So does what comes before its exponent.
proof fn lemma_mantissa_start(m: Seq<char>)
    requires
        is_mantissa(m),
    ensures
        m.len() > 0,
        is_digit(m[0]) || m[0] == '.',
{
    if all_digits(m) {
        assert(is_digit(m[0]));
    } else {
        let k = choose|k: int|
            0 <= k < m.len() && #[trigger] m[k] == '.' && all_digits(m.take(k)) && all_digits(
                m.skip(k + 1),
            );
        if k > 0 {
            assert(is_digit(m.take(k)[0]));
        }
    }
}

/// Whether a text is made of a sign, digits, a point, digits, and an exponent, each of them where
/// it is given.
pub open spec fn is_made_of(
    s: Seq<char>,
    sign: Seq<char>,
    a: Seq<char>,
    point: Seq<char>,
    b: Seq<char>,
    e: Seq<char>,
    x: Seq<char>,
) -> bool {
    &&& s == sign + a + point + b + e + x
    &&& sign.len() == 0 || sign == seq!['+'] || sign == seq!['-']
    &&& all_digits(a) && all_digits(b) && all_digits(x)
    &&& a.len() + b.len() > 0
    &&& point.len() == 0 && b.len() == 0 || point == seq!['.']
    &&& e.len() == 0 && x.len() == 0 || x.len() > 0 && 1 <= e.len() <= 2 && (e[0] == 'e' || e[0]
        == 'E') && (e.len() == 2 ==> e[1] == '+' || e[1] == '-')
}

/// Nothing but a decimal number, or the name of what is beyond every number, is a percentage.
pub proof fn law_only_numbers_are_percentages(s: Seq<char>)
    requires
        is_percent_text(s),
        !same_but_case(without_sign(s), "inf"@),
        !same_but_case(without_sign(s), "infinity"@),
    ensures
        exists|
            sign: Seq<char>,
            a: Seq<char>,
            point: Seq<char>,
            b: Seq<char>,
            e: Seq<char>,
            x: Seq<char>,
        | is_made_of(s, sign, a, point, b, e, x),
{
    let u = without_sign(s);
    let sign = s.take(s.len() - u.len());
    assert(s =~= sign + u);
    assert(sign.len() == 0 || sign =~= seq!['+'] || sign =~= seq!['-']);
    let (a, point, b, e, x) = lemma_number_parts(u);
    lemma_regroup(sign, a, point, b, e, x);
    assert(is_made_of(s, sign, a, point, b, e, x));
}

/// Texts put together one by one, or the first to the rest.
proof fn lemma_regroup(
    sign: Seq<char>,
    a: Seq<char>,
    point: Seq<char>,
    b: Seq<char>,
    e: Seq<char>,
    x: Seq<char>,
)
    ensures
        sign + (a + point + b + e + x) == sign + a + point + b + e + x,
{
    assert(sign + (a + point + b + e + x) =~= sign + a + point + b + e + x);
}

/// The parts of a decimal number.
proof fn lemma_number_parts(u: Seq<char>) -> (r: (
    Seq<char>,
    Seq<char>,
    Seq<char>,
    Seq<char>,
    Seq<char>,
))
    requires
        is_number(u),
    ensures
        u == r.0 + r.1 + r.2 + r.3 + r.4,
        all_digits(r.0) && all_digits(r.2) && all_digits(r.4),
        r.0.len() + r.2.len() > 0,
        r.1.len() == 0 && r.2.len() == 0 || r.1 == seq!['.'],
        r.3.len() == 0 && r.4.len() == 0 || r.4.len() > 0 && 1 <= r.3.len() <= 2 && (r.3[0] == 'e'
            || r.3[0] == 'E') && (r.3.len() == 2 ==> r.3[1] == '+' || r.3[1] == '-'),
{
    let none = Seq::<char>::empty();
    if is_mantissa(u) {
        let (a, point, b) = lemma_mantissa_parts(u);
        assert(u + none + none =~= u);
        (a, point, b, none, none)
    } else {
        let k = choose|k: int|
            0 <= k < u.len() && (#[trigger] u[k] == 'e' || u[k] == 'E') && is_mantissa(u.take(k))
                && is_exponent(u.skip(k + 1));
        let m = u.take(k);
        let (a, point, b) = lemma_mantissa_parts(m);
        let tail = u.skip(k + 1);
        let x = without_sign(tail);
        let s = tail.take(tail.len() - x.len());
        let e = seq![u[k]] + s;
        assert(tail =~= s + x);
        assert(u =~= m + e + x);
        (a, point, b, e, x)
    }
}

/// The parts of what comes before an exponent.
proof fn lemma_mantissa_parts(m: Seq<char>) -> (r: (Seq<char>, Seq<char>, Seq<char>))
    requires
        is_mantissa(m),
    ensures
        m == r.0 + r.1 + r.2,
        all_digits(r.0) && all_digits(r.2),
        r.0.len() + r.2.len() > 0,
        r.1.len() == 0 && r.2.len() == 0 || r.1 == seq!['.'],
{
    let none = Seq::<char>::empty();
    if m.len() > 0 && all_digits(m) {
        assert(m =~= m + none + none);
        (m, none, none)
    } else {
        let k = choose|k: int|
            0 <= k < m.len() && #[trigger] m[k] == '.' && all_digits(m.take(k)) && all_digits(
                m.skip(k + 1),
            );
        assert(m =~= m.take(k) + seq!['.'] + m.skip(k + 1));
        (m.take(k), seq!['.'], m.skip(k + 1))
    }
}

/// What is beyond every number has two names, in any case and with a sign or without.
pub proof fn law_infinity_is_a_percentage(name: Seq<char>, sign: char)
    requires
        same_but_case(name, "inf"@) || same_but_case(name, "infinity"@),
        sign == '+' || sign == '-',
    ensures
        is_percent_text(name),
        is_percent_text(seq![sign] + name),
{
    reveal_strlit("inf");
    reveal_strlit("infinity");
    reveal_strlit("nan");
    law_case_is_that_of_ascii_letters(name, "inf"@);
    law_case_is_that_of_ascii_letters(name, "infinity"@);
    law_case_is_that_of_ascii_letters(name, "nan"@);
    assert(name[0] == name[0]);
    assert(name[0] == 'i' || name[0] == 'I');
    assert((seq![sign] + name).drop_first() =~= name);
}

/// A percentage holds a digit, or it is the name of what is beyond every number.
pub proof fn law_percentages_hold_a_digit(s: Seq<char>)
    requires
        is_percent_text(s),
    ensures
        (exists|i: int| 0 <= i < s.len() && '0' <= #[trigger] s[i] <= '9') || same_but_case(
            without_sign(s),
            "inf"@,
        ) || same_but_case(without_sign(s), "infinity"@),
        forall|i: int| 0 <= i < s.len() ==> float_char(#[trigger] s[i]),
{
    lemma_float_chars(s);
    let u = without_sign(s);
    if is_number(u) {
        lemma_number_digit(u);
        let i = choose|i: int| 0 <= i < u.len() && '0' <= #[trigger] u[i] <= '9';
        if u.len() < s.len() {
            assert(s[i + 1] == u[i]);
        } else {
            assert(s[i] == u[i]);
        }
    }
}

/// A decimal number holds a digit.
proof fn lemma_number_digit(n: Seq<char>)
    requires
        is_number(n),
    ensures
        exists|i: int| 0 <= i < n.len() && '0' <= #[trigger] n[i] <= '9',
{
    if is_mantissa(n) {
        lemma_mantissa_digit(n);
    } else {
        let k = choose|k: int|
            0 <= k < n.len() && (#[trigger] n[k] == 'e' || n[k] == 'E') && is_mantissa(n.take(k))
                && is_exponent(n.skip(k + 1));
        let m = n.take(k);
        lemma_mantissa_digit(m);
        let i = choose|i: int| 0 <= i < m.len() && '0' <= #[trigger] m[i] <= '9';
        assert(n[i] == m[i]);
    }
}

/// So does what comes before its exponent.
proof fn lemma_mantissa_digit(m: Seq<char>)
    requires
        is_mantissa(m),
    ensures
        exists|i: int| 0 <= i < m.len() && '0' <= #[trigger] m[i] <= '9',
{
    if all_digits(m) {
        assert(is_digit(m[0]));
    } else {
        let k = choose|k: int|
            0 <= k < m.len() && #[trigger] m[k] == '.' && all_digits(m.take(k)) && all_digits(
                m.skip(k + 1),
            );
        if k > 0 {
            assert(is_digit(m.take(k)[0]));
            assert(m[0] == m.take(k)[0]);
        } else {
            assert(is_digit(m.skip(1)[0]));
            assert(m[1] == m.skip(1)[0]);
        }
    }
}

// ---- reading lines ---------------------------------------------------------

/// Blanks in front go away.
proof fn lemma_pad_goes(pad: Seq<char>, s: Seq<char>)
    requires
        blank(pad),
        s.len() > 0,
        !is_white_space(s[0]),
    ensures
        trim_start(pad + s) == s,
    decreases pad.len(),
{
    if pad.len() > 0 {
        assert(is_white_space(pad[0]));
        assert((pad + s).drop_first() =~= pad.drop_first() + s);
        assert forall|i: int| 0 <= i < pad.drop_first().len() implies is_white_space(
            #[trigger] pad.drop_first()[i],
        ) by {
            assert(is_white_space(pad[i + 1]));
        }
        lemma_pad_goes(pad.drop_first(), s);
    } else {
        assert(pad + s =~= s);
    }
}

/// What a floating-point number is written with.
pub open spec fn float_char(c: char) -> bool {
    is_digit(c) || c == '.' || c == '+' || c == '-' || 'a' <= c <= 'z' || 'A' <= c <= 'Z'
}

/// A floating-point number is written with those characters alone.
proof fn lemma_float_chars(s: Seq<char>)
    requires
        is_float_text(s),
    ensures
        s.len() > 0,
        forall|i: int| 0 <= i < s.len() ==> float_char(#[trigger] s[i]),
{
    reveal_strlit("inf");
    reveal_strlit("infinity");
    reveal_strlit("nan");
    let u = without_sign(s);
    if is_number(u) {
        lemma_number_chars(u);
    } else if same_but_case(u, "inf"@) {
        lemma_word_chars(u, "inf"@);
    } else if same_but_case(u, "infinity"@) {
        lemma_word_chars(u, "infinity"@);
    } else {
        lemma_word_chars(u, "nan"@);
    }
    if u.len() < s.len() {
        assert forall|i: int| 0 <= i < s.len() implies float_char(#[trigger] s[i]) by {
            if i > 0 {
                assert(float_char(u[i - 1]));
            }
        }
    }
}

/// The same for the names.
proof fn lemma_word_chars(u: Seq<char>, w: Seq<char>)
    requires
        same_but_case(u, w),
        forall|i: int| 0 <= i < w.len() ==> 'a' <= #[trigger] w[i] <= 'z',
    ensures
        u.len() == w.len(),
        forall|i: int| 0 <= i < u.len() ==> float_char(#[trigger] u[i]),
{
    let lu = u.map_values(|c: char| ascii_lower(c));
    let lw = w.map_values(|c: char| ascii_lower(c));
    assert(lu.len() == lw.len());
    assert forall|i: int| 0 <= i < u.len() implies float_char(#[trigger] u[i]) by {
        assert(lu[i] == lw[i]);
        assert('a' <= w[i] <= 'z');
    }
}

/// The same for decimal numbers.
proof fn lemma_number_chars(u: Seq<char>)
    requires
        is_number(u),
    ensures
        u.len() > 0,
        forall|i: int| 0 <= i < u.len() ==> float_char(#[trigger] u[i]),
{
    if is_mantissa(u) {
        lemma_mantissa_chars(u);
    } else {
        let k = choose|k: int|
            0 <= k < u.len() && (#[trigger] u[k] == 'e' || u[k] == 'E') && is_mantissa(u.take(k))
                && is_exponent(u.skip(k + 1));
        let m = u.take(k);
        let x = u.skip(k + 1);
        let d = without_sign(x);
        lemma_mantissa_chars(m);
        assert forall|i: int| 0 <= i < u.len() implies float_char(#[trigger] u[i]) by {
            if i < k {
                assert(float_char(m[i]));
            } else if i > k {
                assert(x[i - k - 1] == u[i]);
                if d.len() == x.len() {
                    assert(is_digit(d[i - k - 1]));
                } else if i > k + 1 {
                    assert(is_digit(d[i - k - 2]));
                }
            }
        }
    }
}

/// The same for what comes before the exponent.
proof fn lemma_mantissa_chars(m: Seq<char>)
    requires
        is_mantissa(m),
    ensures
        m.len() > 0,
        forall|i: int| 0 <= i < m.len() ==> float_char(#[trigger] m[i]),
{
    if !all_digits(m) {
        let k = choose|k: int|
            0 <= k < m.len() && #[trigger] m[k] == '.' && all_digits(m.take(k)) && all_digits(
                m.skip(k + 1),
            );
        assert forall|i: int| 0 <= i < m.len() implies float_char(#[trigger] m[i]) by {
            if i < k {
                assert(is_digit(m.take(k)[i]));
            } else if i > k {
                assert(is_digit(m.skip(k + 1)[i - k - 1]));
            }
        }
    }
}

/// Every snapshot has a percentage that is a number: a line without one is no snapshot.
pub proof fn law_snapshots_have_a_percentage(line: Seq<char>)
    ensures
        progress_of(line) matches Some(p) ==> is_float_text(p.percent) && !same_but_case(
            without_sign(p.percent),
            "nan"@,
        ),
{
}

/// A line that the progress template began is never taken for the path of the file, readable
/// or not.
pub proof fn law_progress_lines_are_no_paths(printed: Option<Seq<char>>, line: Seq<char>)
    requires
        begins(line, "download:"@),
    ensures
        printed_after(printed, line) == printed,
{
    reveal_strlit("download:");
    let head = "download:"@;
    assert(line.subrange(0, head.len() as int)[0] == line[0]);
    assert(line[0] == 'd');
    assert(trim_start(line) == line);
    lemma_trim_end(line);
    if trimmed(line).len() > 0 {
        assert(trimmed(line)[0] == line[0]);
    }
}

} // verus!
