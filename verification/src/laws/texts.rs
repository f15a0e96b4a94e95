//! What holds of the handling of texts, whatever they are used for.

use vstd::prelude::*;

use crate::config::env_number;
use crate::text::{
    ascii_lower, begins, digits_value, ends, fields, first_value, int_text, is_digit,
    is_white_space, lemma_nat_text,
    lemma_trim_end, nat_text, occurs, same_but_case, stands_at, trim_end, trim_start, trimmed,
    unsigned_value, without_plus,
};

verus! {

// ---- trimming --------------------------------------------------------------

/// Whether a text is white space alone.
pub open spec fn white(s: Seq<char>) -> bool {
    forall|i: int| 0 <= i < s.len() ==> is_white_space(#[trigger] s[i])
}

/// Trimming takes white space away at both ends and nothing else.
pub proof fn law_trimming_takes_white_space_alone(s: Seq<char>)
    ensures
        exists|a: Seq<char>, b: Seq<char>| #[trigger]
            (a + trimmed(s) + b) == s && white(a) && white(b),
{
    lemma_start_cut(s);
    let t = trim_start(s);
    let a = s.take(s.len() - t.len());
    lemma_end_cut(t);
    let b = t.skip(trim_end(t).len() as int);
    lemma_trim_end(t);
    assert(a + trimmed(s) + b =~= s);
}

/// What is cut off at the start.
proof fn lemma_start_cut(s: Seq<char>)
    ensures
        trim_start(s).len() <= s.len(),
        trim_start(s) == s.skip(s.len() - trim_start(s).len()),
        white(s.take(s.len() - trim_start(s).len())),
    decreases s.len(),
{
    if s.len() > 0 && is_white_space(s[0]) {
        let r = s.drop_first();
        lemma_start_cut(r);
        let k = s.len() - trim_start(s).len();
        assert(r.skip(k - 1) =~= s.skip(k));
        assert forall|i: int| 0 <= i < s.take(k).len() implies is_white_space(
            #[trigger] s.take(k)[i],
        ) by {
            if i > 0 {
                assert(r.take(k - 1)[i - 1] == s.take(k)[i]);
            }
        }
    } else {
        assert(s.skip(0) =~= s);
    }
}

/// What is cut off at the end.
proof fn lemma_end_cut(s: Seq<char>)
    ensures
        trim_end(s).len() <= s.len(),
        white(s.skip(trim_end(s).len() as int)),
    decreases s.len(),
{
    if s.len() > 0 && is_white_space(s.last()) {
        let r = s.drop_last();
        lemma_end_cut(r);
        let n = trim_end(s).len() as int;
        assert forall|i: int| 0 <= i < s.skip(n).len() implies is_white_space(
            #[trigger] s.skip(n)[i],
        ) by {
            if i < r.skip(n).len() {
                assert(r.skip(n)[i] == s.skip(n)[i]);
            }
        }
    }
}

// ---- searching -------------------------------------------------------------

/// A text begins with another one exactly when something follows that one to make it up.
pub proof fn law_beginnings(s: Seq<char>, p: Seq<char>)
    ensures
        begins(s, p) <==> exists|rest: Seq<char>| s == #[trigger] (p + rest),
{
    if begins(s, p) {
        assert(s =~= p + s.skip(p.len() as int));
    }
    if exists|rest: Seq<char>| s == #[trigger] (p + rest) {
        let rest = choose|rest: Seq<char>| s == #[trigger] (p + rest);
        assert(s.subrange(0, p.len() as int) =~= p);
    }
}

/// A text ends with another one exactly when something comes before that one to make it up.
pub proof fn law_endings(s: Seq<char>, p: Seq<char>)
    ensures
        ends(s, p) <==> exists|head: Seq<char>| s == #[trigger] (head + p),
{
    let n = s.len() - p.len();
    if ends(s, p) {
        assert(s =~= s.take(n) + p) by {
            assert forall|i: int| n <= i < s.len() implies s[i] == p[i - n] by {
                assert(s.subrange(n, n + p.len())[i - n] == s[i]);
            }
        }
    }
    if exists|head: Seq<char>| s == #[trigger] (head + p) {
        let head = choose|head: Seq<char>| s == #[trigger] (head + p);
        assert(s.subrange(n, n + p.len()) =~= p);
    }
}

/// A text occurs in another one exactly when that one is made up of it and what is around it.
pub proof fn law_occurrences(s: Seq<char>, p: Seq<char>)
    ensures
        occurs(s, p) <==> exists|a: Seq<char>, b: Seq<char>| s == #[trigger] (a + p + b),
{
    if occurs(s, p) {
        let i = choose|i: int| stands_at(s, p, i);
        assert(s =~= s.take(i) + p + s.skip(i + p.len())) by {
            assert forall|k: int| i <= k < i + p.len() implies s[k] == p[k - i] by {
                assert(s.subrange(i, i + p.len())[k - i] == s[k]);
            }
        }
    }
    if exists|a: Seq<char>, b: Seq<char>| s == #[trigger] (a + p + b) {
        let (a, b) = choose|a: Seq<char>, b: Seq<char>| s == #[trigger] (a + p + b);
        let i = a.len() as int;
        assert(s.subrange(i, i + p.len()) =~= p);
        assert(stands_at(s, p, i));
    }
}

// ---- letter case -----------------------------------------------------------

/// Two texts are the same but for case exactly when they are as long and each character is the
/// same as the other's, or the same ASCII letter, small or capital.
pub proof fn law_case_is_that_of_ascii_letters(a: Seq<char>, b: Seq<char>)
    ensures
        same_but_case(a, b) <==> a.len() == b.len() && forall|i: int|
            0 <= i < a.len() ==> {
                ||| #[trigger] a[i] == b[i]
                ||| 'A' <= a[i] <= 'Z' && b[i] as int == a[i] as int + 32
                ||| 'A' <= b[i] <= 'Z' && a[i] as int == b[i] as int + 32
            },
{
    let la = a.map_values(|c: char| ascii_lower(c));
    let lb = b.map_values(|c: char| ascii_lower(c));
    assert(la.len() == a.len() && lb.len() == b.len());
    if same_but_case(a, b) {
        assert forall|i: int| 0 <= i < a.len() implies {
            ||| #[trigger] a[i] == b[i]
            ||| 'A' <= a[i] <= 'Z' && b[i] as int == a[i] as int + 32
            ||| 'A' <= b[i] <= 'Z' && a[i] as int == b[i] as int + 32
        } by {
            assert(la[i] == lb[i]);
        }
    } else if a.len() == b.len() {
        if forall|i: int|
            0 <= i < a.len() ==> {
                ||| #[trigger] a[i] == b[i]
                ||| 'A' <= a[i] <= 'Z' && b[i] as int == a[i] as int + 32
                ||| 'A' <= b[i] <= 'Z' && a[i] as int == b[i] as int + 32
            } {
            assert forall|i: int| 0 <= i < la.len() implies la[i] == lb[i] by {
                assert(a[i] == a[i]);
            }
            assert(la =~= lb);
        }
    }
}

// ---- splitting -------------------------------------------------------------

/// Fields with the separator between them.
pub open spec fn rejoined(f: Seq<Seq<char>>, sep: char) -> Seq<char>
    decreases f.len(),
{
    if f.len() == 0 {
        Seq::empty()
    } else if f.len() == 1 {
        f[0]
    } else {
        rejoined(f.drop_last(), sep) + seq![sep] + f.last()
    }
}

/// The fields of a text hold no separator, and with separators between them they are the text.
pub proof fn law_fields_make_up_the_text(s: Seq<char>, sep: char)
    ensures
        fields(s, sep).len() > 0,
        rejoined(fields(s, sep), sep) == s,
        forall|i: int, j: int|
            0 <= i < fields(s, sep).len() && 0 <= j < fields(s, sep)[i].len()
                ==> #[trigger] fields(s, sep)[i][j] != sep,
    decreases s.len(),
{
    let f = fields(s, sep);
    if s.len() == 0 {
        assert(s =~= Seq::empty());
    } else {
        let before = fields(s.drop_last(), sep);
        law_fields_make_up_the_text(s.drop_last(), sep);
        assert(s =~= s.drop_last().push(s.last()));
        if s.last() == sep {
            assert(f.drop_last() =~= before);
            assert(rejoined(f, sep) =~= s);
        } else {
            let grown = before.last().push(s.last());
            assert(f.last() == grown);
            assert(f.drop_last() =~= before.drop_last());
            assert(rejoined(f, sep) =~= s);
            assert forall|i: int, j: int|
                0 <= i < f.len() && 0 <= j < f[i].len() implies #[trigger] f[i][j] != sep by {
                if i < f.len() - 1 {
                    assert(f[i] == before[i]);
                    assert(before[i][j] != sep);
                } else if j < before.last().len() {
                    assert(before[i][j] != sep);
                }
            }
        }
    }
}

// ---- looking up ------------------------------------------------------------

/// A key is found at its first pair.
pub proof fn law_first_pair_counts<V>(pairs: Seq<(Seq<char>, V)>, i: int)
    requires
        0 <= i < pairs.len(),
        forall|j: int| 0 <= j < i ==> (#[trigger] pairs[j]).0 != pairs[i].0,
    ensures
        first_value(pairs, pairs[i].0) == Some(pairs[i].1),
    decreases pairs.len(),
{
    if i > 0 {
        let rest = pairs.drop_first();
        assert(pairs[0].0 != pairs[i].0);
        assert(rest[i - 1] == pairs[i]);
        assert forall|j: int| 0 <= j < i - 1 implies (#[trigger] rest[j]).0 != rest[i - 1].0 by {
            assert(rest[j] == pairs[j + 1]);
        }
        law_first_pair_counts(rest, i - 1);
    }
}

/// A key without a pair is not found.
pub proof fn law_missing_key_has_no_value<V>(pairs: Seq<(Seq<char>, V)>, key: Seq<char>)
    requires
        forall|j: int| 0 <= j < pairs.len() ==> (#[trigger] pairs[j]).0 != key,
    ensures
        first_value(pairs, key) is None,
    decreases pairs.len(),
{
    if pairs.len() > 0 {
        let rest = pairs.drop_first();
        assert(pairs[0].0 != key);
        assert forall|j: int| 0 <= j < rest.len() implies (#[trigger] rest[j]).0 != key by {
            assert(rest[j] == pairs[j + 1]);
        }
        law_missing_key_has_no_value(rest, key);
    }
}

// ---- numbers ---------------------------------------------------------------

/// The decimal digits in order.
pub open spec fn decimal_digits() -> Seq<char> {
    seq!['0', '1', '2', '3', '4', '5', '6', '7', '8', '9']
}

/// A number is written digit by digit, without zeros in front, behind a minus sign where it is
/// negative.
pub proof fn law_numbers_are_written_in_decimal(n: nat, d: int)
    requires
        0 <= d < 10,
    ensures
        nat_text(d as nat) == seq![decimal_digits()[d]],
        n > 0 ==> nat_text((10 * n + d) as nat) == nat_text(n).push(decimal_digits()[d]),
        int_text(n as int) == nat_text(n),
        n > 0 ==> int_text(-(n as int)) == seq!['-'] + nat_text(n),
{
    assert((10 * n + d) / 10 == n);
    assert((10 * n + d) % 10 == d);
}

/// A number is read digit by digit.
pub proof fn law_numbers_are_read_in_decimal(s: Seq<char>, d: int)
    requires
        0 <= d < 10,
    ensures
        digits_value(Seq::<char>::empty()) == 0,
        digits_value(s.push(decimal_digits()[d])) == 10 * digits_value(s) + d,
{
    let t = s.push(decimal_digits()[d]);
    assert(t.drop_last() =~= s);
}

/// What reads as an unsigned number: one or more digits behind at most one plus sign, writing
/// no more than the limit.
pub proof fn law_unsigned_numbers(s: Seq<char>, max: nat)
    ensures
        s.len() > 0 && (forall|i: int| 0 <= i < s.len() ==> '0' <= #[trigger] s[i] <= '9')
            && digits_value(s) <= max ==> unsigned_value(s, max) == Some(digits_value(s))
            && unsigned_value(seq!['+'] + s, max) == Some(digits_value(s)),
        unsigned_value(s, max) matches Some(n) ==> n <= max && exists|d: Seq<char>|
            (s == d || s == seq!['+'] + d) && d.len() > 0 && digits_value(d) == n && forall|
                i: int,
            |
                0 <= i < d.len() ==> '0' <= #[trigger] d[i] <= '9',
{
    if s.len() > 0 && (forall|i: int| 0 <= i < s.len() ==> '0' <= #[trigger] s[i] <= '9') {
        assert('0' <= s[0] <= '9');
        assert((seq!['+'] + s).drop_first() =~= s);
        assert(forall|i: int| 0 <= i < s.len() ==> is_digit(#[trigger] s[i]));
    }
    if let Some(n) = unsigned_value(s, max) {
        let d = without_plus(s);
        assert(s == d || s =~= seq!['+'] + d);
        assert forall|i: int| 0 <= i < d.len() implies '0' <= #[trigger] d[i] <= '9' by {
            assert(is_digit(d[i]));
        }
    }
}

/// A variable that holds a number, blanks around it aside, stands for that number; a missing
/// one, and one that holds no number within the limit, for the default.
pub proof fn law_number_variables(
    n: nat,
    before: Seq<char>,
    after: Seq<char>,
    max: nat,
    default: nat,
    other: Seq<char>,
)
    requires
        n <= max,
        white(before),
        white(after),
        unsigned_value(trimmed(other), max) is None,
    ensures
        env_number(Some(before + nat_text(n) + after), max, default) == n,
        env_number(None, max, default) == default,
        env_number(Some(other), max, default) == default,
{
    lemma_nat_text(n);
    let s = nat_text(n);
    assert(is_digit(s[0]) && is_digit(s[s.len() - 1]));
    lemma_padded(before, s, after);
    assert(is_digit(nat_text(n)[0]));
}

/// Blanks around a text are what trimming takes away.
pub proof fn lemma_padded(before: Seq<char>, s: Seq<char>, after: Seq<char>)
    requires
        white(before),
        white(after),
        s.len() > 0,
        !is_white_space(s[0]),
        !is_white_space(s.last()),
    ensures
        trimmed(before + s + after) == s,
{
    lemma_padded_start(before, s + after);
    assert(before + (s + after) =~= before + s + after);
    lemma_padded_end(s, after);
}

/// Blanks in front of a text are what trimming takes away there.
proof fn lemma_padded_start(before: Seq<char>, s: Seq<char>)
    requires
        white(before),
        s.len() > 0,
        !is_white_space(s[0]),
    ensures
        trim_start(before + s) == s,
    decreases before.len(),
{
    if before.len() > 0 {
        assert(is_white_space(before[0]));
        let r = before.drop_first();
        assert((before + s).drop_first() =~= r + s);
        assert forall|i: int| 0 <= i < r.len() implies is_white_space(#[trigger] r[i]) by {
            assert(is_white_space(before[i + 1]));
        }
        lemma_padded_start(r, s);
    } else {
        assert(before + s =~= s);
    }
}

/// Blanks behind a text are what trimming takes away there.
proof fn lemma_padded_end(s: Seq<char>, after: Seq<char>)
    requires
        white(after),
        s.len() > 0,
        !is_white_space(s.last()),
    ensures
        trim_end(s + after) == s,
    decreases after.len(),
{
    if after.len() > 0 {
        assert(is_white_space(after[after.len() - 1]));
        let r = after.drop_last();
        assert((s + after).drop_last() =~= s + r);
        assert forall|i: int| 0 <= i < r.len() implies is_white_space(#[trigger] r[i]) by {
            assert(is_white_space(after[i]));
        }
        lemma_padded_end(s, r);
    } else {
        assert(s + after =~= s);
    }
}

} // verus!
