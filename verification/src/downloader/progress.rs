//! yt-dlp's progress lines and the bar drawn from them.

use vstd::prelude::*;

use crate::text::{
    all_digits, begins, chars_of, fields, is_digit, same_but_case, same_ignoring_case, split,
    strip_prefix, text_of, trim, trimmed, views,
};

verus! {

/// A single parsed progress snapshot from yt-dlp's `--progress-template` output.
#[derive(Debug, PartialEq)]
pub struct ProgressState {
    /// The percentage as yt-dlp wrote it, without blanks and percent sign. It reads as a
    /// floating-point number and is never the name of no number, so that it can be taken into
    /// the range from 0 to 100.
    pub percent: String,
    pub speed: String,
    pub eta: String,
}

/// A [`ProgressState`] with its texts as sequences of characters.
pub struct ProgressView {
    pub percent: Seq<char>,
    pub speed: Seq<char>,
    pub eta: Seq<char>,
}

impl View for ProgressState {
    type V = ProgressView;

    open spec fn view(&self) -> ProgressView {
        ProgressView { percent: self.percent@, speed: self.speed@, eta: self.eta@ }
    }
}

impl Clone for ProgressState {
    fn clone(&self) -> (r: Self)
        ensures
            r@ == self@,
    {
        ProgressState {
            percent: self.percent.clone(),
            speed: self.speed.clone(),
            eta: self.eta.clone(),
        }
    }
}

impl Default for ProgressState {
    fn default() -> (r: Self)
        ensures
            r@ == (ProgressView { percent: "0"@, speed: Seq::empty(), eta: Seq::empty() }),
    {
        ProgressState { percent: "0".to_owned(), speed: String::new(), eta: String::new() }
    }
}

// ---- floating-point literals -----------------------------------------------

/// `s` without one sign in front.
pub open spec fn without_sign(s: Seq<char>) -> Seq<char> {
    if s.len() > 0 && (s[0] == '+' || s[0] == '-') {
        s.drop_first()
    } else {
        s
    }
}

/// One or more digits, with at most one point before, among or behind them.
pub open spec fn is_mantissa(s: Seq<char>) -> bool {
    ||| s.len() > 0 && all_digits(s)
    ||| s.len() > 1 && exists|k: int|
        0 <= k < s.len() && #[trigger] s[k] == '.' && all_digits(s.take(k)) && all_digits(
            s.skip(k + 1),
        )
}

/// An exponent without its `e`: one or more digits behind an optional sign.
pub open spec fn is_exponent(s: Seq<char>) -> bool {
    without_sign(s).len() > 0 && all_digits(without_sign(s))
}

/// A decimal number without a sign, with or without an exponent.
pub open spec fn is_number(s: Seq<char>) -> bool {
    ||| is_mantissa(s)
    ||| exists|k: int|
        0 <= k < s.len() && (#[trigger] s[k] == 'e' || s[k] == 'E') && is_mantissa(s.take(k))
            && is_exponent(s.skip(k + 1))
}

/// What reads as a floating-point number: an optional sign, then a decimal number or one of
/// the names of what is no finite number.
pub open spec fn is_float_text(s: Seq<char>) -> bool {
    let u = without_sign(s);
    ||| is_number(u)
    ||| same_but_case(u, "inf"@)
    ||| same_but_case(u, "infinity"@)
    ||| same_but_case(u, "nan"@)
}

/// What reads as a percentage: a floating-point number, but not the name of no number.
pub open spec fn is_percent_text(s: Seq<char>) -> bool {
    is_float_text(s) && !same_but_case(without_sign(s), "nan"@)
}

/// Whether `v[from..to]` is made of digits alone.
fn digits_between(v: &Vec<char>, from: usize, to: usize) -> (r: bool)
    requires
        from <= to <= v@.len(),
    ensures
        r == all_digits(v@.subrange(from as int, to as int)),
{
    let ghost s = v@.subrange(from as int, to as int);
    let mut i: usize = from;
    while i < to
        invariant
            from <= i <= to <= v@.len(),
            s == v@.subrange(from as int, to as int),
            forall|j: int| 0 <= j < i - from ==> is_digit(#[trigger] s[j]),
        decreases to - i,
    {
        assert(s[i - from] == v@[i as int]);
        if !('0' <= v[i] && v[i] <= '9') {
            return false;
        }
        i = i + 1;
    }
    true
}

/// Where `v` after a sign in front begins.
fn sign_end(v: &Vec<char>, from: usize) -> (r: usize)
    requires
        from <= v@.len(),
    ensures
        from <= r <= v@.len(),
        v@.skip(r as int) == without_sign(v@.skip(from as int)),
{
    let ghost s = v@.skip(from as int);
    if from < v.len() {
        assert(s[0] == v@[from as int]);
        if v[from] == '+' || v[from] == '-' {
            assert(s.drop_first() =~= v@.skip(from + 1));
            return from + 1;
        }
    }
    from
}

/// Where the first of two characters stands in `v[from..to]`, or `to`.
fn find_either(v: &Vec<char>, from: usize, to: usize, a: char, b: char) -> (r: usize)
    requires
        from <= to <= v@.len(),
    ensures
        from <= r <= to,
        r < to ==> v@[r as int] == a || v@[r as int] == b,
        forall|j: int| from <= j < r ==> v@[j] != a && v@[j] != b,
{
    let mut i: usize = from;
    while i < to
        invariant
            from <= i <= to <= v@.len(),
            forall|j: int| from <= j < i ==> v@[j] != a && v@[j] != b,
        decreases to - i,
    {
        if v[i] == a || v[i] == b {
            return i;
        }
        i = i + 1;
    }
    to
}

/// Whether `v[from..to]` is a mantissa.
fn mantissa_between(v: &Vec<char>, from: usize, to: usize) -> (r: bool)
    requires
        from <= to <= v@.len(),
    ensures
        r == is_mantissa(v@.subrange(from as int, to as int)),
{
    let ghost s = v@.subrange(from as int, to as int);
    let p: usize = find_either(v, from, to, '.', '.');
    if p == to {
        assert(forall|k: int| 0 <= k < s.len() ==> #[trigger] s[k] == v@[from + k]);
        return from < to && digits_between(v, from, to);
    }
    proof {
        let k = p - from;
        assert(s[k] == '.');
        assert(!all_digits(s)) by {
            assert(!is_digit(s[k]));
        }
        assert(s.take(k) =~= v@.subrange(from as int, p as int));
        assert(s.skip(k + 1) =~= v@.subrange(p + 1, to as int));
        assert forall|j: int|
            0 <= j < s.len() && #[trigger] s[j] == '.' && all_digits(s.take(j)) && all_digits(
                s.skip(j + 1),
            ) implies j == k by {
            if j < k {
                assert(s[j] == v@[from + j]);
            } else if j > k {
                assert(s.take(j)[k] == '.');
                assert(!is_digit(s.take(j)[k]));
            }
        }
    }
    to - from > 1 && digits_between(v, from, p) && digits_between(v, p + 1, to)
}

/// Whether a text reads as a floating-point number.
pub fn reads_as_float(s: &str) -> (r: bool)
    ensures
        r == is_float_text(s@),
{
    let v = chars_of(s);
    assert(v@.skip(0) == v@);
    let from: usize = sign_end(&v, 0);
    let ghost u = v@.skip(from as int);
    let name = text_of(&v, from, v.len());
    assert(name@ =~= u);
    if same_ignoring_case(name.as_str(), "inf") || same_ignoring_case(name.as_str(), "infinity")
        || same_ignoring_case(name.as_str(), "nan") {
        return true;
    }
    let e: usize = find_either(&v, from, v.len(), 'e', 'E');
    if e == v.len() {
        assert(v@.subrange(from as int, e as int) =~= u);
        assert(forall|k: int| 0 <= k < u.len() ==> #[trigger] u[k] == v@[from + k]);
        return mantissa_between(&v, from, e);
    }
    proof {
        let k = e - from;
        assert(u[k] == v@[e as int]);
        assert(u.take(k) =~= v@.subrange(from as int, e as int));
        assert(u.skip(k + 1) =~= v@.skip(e + 1));
        lemma_mantissa_plain(u, k);
        assert forall|j: int|
            0 <= j < u.len() && (#[trigger] u[j] == 'e' || u[j] == 'E') && is_mantissa(
                u.take(j),
            ) implies j == k by {
            if j < k {
                assert(u[j] == v@[from + j]);
            } else if j > k {
                lemma_mantissa_plain(u.take(j), k);
            }
        }
    }
    let x: usize = sign_end(&v, e + 1);
    assert(v@.skip(x as int) =~= v@.subrange(x as int, v@.len() as int));
    mantissa_between(&v, from, e) && x < v.len() && digits_between(&v, x, v.len())
}

/// Whether a text reads as a percentage.
pub fn reads_as_percent(s: &str) -> (r: bool)
    ensures
        r == is_percent_text(s@),
{
    let v = chars_of(s);
    assert(v@.skip(0) == v@);
    let from: usize = sign_end(&v, 0);
    let name = text_of(&v, from, v.len());
    assert(name@ =~= without_sign(s@));
    reads_as_float(s) && !same_ignoring_case(name.as_str(), "nan")
}

/// A mantissa holds digits and points alone.
proof fn lemma_mantissa_plain(s: Seq<char>, k: int)
    requires
        0 <= k < s.len(),
        !is_digit(s[k]),
        s[k] != '.',
    ensures
        !is_mantissa(s),
{
    if exists|p: int|
        0 <= p < s.len() && #[trigger] s[p] == '.' && all_digits(s.take(p)) && all_digits(
            s.skip(p + 1),
        ) {
        let p = choose|p: int|
            0 <= p < s.len() && #[trigger] s[p] == '.' && all_digits(s.take(p)) && all_digits(
                s.skip(p + 1),
            );
        if k < p {
            assert(s.take(p)[k] == s[k]);
        } else {
            assert(s.skip(p + 1)[k - p - 1] == s[k]);
        }
    }
}

// ---- progress lines --------------------------------------------------------

/// `s` without the characters `c` at its end.
pub open spec fn without_trailing(s: Seq<char>, c: char) -> Seq<char>
    decreases s.len(),
{
    if s.len() > 0 && s.last() == c {
        without_trailing(s.drop_last(), c)
    } else {
        s
    }
}

/// Removes the characters `c` at the end of `s`.
fn trim_end_matches(s: &str, c: char) -> (r: String)
    ensures
        r@ == without_trailing(s@, c),
{
    let v = chars_of(s);
    let mut to: usize = v.len();
    assert(v@.take(to as int) == v@);
    while 0 < to && v[to - 1] == c
        invariant
            to <= v@.len(),
            v@ == s@,
            without_trailing(s@, c) == without_trailing(v@.take(to as int), c),
        decreases to,
    {
        assert(v@.take(to as int).drop_last() == v@.take(to - 1));
        to = to - 1;
    }
    assert(v@.take(to as int) == v@.subrange(0, to as int));
    text_of(&v, 0, to)
}

/// A field as it is shown: a dash where it is empty or not available.
pub open spec fn clean_text(s: Seq<char>) -> Seq<char> {
    if s.len() == 0 || same_but_case(s, "n/a"@) {
        "—"@
    } else {
        s
    }
}

/// A field as it is shown.
pub fn clean(s: &str) -> (r: String)
    ensures
        r@ == clean_text(s@),
{
    if s.is_empty() || same_ignoring_case(s, "n/a") {
        "—".to_owned()
    } else {
        s.to_owned()
    }
}

/// The `i`th field without blanks around it, or nothing where there are fewer.
pub open spec fn field_at(f: Seq<Seq<char>>, i: int) -> Seq<char> {
    if i < f.len() {
        trimmed(f[i])
    } else {
        Seq::empty()
    }
}

/// The number in a percentage, its sign and the blanks around it taken off.
pub open spec fn percent_text(field: Seq<char>) -> Seq<char> {
    trimmed(without_trailing(trimmed(field), '%'))
}

/// What a line emitted by the progress template says.
pub open spec fn progress_of(line: Seq<char>) -> Option<ProgressView> {
    let f = fields(line.skip("download:"@.len() as int), '|');
    if begins(line, "download:"@) && is_percent_text(percent_text(f[0])) {
        Some(
            ProgressView {
                percent: percent_text(f[0]),
                speed: clean_text(field_at(f, 1)),
                eta: clean_text(field_at(f, 2)),
            },
        )
    } else {
        None
    }
}

/// The view of a snapshot that may be missing.
pub open spec fn progress_view(p: Option<ProgressState>) -> Option<ProgressView> {
    match p {
        Some(x) => Some(x@),
        None => None,
    }
}

/// The `i`th field without blanks around it.
fn field(parts: &Vec<String>, i: usize) -> (r: String)
    ensures
        r@ == field_at(views(parts@), i as int),
{
    if i < parts.len() {
        assert(views(parts@)[i as int] == parts@[i as int]@);
        trim(parts[i].as_str())
    } else {
        String::new()
    }
}

/// Parse one line emitted by our progress template: `download:<percent>|<speed>|<eta>`
/// (yt-dlp pads percent with spaces and a `%`). Returns `None` for non-progress lines or
/// unparseable percentages, among them what is named as no number.
pub fn parse_progress_line(line: &str) -> (r: Option<ProgressState>)
    ensures
        progress_view(r) == progress_of(line@),
{
    let rest = match strip_prefix(line, "download:") {
        Some(t) => t,
        None => return None,
    };
    let parts = split(rest.as_str(), '|');
    assert(views(parts@)[0] == parts@[0]@);
    let percent_raw = trim(parts[0].as_str());
    let percent = trim(trim_end_matches(percent_raw.as_str(), '%').as_str());
    if !reads_as_percent(percent.as_str()) {
        return None;
    }
    let speed = field(&parts, 1);
    let eta = field(&parts, 2);
    Some(ProgressState { percent, speed: clean(speed.as_str()), eta: clean(eta.as_str()) })
}

// ---- the bar ---------------------------------------------------------------

/// A character `n` times over.
pub open spec fn repeated(c: char, n: nat) -> Seq<char> {
    Seq::new(n, |i: int| c)
}

/// The cells of the bar: the filled ones, then the empty ones, `width` in all.
pub open spec fn bar_cells(filled: nat, width: nat) -> Seq<char> {
    let full = if filled < width {
        filled
    } else {
        width
    };
    repeated('█', full) + repeated('░', (width - full) as nat)
}

/// The progress message.
pub open spec fn bar_text(
    title: Seq<char>,
    p: ProgressView,
    width: nat,
    filled: nat,
    shown: Seq<char>,
) -> Seq<char> {
    "⬇️ <b>"@ + title + "</b>\n<code>["@ + bar_cells(filled, width) + "]</code> "@ + shown
        + "% · "@ + p.speed + " · ETA "@ + p.eta
}

/// Appends a character `n` times.
fn push_repeated(s: &mut String, c: char, n: usize)
    ensures
        final(s)@ == old(s)@ + repeated(c, n as nat),
{
    let ghost before = s@;
    let mut i: usize = 0;
    assert(s@ =~= before + repeated(c, 0));
    while i < n
        invariant
            i <= n,
            s@ == before + repeated(c, i as nat),
        decreases n - i,
    {
        s.push(c);
        assert(s@ =~= before + repeated(c, (i + 1) as nat));
        i = i + 1;
    }
}

/// Render an HTML-formatted progress message with an ASCII bar of `width` cells, `filled` of
/// them full, and the percentage `shown` behind it. `title` must already be HTML-escaped by
/// the caller.
pub fn render_bar(
    title_escaped: &str,
    p: &ProgressState,
    width: usize,
    filled: usize,
    shown: &str,
) -> (r: String)
    ensures
        r@ == bar_text(title_escaped@, p@, width as nat, filled as nat, shown@),
{
    let full: usize = if filled < width {
        filled
    } else {
        width
    };
    let mut s = "⬇️ <b>".to_owned();
    s.append(title_escaped);
    s.append("</b>\n<code>[");
    let ghost head = s@;
    push_repeated(&mut s, '█', full);
    push_repeated(&mut s, '░', width - full);
    assert(s@ =~= head + bar_cells(filled as nat, width as nat));
    s.append("]</code> ");
    s.append(shown);
    s.append("% · ");
    s.append(p.speed.as_str());
    s.append(" · ETA ");
    s.append(p.eta.as_str());
    s
}

} // verus!
