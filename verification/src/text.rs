//! Text measured in terminal columns: padding, clipping and decimal numbers.

use vstd::prelude::*;

verus! {

broadcast use vstd::string::group_string_axioms;

// ── column widths ──────────────────────────────────────────────────────────

/// Printable ASCII, the ellipsis and the box-drawing block take one column each.
pub open spec fn one_column(c: char) -> bool {
    ||| ' ' <= c && c <= '~'
    ||| c == '…'
    ||| '\u{2500}' <= c && c <= '\u{257f}'
}

/// The entry of the Unicode width table for a character at or above U+00A0.
pub uninterp spec fn table_width(c: char) -> usize;

/// How many columns a character takes. Control characters take none.
pub open spec fn char_columns(c: char) -> nat {
    if one_column(c) {
        1
    } else if '\u{9f}' >= c {
        0
    } else {
        table_width(c) as nat
    }
}

/// How many columns a text takes: each character counts on its own.
pub open spec fn columns(s: Seq<char>) -> nat
    decreases s.len(),
{
    if s.len() == 0 {
        0
    } else {
        columns(s.drop_last()) + char_columns(s.last())
    }
}

/// `unicode_width::UnicodeWidthChar::width`. One column for printable ASCII, for
/// the ellipsis and for box-drawing characters (the crate's table has them as narrow
/// or as ambiguous, which counts as narrow here); zero for NUL; `None` for every other
/// control character; and what the table holds for anything else.
#[verifier::external_body]
fn char_width(c: char) -> (w: Option<usize>)
    ensures
        one_column(c) ==> w == Some(1usize),
        c == '\0' ==> w == Some(0usize),
        c != '\0' && '\u{9f}' >= c && !one_column(c) ==> w is None,
        c > '\u{9f}' && !one_column(c) ==> w == Some(table_width(c)),
{
    unicode_width::UnicodeWidthChar::width(c)
}

/// `unicode_width::UnicodeWidthStr::width`: the sum of the widths of the
/// characters, where a control character counts zero. So it is in the version that
/// this crate holds the dependency to; later ones measure some sequences as a whole.
#[verifier::external_body]
pub(crate) fn str_width(s: &str) -> (w: usize)
    ensures
        w == columns(s@),
{
    unicode_width::UnicodeWidthStr::width(s)
}

/// `std::string::String::push`: appends one character.
pub assume_specification[ String::push ](s: &mut String, c: char)
    ensures
        final(s)@ == old(s)@.push(c),
;

pub open spec fn spaces(n: nat) -> Seq<char> {
    Seq::new(n, |i: int| ' ')
}

/// The length of the longest prefix of `s` that takes at most `room` columns.
pub open spec fn fitting(s: Seq<char>, room: nat) -> nat
    decreases s.len(),
{
    if s.len() == 0 || columns(s) <= room {
        s.len()
    } else {
        fitting(s.drop_last(), room)
    }
}

/// `s` in a cell of `width` columns: padded with spaces if it is short, cut and
/// marked with an ellipsis if it is long.
pub open spec fn fit(s: Seq<char>, width: nat) -> Seq<char> {
    if width == 0 {
        Seq::empty()
    } else if columns(s) <= width {
        s + spaces((width - columns(s)) as nat)
    } else {
        let kept = s.take(fitting(s, (width - 1) as nat) as int);
        kept.push('…') + spaces((width - 1 - columns(kept)) as nat)
    }
}

/// The longest prefix of `s` that takes at most `max_width` columns.
pub open spec fn clip(s: Seq<char>, max_width: nat) -> Seq<char> {
    s.take(fitting(s, max_width) as int)
}

pub proof fn columns_concat(a: Seq<char>, b: Seq<char>)
    ensures
        columns(a + b) == columns(a) + columns(b),
    decreases b.len(),
{
    if b.len() == 0 {
        assert(a + b =~= a);
    } else {
        assert((a + b).drop_last() =~= a + b.drop_last());
        assert((a + b).last() == b.last());
        columns_concat(a, b.drop_last());
    }
}

pub proof fn columns_push(a: Seq<char>, c: char)
    ensures
        columns(a.push(c)) == columns(a) + char_columns(c),
{
    assert(a.push(c).drop_last() =~= a);
}

pub proof fn columns_of_one_column_text(s: Seq<char>)
    requires
        forall|i: int| 0 <= i < s.len() ==> char_columns(#[trigger] s[i]) == 1,
    ensures
        columns(s) == s.len(),
    decreases s.len(),
{
    if s.len() > 0 {
        columns_of_one_column_text(s.drop_last());
    }
}

/// The prefix that `fitting` measures fits, and one more character would not.
pub proof fn fitting_is_longest(s: Seq<char>, room: nat)
    ensures
        fitting(s, room) <= s.len(),
        columns(s.take(fitting(s, room) as int)) <= room,
        forall|k: int| fitting(s, room) < k <= s.len() ==> columns(#[trigger] s.take(k)) > room,
    decreases s.len(),
{
    if s.len() == 0 || columns(s) <= room {
        assert(s.take(s.len() as int) =~= s);
    } else {
        let t = s.drop_last();
        fitting_is_longest(t, room);
        let n = fitting(t, room) as int;
        assert(s.take(n) =~= t.take(n));
        assert forall|k: int| n < k <= s.len() implies columns(#[trigger] s.take(k)) > room by {
            if k == s.len() {
                assert(s.take(k) =~= s);
            } else {
                assert(s.take(k) =~= t.take(k));
            }
        }
    }
}

pub proof fn columns_monotone(s: Seq<char>, i: int, j: int)
    requires
        0 <= i <= j <= s.len(),
    ensures
        columns(s.take(i)) <= columns(s.take(j)),
{
    assert(s.take(j) =~= s.take(i) + s.subrange(i, j));
    columns_concat(s.take(i), s.subrange(i, j));
}

proof fn fitting_from_step(s: Seq<char>, room: nat, n: int)
    requires
        0 <= n < s.len(),
        columns(s.take(n)) <= room,
        columns(s.take(n + 1)) > room,
    ensures
        fitting(s, room) == n,
{
    fitting_is_longest(s, room);
    let k = fitting(s, room) as int;
    if k > n {
        columns_monotone(s, n + 1, k);
    }
    if k < n {
        assert(columns(s.take(n)) > room);
    }
}

pub(crate) fn push_repeated(out: &mut String, c: char, n: usize)
    ensures
        final(out)@ == old(out)@ + Seq::new(n as nat, |i: int| c),
{
    for k in 0..n
        invariant
            out@ == old(out)@ + Seq::new(k as nat, |i: int| c),
    {
        out.push(c);
    }
}

/// Fit `s` into exactly `width` display columns.
/// Pads with spaces if too short; truncates with '…' if too long.
pub fn fit_cell(s: &str, width: usize) -> (cell: String)
    ensures
        cell@ == fit(s@, width as nat),
        columns(cell@) == width,
{
    proof {
        fit_fills_the_cell(s@, width as nat);
    }
    if width == 0 {
        return String::new();
    }
    let w = str_width(s);
    if w <= width {
        let mut out = s.to_owned();
        push_repeated(&mut out, ' ', width - w);
        return out;
    }
    let mut result = String::new();
    let mut cur: usize = 0;
    assert(s@.take(s@.len() as int) =~= s@);
    for ch in it: s.chars()
        invariant_except_break
            it.seq() == s@,
            result@ == s@.take(it.index() as int),
        invariant
            cur < width < columns(s@),
            s@.take(s@.len() as int) == s@,
            cur == columns(result@),
        ensures
            result@ == s@.take(fitting(s@, (width - 1) as nat) as int),
    {
        let cw = char_width(ch).unwrap_or(0);
        proof {
            let k = it.index() as int;
            assert(s@.take(k + 1) =~= s@.take(k).push(ch));
            columns_push(s@.take(k), ch);
        }
        if cw >= width - cur {
            proof {
                fitting_from_step(s@, (width - 1) as nat, it.index() as int);
            }
            break;
        }
        result.push(ch);
        cur += cw;
    }
    result.push('…');
    cur += 1;
    push_repeated(&mut result, ' ', width - cur);
    result
}

/// Truncate `s` so its display width ≤ `max_width`.
pub fn truncate_to_width(s: &str, max_width: usize) -> (clipped: &str)
    ensures
        clipped@ == clip(s@, max_width as nat),
        columns(clipped@) <= max_width,
{
    assert(s@.take(s@.len() as int) =~= s@);
    if str_width(s) <= max_width {
        return s;
    }
    let len = s.unicode_len();
    let mut end: usize = 0;
    let mut cur: usize = 0;
    for ch in it: s.chars()
        invariant_except_break
            it.seq() == s@,
            end == it.index(),
        invariant
            len == s@.len(),
            cur <= max_width < columns(s@),
            s@.take(s@.len() as int) == s@,
            cur == columns(s@.take(end as int)),
        ensures
            end == fitting(s@, max_width as nat),
    {
        let cw = char_width(ch).unwrap_or(0);
        proof {
            let k = it.index() as int;
            assert(s@.take(k + 1) =~= s@.take(k).push(ch));
            columns_push(s@.take(k), ch);
        }
        if cw > max_width - cur {
            proof {
                fitting_from_step(s@, max_width as nat, it.index() as int);
            }
            break;
        }
        cur += cw;
        end += 1;
    }
    proof {
        fitting_is_longest(s@, max_width as nat);
    }
    s.substring_char(0, end)
}

/// Nothing takes no columns, one character takes what it takes alone, and two texts
/// side by side take what both take.
pub proof fn columns_add_up(a: Seq<char>, b: Seq<char>, c: char)
    ensures
        columns(Seq::empty()) == 0,
        columns(seq![c]) == char_columns(c),
        columns(a + b) == columns(a) + columns(b),
{
    columns_concat(a, b);
    columns_push(Seq::empty(), c);
    assert(seq![c] =~= Seq::<char>::empty().push(c));
}

/// What is drawn around the texts is narrow, a control character takes no column, and
/// every other character takes what the Unicode table says.
pub proof fn what_a_character_takes(c: char)
    ensures
        ' ' <= c && c <= '~' ==> char_columns(c) == 1,
        c == '…' || ('\u{2500}' <= c && c <= '\u{257f}') ==> char_columns(c) == 1,
        '\u{1f}' >= c || ('\u{7f}' <= c && c <= '\u{9f}') ==> char_columns(c) == 0,
        '\u{a0}' <= c && c != '…' && !('\u{2500}' <= c && c <= '\u{257f}') ==> char_columns(c)
            == table_width(c),
{
}

/// A text that fits its cell stands there character by character, and after it nothing
/// but spaces, one for each column that is left.
pub proof fn a_text_that_fits_is_shown_whole(s: Seq<char>, width: nat)
    requires
        columns(s) <= width,
        width > 0,
    ensures
        fit(s, width).len() == s.len() + (width - columns(s)),
        forall|i: int| 0 <= i < s.len() ==> #[trigger] fit(s, width)[i] == s[i],
        forall|i: int| s.len() <= i < fit(s, width).len() ==> #[trigger] fit(s, width)[i] == ' ',
{
}

/// Of a text that does not fit its cell, the cell shows the characters up to the first
/// that would leave no column for the ellipsis, then the ellipsis, then nothing but
/// spaces, one for each column that is left.
pub proof fn a_text_that_does_not_fit_is_cut(s: Seq<char>, width: nat)
    requires
        columns(s) > width,
        width > 0,
    ensures
        exists|n: int|
            #![trigger s.take(n)]
            {
                &&& 0 <= n < s.len()
                &&& columns(s.take(n)) < width
                &&& columns(s.take(n + 1)) >= width
                &&& fit(s, width).len() == n + 1 + (width - 1 - columns(s.take(n)))
                &&& forall|i: int| 0 <= i < n ==> #[trigger] fit(s, width)[i] == s[i]
                &&& fit(s, width)[n] == '…'
                &&& forall|i: int|
                    n < i < fit(s, width).len() ==> #[trigger] fit(s, width)[i] == ' '
            },
{
    let n = fitting(s, (width - 1) as nat) as int;
    fitting_is_longest(s, (width - 1) as nat);
    assert(s.take(s.len() as int) =~= s);
    assert(n < s.len());
    let kept = s.take(n);
    let f = fit(s, width);
    assert(f == kept.push('…') + spaces((width - 1 - columns(kept)) as nat));
    assert(columns(s.take(n + 1)) >= width);
    assert(forall|i: int| 0 <= i < n ==> #[trigger] f[i] == s[i]);
}

/// A cell without columns shows nothing.
pub proof fn a_cell_without_columns_is_empty(s: Seq<char>)
    ensures
        fit(s, 0).len() == 0,
{
}

/// A fitted cell takes exactly the columns of its cell, whatever the text.
pub proof fn fit_fills_the_cell(s: Seq<char>, width: nat)
    ensures
        columns(fit(s, width)) == width,
{
    if width == 0 {
    } else if columns(s) <= width {
        let pad = spaces((width - columns(s)) as nat);
        columns_of_one_column_text(pad);
        columns_concat(s, pad);
    } else {
        fitting_is_longest(s, (width - 1) as nat);
        let kept = s.take(fitting(s, (width - 1) as nat) as int);
        let pad = spaces((width - 1 - columns(kept)) as nat);
        columns_push(kept, '…');
        columns_of_one_column_text(pad);
        columns_concat(kept.push('…'), pad);
    }
}

/// A text that fits its cell is shown whole, followed by spaces alone; one that
/// does not is cut so that not even the next character would have left room for
/// the ellipsis.
pub proof fn fit_shows_as_much_as_possible(s: Seq<char>, width: nat)
    requires
        width > 0,
    ensures
        columns(s) <= width ==> fit(s, width) == s + spaces((width - columns(s)) as nat),
        columns(s) > width ==> {
            let n = fitting(s, (width - 1) as nat) as int;
            &&& n < s.len()
            &&& s.take(n).push('…').is_prefix_of(fit(s, width))
            &&& columns(s.take(n + 1)) + 1 > width
        },
{
    if columns(s) > width {
        let n = fitting(s, (width - 1) as nat) as int;
        fitting_is_longest(s, (width - 1) as nat);
        assert(s.take(s.len() as int) =~= s);
        assert(s.take(n + 1).len() == n + 1);
        assert(s.take(n).push('…').is_prefix_of(fit(s, width)));
    }
}

/// Fitting a text that already has the width of the cell changes nothing, so
/// fitting twice is fitting once.
pub proof fn fit_is_idempotent(s: Seq<char>, width: nat)
    ensures
        columns(s) == width && width > 0 ==> fit(s, width) == s,
        fit(fit(s, width), width) == fit(s, width),
{
    fit_fills_the_cell(s, width);
    let f = fit(s, width);
    assert(f + spaces(0) =~= f);
    assert(s + spaces(0) =~= s);
}

/// A clipped text fits, is a prefix of the text, and is the longest such prefix.
pub proof fn clip_is_the_longest_that_fits(s: Seq<char>, max_width: nat)
    ensures
        columns(clip(s, max_width)) <= max_width,
        clip(s, max_width).is_prefix_of(s),
        forall|p: Seq<char>| #[trigger]
            p.is_prefix_of(s) && columns(p) <= max_width ==> p.len() <= clip(s, max_width).len(),
        columns(s) <= max_width ==> clip(s, max_width) == s,
{
    fitting_is_longest(s, max_width);
    assert(s.take(s.len() as int) =~= s);
    assert forall|p: Seq<char>| #[trigger]
        p.is_prefix_of(s) && columns(p) <= max_width implies p.len() <= clip(
        s,
        max_width,
    ).len() by {
        assert(p =~= s.take(p.len() as int));
    }
}

// ── decimal numbers ────────────────────────────────────────────────────────

pub open spec fn digit(d: nat) -> char {
    (48 + d) as char
}

/// The decimal digits of `n`, without leading zeros.
pub open spec fn decimal(n: nat) -> Seq<char>
    decreases n,
{
    if n < 10 {
        seq![digit(n)]
    } else {
        decimal(n / 10).push(digit(n % 10))
    }
}

proof fn decimal_is_one_column_text(n: nat)
    ensures
        forall|i: int| 0 <= i < decimal(n).len() ==> one_column(#[trigger] decimal(n)[i]),
    decreases n,
{
    if n >= 10 {
        decimal_is_one_column_text(n / 10);
        let front = decimal(n / 10);
        assert forall|i: int| 0 <= i < decimal(n).len() implies one_column(
            #[trigger] decimal(n)[i],
        ) by {
            if i < front.len() {
                assert(decimal(n)[i] == front[i]);
            }
        }
    }
}

/// A number takes one column for each digit.
pub proof fn decimal_columns(n: nat)
    ensures
        columns(decimal(n)) == decimal(n).len(),
{
    decimal_is_one_column_text(n);
    columns_of_one_column_text(decimal(n));
}

/// A larger number never has fewer digits.
pub proof fn decimal_grows(m: nat, n: nat)
    requires
        m <= n,
    ensures
        1 <= decimal(m).len() <= decimal(n).len(),
    decreases n,
{
    if m >= 10 {
        decimal_grows(m / 10, n / 10);
    } else if n >= 10 {
        decimal_grows(0, n / 10);
    }
}

/// The number of digits is one more than the logarithm rounded down.
pub proof fn decimal_length(n: nat)
    requires
        n > 0,
    ensures
        decimal(n).len() == vstd::arithmetic::logarithm::log(10, n as int) + 1,
    decreases n,
{
    reveal(vstd::arithmetic::logarithm::log);
    if n >= 10 {
        decimal_length(n / 10);
    }
}

/// The number that decimal digits stand for.
pub open spec fn value(digits: Seq<char>) -> nat
    decreases digits.len(),
{
    if digits.len() == 0 {
        0
    } else {
        (10 * value(digits.drop_last()) + (digits.last() as nat - '0' as nat)) as nat
    }
}

/// The last digit of a number is its remainder by ten, and the digits before it, if
/// there are any, are those of its tenth.
pub proof fn the_last_digit_counts_ones(n: nat)
    ensures
        decimal(n).last() as nat == '0' as nat + n % 10,
        n < 10 ==> decimal(n).len() == 1,
        n >= 10 ==> decimal(n).drop_last() == decimal(n / 10),
{
    if n >= 10 {
        assert(decimal(n).drop_last() =~= decimal(n / 10));
    }
}

/// A number can be read back from its digits, which are digits indeed, and no zero
/// stands in front of others.
pub proof fn decimal_reads_back(n: nat)
    ensures
        value(decimal(n)) == n,
        decimal(n).len() > 0,
        forall|i: int|
            0 <= i < decimal(n).len() ==> '0' <= #[trigger] decimal(n)[i] && decimal(n)[i] <= '9',
        decimal(n)[0] == '0' ==> decimal(n).len() == 1,
    decreases n,
{
    if n < 10 {
        let d = decimal(n);
        assert(d.drop_last() =~= Seq::<char>::empty());
        assert(value(Seq::<char>::empty()) == 0);
        assert(d.last() as nat == 48 + n);
    } else {
        let front = decimal(n / 10);
        decimal_reads_back(n / 10);
        assert(decimal(n).drop_last() =~= front);
        assert(decimal(n).last() as nat == 48 + n % 10);
        assert forall|i: int| 0 <= i < decimal(n).len() implies '0' <= #[trigger] decimal(n)[i]
            && decimal(n)[i] <= '9' by {
            if i < front.len() {
                assert(decimal(n)[i] == front[i]);
            }
        }
        assert(decimal(n)[0] == front[0]);
        if front[0] == '0' {
            assert(front =~= seq![front[0]]);
            assert(front.drop_last() =~= Seq::<char>::empty());
            assert(value(front.drop_last()) == 0);
            assert(value(front) == 0);
        }
    }
}

/// Appends the decimal digits of `n`.
pub fn push_decimal(out: &mut String, n: u128)
    ensures
        final(out)@ == old(out)@ + decimal(n as nat),
    decreases n,
{
    if n >= 10 {
        push_decimal(out, n / 10);
    }
    let d: u8 = (n % 10) as u8;
    out.push((48 + d) as char);
}

} // verus!
