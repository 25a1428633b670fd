//! What fits on a screen: rows, the line-number gutter and the visible columns.

use vstd::prelude::*;

use crate::text;

verus! {

// ── rows and gutter ────────────────────────────────────────────────────────

/// The rows that fit below the frame's own lines.
pub open spec fn rows_that_fit(term_height: nat) -> nat {
    if term_height >= 5 {
        (term_height - 5) as nat
    } else {
        0
    }
}

/// The largest row offset that scrolling reaches.
pub open spec fn last_offset(total_rows: nat, term_height: nat) -> nat {
    if total_rows >= rows_that_fit(term_height) {
        (total_rows - rows_that_fit(term_height)) as nat
    } else {
        0
    }
}

/// The width of the gutter: that of the largest line number.
pub open spec fn gutter(total_rows: nat, show: bool) -> Option<usize> {
    if show {
        Some(text::decimal(total_rows).len() as usize)
    } else {
        None
    }
}

/// The columns that the gutter takes with its spaces and its border.
pub open spec fn gutter_span(ln_w: Option<usize>) -> nat {
    match ln_w {
        Some(w) => w as nat + 3,
        None => 0,
    }
}

/// `usize::ilog10`: the logarithm to base ten, rounded down. It panics on zero.
pub assume_specification[ usize::ilog10 ](n: usize) -> (r: u32)
    requires
        n > 0,
    ensures
        r == vstd::arithmetic::logarithm::log(10, n as int),
;

/// How many data rows fit on screen.
/// Frame overhead: top border + header + mid separator + bottom border + status = 5 lines.
pub fn visible_rows(term_height: usize) -> (n: usize)
    ensures
        n == rows_that_fit(term_height as nat),
        n + 5 == term_height || term_height < 5 && n == 0,
{
    term_height.saturating_sub(5)
}

/// The row offset at which the last row stands at the bottom of the screen.
pub fn max_row_offset(total_rows: usize, term_height: usize) -> (offset: usize)
    ensures
        offset == last_offset(total_rows as nat, term_height as nat),
        term_height >= 5 && total_rows >= term_height - 5 ==> offset + (term_height - 5)
            == total_rows,
        term_height >= 5 && total_rows < term_height - 5 ==> offset == 0,
        term_height < 5 ==> offset == total_rows,
{
    total_rows.saturating_sub(visible_rows(term_height))
}

proof fn decimal_length_of_usize(n: usize)
    ensures
        1 <= text::decimal(n as nat).len() <= 20,
{
    reveal_with_fuel(text::decimal, 21);
}

/// Display-column width of the line-number gutter, or None if disabled.
pub fn ln_col_width(total_rows: usize, show: bool) -> (ln_w: Option<usize>)
    ensures
        ln_w == gutter(total_rows as nat, show),
        ln_w is Some <==> show,
        ln_w matches Some(w) ==> 1 <= w <= 20 && w == text::decimal(total_rows as nat).len(),
{
    if !show {
        return None;
    }
    if total_rows == 0 {
        return Some(1);
    }
    proof {
        text::decimal_length(total_rows as nat);
        decimal_length_of_usize(total_rows);
    }
    Some(total_rows.ilog10() as usize + 1)
}

/// The columns that the gutter takes away from the data.
pub fn reserved_left(ln_w: Option<usize>) -> (n: usize)
    requires
        ln_w matches Some(w) ==> w <= usize::MAX - 3,
    ensures
        n == gutter_span(ln_w),
{
    match ln_w {
        Some(w) => w + 3,
        None => 0,
    }
}

// ── visible columns ────────────────────────────────────────────────────────

/// The columns left for data beside the leading border and the gutter.
pub open spec fn room(term_width: nat, reserved_left: nat) -> nat {
    if term_width >= 1 + reserved_left {
        (term_width - 1 - reserved_left) as nat
    } else {
        0
    }
}

/// The display widths of the columns that are shown from `from` on. A column takes
/// three columns beside its text. One that does not fit is clipped to what is left,
/// if that leaves room for any text, and ends the list.
pub open spec fn shown_widths(col_widths: Seq<usize>, from: nat, room: nat) -> Seq<usize>
    decreases col_widths.len() - from,
{
    if from >= col_widths.len() {
        Seq::empty()
    } else if col_widths[from as int] + 3 <= room {
        seq![col_widths[from as int]] + shown_widths(
            col_widths,
            from + 1,
            (room - 3 - col_widths[from as int]) as nat,
        )
    } else if room >= 4 {
        seq![(room - 3) as usize]
    } else {
        Seq::empty()
    }
}

/// The columns that a row of cells takes: text, two spaces and a border for each.
pub open spec fn span(widths: Seq<usize>) -> nat
    decreases widths.len(),
{
    if widths.len() == 0 {
        0
    } else {
        span(widths.drop_last()) + widths.last() as nat + 3
    }
}

/// The consecutive column numbers from `from` on.
pub open spec fn numbered(from: usize, n: nat) -> Seq<usize> {
    Seq::new(n, |i: int| (from + i) as usize)
}

/// The columns on screen.
pub struct VisibleCols {
    /// Original column indices
    pub indices: Vec<usize>,
    /// Effective display widths (may be clamped for the last partial column)
    pub widths: Vec<usize>,
}

impl VisibleCols {
    pub open spec fn well_formed(self) -> bool {
        self.indices@.len() == self.widths@.len()
    }

    /// `reserved_left`: chars already consumed by the sticky line-number column
    /// (= `ln_col_width + 3` when line numbers are on, 0 otherwise).
    pub fn compute(
        col_widths: &[usize],
        col_offset: usize,
        term_width: usize,
        reserved_left: usize,
    ) -> (vis: Self)
        ensures
            vis.well_formed(),
            vis.widths@ == shown_widths(
                col_widths@,
                col_offset as nat,
                room(term_width as nat, reserved_left as nat),
            ),
            vis.indices@ == numbered(col_offset, vis.widths@.len()),
            forall|i: int|
                0 <= i < vis.indices@.len() ==> #[trigger] vis.indices@[i] == col_offset + i,
            forall|i: int|
                0 <= i < vis.widths@.len() ==> vis.indices@[i] < col_widths@.len()
                    && #[trigger] vis.widths@[i] <= col_widths@[col_offset + i],
            forall|i: int|
                0 <= i < vis.widths@.len() - 1 ==> #[trigger] vis.widths@[i]
                    == col_widths@[col_offset + i],
            vis.widths@.len() > 0 ==> 1 + reserved_left + span(vis.widths@) <= term_width,
            vis.widths@.len() > 0 && vis.widths@.last() < col_widths@[col_offset
                + vis.widths@.len() - 1] ==> 1 + reserved_left + span(vis.widths@) == term_width,
            col_offset + vis.widths@.len() < col_widths@.len() ==> 1 + reserved_left + span(
                vis.widths@,
            ) + 4 > term_width,
    {
        let mut indices: Vec<usize> = Vec::new();
        let mut widths: Vec<usize> = Vec::new();
        // -1 for the leading '│', minus reserved_left for the line-number gutter
        let mut remaining = term_width.saturating_sub(reserved_left).saturating_sub(1);
        let ghost goal = shown_widths(
            col_widths@,
            col_offset as nat,
            room(term_width as nat, reserved_left as nat),
        );
        let mut i = col_offset;
        while i < col_widths.len()
            invariant_except_break
                i == col_offset + widths@.len(),
                goal == widths@ + shown_widths(col_widths@, i as nat, remaining as nat),
            invariant
                indices@ == numbered(col_offset, widths@.len()),
                forall|k: int| 0 <= k < indices@.len() ==> #[trigger] indices@[k] == col_offset + k,
            ensures
                goal == widths@,
            decreases col_widths@.len() - i,
        {
            // Each cell occupies: ' ' + content + ' ' + '│'  =  width + 3
            if remaining >= 3 && col_widths[i] <= remaining - 3 {
                indices.push(i);
                widths.push(col_widths[i]);
                remaining = remaining - 3 - col_widths[i];
            } else if remaining >= 4 {
                // Column doesn't fully fit: use remaining space so fit_cell adds '…'.
                indices.push(i);
                widths.push(remaining - 3);
                break;
            } else {
                break;
            }
            i += 1;
        }
        proof {
            let space = room(term_width as nat, reserved_left as nat);
            shown_columns_fill_the_room(col_widths@, col_offset as nat, space);
            shown_columns_exist(col_widths@, col_offset as nat, space);
            if widths@.len() > 0 {
                span_of_one(widths@.last());
                span_concat(widths@.drop_last(), seq![widths@.last()]);
                assert(widths@ =~= widths@.drop_last() + seq![widths@.last()]);
            }
        }
        VisibleCols { indices, widths }
    }

    pub fn is_empty(&self) -> (empty: bool)
        ensures
            empty == (self.indices@.len() == 0),
    {
        self.indices.is_empty()
    }
}

// ── laws ───────────────────────────────────────────────────────────────────

/// A terminal of five lines or more is filled by the rows and the five lines of the
/// frame; a lower one has no line left for a row.
pub proof fn rows_and_frame_fill_the_terminal(term_height: nat)
    ensures
        term_height >= 5 ==> rows_that_fit(term_height) + 5 == term_height,
        term_height <= 5 ==> rows_that_fit(term_height) == 0,
{
}

/// A line more on the terminal is a row more on the screen, and brings the last offset
/// one row back until everything fits.
pub proof fn a_line_more_shows_a_row_more(total_rows: nat, term_height: nat)
    requires
        term_height >= 5,
    ensures
        rows_that_fit(term_height + 1) == rows_that_fit(term_height) + 1,
        last_offset(total_rows, term_height) > 0 ==> last_offset(total_rows, term_height + 1) + 1
            == last_offset(total_rows, term_height),
        last_offset(total_rows, term_height) == 0 ==> last_offset(total_rows, term_height + 1)
            == 0,
        last_offset(total_rows, 5) == total_rows,
{
}

/// There is a gutter exactly if line numbers are on. It is as wide as the largest line
/// number has digits, and takes two spaces and a border beside them.
pub proof fn the_gutter_is_as_wide_as_the_last_number(total_rows: usize, show: bool)
    ensures
        gutter(total_rows as nat, show) is Some <==> show,
        show ==> gutter(total_rows as nat, show)->0 == text::decimal(total_rows as nat).len(),
        show ==> gutter_span(gutter(total_rows as nat, show)) == text::decimal(
            total_rows as nat,
        ).len() + 3,
        !show ==> gutter_span(gutter(total_rows as nat, show)) == 0,
{
    decimal_length_of_usize(total_rows);
}

/// The leading border, what is reserved and the room for data make up the terminal's
/// width, unless the first two already take more.
pub proof fn the_room_is_what_is_left(term_width: nat, reserved_left: nat)
    ensures
        1 + reserved_left <= term_width ==> 1 + reserved_left + room(term_width, reserved_left)
            == term_width,
        1 + reserved_left >= term_width ==> room(term_width, reserved_left) == 0,
{
}

/// A cell takes three columns beside its text.
pub proof fn span_of_one(w: usize)
    ensures
        span(Seq::empty()) == 0,
        span(seq![w]) == w + 3,
{
    assert(seq![w].drop_last() =~= Seq::<usize>::empty());
}

/// Scrolled as far as it goes, the screen shows the last row; and it is the
/// smallest such offset.
pub proof fn last_offset_shows_the_last_row(total_rows: nat, term_height: nat)
    ensures
        last_offset(total_rows, term_height) <= total_rows,
        last_offset(total_rows, term_height) + rows_that_fit(term_height) >= total_rows,
        forall|o: nat| #[trigger]
            (o + rows_that_fit(term_height)) >= total_rows ==> o >= last_offset(
                total_rows,
                term_height,
            ),
{
}

/// Every line number up to the number of rows fits the gutter.
pub proof fn line_numbers_fit_the_gutter(row_num: nat, total_rows: usize)
    requires
        row_num <= total_rows,
    ensures
        text::decimal(row_num).len() <= gutter(total_rows as nat, true)->0,
{
    text::decimal_grows(row_num, total_rows as nat);
    decimal_length_of_usize(total_rows);
}

/// There are no more columns on screen than in the table.
pub proof fn shown_columns_exist(col_widths: Seq<usize>, from: nat, room: nat)
    ensures
        from <= col_widths.len() ==> from + shown_widths(col_widths, from, room).len()
            <= col_widths.len(),
        from >= col_widths.len() ==> shown_widths(col_widths, from, room).len() == 0,
    decreases col_widths.len() - from,
{
    if from < col_widths.len() && col_widths[from as int] + 3 <= room {
        shown_columns_exist(
            col_widths,
            from + 1,
            (room - 3 - col_widths[from as int]) as nat,
        );
    }
}

pub proof fn span_concat(a: Seq<usize>, b: Seq<usize>)
    ensures
        span(a + b) == span(a) + span(b),
    decreases b.len(),
{
    if b.len() == 0 {
        assert(a + b =~= a);
    } else {
        assert((a + b).drop_last() =~= a + b.drop_last());
        span_concat(a, b.drop_last());
    }
}

/// The shown columns fit the room. Each but the last has its full width, the last
/// at most that, and none is cut down to nothing. Where a column is cut or left out,
/// fewer than four columns of the screen stay unused, and none if one was cut.
pub proof fn shown_columns_fill_the_room(col_widths: Seq<usize>, from: nat, room: nat)
    ensures
        ({
            let shown = shown_widths(col_widths, from, room);
            &&& span(shown) <= room
            &&& from <= col_widths.len() ==> from + shown.len() <= col_widths.len()
            &&& forall|i: int|
                0 <= i < shown.len() ==> #[trigger] shown[i] <= col_widths[from + i] && (shown[i]
                    == 0 ==> col_widths[from + i] == 0)
            &&& forall|i: int|
                0 <= i < shown.len() - 1 ==> #[trigger] shown[i] == col_widths[from + i]
            &&& shown.len() > 0 && shown.last() < col_widths[from + shown.len() - 1] ==> span(shown)
                == room
            &&& from + shown.len() < col_widths.len() ==> span(shown) + 4 > room
        }),
    decreases col_widths.len() - from,
{
    let shown = shown_widths(col_widths, from, room);
    assert(span(Seq::empty()) == 0);
    if from < col_widths.len() {
        let w = col_widths[from as int];
        if w + 3 <= room {
            let rest_room = (room - 3 - w) as nat;
            let rest = shown_widths(col_widths, from + 1, rest_room);
            shown_columns_fill_the_room(col_widths, from + 1, rest_room);
            span_concat(seq![w], rest);
            assert(seq![w].drop_last() =~= Seq::<usize>::empty());
            assert(span(seq![w]) == w + 3);
            assert forall|i: int| 0 <= i < shown.len() implies #[trigger] shown[i]
                <= col_widths[from + i] && (shown[i] == 0 ==> col_widths[from + i] == 0) && (i
                < shown.len() - 1 ==> shown[i] == col_widths[from + i]) by {
                if i > 0 {
                    assert(shown[i] == rest[i - 1]);
                }
            }
            if rest.len() > 0 {
                assert(shown.last() == rest.last());
            }
        } else if room >= 4 {
            assert(shown.drop_last() =~= Seq::<usize>::empty());
        }
    }
}

} // verus!
