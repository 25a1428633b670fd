//! Whole pictures: the frame of the interactive viewer and the printed table.

use vstd::prelude::*;

use crate::canvas;
use crate::canvas::{Attribute, Canvas, Control, Draw};
use crate::geometry;
use crate::geometry::{ln_col_width, visible_rows, VisibleCols};
use crate::reader;
use crate::reader::CsvData;
use crate::render;
use crate::render::{
    render_bot_border, render_data_row, render_empty_row, render_header_row, render_mid_border,
    render_top_border,
};
use crate::search;
use crate::state;
use crate::state::{Mode, State};
use crate::table;
use crate::table::TableLayout;
use crate::text;

verus! {

// ── the status bar ─────────────────────────────────────────────────────────

/// The row after the last one on screen.
pub open spec fn end_row(row_offset: nat, total_rows: nat, term_height: nat) -> nat {
    if row_offset + geometry::rows_that_fit(term_height) <= total_rows {
        row_offset + geometry::rows_that_fit(term_height)
    } else {
        total_rows
    }
}

/// The query with the number of the focused match and of all matches.
pub open spec fn match_info(s: state::Session) -> Seq<char> {
    if s.search_query.len() == 0 {
        Seq::empty()
    } else {
        let focused = match s.match_pos {
            Some(pos) => pos as nat + 1,
            None => 0,
        };
        " │ /"@ + s.search_query + " ("@ + text::decimal(focused) + "/"@ + text::decimal(
            s.matches.len(),
        ) + ")"@
    }
}

/// From where to where, out of how many.
pub open spec fn range_text(first: nat, last: nat, total: nat) -> Seq<char> {
    text::decimal(first) + "-"@ + text::decimal(last) + "/"@ + text::decimal(total)
}

/// Where the table stands on the screen.
pub open spec fn position_info(
    s: state::Session,
    table: reader::Table,
    n_visible: nat,
    term_height: nat,
) -> Seq<char> {
    let first_row = if table.rows.len() == 0 {
        0
    } else {
        s.row_offset + 1
    };
    " Rows "@ + range_text(
        first_row,
        end_row(s.row_offset, table.rows.len(), term_height),
        table.rows.len(),
    ) + " │ Cols "@ + range_text(
        s.col_offset + 1,
        s.col_offset + n_visible,
        table.headers.len(),
    )
}

/// The text of the status bar.
pub open spec fn status_text(
    s: state::Session,
    table: reader::Table,
    n_visible: nat,
    term_height: nat,
) -> Seq<char> {
    position_info(s, table, n_visible, term_height) + match_info(s)
        + " │ hjkl/arrows │ PgUp/Dn │ g/G │ / search │ n/N │"@ + (if s.show_line_numbers {
        " # hide-ln"@
    } else {
        " # show-ln"@
    }) + " │ q "@
}

/// A text filled up with spaces to `w` characters.
pub open spec fn left_aligned(s: Seq<char>, w: nat) -> Seq<char> {
    if s.len() < w {
        s + text::spaces((w - s.len()) as nat)
    } else {
        s
    }
}

/// The status bar: the query while it is typed, with the cursor after it, and else
/// where the table stands, in reverse.
pub open spec fn status_bar(
    s: state::Session,
    table: reader::Table,
    n_visible: nat,
    term_width: nat,
    term_height: nat,
) -> Seq<canvas::Mark> {
    let line = ((term_height - 1) % 0x10000) as u16;
    if s.mode == Mode::Searching {
        canvas::command(Control::MoveTo(0, line)) + canvas::command(
            Control::SetAttribute(Attribute::Reset),
        ) + canvas::written(
            text::clip(seq!['/'] + s.search_query, state::minus(term_width, 1)),
        ) + canvas::command(Control::ClearUntilNewLine) + canvas::command(
            Control::MoveTo(((1 + text::columns(s.search_query)) % 0x10000) as u16, line),
        )
    } else {
        canvas::command(Control::MoveTo(0, line)) + canvas::command(
            Control::SetAttribute(Attribute::Reverse),
        ) + canvas::command(Control::SetAttribute(Attribute::Bold)) + canvas::written(
            left_aligned(
                text::clip(status_text(s, table, n_visible, term_height), term_width),
                term_width,
            ),
        ) + canvas::command(Control::SetAttribute(Attribute::Reset))
    }
}

fn push_match_info(out: &mut String, state: &State)
    ensures
        final(out)@ == old(out)@ + match_info(state@),
{
    if !state.search_query.as_str().is_empty() {
        let focused: u128 = match state.match_pos {
            Some(pos) => pos as u128 + 1,
            None => 0,
        };
        out.append(" │ /");
        out.append(state.search_query.as_str());
        out.append(" (");
        text::push_decimal(out, focused);
        out.append("/");
        text::push_decimal(out, state.matches.len() as u128);
        out.append(")");
    }
}

fn push_range(out: &mut String, first: u128, last: u128, total: u128)
    ensures
        final(out)@ == old(out)@ + range_text(first as nat, last as nat, total as nat),
{
    text::push_decimal(out, first);
    out.append("-");
    text::push_decimal(out, last);
    out.append("/");
    text::push_decimal(out, total);
}

fn push_position_info(
    out: &mut String,
    data: &CsvData,
    state: &State,
    n_visible: usize,
    term_height: usize,
)
    ensures
        final(out)@ == old(out)@ + position_info(
            state@,
            data@,
            n_visible as nat,
            term_height as nat,
        ),
{
    let total = data.rows.len();
    let first_row: u128 = if total == 0 {
        0
    } else {
        state.row_offset as u128 + 1
    };
    let page = visible_rows(term_height);
    let end = if state.row_offset > total || page >= total - state.row_offset {
        total
    } else {
        state.row_offset + page
    };
    out.append(" Rows ");
    push_range(out, first_row, end as u128, total as u128);
    out.append(" │ Cols ");
    push_range(
        out,
        state.col_offset as u128 + 1,
        state.col_offset as u128 + n_visible as u128,
        data.headers.len() as u128,
    );
}

/// The text of the status bar while the table is browsed.
pub fn status_line(data: &CsvData, state: &State, n_visible: usize, term_height: usize) -> (line:
    String)
    ensures
        line@ == status_text(state@, data@, n_visible as nat, term_height as nat),
{
    let mut line = String::new();
    push_position_info(&mut line, data, state, n_visible, term_height);
    push_match_info(&mut line, state);
    line.append(" │ hjkl/arrows │ PgUp/Dn │ g/G │ / search │ n/N │");
    line.append(
        if state.show_line_numbers {
            " # hide-ln"
        } else {
            " # show-ln"
        },
    );
    line.append(" │ q ");
    line
}

fn draw_query(out: &mut Canvas, state: &State, term_width: usize, line: u16)
    ensures
        final(out)@ == old(out)@ + canvas::command(
            Control::SetAttribute(Attribute::Reset),
        ) + canvas::written(
            text::clip(seq!['/'] + state.search_query@, state::minus(term_width as nat, 1)),
        ) + canvas::command(Control::ClearUntilNewLine) + canvas::command(
            Control::MoveTo(((1 + text::columns(state.search_query@)) % 0x10000) as u16, line),
        ),
{
    out.control(Control::SetAttribute(Attribute::Reset));
    let mut prompt = String::new();
    prompt.push('/');
    prompt.append(state.search_query.as_str());
    assert(prompt@ =~= seq!['/'] + state.search_query@);
    let display = text::truncate_to_width(prompt.as_str(), term_width.saturating_sub(1));
    out.write(display);
    out.control(Control::ClearUntilNewLine);
    // Position the blinking cursor right after the typed query.
    let w = text::str_width(state.search_query.as_str());
    let cursor_x = ((w % 0x10000 + 1) % 0x10000) as u16;
    out.control(Control::MoveTo(cursor_x, line));
}

fn draw_status_line(
    out: &mut Canvas,
    data: &CsvData,
    state: &State,
    n_visible: usize,
    term_width: usize,
    term_height: usize,
)
    ensures
        final(out)@ == old(out)@ + canvas::command(
            Control::SetAttribute(Attribute::Reverse),
        ) + canvas::command(Control::SetAttribute(Attribute::Bold)) + canvas::written(
            left_aligned(
                text::clip(
                    status_text(state@, data@, n_visible as nat, term_height as nat),
                    term_width as nat,
                ),
                term_width as nat,
            ),
        ) + canvas::command(Control::SetAttribute(Attribute::Reset)),
{
    let status = status_line(data, state, n_visible, term_height);
    out.control(Control::SetAttribute(Attribute::Reverse));
    out.control(Control::SetAttribute(Attribute::Bold));
    let display = text::truncate_to_width(status.as_str(), term_width);
    let n = display.unicode_len();
    out.write(display);
    if n < term_width {
        out.repeat(' ', term_width - n);
    }
    out.control(Control::SetAttribute(Attribute::Reset));
}

pub fn render_status_bar(
    out: &mut Canvas,
    data: &CsvData,
    state: &State,
    vis: &VisibleCols,
    term_width: usize,
    term_height: usize,
)
    requires
        term_height > 0,
    ensures
        final(out)@ == old(out)@ + status_bar(
            state@,
            data@,
            vis.indices@.len(),
            term_width as nat,
            term_height as nat,
        ),
{
    let line = ((term_height - 1) % 0x10000) as u16;
    out.control(Control::MoveTo(0, line));
    match state.mode {
        Mode::Searching => {
            draw_query(out, state, term_width, line);
        },
        Mode::Normal => {
            draw_status_line(out, data, state, vis.indices.len(), term_width, term_height);
        },
    }
}

// ── the frame ──────────────────────────────────────────────────────────────

/// What a state shows of a table on a terminal of some width.
pub struct Window {
    /// The width of the line numbers, if they are shown
    pub ln_w: Option<usize>,
    /// The columns on screen
    pub indices: Seq<usize>,
    /// Their widths
    pub widths: Seq<usize>,
}

pub open spec fn window(
    show_line_numbers: bool,
    col_offset: nat,
    total_rows: nat,
    col_widths: Seq<usize>,
    term_width: nat,
) -> Window {
    let ln_w = geometry::gutter(total_rows, show_line_numbers);
    let widths = geometry::shown_widths(
        col_widths,
        col_offset,
        geometry::room(term_width, geometry::gutter_span(ln_w)),
    );
    Window { ln_w, indices: geometry::numbered(col_offset as usize, widths.len()), widths }
}

/// There is neither a gutter nor a column to show.
pub open spec fn blank(w: Window) -> bool {
    w.widths.len() == 0 && w.ln_w is None
}

/// The row contains the query that is searched for.
pub open spec fn highlighted(s: state::Session, row: nat) -> bool {
    s.search_query.len() > 0 && exists|i: int|
        0 <= i < s.matches.len() && (#[trigger] s.matches[i]) as nat == row
}

/// The row is the focused match.
pub open spec fn focused(s: state::Session, row: nat) -> bool {
    s.match_pos matches Some(pos) && s.matches[pos as int] as nat == row
}

/// The line at position `k` below the header: a row of the table, or an empty one
/// below its end.
pub open spec fn body_line(
    s: state::Session,
    table: reader::Table,
    w: Window,
    zebra: bool,
    k: nat,
) -> Seq<canvas::Mark> {
    let row = s.row_offset + k;
    if row < table.rows.len() {
        render::data_line(
            table.rows[row as int],
            w.indices,
            w.widths,
            w.ln_w,
            row + 1,
            render::background(k, zebra, highlighted(s, row), focused(s, row)),
        )
    } else {
        render::empty_line(render::slots(w.ln_w, w.widths), render::stripe(zebra, k))
    }
}

/// The first `n` lines below the header.
pub open spec fn body(
    s: state::Session,
    table: reader::Table,
    w: Window,
    zebra: bool,
    n: nat,
) -> Seq<canvas::Mark>
    decreases n,
{
    if n == 0 {
        Seq::empty()
    } else {
        body(s, table, w, zebra, (n - 1) as nat) + body_line(s, table, w, zebra, (n - 1) as nat)
    }
}

/// The lines above the data.
pub open spec fn head(table: reader::Table, w: Window) -> Seq<canvas::Mark> {
    render::border(render::slots(w.ln_w, w.widths), '┌', '┬', '┐') + render::header_line(
        table.headers,
        w.indices,
        w.widths,
        w.ln_w,
    ) + render::border(render::slots(w.ln_w, w.widths), '├', '┼', '┤')
}

/// The line below the data.
pub open spec fn foot(w: Window) -> Seq<canvas::Mark> {
    render::border(render::slots(w.ln_w, w.widths), '└', '┴', '┘')
}

/// The cursor shows only while a query is typed; drawing starts at the top left.
pub open spec fn frame_start(mode: Mode) -> Seq<canvas::Mark> {
    canvas::command(
        if mode == Mode::Searching {
            Control::ShowCursor
        } else {
            Control::HideCursor
        },
    ) + canvas::command(Control::MoveTo(0, 0))
}

/// The whole picture of a state.
pub open spec fn frame(
    s: state::Session,
    table: reader::Table,
    col_widths: Seq<usize>,
    term_width: nat,
    term_height: nat,
    zebra: bool,
) -> Seq<canvas::Mark> {
    let w = window(
        s.show_line_numbers,
        s.col_offset,
        table.rows.len(),
        col_widths,
        term_width,
    );
    if blank(w) {
        frame_start(s.mode)
    } else {
        frame_start(s.mode) + head(table, w) + body(
            s,
            table,
            w,
            zebra,
            geometry::rows_that_fit(term_height),
        ) + foot(w) + status_bar(s, table, w.widths.len(), term_width, term_height)
    }
}

/// The state can be drawn: the table is not scrolled past its end, the matches are in
/// order, and the focused match is one of them.
pub open spec fn drawable(s: state::Session, total_rows: nat) -> bool {
    &&& s.row_offset <= total_rows
    &&& search::ascending(s.matches)
    &&& s.match_pos matches Some(pos) ==> pos < s.matches.len()
}

proof fn parts_join(
    start: Seq<canvas::Mark>,
    a: Seq<canvas::Mark>,
    b: Seq<canvas::Mark>,
    c: Seq<canvas::Mark>,
    d: Seq<canvas::Mark>,
    e: Seq<canvas::Mark>,
)
    ensures
        start + a + b + c + d + e == start + (a + b + c + d + e),
{
    assert(start + a + b + c + d + e =~= start + (a + b + c + d + e));
}

fn draw_frame_start(out: &mut Canvas, mode: Mode)
    ensures
        final(out)@ == old(out)@ + frame_start(mode),
{
    // Show the hardware cursor only while the user is typing a search query.
    match mode {
        Mode::Searching => {
            out.control(Control::ShowCursor);
        },
        Mode::Normal => {
            out.control(Control::HideCursor);
        },
    }
    out.control(Control::MoveTo(0, 0));
}

fn draw_head(out: &mut Canvas, data: &CsvData, vis: &VisibleCols, ln_w: Option<usize>)
    requires
        vis.well_formed(),
    ensures
        final(out)@ == old(out)@ + head(
            data@,
            (Window { ln_w, indices: vis.indices@, widths: vis.widths@ }),
        ),
{
    render_top_border(out, vis, ln_w);
    render_header_row(out, &data.headers, vis, ln_w);
    render_mid_border(out, vis, ln_w);
}

fn draw_body_line(
    out: &mut Canvas,
    data: &CsvData,
    state: &State,
    vis: &VisibleCols,
    ln_w: Option<usize>,
    zebra: bool,
    k: usize,
)
    requires
        vis.well_formed(),
        drawable(state@, data@.rows.len()),
    ensures
        final(out)@ == old(out)@ + body_line(
            state@,
            data@,
            (Window { ln_w, indices: vis.indices@, widths: vis.widths@ }),
            zebra,
            k as nat,
        ),
{
    if k < data.rows.len() - state.row_offset {
        let row_idx = state.row_offset + k;
        // matches is sorted, so a binary search is O(log n).
        let is_match = !state.search_query.as_str().is_empty() && search::contains_row(
            &state.matches,
            row_idx,
        );
        let is_current = match state.match_pos {
            Some(pos) => state.matches[pos] == row_idx,
            None => false,
        };
        assert(data@.rows[row_idx as int] == data.rows@[row_idx as int].deep_view());
        assert(is_match == highlighted(state@, row_idx as nat));
        render_data_row(
            out,
            &data.rows[row_idx],
            vis,
            k,
            zebra,
            ln_w,
            row_idx + 1,
            is_match,
            is_current,
        );
    } else {
        render_empty_row(out, vis, k, zebra, ln_w);
    }
}

fn draw_body(
    out: &mut Canvas,
    data: &CsvData,
    state: &State,
    vis: &VisibleCols,
    ln_w: Option<usize>,
    zebra: bool,
    n: usize,
)
    requires
        vis.well_formed(),
        drawable(state@, data@.rows.len()),
    ensures
        final(out)@ == old(out)@ + body(
            state@,
            data@,
            (Window { ln_w, indices: vis.indices@, widths: vis.widths@ }),
            zebra,
            n as nat,
        ),
{
    let ghost w = Window { ln_w, indices: vis.indices@, widths: vis.widths@ };
    let ghost start = out@;
    for k in 0..n
        invariant
            vis.well_formed(),
            drawable(state@, data@.rows.len()),
            w == (Window { ln_w, indices: vis.indices@, widths: vis.widths@ }),
            out@ == start + body(state@, data@, w, zebra, k as nat),
    {
        draw_body_line(out, data, state, vis, ln_w, zebra, k);
    }
}

/// Whether a terminal is too narrow to show anything of the table.
pub fn nothing_fits(
    data: &CsvData,
    layout: &TableLayout,
    state: &State,
    term_width: usize,
) -> (nothing: bool)
    ensures
        nothing == blank(
            window(
                state.show_line_numbers,
                state.col_offset as nat,
                data@.rows.len(),
                layout.col_widths@,
                term_width as nat,
            ),
        ),
{
    let ln_w = ln_col_width(data.rows.len(), state.show_line_numbers);
    let vis = VisibleCols::compute(
        layout.col_widths.as_slice(),
        state.col_offset,
        term_width,
        geometry::reserved_left(ln_w),
    );
    vis.is_empty() && ln_w.is_none()
}

/// Draws a state on a terminal of the given size.
pub fn render_frame(
    data: &CsvData,
    layout: &TableLayout,
    out: &mut Canvas,
    state: &State,
    term_width: usize,
    term_height: usize,
    zebra: bool,
)
    requires
        blank(
            window(
                state.show_line_numbers,
                state.col_offset as nat,
                data@.rows.len(),
                layout.col_widths@,
                term_width as nat,
            ),
        ) || (term_height > 0 && drawable(state@, data@.rows.len())),
    ensures
        final(out)@ == old(out)@ + frame(
            state@,
            data@,
            layout.col_widths@,
            term_width as nat,
            term_height as nat,
            zebra,
        ),
{
    let ghost start = out@;
    draw_frame_start(out, state.mode);
    let ln_w = ln_col_width(data.rows.len(), state.show_line_numbers);
    let vis = VisibleCols::compute(
        layout.col_widths.as_slice(),
        state.col_offset,
        term_width,
        geometry::reserved_left(ln_w),
    );
    if vis.is_empty() && ln_w.is_none() {
        return;
    }
    draw_head(out, data, &vis, ln_w);
    let n = visible_rows(term_height);
    draw_body(out, data, state, &vis, ln_w, zebra, n);
    render_bot_border(out, &vis, ln_w);
    render_status_bar(out, data, state, &vis, term_width, term_height);
    proof {
        let w = Window { ln_w, indices: vis.indices@, widths: vis.widths@ };
        parts_join(
            start,
            frame_start(state.mode),
            head(data@, w),
            body(state@, data@, w, zebra, n as nat),
            foot(w),
            status_bar(
                state@,
                data@,
                vis.indices@.len(),
                term_width as nat,
                term_height as nat,
            ),
        );
    }
}

/// Clears the screen if its size has changed since the last frame, and gives the size
/// to remember for the next.
pub fn clear_on_resize(out: &mut Canvas, prev_size: (u16, u16), size: (u16, u16)) -> (seen: (
    u16,
    u16,
))
    ensures
        seen == size,
        final(out)@ == (if prev_size == size {
            old(out)@
        } else {
            old(out)@.push(canvas::Mark::Control(Control::ClearAll))
        }),
{
    if size.0 != prev_size.0 || size.1 != prev_size.1 {
        out.control(Control::ClearAll);
    }
    size
}

// ── the printed table ──────────────────────────────────────────────────────

/// The first `n` rows of a table as they are printed.
pub open spec fn printed_rows(table: reader::Table, w: Window, zebra: bool, n: nat) -> Seq<
    canvas::Mark,
>
    decreases n,
{
    if n == 0 {
        Seq::empty()
    } else {
        printed_rows(table, w, zebra, (n - 1) as nat) + render::data_line(
            table.rows[n - 1],
            w.indices,
            w.widths,
            w.ln_w,
            n,
            render::stripe(zebra, (n - 1) as nat),
        )
    }
}

/// The whole table as it is printed: all rows, and the columns that fit.
pub open spec fn printed(
    table: reader::Table,
    max_col_width: nat,
    zebra: bool,
    show_line_numbers: bool,
    term_width: nat,
) -> Seq<canvas::Mark> {
    let w = window(
        show_line_numbers,
        0,
        table.rows.len(),
        table::col_widths(table, max_col_width),
        term_width,
    );
    if blank(w) {
        Seq::empty()
    } else {
        head(table, w) + printed_rows(table, w, zebra, table.rows.len()) + foot(w)
    }
}

fn draw_rows(
    out: &mut Canvas,
    data: &CsvData,
    vis: &VisibleCols,
    ln_w: Option<usize>,
    zebra: bool,
)
    requires
        vis.well_formed(),
    ensures
        final(out)@ == old(out)@ + printed_rows(
            data@,
            (Window { ln_w, indices: vis.indices@, widths: vis.widths@ }),
            zebra,
            data@.rows.len(),
        ),
{
    let ghost w = Window { ln_w, indices: vis.indices@, widths: vis.widths@ };
    let ghost start = out@;
    for i in 0..data.rows.len()
        invariant
            vis.well_formed(),
            w == (Window { ln_w, indices: vis.indices@, widths: vis.widths@ }),
            out@ == start + printed_rows(data@, w, zebra, i as nat),
    {
        assert(data@.rows[i as int] == data.rows@[i as int].deep_view());
        render_data_row(out, &data.rows[i], vis, i, zebra, ln_w, i + 1, false, false);
    }
}

/// Draws the whole table for a terminal of the given width.
pub fn print_table(
    data: &CsvData,
    max_col_width: usize,
    zebra: bool,
    show_line_numbers: bool,
    term_width: usize,
) -> (steps: Vec<Draw<String>>)
    ensures
        canvas::drawn(steps@) == printed(
            data@,
            max_col_width as nat,
            zebra,
            show_line_numbers,
            term_width as nat,
        ),
{
    let mut out = Canvas::new();
    let layout = TableLayout::compute(data, max_col_width);
    let ln_w = ln_col_width(data.rows.len(), show_line_numbers);
    let vis = VisibleCols::compute(
        layout.col_widths.as_slice(),
        0,
        term_width,
        geometry::reserved_left(ln_w),
    );
    if vis.is_empty() && ln_w.is_none() {
        return out.finish();
    }
    draw_head(&mut out, data, &vis, ln_w);
    draw_rows(&mut out, data, &vis, ln_w, zebra);
    render_bot_border(&mut out, &vis, ln_w);
    out.finish()
}

} // verus!
