//! What holds of every picture of the viewer.

use vstd::prelude::*;

use crate::alignment;
use crate::canvas;
use crate::canvas::{Attribute, Control};
use crate::geometry;
use crate::reader;
use crate::render;
use crate::search;
use crate::state;
use crate::state_laws;
use crate::viewer;

verus! {

// ── sessions can be drawn ──────────────────────────────────────────────────

/// A consistent state can be drawn.
pub proof fn consistent_states_can_be_drawn(
    s: state::Session,
    table: reader::Table,
    ncols: nat,
)
    requires
        table.rows.len() <= usize::MAX,
        state_laws::consistent(s, table, ncols),
    ensures
        viewer::drawable(s, table.rows.len()),
{
    search::matches_are_the_rows_that_contain_the_query(
        table.rows,
        s.search_query,
        table.rows.len(),
    );
}

/// Whatever keys are pressed, the state can be drawn.
pub proof fn every_session_can_be_drawn(
    show_line_numbers: bool,
    table: reader::Table,
    col_widths: Seq<usize>,
    presses: Seq<state_laws::Press>,
)
    requires
        table.rows.len() <= usize::MAX,
    ensures
        viewer::drawable(
            state_laws::after(show_line_numbers, table, col_widths, presses),
            table.rows.len(),
        ),
{
    state_laws::every_session_stays_consistent(show_line_numbers, table, col_widths, presses);
    consistent_states_can_be_drawn(
        state_laws::after(show_line_numbers, table, col_widths, presses),
        table,
        col_widths.len(),
    );
}

/// The highlighted rows are those that contain the query, and the focused one is
/// among them.
pub proof fn highlighted_rows_contain_the_query(
    s: state::Session,
    table: reader::Table,
    ncols: nat,
    row: nat,
)
    requires
        table.rows.len() <= usize::MAX,
        state_laws::consistent(s, table, ncols),
        row < table.rows.len(),
    ensures
        viewer::highlighted(s, row) <==> s.search_query.len() > 0 && search::row_matches(
            table.rows[row as int],
            s.search_query,
        ),
        viewer::focused(s, row) ==> viewer::highlighted(s, row),
{
    search::matches_are_the_rows_that_contain_the_query(
        table.rows,
        s.search_query,
        table.rows.len(),
    );
    if s.search_query.len() > 0 {
        assert(viewer::highlighted(s, row) <==> s.matches.contains(row as usize));
    }
}

// ── backgrounds ────────────────────────────────────────────────────────────

/// No command among the marks changes the background.
pub open spec fn keeps_background(m: Seq<canvas::Mark>) -> bool {
    forall|i: int|
        0 <= i < m.len() ==> match #[trigger] m[i] {
            canvas::Mark::Text(_) => true,
            canvas::Mark::Control(c) => !(c is SetBackground) && c != Control::ResetColor && c
                != Control::SetAttribute(Attribute::Reset),
        }
}

proof fn data_cells_keep_the_background(
    row: Seq<Seq<char>>,
    indices: Seq<usize>,
    widths: Seq<usize>,
    n: nat,
)
    ensures
        keeps_background(render::data_cells(row, indices, widths, n)),
    decreases n,
{
    if n > 0 {
        data_cells_keep_the_background(row, indices, widths, (n - 1) as nat);
    }
}

/// The background of a data row persists from its first border to its last: neither
/// the line number nor a cell changes it, and it is reset after them.
pub proof fn the_background_persists_along_a_row(
    row: Seq<Seq<char>>,
    indices: Seq<usize>,
    widths: Seq<usize>,
    ln_w: Option<usize>,
    row_num: nat,
    bg: Option<u8>,
)
    ensures
        ({
            let inner = render::ch('│') + render::numbered_gutter(ln_w, row_num)
                + render::data_cells(row, indices, widths, widths.len());
            &&& keeps_background(inner)
            &&& render::data_line(row, indices, widths, ln_w, row_num, bg) == render::paint(bg)
                + inner + render::unpaint(bg) + render::line_end()
        }),
{
    data_cells_keep_the_background(row, indices, widths, widths.len());
    let bar = render::ch('│');
    let gutter = render::numbered_gutter(ln_w, row_num);
    let cells = render::data_cells(row, indices, widths, widths.len());
    assert(keeps_background(gutter));
    assert(render::paint(bg) + (bar + gutter + cells) =~= render::paint(bg) + bar + gutter + cells);
}

// ── frames line up ─────────────────────────────────────────────────────────

/// All lines of a frame take the same columns, whatever the table holds.
pub proof fn frames_line_up(
    s: state::Session,
    table: reader::Table,
    col_widths: Seq<usize>,
    term_width: nat,
    zebra: bool,
    k: nat,
)
    requires
        table.rows.len() <= usize::MAX,
    ensures
        ({
            let w = viewer::window(
                s.show_line_numbers,
                s.col_offset,
                table.rows.len(),
                col_widths,
                term_width,
            );
            let span = alignment::line_span(w.ln_w, w.widths);
            let slots = render::slots(w.ln_w, w.widths);
            &&& canvas::mark_columns(render::border(slots, '┌', '┬', '┐')) == span
            &&& canvas::mark_columns(
                render::header_line(table.headers, w.indices, w.widths, w.ln_w),
            ) == span
            &&& canvas::mark_columns(render::border(slots, '├', '┼', '┤')) == span
            &&& canvas::mark_columns(viewer::body_line(s, table, w, zebra, k)) == span
            &&& canvas::mark_columns(viewer::foot(w)) == span
        }),
{
    let w = viewer::window(
        s.show_line_numbers,
        s.col_offset,
        table.rows.len(),
        col_widths,
        term_width,
    );
    alignment::borders_line_up(w.ln_w, w.widths, '┌', '┬', '┐');
    alignment::borders_line_up(w.ln_w, w.widths, '├', '┼', '┤');
    alignment::borders_line_up(w.ln_w, w.widths, '└', '┴', '┘');
    alignment::the_header_lines_up(table.headers, w.indices, w.widths, w.ln_w);
    let row = s.row_offset + k;
    if row < table.rows.len() {
        if s.show_line_numbers {
            geometry::line_numbers_fit_the_gutter(row + 1, table.rows.len() as usize);
        }
        alignment::data_rows_line_up(
            table.rows[row as int],
            w.indices,
            w.widths,
            w.ln_w,
            row + 1,
            render::background(
                k,
                zebra,
                viewer::highlighted(s, row),
                viewer::focused(s, row),
            ),
        );
    } else {
        alignment::empty_rows_line_up(w.ln_w, w.widths, render::stripe(zebra, k));
    }
}

/// All rows of a printed table take the same columns.
pub proof fn printed_rows_line_up(
    table: reader::Table,
    col_widths: Seq<usize>,
    show_line_numbers: bool,
    term_width: nat,
    zebra: bool,
    n: nat,
)
    requires
        0 < n <= table.rows.len() <= usize::MAX,
    ensures
        ({
            let w = viewer::window(
                show_line_numbers,
                0,
                table.rows.len(),
                col_widths,
                term_width,
            );
            canvas::mark_columns(
                render::data_line(
                    table.rows[n - 1],
                    w.indices,
                    w.widths,
                    w.ln_w,
                    n,
                    render::stripe(zebra, (n - 1) as nat),
                ),
            ) == alignment::line_span(w.ln_w, w.widths)
        }),
{
    let w = viewer::window(show_line_numbers, 0, table.rows.len(), col_widths, term_width);
    if show_line_numbers {
        geometry::line_numbers_fit_the_gutter(n, table.rows.len() as usize);
    }
    alignment::data_rows_line_up(
        table.rows[n - 1],
        w.indices,
        w.widths,
        w.ln_w,
        n,
        render::stripe(zebra, (n - 1) as nat),
    );
}

} // verus!
