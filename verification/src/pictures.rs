//! What a picture shows: which rows and columns, which of the rows are marked, and what
//! the status bar says.

use vstd::prelude::*;

use crate::canvas;
use crate::canvas::{Attribute, Control, Mark};
use crate::cells;
use crate::geometry;
use crate::key_laws;
use crate::reader;
use crate::render;
use crate::state;
use crate::table;
use crate::text;
use crate::viewer;

verus! {

// ── the window ─────────────────────────────────────────────────────────────

/// A window shows consecutive columns from the offset on, each at its own width but for
/// the last one, which may be cut. With the leading border and the gutter they stay
/// within the terminal. One is cut only to fill the terminal to its last column, and one
/// is left out only if not even a single column of its text would fit.
pub proof fn a_window_shows_as_many_columns_as_fit(
    show_line_numbers: bool,
    col_offset: usize,
    total_rows: usize,
    col_widths: Seq<usize>,
    term_width: nat,
)
    requires
        col_widths.len() <= usize::MAX,
    ensures
        ({
            let w = viewer::window(
                show_line_numbers,
                col_offset as nat,
                total_rows as nat,
                col_widths,
                term_width,
            );
            let n = w.widths.len();
            let left = 1 + if show_line_numbers {
                text::decimal(total_rows as nat).len() + 3
            } else {
                0
            };
            &&& w.ln_w is Some <==> show_line_numbers
            &&& show_line_numbers ==> w.ln_w->0 == text::decimal(total_rows as nat).len()
            &&& w.indices.len() == n
            &&& forall|i: int|
                0 <= i < n ==> #[trigger] w.indices[i] == col_offset + i && w.indices[i]
                    < col_widths.len()
            &&& forall|i: int|
                0 <= i < n ==> #[trigger] w.widths[i] <= col_widths[col_offset + i]
            &&& forall|i: int|
                0 <= i < n - 1 ==> #[trigger] w.widths[i] == col_widths[col_offset + i]
            &&& n > 0 ==> left + geometry::span(w.widths) <= term_width
            &&& n > 0 && w.widths.last() < col_widths[col_offset + n - 1] ==> left
                + geometry::span(w.widths) == term_width
            &&& col_offset + n < col_widths.len() ==> left + geometry::span(w.widths) + 4
                > term_width
            &&& viewer::blank(w) <==> n == 0 && !show_line_numbers
        }),
{
    let ln_w = geometry::gutter(total_rows as nat, show_line_numbers);
    let room = geometry::room(term_width, geometry::gutter_span(ln_w));
    let widths = geometry::shown_widths(col_widths, col_offset as nat, room);
    geometry::the_gutter_is_as_wide_as_the_last_number(total_rows, show_line_numbers);
    geometry::shown_columns_fill_the_room(col_widths, col_offset as nat, room);
    geometry::shown_columns_exist(col_widths, col_offset as nat, room);
    if widths.len() > 0 {
        geometry::span_of_one(widths.last());
        geometry::span_concat(widths.drop_last(), seq![widths.last()]);
        assert(widths =~= widths.drop_last() + seq![widths.last()]);
    }
}

// ── the rows on screen ─────────────────────────────────────────────────────

/// Line `k` below the header shows the row that stands `k` rows after the offset, with
/// its own number, counted from one. It is painted as the focused match if it is that
/// one row, as a match if it is any other row among the matches of a query, and else as
/// a stripe on every second line, if there are stripes.
pub proof fn a_line_shows_its_row(
    s: state::Session,
    table: reader::Table,
    w: viewer::Window,
    zebra: bool,
    k: nat,
)
    requires
        s.row_offset + k < table.rows.len(),
        s.match_pos matches Some(p) ==> p < s.matches.len(),
    ensures
        ({
            let row = s.row_offset + k;
            let is_focused = s.match_pos is Some && s.matches[s.match_pos->0 as int] == row;
            let is_match = s.search_query.len() > 0 && exists|i: int|
                0 <= i < s.matches.len() && #[trigger] s.matches[i] == row;
            let bg = if is_focused {
                Some(136u8)
            } else if is_match {
                Some(58u8)
            } else if zebra && k % 2 == 1 {
                Some(236u8)
            } else {
                None
            };
            viewer::body_line(s, table, w, zebra, k) == render::data_line(
                table.rows[row as int],
                w.indices,
                w.widths,
                w.ln_w,
                row + 1,
                bg,
            )
        }),
{
}

/// A line below the end of the table is empty, and striped like the others.
pub proof fn lines_below_the_table_are_empty(
    s: state::Session,
    table: reader::Table,
    w: viewer::Window,
    zebra: bool,
    k: nat,
)
    requires
        s.row_offset + k >= table.rows.len(),
    ensures
        viewer::body_line(s, table, w, zebra, k) == render::empty_line(
            render::slots(w.ln_w, w.widths),
            if zebra && k % 2 == 1 {
                Some(236u8)
            } else {
                None
            },
        ),
{
}

proof fn a_data_row_begins_with_its_background(
    row: Seq<Seq<char>>,
    indices: Seq<usize>,
    widths: Seq<usize>,
    ln_w: Option<usize>,
    row_num: nat,
    bg: Option<u8>,
)
    ensures
        render::data_line(row, indices, widths, ln_w, row_num, bg)[0] == match bg {
            Some(color) => Mark::Control(Control::SetBackground(color)),
            None => Mark::Text('│'),
        },
{
    let gutter = render::numbered_gutter(ln_w, row_num);
    let cells = render::data_cells(row, indices, widths, widths.len());
    let a = render::paint(bg) + render::ch('│');
    assert(a[0] == match bg {
        Some(color) => Mark::Control(Control::SetBackground(color)),
        None => Mark::Text('│'),
    });
    assert((a + gutter)[0] == a[0]);
    assert((a + gutter + cells)[0] == a[0]);
    assert((a + gutter + cells + render::unpaint(bg))[0] == a[0]);
}

/// Of all lines with data, exactly the one of the focused match starts out in the colour
/// of the focus; the lines of all other matches, and no others, in that of matches.
pub proof fn only_the_focused_row_has_the_colour_of_the_focus(
    s: state::Session,
    table: reader::Table,
    w: viewer::Window,
    zebra: bool,
    k: nat,
)
    requires
        s.row_offset + k < table.rows.len(),
        s.match_pos matches Some(p) ==> p < s.matches.len(),
    ensures
        ({
            let row = s.row_offset + k;
            let first = viewer::body_line(s, table, w, zebra, k)[0];
            let is_focused = s.match_pos is Some && s.matches[s.match_pos->0 as int] == row;
            let is_match = s.search_query.len() > 0 && exists|i: int|
                0 <= i < s.matches.len() && #[trigger] s.matches[i] == row;
            &&& first == Mark::Control(Control::SetBackground(136u8)) <==> is_focused
            &&& first == Mark::Control(Control::SetBackground(58u8)) <==> is_match && !is_focused
            &&& first == Mark::Control(Control::SetBackground(236u8)) <==> zebra && k % 2 == 1
                && !is_match && !is_focused
            &&& first == Mark::Text('│') <==> !(zebra && k % 2 == 1) && !is_match && !is_focused
        }),
{
    let row = s.row_offset + k;
    let bg = render::background(k, zebra, viewer::highlighted(s, row), viewer::focused(s, row));
    a_data_row_begins_with_its_background(
        table.rows[row as int],
        w.indices,
        w.widths,
        w.ln_w,
        row + 1,
        bg,
    );
    cells::what_decides_the_background(
        k,
        zebra,
        viewer::highlighted(s, row),
        viewer::focused(s, row),
    );
}

/// After going to a match its row is on the screen, in the colour of the focus, and no
/// other row has that colour.
pub proof fn the_row_gone_to_is_painted(
    s: state::Session,
    table: reader::Table,
    w: viewer::Window,
    zebra: bool,
    forward: bool,
    term_height: nat,
    k: nat,
)
    requires
        0 < s.matches.len() <= usize::MAX,
        s.match_pos matches Some(p) ==> p < s.matches.len(),
        forall|i: int| 0 <= i < s.matches.len() ==> #[trigger] s.matches[i] < table.rows.len(),
        term_height > 5,
    ensures
        ({
            let t = state::navigated(s, forward, term_height);
            let target = s.matches[t.match_pos->0 as int];
            &&& t.row_offset <= target
            &&& target - t.row_offset < term_height - 5
            &&& t.row_offset + k < table.rows.len() ==> {
                viewer::body_line(t, table, w, zebra, k)[0] == Mark::Control(
                    Control::SetBackground(136u8),
                ) <==> t.row_offset + k == target
            }
        }),
{
    let t = state::navigated(s, forward, term_height);
    key_laws::the_focus_moves_by_one_match(s, forward, term_height);
    key_laws::a_match_off_screen_is_centered(s, forward, term_height);
    if t.row_offset + k < table.rows.len() {
        only_the_focused_row_has_the_colour_of_the_focus(t, table, w, zebra, k);
    }
}

// ── whole pictures ─────────────────────────────────────────────────────────

proof fn the_body_is_its_lines(
    s: state::Session,
    table: reader::Table,
    w: viewer::Window,
    zebra: bool,
    n: nat,
)
    ensures
        viewer::body(s, table, w, zebra, n) == Seq::new(
            n,
            |k: int| viewer::body_line(s, table, w, zebra, k as nat),
        ).flatten(),
    decreases n,
{
    let lines = Seq::new(n, |k: int| viewer::body_line(s, table, w, zebra, k as nat));
    if n == 0 {
        assert(lines.flatten() =~= Seq::empty());
    } else {
        let m = (n - 1) as nat;
        let before = Seq::new(m, |k: int| viewer::body_line(s, table, w, zebra, k as nat));
        the_body_is_its_lines(s, table, w, zebra, m);
        assert(lines =~= before.push(viewer::body_line(s, table, w, zebra, m)));
        before.lemma_flatten_push(viewer::body_line(s, table, w, zebra, m));
    }
}

proof fn lines_join(
    top: Seq<Mark>,
    header: Seq<Mark>,
    mid: Seq<Mark>,
    rows: Seq<Seq<Mark>>,
    bottom: Seq<Mark>,
)
    ensures
        (seq![top, header, mid] + rows + seq![bottom]).flatten() == top + header + mid
            + rows.flatten() + bottom,
{
    let a = seq![top, header, mid];
    let none = Seq::<Seq<Mark>>::empty();
    assert(none.flatten() =~= Seq::empty());
    none.lemma_flatten_push(top);
    assert(none.push(top) =~= seq![top]);
    seq![top].lemma_flatten_push(header);
    assert(seq![top].push(header) =~= seq![top, header]);
    seq![top, header].lemma_flatten_push(mid);
    assert(seq![top, header].push(mid) =~= a);
    assert(a.flatten() =~= top + header + mid);
    vstd::seq_lib::lemma_flatten_concat(a, rows);
    assert(a + rows + seq![bottom] =~= (a + rows).push(bottom));
    (a + rows).lemma_flatten_push(bottom);
}

/// A frame shows, one below the other, the top border, the header, the border below it,
/// one line for each row that fits the terminal, and the bottom border, drawn from the
/// top left corner on; the status bar comes last. The cursor shows only while a query is
/// typed. Where the window is blank, nothing of this is drawn.
pub proof fn a_frame_is_its_lines(
    s: state::Session,
    table: reader::Table,
    col_widths: Seq<usize>,
    term_width: nat,
    term_height: nat,
    zebra: bool,
)
    ensures
        ({
            let w = viewer::window(
                s.show_line_numbers,
                s.col_offset,
                table.rows.len(),
                col_widths,
                term_width,
            );
            let slots = render::slots(w.ln_w, w.widths);
            let n = if term_height >= 5 {
                (term_height - 5) as nat
            } else {
                0
            };
            let start = seq![
                Mark::Control(
                    if s.mode == state::Mode::Searching {
                        Control::ShowCursor
                    } else {
                        Control::HideCursor
                    },
                ),
                Mark::Control(Control::MoveTo(0u16, 0u16)),
            ];
            let lines = seq![
                render::border(slots, '┌', '┬', '┐'),
                render::header_line(table.headers, w.indices, w.widths, w.ln_w),
                render::border(slots, '├', '┼', '┤'),
            ] + Seq::new(n, |k: int| viewer::body_line(s, table, w, zebra, k as nat)) + seq![
                render::border(slots, '└', '┴', '┘'),
            ];
            let picture = viewer::frame(s, table, col_widths, term_width, term_height, zebra);
            &&& viewer::blank(w) ==> picture == start
            &&& !viewer::blank(w) ==> picture == start + lines.flatten() + viewer::status_bar(
                s,
                table,
                w.widths.len(),
                term_width,
                term_height,
            )
        }),
{
    let w = viewer::window(
        s.show_line_numbers,
        s.col_offset,
        table.rows.len(),
        col_widths,
        term_width,
    );
    let slots = render::slots(w.ln_w, w.widths);
    let n = geometry::rows_that_fit(term_height);
    let rows = Seq::new(n, |k: int| viewer::body_line(s, table, w, zebra, k as nat));
    let top = render::border(slots, '┌', '┬', '┐');
    let header = render::header_line(table.headers, w.indices, w.widths, w.ln_w);
    let mid = render::border(slots, '├', '┼', '┤');
    let bottom = render::border(slots, '└', '┴', '┘');
    let start = viewer::frame_start(s.mode);
    the_body_is_its_lines(s, table, w, zebra, n);
    lines_join(top, header, mid, rows, bottom);
    assert(start =~= seq![
        Mark::Control(
            if s.mode == state::Mode::Searching {
                Control::ShowCursor
            } else {
                Control::HideCursor
            },
        ),
        Mark::Control(Control::MoveTo(0u16, 0u16)),
    ]);
    if !viewer::blank(w) {
        regroup(start, top + header + mid, rows.flatten(), bottom);
    }
}

proof fn regroup(start: Seq<Mark>, a: Seq<Mark>, b: Seq<Mark>, c: Seq<Mark>)
    ensures
        start + a + b + c == start + (a + b + c),
{
    assert(start + a + b + c =~= start + (a + b + c));
}

proof fn printed_rows_are_their_lines(
    table: reader::Table,
    w: viewer::Window,
    zebra: bool,
    n: nat,
)
    ensures
        viewer::printed_rows(table, w, zebra, n) == Seq::new(
            n,
            |i: int|
                render::data_line(
                    table.rows[i],
                    w.indices,
                    w.widths,
                    w.ln_w,
                    (i + 1) as nat,
                    if zebra && i % 2 == 1 {
                        Some(236u8)
                    } else {
                        None
                    },
                ),
        ).flatten(),
    decreases n,
{
    let line = |i: int|
        render::data_line(
            table.rows[i],
            w.indices,
            w.widths,
            w.ln_w,
            (i + 1) as nat,
            if zebra && i % 2 == 1 {
                Some(236u8)
            } else {
                None
            },
        );
    let lines = Seq::new(n, line);
    if n == 0 {
        assert(lines.flatten() =~= Seq::empty());
    } else {
        let m = (n - 1) as nat;
        let before = Seq::new(m, line);
        printed_rows_are_their_lines(table, w, zebra, m);
        assert(lines =~= before.push(line(m as int)));
        before.lemma_flatten_push(line(m as int));
    }
}

/// A printed table shows, one below the other, the top border, the header, the border
/// below it, every row of the table with its own number, and the bottom border, in the
/// columns that fit. Where there is nothing to show, nothing is printed.
pub proof fn a_printed_table_is_its_lines(
    table: reader::Table,
    max_col_width: nat,
    zebra: bool,
    show_line_numbers: bool,
    term_width: nat,
)
    ensures
        ({
            let w = viewer::window(
                show_line_numbers,
                0,
                table.rows.len(),
                table::col_widths(table, max_col_width),
                term_width,
            );
            let slots = render::slots(w.ln_w, w.widths);
            let lines = seq![
                render::border(slots, '┌', '┬', '┐'),
                render::header_line(table.headers, w.indices, w.widths, w.ln_w),
                render::border(slots, '├', '┼', '┤'),
            ] + Seq::new(
                table.rows.len(),
                |i: int|
                    render::data_line(
                        table.rows[i],
                        w.indices,
                        w.widths,
                        w.ln_w,
                        (i + 1) as nat,
                        if zebra && i % 2 == 1 {
                            Some(236u8)
                        } else {
                            None
                        },
                    ),
            ) + seq![render::border(slots, '└', '┴', '┘')];
            let picture = viewer::printed(
                table,
                max_col_width,
                zebra,
                show_line_numbers,
                term_width,
            );
            &&& viewer::blank(w) ==> picture.len() == 0
            &&& !viewer::blank(w) ==> picture == lines.flatten()
        }),
{
    let w = viewer::window(
        show_line_numbers,
        0,
        table.rows.len(),
        table::col_widths(table, max_col_width),
        term_width,
    );
    let slots = render::slots(w.ln_w, w.widths);
    let rows = Seq::new(
        table.rows.len(),
        |i: int|
            render::data_line(
                table.rows[i],
                w.indices,
                w.widths,
                w.ln_w,
                (i + 1) as nat,
                if zebra && i % 2 == 1 {
                    Some(236u8)
                } else {
                    None
                },
            ),
    );
    printed_rows_are_their_lines(table, w, zebra, table.rows.len());
    lines_join(
        render::border(slots, '┌', '┬', '┐'),
        render::header_line(table.headers, w.indices, w.widths, w.ln_w),
        render::border(slots, '├', '┼', '┤'),
        rows,
        render::border(slots, '└', '┴', '┘'),
    );
}

// ── the status bar ─────────────────────────────────────────────────────────

proof fn ranges_join(
    a: Seq<char>,
    first: Seq<char>,
    dash: Seq<char>,
    last: Seq<char>,
    slash: Seq<char>,
    total: Seq<char>,
)
    ensures
        a + (first + dash + last + slash + total) == a + first + dash + last + slash + total,
{
    assert(a + (first + dash + last + slash + total) =~= a + first + dash + last + slash + total);
}

/// The position is all that stands before the query and the keys: the rows on the
/// screen, the first and the last of them, out of all, and the columns alike.
pub proof fn the_position_counts_rows_and_columns(
    s: state::Session,
    table: reader::Table,
    n_visible: nat,
    term_height: nat,
)
    ensures
        ({
            let n = if term_height >= 5 {
                (term_height - 5) as nat
            } else {
                0
            };
            let last_row = if s.row_offset + n < table.rows.len() {
                s.row_offset + n
            } else {
                table.rows.len()
            };
            let first_row = if table.rows.len() == 0 {
                0
            } else {
                s.row_offset + 1
            };
            viewer::position_info(s, table, n_visible, term_height) == " Rows "@ + text::decimal(
                first_row,
            ) + "-"@ + text::decimal(last_row) + "/"@ + text::decimal(table.rows.len())
                + " │ Cols "@ + text::decimal(s.col_offset + 1) + "-"@ + text::decimal(
                s.col_offset + n_visible,
            ) + "/"@ + text::decimal(table.headers.len())
        }),
{
    let first_row = if table.rows.len() == 0 {
        0
    } else {
        s.row_offset + 1
    };
    let last_row = viewer::end_row(s.row_offset, table.rows.len(), term_height);
    ranges_join(
        " Rows "@,
        text::decimal(first_row),
        "-"@,
        text::decimal(last_row),
        "/"@,
        text::decimal(table.rows.len()),
    );
    ranges_join(
        " Rows "@ + viewer::range_text(first_row, last_row, table.rows.len()) + " │ Cols "@,
        text::decimal(s.col_offset + 1),
        "-"@,
        text::decimal(s.col_offset + n_visible),
        "/"@,
        text::decimal(table.headers.len()),
    );
}

/// After the position come the query, if there is one, with the number of the focused
/// match, or zero, and the number of all matches; then the keys. The hint on line numbers
/// says what the key would do.
pub proof fn the_status_text_goes_on_with_search_and_keys(
    s: state::Session,
    table: reader::Table,
    n_visible: nat,
    term_height: nat,
)
    ensures
        ({
            let focus = if s.match_pos is Some {
                s.match_pos->0 as nat + 1
            } else {
                0
            };
            let search = " │ /"@ + s.search_query + " ("@ + text::decimal(focus) + "/"@
                + text::decimal(s.matches.len()) + ")"@;
            let keys = " │ hjkl/arrows │ PgUp/Dn │ g/G │ / search │ n/N │"@ + (
            if s.show_line_numbers {
                " # hide-ln"@
            } else {
                " # show-ln"@
            }) + " │ q "@;
            let position = viewer::position_info(s, table, n_visible, term_height);
            let status = viewer::status_text(s, table, n_visible, term_height);
            &&& s.search_query.len() == 0 ==> status == position + keys
            &&& s.search_query.len() > 0 ==> status == position + search + keys
        }),
{
    let position = viewer::position_info(s, table, n_visible, term_height);
    let search = viewer::match_info(s);
    let keys = " │ hjkl/arrows │ PgUp/Dn │ g/G │ / search │ n/N │"@;
    let hint = if s.show_line_numbers {
        " # hide-ln"@
    } else {
        " # show-ln"@
    };
    keys_join(position, search, keys, hint, " │ q "@);
    if s.search_query.len() == 0 {
        assert(position + search =~= position);
    }
}

proof fn keys_join(a: Seq<char>, b: Seq<char>, c: Seq<char>, d: Seq<char>, e: Seq<char>)
    ensures
        a + b + c + d + e == a + b + (c + d + e),
{
    assert(a + b + c + d + e =~= a + b + (c + d + e));
}

/// While the table is browsed, the last line of the terminal shows the status text, in
/// reverse and bold, from the left edge on: as much of it as fits, and after it nothing
/// but spaces.
pub proof fn browsing_shows_the_status_text(
    s: state::Session,
    table: reader::Table,
    n_visible: nat,
    term_width: nat,
    term_height: nat,
)
    requires
        s.mode == state::Mode::Normal,
        0 < term_height,
    ensures
        ({
            let line = ((term_height - 1) % 0x10000) as u16;
            let shown = text::clip(
                viewer::status_text(s, table, n_visible, term_height),
                term_width,
            );
            let gap = if shown.len() < term_width {
                (term_width - shown.len()) as nat
            } else {
                0
            };
            viewer::status_bar(s, table, n_visible, term_width, term_height) == seq![
                Mark::Control(Control::MoveTo(0u16, line)),
                Mark::Control(Control::SetAttribute(Attribute::Reverse)),
                Mark::Control(Control::SetAttribute(Attribute::Bold)),
            ] + canvas::written(shown) + Seq::new(gap, |i: int| Mark::Text(' ')) + seq![
                Mark::Control(Control::SetAttribute(Attribute::Reset)),
            ]
        }),
{
    let line = ((term_height - 1) % 0x10000) as u16;
    let shown = text::clip(viewer::status_text(s, table, n_visible, term_height), term_width);
    let gap = if shown.len() < term_width {
        (term_width - shown.len()) as nat
    } else {
        0
    };
    assert(canvas::written(viewer::left_aligned(shown, term_width)) =~= canvas::written(shown)
        + Seq::new(gap, |i: int| Mark::Text(' ')));
    browsing_joins(line, canvas::written(shown), Seq::new(gap, |i: int| Mark::Text(' ')));
}

proof fn browsing_joins(line: u16, a: Seq<Mark>, b: Seq<Mark>)
    ensures
        canvas::command(Control::MoveTo(0, line)) + canvas::command(
            Control::SetAttribute(Attribute::Reverse),
        ) + canvas::command(Control::SetAttribute(Attribute::Bold)) + (a + b)
            + canvas::command(Control::SetAttribute(Attribute::Reset)) == seq![
            Mark::Control(Control::MoveTo(0u16, line)),
            Mark::Control(Control::SetAttribute(Attribute::Reverse)),
            Mark::Control(Control::SetAttribute(Attribute::Bold)),
        ] + a + b + seq![Mark::Control(Control::SetAttribute(Attribute::Reset))],
{
    assert(canvas::command(Control::MoveTo(0, line)) + canvas::command(
        Control::SetAttribute(Attribute::Reverse),
    ) + canvas::command(Control::SetAttribute(Attribute::Bold)) + (a + b) + canvas::command(
        Control::SetAttribute(Attribute::Reset),
    ) =~= seq![
        Mark::Control(Control::MoveTo(0u16, line)),
        Mark::Control(Control::SetAttribute(Attribute::Reverse)),
        Mark::Control(Control::SetAttribute(Attribute::Bold)),
    ] + a + b + seq![Mark::Control(Control::SetAttribute(Attribute::Reset))]);
}

/// While a query is typed, the last line of the terminal shows a slash and the query
/// from the left edge on, as much as leaves one column free, and nothing after it. The
/// cursor stands after the slash and the query.
pub proof fn typing_shows_the_query(
    s: state::Session,
    table: reader::Table,
    n_visible: nat,
    term_width: nat,
    term_height: nat,
)
    requires
        s.mode == state::Mode::Searching,
        0 < term_height,
    ensures
        ({
            let line = ((term_height - 1) % 0x10000) as u16;
            let after = ((1 + text::columns(s.search_query)) % 0x10000) as u16;
            let room = if term_width > 0 {
                (term_width - 1) as nat
            } else {
                0
            };
            viewer::status_bar(s, table, n_visible, term_width, term_height) == seq![
                Mark::Control(Control::MoveTo(0u16, line)),
                Mark::Control(Control::SetAttribute(Attribute::Reset)),
            ] + canvas::written(text::clip(seq!['/'] + s.search_query, room)) + seq![
                Mark::Control(Control::ClearUntilNewLine),
                Mark::Control(Control::MoveTo(after, line)),
            ]
        }),
{
    let line = ((term_height - 1) % 0x10000) as u16;
    let after = ((1 + text::columns(s.search_query)) % 0x10000) as u16;
    let shown = text::clip(seq!['/'] + s.search_query, state::minus(term_width, 1));
    assert(viewer::status_bar(s, table, n_visible, term_width, term_height) =~= seq![
        Mark::Control(Control::MoveTo(0u16, line)),
        Mark::Control(Control::SetAttribute(Attribute::Reset)),
    ] + canvas::written(shown) + seq![
        Mark::Control(Control::ClearUntilNewLine),
        Mark::Control(Control::MoveTo(after, line)),
    ]);
}

} // verus!
