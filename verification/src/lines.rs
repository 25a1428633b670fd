//! How many lines a picture has.

use vstd::prelude::*;

use crate::canvas;
use crate::geometry;
use crate::reader;
use crate::render;
use crate::state;
use crate::text;
use crate::viewer;

verus! {

broadcast use vstd::string::group_string_axioms;

/// How often the terminal is told to go to a new line.
pub open spec fn line_feeds(m: Seq<canvas::Mark>) -> nat
    decreases m.len(),
{
    if m.len() == 0 {
        0
    } else {
        line_feeds(m.drop_last()) + if m.last() == canvas::Mark::Text('\n') {
            1nat
        } else {
            0
        }
    }
}

/// The text stays on one line.
pub open spec fn on_one_line(s: Seq<char>) -> bool {
    forall|i: int| 0 <= i < s.len() ==> #[trigger] s[i] != '\n'
}

/// No header and no cell of the table holds a line feed.
pub open spec fn cells_on_one_line(table: reader::Table) -> bool {
    &&& forall|c: int| 0 <= c < table.headers.len() ==> on_one_line(#[trigger] table.headers[c])
    &&& forall|r: int, c: int|
        0 <= r < table.rows.len() && 0 <= c < table.rows[r].len() ==> on_one_line(
            #[trigger] table.rows[r][c],
        )
}

pub proof fn line_feeds_concat(a: Seq<canvas::Mark>, b: Seq<canvas::Mark>)
    ensures
        line_feeds(a + b) == line_feeds(a) + line_feeds(b),
    decreases b.len(),
{
    if b.len() == 0 {
        assert(a + b =~= a);
    } else {
        assert((a + b).drop_last() =~= a + b.drop_last());
        line_feeds_concat(a, b.drop_last());
    }
}

/// The marks hold no line feed.
spec fn inline(m: Seq<canvas::Mark>) -> bool {
    forall|i: int| 0 <= i < m.len() ==> #[trigger] m[i] != canvas::Mark::Text('\n')
}

proof fn inline_marks_have_no_line_feeds(m: Seq<canvas::Mark>)
    requires
        inline(m),
    ensures
        line_feeds(m) == 0,
    decreases m.len(),
{
    if m.len() > 0 {
        inline_marks_have_no_line_feeds(m.drop_last());
    }
}

proof fn one_line(m: Seq<canvas::Mark>)
    requires
        inline(m),
    ensures
        line_feeds(m + render::line_end()) == 1,
{
    inline_marks_have_no_line_feeds(m);
    line_feeds_concat(m, render::line_end());
    reveal_with_fuel(line_feeds, 3);
    assert(render::line_end().drop_last() =~= render::ch('\r'));
}

proof fn fitted_text_stays_on_one_line(s: Seq<char>, w: nat)
    requires
        on_one_line(s),
    ensures
        on_one_line(text::fit(s, w)),
{
    if w > 0 && text::columns(s) > w {
        text::fitting_is_longest(s, (w - 1) as nat);
    }
}

proof fn decimals_stay_on_one_line(n: nat)
    ensures
        on_one_line(text::decimal(n)),
    decreases n,
{
    if n >= 10 {
        decimals_stay_on_one_line(n / 10);
    }
}

proof fn stretches_are_inline(slots: Seq<usize>, n: nat, mid: char, right: char)
    requires
        mid != '\n',
        right != '\n',
    ensures
        inline(render::stretches(slots, n, mid, right)),
    decreases n,
{
    if n > 0 {
        stretches_are_inline(slots, (n - 1) as nat, mid, right);
    }
}

/// A border is one line.
pub proof fn a_border_is_one_line(slots: Seq<usize>, left: char, mid: char, right: char)
    requires
        left != '\n',
        mid != '\n',
        right != '\n',
    ensures
        line_feeds(render::border(slots, left, mid, right)) == 1,
{
    stretches_are_inline(slots, slots.len(), mid, right);
    one_line(render::ch(left) + render::stretches(slots, slots.len(), mid, right));
}

proof fn header_cells_are_inline(
    headers: Seq<Seq<char>>,
    indices: Seq<usize>,
    widths: Seq<usize>,
    n: nat,
)
    requires
        forall|c: int| 0 <= c < headers.len() ==> on_one_line(#[trigger] headers[c]),
    ensures
        inline(render::header_cells(headers, indices, widths, n)),
    decreases n,
{
    if n > 0 {
        header_cells_are_inline(headers, indices, widths, (n - 1) as nat);
        fitted_text_stays_on_one_line(
            render::cell_of(headers, indices[n - 1]),
            widths[n - 1] as nat,
        );
    }
}

/// The header row is one line, if no header holds a line feed.
pub proof fn the_header_is_one_line(
    headers: Seq<Seq<char>>,
    indices: Seq<usize>,
    widths: Seq<usize>,
    ln_w: Option<usize>,
)
    requires
        forall|c: int| 0 <= c < headers.len() ==> on_one_line(#[trigger] headers[c]),
    ensures
        line_feeds(render::header_line(headers, indices, widths, ln_w)) == 1,
{
    header_cells_are_inline(headers, indices, widths, widths.len());
    if let Some(w) = ln_w {
        fitted_text_stays_on_one_line(seq!['#'], w as nat);
    }
    one_line(
        render::ch('│') + render::header_gutter(ln_w) + render::header_cells(
            headers,
            indices,
            widths,
            widths.len(),
        ),
    );
}

proof fn data_cells_are_inline(
    row: Seq<Seq<char>>,
    indices: Seq<usize>,
    widths: Seq<usize>,
    n: nat,
)
    requires
        forall|c: int| 0 <= c < row.len() ==> on_one_line(#[trigger] row[c]),
    ensures
        inline(render::data_cells(row, indices, widths, n)),
    decreases n,
{
    if n > 0 {
        data_cells_are_inline(row, indices, widths, (n - 1) as nat);
        fitted_text_stays_on_one_line(render::cell_of(row, indices[n - 1]), widths[n - 1] as nat);
    }
}

/// A data row is one line, if no cell of it holds a line feed.
pub proof fn a_data_row_is_one_line(
    row: Seq<Seq<char>>,
    indices: Seq<usize>,
    widths: Seq<usize>,
    ln_w: Option<usize>,
    row_num: nat,
    bg: Option<u8>,
)
    requires
        forall|c: int| 0 <= c < row.len() ==> on_one_line(#[trigger] row[c]),
    ensures
        line_feeds(render::data_line(row, indices, widths, ln_w, row_num, bg)) == 1,
{
    data_cells_are_inline(row, indices, widths, widths.len());
    decimals_stay_on_one_line(row_num);
    assert(inline(render::numbered_gutter(ln_w, row_num)));
    one_line(
        render::paint(bg) + render::ch('│') + render::numbered_gutter(ln_w, row_num)
            + render::data_cells(row, indices, widths, widths.len()) + render::unpaint(bg),
    );
}

proof fn empty_cells_are_inline(slots: Seq<usize>, n: nat)
    ensures
        inline(render::empty_cells(slots, n)),
    decreases n,
{
    if n > 0 {
        empty_cells_are_inline(slots, (n - 1) as nat);
    }
}

/// A row without data is one line.
pub proof fn an_empty_row_is_one_line(slots: Seq<usize>, bg: Option<u8>)
    ensures
        line_feeds(render::empty_line(slots, bg)) == 1,
{
    empty_cells_are_inline(slots, slots.len());
    one_line(
        render::paint(bg) + render::ch('│') + render::empty_cells(slots, slots.len())
            + render::unpaint(bg),
    );
}

/// Below the header there are as many lines as asked for.
pub proof fn the_body_has_n_lines(
    s: state::Session,
    table: reader::Table,
    w: viewer::Window,
    zebra: bool,
    n: nat,
)
    requires
        cells_on_one_line(table),
    ensures
        line_feeds(viewer::body(s, table, w, zebra, n)) == n,
    decreases n,
{
    if n > 0 {
        let k = (n - 1) as nat;
        the_body_has_n_lines(s, table, w, zebra, k);
        let row = s.row_offset + k;
        if row < table.rows.len() {
            assert forall|c: int| 0 <= c < table.rows[row as int].len() implies on_one_line(
                #[trigger] table.rows[row as int][c],
            ) by {}
            a_data_row_is_one_line(
                table.rows[row as int],
                w.indices,
                w.widths,
                w.ln_w,
                row + 1,
                render::background(
                    k,
                    zebra,
                    viewer::highlighted(s, row),
                    viewer::focused(s, row),
                ),
            );
        } else {
            an_empty_row_is_one_line(
                render::slots(w.ln_w, w.widths),
                render::stripe(zebra, k),
            );
        }
        line_feeds_concat(
            viewer::body(s, table, w, zebra, k),
            viewer::body_line(s, table, w, zebra, k),
        );
    }
}

proof fn the_head_has_three_lines(table: reader::Table, w: viewer::Window)
    requires
        cells_on_one_line(table),
    ensures
        line_feeds(viewer::head(table, w)) == 3,
{
    let slots = render::slots(w.ln_w, w.widths);
    let top = render::border(slots, '┌', '┬', '┐');
    let header = render::header_line(table.headers, w.indices, w.widths, w.ln_w);
    let mid = render::border(slots, '├', '┼', '┤');
    a_border_is_one_line(slots, '┌', '┬', '┐');
    the_header_is_one_line(table.headers, w.indices, w.widths, w.ln_w);
    a_border_is_one_line(slots, '├', '┼', '┤');
    line_feeds_concat(top, header);
    line_feeds_concat(top + header, mid);
}

/// Every character of the status text takes one column, but for those of the query.
pub open spec fn plain_but_for(s: Seq<char>, query: Seq<char>) -> bool {
    forall|i: int| 0 <= i < s.len() ==> text::one_column(#[trigger] s[i]) || query.contains(s[i])
}

proof fn decimals_are_plain(n: nat, query: Seq<char>)
    ensures
        plain_but_for(text::decimal(n), query),
    decreases n,
{
    if n >= 10 {
        decimals_are_plain(n / 10, query);
        let front = text::decimal(n / 10);
        assert forall|i: int| 0 <= i < text::decimal(n).len() implies text::one_column(
            #[trigger] text::decimal(n)[i],
        ) || query.contains(text::decimal(n)[i]) by {
            if i < front.len() {
                assert(text::decimal(n)[i] == front[i]);
            }
        }
    }
}

proof fn plain_concat(a: Seq<char>, b: Seq<char>, query: Seq<char>)
    requires
        plain_but_for(a, query),
        plain_but_for(b, query),
    ensures
        plain_but_for(a + b, query),
{
    assert forall|i: int| 0 <= i < (a + b).len() implies text::one_column(#[trigger] (a + b)[i])
        || query.contains((a + b)[i]) by {
        if i < a.len() {
            assert((a + b)[i] == a[i]);
        } else {
            assert((a + b)[i] == b[i - a.len()]);
        }
    }
}

proof fn ranges_are_plain(first: nat, last: nat, total: nat, query: Seq<char>)
    ensures
        plain_but_for(viewer::range_text(first, last, total), query),
{
    reveal_strlit("-");
    reveal_strlit("/");
    decimals_are_plain(first, query);
    decimals_are_plain(last, query);
    decimals_are_plain(total, query);
    let a = text::decimal(first);
    let b = text::decimal(last);
    plain_concat(a, "-"@, query);
    plain_concat(a + "-"@, b, query);
    plain_concat(a + "-"@ + b, "/"@, query);
    plain_concat(a + "-"@ + b + "/"@, text::decimal(total), query);
}

proof fn match_info_is_plain(s: state::Session)
    ensures
        plain_but_for(viewer::match_info(s), s.search_query),
{
    let q = s.search_query;
    if q.len() > 0 {
        let focused = match s.match_pos {
            Some(pos) => pos as nat + 1,
            None => 0,
        };
        reveal_strlit(" │ /");
        reveal_strlit(" (");
        reveal_strlit("/");
        reveal_strlit(")");
        decimals_are_plain(focused, q);
        decimals_are_plain(s.matches.len(), q);
        assert(plain_but_for(q, q)) by {
            assert forall|i: int| 0 <= i < q.len() implies q.contains(#[trigger] q[i]) by {}
        }
        let a = " │ /"@;
        let b = a + q + " ("@;
        let c = b + text::decimal(focused) + "/"@;
        plain_concat(a, q, q);
        plain_concat(a + q, " ("@, q);
        plain_concat(b, text::decimal(focused), q);
        plain_concat(b + text::decimal(focused), "/"@, q);
        plain_concat(c, text::decimal(s.matches.len()), q);
        plain_concat(c + text::decimal(s.matches.len()), ")"@, q);
    }
}

/// Only the query can bring characters into the status text that do not take one
/// column.
pub proof fn the_status_text_is_plain_but_for_the_query(
    s: state::Session,
    table: reader::Table,
    n_visible: nat,
    term_height: nat,
)
    ensures
        plain_but_for(viewer::status_text(s, table, n_visible, term_height), s.search_query),
{
    let q = s.search_query;
    let first_row = if table.rows.len() == 0 {
        0
    } else {
        s.row_offset + 1
    };
    let end = viewer::end_row(s.row_offset, table.rows.len(), term_height);
    let rows = viewer::range_text(first_row, end, table.rows.len());
    let cols = viewer::range_text(
        s.col_offset + 1,
        s.col_offset + n_visible,
        table.headers.len(),
    );
    reveal_strlit(" Rows ");
    reveal_strlit(" │ Cols ");
    reveal_strlit(" │ hjkl/arrows │ PgUp/Dn │ g/G │ / search │ n/N │");
    reveal_strlit(" # hide-ln");
    reveal_strlit(" # show-ln");
    reveal_strlit(" │ q ");
    ranges_are_plain(first_row, end, table.rows.len(), q);
    ranges_are_plain(s.col_offset + 1, s.col_offset + n_visible, table.headers.len(), q);
    match_info_is_plain(s);
    let position = viewer::position_info(s, table, n_visible, term_height);
    let keys = " │ hjkl/arrows │ PgUp/Dn │ g/G │ / search │ n/N │"@;
    let hint = if s.show_line_numbers {
        " # hide-ln"@
    } else {
        " # show-ln"@
    };
    plain_concat(" Rows "@, rows, q);
    plain_concat(" Rows "@ + rows, " │ Cols "@, q);
    plain_concat(" Rows "@ + rows + " │ Cols "@, cols, q);
    plain_concat(position, viewer::match_info(s), q);
    plain_concat(position + viewer::match_info(s), keys, q);
    plain_concat(position + viewer::match_info(s) + keys, hint, q);
    plain_concat(position + viewer::match_info(s) + keys + hint, " │ q "@, q);
}

/// The status line fills the width of the terminal, if every character of the query
/// takes one column.
pub proof fn the_status_line_fills_the_width(
    s: state::Session,
    table: reader::Table,
    n_visible: nat,
    term_width: nat,
    term_height: nat,
)
    requires
        forall|i: int|
            0 <= i < s.search_query.len() ==> text::char_columns(#[trigger] s.search_query[i]) == 1,
    ensures
        text::columns(
            viewer::left_aligned(
                text::clip(
                    viewer::status_text(s, table, n_visible, term_height),
                    term_width,
                ),
                term_width,
            ),
        ) == term_width,
{
    let status = viewer::status_text(s, table, n_visible, term_height);
    the_status_text_is_plain_but_for_the_query(s, table, n_visible, term_height);
    text::clip_is_the_longest_that_fits(status, term_width);
    let clipped = text::clip(status, term_width);
    assert forall|i: int| 0 <= i < clipped.len() implies text::char_columns(
        #[trigger] clipped[i],
    ) == 1 by {
        assert(clipped[i] == status[i]);
        if !text::one_column(status[i]) {
            assert(s.search_query.contains(status[i]));
        }
    }
    text::columns_of_one_column_text(clipped);
    let line = viewer::left_aligned(clipped, term_width);
    text::columns_of_one_column_text(line);
}

proof fn the_status_bar_is_inline(
    s: state::Session,
    table: reader::Table,
    n_visible: nat,
    term_width: nat,
    term_height: nat,
)
    requires
        on_one_line(s.search_query),
    ensures
        line_feeds(viewer::status_bar(s, table, n_visible, term_width, term_height)) == 0,
{
    let status = viewer::status_text(s, table, n_visible, term_height);
    the_status_text_is_plain_but_for_the_query(s, table, n_visible, term_height);
    text::fitting_is_longest(status, term_width);
    assert(on_one_line(status)) by {
        assert forall|i: int| 0 <= i < status.len() implies #[trigger] status[i] != '\n' by {
            if !text::one_column(status[i]) {
                assert(s.search_query.contains(status[i]));
            }
        }
    }
    let prompt = seq!['/'] + s.search_query;
    text::fitting_is_longest(prompt, state::minus(term_width, 1));
    inline_marks_have_no_line_feeds(
        viewer::status_bar(s, table, n_visible, term_width, term_height),
    );
}

/// A frame has as many lines as the terminal: one less goes to a new line, since the
/// status bar stays on the last. This holds of a terminal that is high enough for the
/// frame's own lines, and of texts that hold no line feed.
pub proof fn a_frame_fills_the_screen(
    s: state::Session,
    table: reader::Table,
    col_widths: Seq<usize>,
    term_width: nat,
    term_height: nat,
    zebra: bool,
)
    requires
        term_height >= 5,
        cells_on_one_line(table),
        on_one_line(s.search_query),
        !viewer::blank(
            viewer::window(
                s.show_line_numbers,
                s.col_offset,
                table.rows.len(),
                col_widths,
                term_width,
            ),
        ),
    ensures
        line_feeds(viewer::frame(s, table, col_widths, term_width, term_height, zebra)) + 1
            == term_height,
{
    let w = viewer::window(
        s.show_line_numbers,
        s.col_offset,
        table.rows.len(),
        col_widths,
        term_width,
    );
    let n = geometry::rows_that_fit(term_height);
    let start = viewer::frame_start(s.mode);
    let head = viewer::head(table, w);
    let body = viewer::body(s, table, w, zebra, n);
    let foot = viewer::foot(w);
    let status = viewer::status_bar(s, table, w.widths.len(), term_width, term_height);
    inline_marks_have_no_line_feeds(start);
    the_head_has_three_lines(table, w);
    the_body_has_n_lines(s, table, w, zebra, n);
    a_border_is_one_line(render::slots(w.ln_w, w.widths), '└', '┴', '┘');
    the_status_bar_is_inline(s, table, w.widths.len(), term_width, term_height);
    line_feeds_concat(start, head);
    line_feeds_concat(start + head, body);
    line_feeds_concat(start + head + body, foot);
    line_feeds_concat(start + head + body + foot, status);
}

} // verus!
