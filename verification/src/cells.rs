//! What stands where in the lines of a table.
//!
//! A line is settled by what it is without columns and by what one more column at its
//! right end adds to it, and so each kind of line is described here: the rest of the
//! line stays as it was, and only the new cell comes in.

use vstd::prelude::*;

use crate::alignment;
use crate::canvas;
use crate::canvas::{Attribute, Color, Control, Mark};
use crate::geometry;
use crate::render;
use crate::text;

verus! {

// ── joining pieces ─────────────────────────────────────────────────────────

proof fn inserted_before_the_end(
    a: Seq<Mark>,
    b: Seq<Mark>,
    new: Seq<Mark>,
    c: Seq<Mark>,
    d: Seq<Mark>,
)
    ensures
        ({
            let line = a + b + c + d;
            let at = line.len() - c.len() - d.len();
            a + (b + new) + c + d == line.take(at) + new + line.skip(at)
        }),
{
    let line = a + b + c + d;
    let at = line.len() - c.len() - d.len();
    assert(line.take(at) =~= a + b);
    assert(line.skip(at) =~= c + d);
    assert(a + (b + new) + c + d =~= (a + b) + new + (c + d));
}

proof fn inserted_after_the_start(
    a: Seq<Mark>,
    b: Seq<Mark>,
    new: Seq<Mark>,
    c: Seq<Mark>,
    d: Seq<Mark>,
    e: Seq<Mark>,
)
    ensures
        ({
            let line = a + b + Seq::empty() + c + d + e;
            let at = (a.len() + b.len()) as int;
            a + b + new + c + d + e == line.take(at) + new + line.skip(at)
        }),
{
    let line = a + b + Seq::empty() + c + d + e;
    let at = (a.len() + b.len()) as int;
    assert(line.take(at) =~= a + b);
    assert(line.skip(at) =~= c + d + e);
    assert(a + b + new + c + d + e =~= (a + b) + new + (c + d + e));
}

proof fn a_data_cell_is(row: Seq<Seq<char>>, col: usize, w: usize)
    ensures
        ({
            let shown = if col < row.len() {
                text::fit(row[col as int], w as nat)
            } else {
                Seq::new(w as nat, |i: int| ' ')
            };
            render::boxed(text::fit(render::cell_of(row, col), w as nat)) == seq![
                Mark::Text(' '),
            ] + canvas::written(shown) + seq![Mark::Text(' '), Mark::Text('│')]
        }),
{
    let shown = if col < row.len() {
        text::fit(row[col as int], w as nat)
    } else {
        Seq::new(w as nat, |i: int| ' ')
    };
    a_fitted_cell_is(row, col, w);
    boxes_join(canvas::written(shown));
}

proof fn a_fitted_cell_is(row: Seq<Seq<char>>, col: usize, w: usize)
    ensures
        text::fit(render::cell_of(row, col), w as nat) == if col < row.len() {
            text::fit(row[col as int], w as nat)
        } else {
            Seq::new(w as nat, |i: int| ' ')
        },
{
    if col >= row.len() {
        assert(text::fit(Seq::empty(), w as nat) =~= Seq::new(w as nat, |i: int| ' '));
    }
}

proof fn boxes_join(a: Seq<Mark>)
    ensures
        render::ch(' ') + a + render::ch(' ') + render::ch('│') == seq![Mark::Text(' ')] + a
            + seq![Mark::Text(' '), Mark::Text('│')],
{
    assert(render::ch(' ') + a + render::ch(' ') + render::ch('│') =~= seq![Mark::Text(' ')] + a
        + seq![Mark::Text(' '), Mark::Text('│')]);
}

proof fn a_header_cell_is(headers: Seq<Seq<char>>, col: usize, w: usize)
    ensures
        ({
            let shown = if col < headers.len() {
                text::fit(headers[col as int], w as nat)
            } else {
                Seq::new(w as nat, |i: int| ' ')
            };
            render::header_cell(render::cell_of(headers, col), w as nat, Color::Cyan) == seq![
                Mark::Control(Control::SetAttribute(Attribute::Bold)),
                Mark::Control(Control::SetForeground(Color::Cyan)),
                Mark::Text(' '),
            ] + canvas::written(shown) + seq![
                Mark::Text(' '),
                Mark::Control(Control::SetAttribute(Attribute::Reset)),
                Mark::Text('│'),
            ]
        }),
{
    let shown = if col < headers.len() {
        text::fit(headers[col as int], w as nat)
    } else {
        Seq::new(w as nat, |i: int| ' ')
    };
    a_fitted_cell_is(headers, col, w);
    header_boxes_join(canvas::written(shown), Color::Cyan);
}

proof fn header_boxes_join(a: Seq<Mark>, color: Color)
    ensures
        canvas::command(Control::SetAttribute(Attribute::Bold)) + canvas::command(
            Control::SetForeground(color),
        ) + render::ch(' ') + a + render::ch(' ') + canvas::command(
            Control::SetAttribute(Attribute::Reset),
        ) + render::ch('│') == seq![
            Mark::Control(Control::SetAttribute(Attribute::Bold)),
            Mark::Control(Control::SetForeground(color)),
            Mark::Text(' '),
        ] + a + seq![
            Mark::Text(' '),
            Mark::Control(Control::SetAttribute(Attribute::Reset)),
            Mark::Text('│'),
        ],
{
    assert(canvas::command(Control::SetAttribute(Attribute::Bold)) + canvas::command(
        Control::SetForeground(color),
    ) + render::ch(' ') + a + render::ch(' ') + canvas::command(
        Control::SetAttribute(Attribute::Reset),
    ) + render::ch('│') =~= seq![
        Mark::Control(Control::SetAttribute(Attribute::Bold)),
        Mark::Control(Control::SetForeground(color)),
        Mark::Text(' '),
    ] + a + seq![
        Mark::Text(' '),
        Mark::Control(Control::SetAttribute(Attribute::Reset)),
        Mark::Text('│'),
    ]);
}

// ── backgrounds ────────────────────────────────────────────────────────────

/// The row of the focused match has its own background, whatever else holds of it; any
/// other match has that of matches; and of the rest every second row is striped, if rows
/// are striped at all.
pub proof fn what_decides_the_background(
    display_idx: nat,
    zebra: bool,
    is_match: bool,
    is_current_match: bool,
)
    ensures
        ({
            let bg = render::background(display_idx, zebra, is_match, is_current_match);
            &&& bg == Some(136u8) <==> is_current_match
            &&& bg == Some(58u8) <==> is_match && !is_current_match
            &&& bg == Some(236u8) <==> zebra && display_idx % 2 == 1 && !is_match
                && !is_current_match
            &&& bg is None <==> !(zebra && display_idx % 2 == 1) && !is_match
                && !is_current_match
        }),
        render::stripe(zebra, display_idx) == Some(236u8) <==> zebra && display_idx % 2 == 1,
        render::stripe(zebra, display_idx) is None <==> !(zebra && display_idx % 2 == 1),
{
}

// ── data rows ──────────────────────────────────────────────────────────────

/// A data row without columns is its leading border and the end of the line, on its
/// background.
pub proof fn a_data_row_without_columns(row: Seq<Seq<char>>, row_num: nat, bg: Option<u8>)
    ensures
        bg is None ==> render::data_line(row, Seq::empty(), Seq::empty(), None, row_num, bg)
            == seq![Mark::Text('│'), Mark::Text('\r'), Mark::Text('\n')],
        bg is Some ==> render::data_line(row, Seq::empty(), Seq::empty(), None, row_num, bg)
            == seq![
            Mark::Control(Control::SetBackground(bg->0)),
            Mark::Text('│'),
            Mark::Control(Control::ResetColor),
            Mark::Text('\r'),
            Mark::Text('\n'),
        ],
{
    assert(render::data_cells(row, Seq::empty(), Seq::empty(), 0) =~= Seq::empty());
}

/// The gutter of a data row comes right after the leading border: the row's number, dim
/// and grey, moved to the right end of the gutter by spaces, and a border.
pub proof fn the_gutter_shows_the_row_number(
    row: Seq<Seq<char>>,
    indices: Seq<usize>,
    widths: Seq<usize>,
    w: usize,
    row_num: nat,
    bg: Option<u8>,
)
    ensures
        ({
            let digits = text::decimal(row_num);
            let gap = if digits.len() < w {
                (w - digits.len()) as nat
            } else {
                0
            };
            let new = seq![
                Mark::Control(Control::SetAttribute(Attribute::Dim)),
                Mark::Control(Control::SetForeground(Color::DarkGrey)),
            ] + Seq::new(1 + gap, |i: int| Mark::Text(' ')) + canvas::written(digits) + seq![
                Mark::Text(' '),
                Mark::Control(Control::SetAttribute(Attribute::NormalIntensity)),
                Mark::Control(Control::SetForeground(Color::Reset)),
                Mark::Text('│'),
            ];
            let line = render::data_line(row, indices, widths, None, row_num, bg);
            let at: int = if bg is Some {
                2
            } else {
                1
            };
            render::data_line(row, indices, widths, Some(w), row_num, bg) == line.take(at) + new
                + line.skip(at)
        }),
{
    let digits = text::decimal(row_num);
    let gap = if digits.len() < w {
        (w - digits.len()) as nat
    } else {
        0
    };
    let new = seq![
        Mark::Control(Control::SetAttribute(Attribute::Dim)),
        Mark::Control(Control::SetForeground(Color::DarkGrey)),
    ] + Seq::new(1 + gap, |i: int| Mark::Text(' ')) + canvas::written(digits) + seq![
        Mark::Text(' '),
        Mark::Control(Control::SetAttribute(Attribute::NormalIntensity)),
        Mark::Control(Control::SetForeground(Color::Reset)),
        Mark::Text('│'),
    ];
    assert(render::numbered_gutter(Some(w), row_num) =~= new);
    inserted_after_the_start(
        render::paint(bg),
        render::ch('│'),
        new,
        render::data_cells(row, indices, widths, widths.len()),
        render::unpaint(bg),
        render::line_end(),
    );
}

proof fn earlier_cells_stay(
    row: Seq<Seq<char>>,
    indices: Seq<usize>,
    widths: Seq<usize>,
    col: usize,
    w: usize,
    n: nat,
)
    requires
        n <= widths.len(),
        indices.len() == widths.len(),
    ensures
        render::data_cells(row, indices.push(col), widths.push(w), n) == render::data_cells(
            row,
            indices,
            widths,
            n,
        ),
    decreases n,
{
    if n > 0 {
        earlier_cells_stay(row, indices, widths, col, w, (n - 1) as nat);
    }
}

/// One more column adds one cell at the end of a data row and changes nothing else: a
/// space, the row's own text in that column fitted to the column's width, a space and a
/// border. Where the row is too short to have a text there, the cell is blank.
pub proof fn a_column_more_adds_the_text_of_that_column(
    row: Seq<Seq<char>>,
    indices: Seq<usize>,
    widths: Seq<usize>,
    ln_w: Option<usize>,
    row_num: nat,
    bg: Option<u8>,
    col: usize,
    w: usize,
)
    requires
        indices.len() == widths.len(),
    ensures
        ({
            let shown = if col < row.len() {
                text::fit(row[col as int], w as nat)
            } else {
                Seq::new(w as nat, |i: int| ' ')
            };
            let new = seq![Mark::Text(' ')] + canvas::written(shown) + seq![
                Mark::Text(' '),
                Mark::Text('│'),
            ];
            let line = render::data_line(row, indices, widths, ln_w, row_num, bg);
            let at = line.len() - if bg is Some {
                3int
            } else {
                2int
            };
            render::data_line(row, indices.push(col), widths.push(w), ln_w, row_num, bg)
                == line.take(at) + new + line.skip(at)
        }),
{
    let shown = if col < row.len() {
        text::fit(row[col as int], w as nat)
    } else {
        Seq::new(w as nat, |i: int| ' ')
    };
    let new = seq![Mark::Text(' ')] + canvas::written(shown) + seq![
        Mark::Text(' '),
        Mark::Text('│'),
    ];
    let n = widths.len();
    earlier_cells_stay(row, indices, widths, col, w, n);
    a_data_cell_is(row, col, w);
    let before = render::data_cells(row, indices, widths, n);
    assert(render::data_cells(row, indices.push(col), widths.push(w), n + 1) == before + new);
    inserted_before_the_end(
        render::paint(bg) + render::ch('│') + render::numbered_gutter(ln_w, row_num),
        before,
        new,
        render::unpaint(bg),
        render::line_end(),
    );
}

proof fn later_cells_follow(
    row: Seq<Seq<char>>,
    indices: Seq<usize>,
    widths: Seq<usize>,
    k: nat,
    n: nat,
)
    requires
        k <= n,
    ensures
        render::data_cells(row, indices, widths, k).is_prefix_of(
            render::data_cells(row, indices, widths, n),
        ),
    decreases n,
{
    if k < n {
        later_cells_follow(row, indices, widths, k, (n - 1) as nat);
    }
}

proof fn found_after(
    start: Seq<Mark>,
    before: Seq<Mark>,
    cell: Seq<Mark>,
    all: Seq<Mark>,
    end: Seq<Mark>,
)
    requires
        (before + cell).is_prefix_of(all),
    ensures
        ({
            let line = start + all + end;
            let p = (start.len() + before.len()) as int;
            &&& p + cell.len() <= line.len()
            &&& line.take(p) == start + before
            &&& line.subrange(p, p + cell.len()) == cell
        }),
{
    let line = start + all + end;
    let p = (start.len() + before.len()) as int;
    let head = before + cell;
    assert forall|i: int| 0 <= i < head.len() implies #[trigger] all[i] == head[i] by {
        assert(all.take(head.len() as int)[i] == head[i]);
    }
    assert forall|i: int| 0 <= i < before.len() implies #[trigger] before[i] == all[i] by {
        assert(head[i] == before[i]);
    }
    assert forall|i: int| 0 <= i < cell.len() implies #[trigger] cell[i] == all[before.len() + i] by {
        assert(head[before.len() + i] == cell[i]);
    }
    assert(line.take(p) =~= start + before);
    assert(line.subrange(p, p + cell.len()) =~= cell);
}

/// In the line of a row, the cell of visible column `k` stands where that column
/// begins: after the leading border, the gutter and the cells of the columns before
/// it. Between a space and a space with the border it shows the row's own text in that
/// column, fitted to the column's width, or nothing but spaces where the row is too
/// short.
pub proof fn a_cell_stands_in_its_column(
    row: Seq<Seq<char>>,
    indices: Seq<usize>,
    widths: Seq<usize>,
    ln_w: Option<usize>,
    row_num: nat,
    bg: Option<u8>,
    k: int,
)
    requires
        indices.len() == widths.len(),
        0 <= k < widths.len(),
        ln_w matches Some(w) ==> text::decimal(row_num).len() <= w,
    ensures
        ({
            let line = render::data_line(row, indices, widths, ln_w, row_num, bg);
            let shown = if indices[k] < row.len() {
                text::fit(row[indices[k] as int], widths[k] as nat)
            } else {
                Seq::new(widths[k] as nat, |i: int| ' ')
            };
            let cell = seq![Mark::Text(' ')] + canvas::written(shown) + seq![
                Mark::Text(' '),
                Mark::Text('│'),
            ];
            exists|p: int|
                0 <= p && p + cell.len() <= line.len() && canvas::mark_columns(
                    #[trigger] line.take(p),
                ) == 1 + geometry::gutter_span(ln_w) + geometry::span(widths.take(k))
                    && line.subrange(p, p + cell.len()) == cell
        }),
{
    let line = render::data_line(row, indices, widths, ln_w, row_num, bg);
    let shown = if indices[k] < row.len() {
        text::fit(row[indices[k] as int], widths[k] as nat)
    } else {
        Seq::new(widths[k] as nat, |i: int| ' ')
    };
    let cell = seq![Mark::Text(' ')] + canvas::written(shown) + seq![
        Mark::Text(' '),
        Mark::Text('│'),
    ];
    a_data_cell_is(row, indices[k], widths[k]);
    let before = render::data_cells(row, indices, widths, k as nat);
    let all = render::data_cells(row, indices, widths, widths.len());
    assert(render::data_cells(row, indices, widths, (k + 1) as nat) == before + cell);
    later_cells_follow(row, indices, widths, (k + 1) as nat, widths.len());
    let paint = render::paint(bg);
    let bar = render::ch('│');
    let gutter = render::numbered_gutter(ln_w, row_num);
    let start = paint + bar + gutter;
    let end = render::unpaint(bg) + render::line_end();
    assert(line =~= start + all + end);
    found_after(start, before, cell, all, end);
    alignment::columns_of_paint(bg);
    alignment::columns_of_ch('│');
    alignment::columns_of_numbered_gutter(ln_w, row_num);
    alignment::columns_of_data_cells(row, indices, widths, k as nat);
    canvas::mark_columns_concat(paint, bar);
    canvas::mark_columns_concat(paint + bar, gutter);
    canvas::mark_columns_concat(start, before);
}

proof fn fitting_text_is_read_off(line: Seq<Mark>, s: Seq<char>, w: nat, at: nat)
    requires
        w > 0,
        text::columns(s) <= w,
        ({
            let cell = seq![Mark::Text(' ')] + canvas::written(text::fit(s, w)) + seq![
                Mark::Text(' '),
                Mark::Text('│'),
            ];
            exists|p: int|
                0 <= p && p + cell.len() <= line.len() && canvas::mark_columns(
                    #[trigger] line.take(p),
                ) == at && line.subrange(p, p + cell.len()) == cell
        }),
    ensures
        ({
            let gap = w - text::columns(s);
            exists|p: int|
                0 <= p && p + s.len() + gap + 3 <= line.len() && canvas::mark_columns(
                    #[trigger] line.take(p),
                ) == at && line[p] == Mark::Text(' ') && (forall|i: int|
                    0 <= i < s.len() ==> line[p + 1 + i] == Mark::Text(#[trigger] s[i])) && (
                forall|i: int|
                    p + 1 + s.len() <= i < p + 2 + s.len() + gap ==> #[trigger] line[i]
                        == Mark::Text(' ')) && line[p + 2 + s.len() + gap] == Mark::Text('│')
        }),
{
    let gap = w - text::columns(s);
    text::a_text_that_fits_is_shown_whole(s, w);
    let shown = text::fit(s, w);
    let cell = seq![Mark::Text(' ')] + canvas::written(shown) + seq![
        Mark::Text(' '),
        Mark::Text('│'),
    ];
    let p = choose|p: int|
        0 <= p && p + cell.len() <= line.len() && canvas::mark_columns(#[trigger] line.take(p))
            == at && line.subrange(p, p + cell.len()) == cell;
    assert forall|i: int| 0 <= i < cell.len() implies line[p + i] == #[trigger] cell[i] by {
        assert(line.subrange(p, p + cell.len())[i] == line[p + i]);
    }
    assert(cell[0] == Mark::Text(' '));
    assert forall|i: int| 0 <= i < s.len() implies line[p + 1 + i] == Mark::Text(
        #[trigger] s[i],
    ) by {
        assert(cell[1 + i] == Mark::Text(shown[i]));
    }
    assert forall|i: int| p + 1 + s.len() <= i < p + 2 + s.len() + gap implies #[trigger] line[i]
        == Mark::Text(' ') by {
        assert(cell[i - p] == Mark::Text(' '));
    }
    assert(cell[cell.len() - 1] == Mark::Text('│'));
    assert(line.take(p).len() == p);
}

/// A text that fits its column is read off the line whole: between the borders of the
/// column stand a space, the row's text character by character, and nothing but spaces.
pub proof fn a_text_that_fits_is_read_off_its_line(
    row: Seq<Seq<char>>,
    indices: Seq<usize>,
    widths: Seq<usize>,
    ln_w: Option<usize>,
    row_num: nat,
    bg: Option<u8>,
    k: int,
)
    requires
        indices.len() == widths.len(),
        0 <= k < widths.len(),
        ln_w matches Some(w) ==> text::decimal(row_num).len() <= w,
        indices[k] < row.len(),
        widths[k] > 0,
        text::columns(row[indices[k] as int]) <= widths[k],
    ensures
        ({
            let line = render::data_line(row, indices, widths, ln_w, row_num, bg);
            let s = row[indices[k] as int];
            let gap = widths[k] - text::columns(s);
            exists|p: int|
                0 <= p && p + s.len() + gap + 3 <= line.len() && canvas::mark_columns(
                    #[trigger] line.take(p),
                ) == 1 + geometry::gutter_span(ln_w) + geometry::span(widths.take(k))
                    && line[p] == Mark::Text(' ') && (forall|i: int|
                    0 <= i < s.len() ==> line[p + 1 + i] == Mark::Text(#[trigger] s[i])) && (
                forall|i: int|
                    p + 1 + s.len() <= i < p + 2 + s.len() + gap ==> #[trigger] line[i]
                        == Mark::Text(' ')) && line[p + 2 + s.len() + gap] == Mark::Text('│')
        }),
{
    a_cell_stands_in_its_column(row, indices, widths, ln_w, row_num, bg, k);
    let at = 1 + geometry::gutter_span(ln_w) + geometry::span(widths.take(k));
    fitting_text_is_read_off(
        render::data_line(row, indices, widths, ln_w, row_num, bg),
        row[indices[k] as int],
        widths[k] as nat,
        at,
    );
}

// ── the header ─────────────────────────────────────────────────────────────

/// The header line without columns is its leading border and the end of the line.
pub proof fn a_header_without_columns(headers: Seq<Seq<char>>)
    ensures
        render::header_line(headers, Seq::empty(), Seq::empty(), None) == seq![
            Mark::Text('│'),
            Mark::Text('\r'),
            Mark::Text('\n'),
        ],
{
    assert(render::header_cells(headers, Seq::empty(), Seq::empty(), 0) =~= Seq::empty());
}

/// The gutter of the header comes right after the leading border: a number sign, bold
/// and grey, and spaces up to the width of the gutter. A gutter without columns has no
/// room for the sign.
pub proof fn the_header_gutter_shows_a_number_sign(
    headers: Seq<Seq<char>>,
    indices: Seq<usize>,
    widths: Seq<usize>,
    w: usize,
)
    ensures
        ({
            let shown = if w > 0 {
                seq![Mark::Text('#')] + Seq::new((w - 1) as nat, |i: int| Mark::Text(' '))
            } else {
                Seq::empty()
            };
            let new = seq![
                Mark::Control(Control::SetAttribute(Attribute::Bold)),
                Mark::Control(Control::SetForeground(Color::DarkGrey)),
                Mark::Text(' '),
            ] + shown + seq![
                Mark::Text(' '),
                Mark::Control(Control::SetAttribute(Attribute::Reset)),
                Mark::Text('│'),
            ];
            let line = render::header_line(headers, indices, widths, None);
            render::header_line(headers, indices, widths, Some(w)) == line.take(1) + new
                + line.skip(1)
        }),
{
    let shown = if w > 0 {
        seq![Mark::Text('#')] + Seq::new((w - 1) as nat, |i: int| Mark::Text(' '))
    } else {
        Seq::empty()
    };
    let new = seq![
        Mark::Control(Control::SetAttribute(Attribute::Bold)),
        Mark::Control(Control::SetForeground(Color::DarkGrey)),
        Mark::Text(' '),
    ] + shown + seq![
        Mark::Text(' '),
        Mark::Control(Control::SetAttribute(Attribute::Reset)),
        Mark::Text('│'),
    ];
    text::columns_add_up(Seq::empty(), Seq::empty(), '#');
    if w > 0 {
        text::a_text_that_fits_is_shown_whole(seq!['#'], w as nat);
    }
    assert(canvas::written(text::fit(seq!['#'], w as nat)) =~= shown);
    header_boxes_join(shown, Color::DarkGrey);
    let cells = render::header_cells(headers, indices, widths, widths.len());
    let none = Seq::<Mark>::empty();
    inserted_after_the_start(none, render::ch('│'), new, cells, none, render::line_end());
    assert(none + render::ch('│') + none + cells + none + render::line_end()
        =~= render::header_line(headers, indices, widths, None));
    assert(none + render::ch('│') + new + cells + none + render::line_end()
        =~= render::header_line(headers, indices, widths, Some(w)));
}

proof fn earlier_headers_stay(
    headers: Seq<Seq<char>>,
    indices: Seq<usize>,
    widths: Seq<usize>,
    col: usize,
    w: usize,
    n: nat,
)
    requires
        n <= widths.len(),
        indices.len() == widths.len(),
    ensures
        render::header_cells(headers, indices.push(col), widths.push(w), n)
            == render::header_cells(headers, indices, widths, n),
    decreases n,
{
    if n > 0 {
        earlier_headers_stay(headers, indices, widths, col, w, (n - 1) as nat);
    }
}

/// One more column adds one cell at the end of the header and changes nothing else: the
/// header of that very column, bold and cyan, fitted to the column's width, and after it
/// everything is reset before the border.
pub proof fn a_column_more_adds_the_header_of_that_column(
    headers: Seq<Seq<char>>,
    indices: Seq<usize>,
    widths: Seq<usize>,
    ln_w: Option<usize>,
    col: usize,
    w: usize,
)
    requires
        indices.len() == widths.len(),
    ensures
        ({
            let shown = if col < headers.len() {
                text::fit(headers[col as int], w as nat)
            } else {
                Seq::new(w as nat, |i: int| ' ')
            };
            let new = seq![
                Mark::Control(Control::SetAttribute(Attribute::Bold)),
                Mark::Control(Control::SetForeground(Color::Cyan)),
                Mark::Text(' '),
            ] + canvas::written(shown) + seq![
                Mark::Text(' '),
                Mark::Control(Control::SetAttribute(Attribute::Reset)),
                Mark::Text('│'),
            ];
            let line = render::header_line(headers, indices, widths, ln_w);
            let at = line.len() - 2;
            render::header_line(headers, indices.push(col), widths.push(w), ln_w) == line.take(at)
                + new + line.skip(at)
        }),
{
    let shown = if col < headers.len() {
        text::fit(headers[col as int], w as nat)
    } else {
        Seq::new(w as nat, |i: int| ' ')
    };
    let new = seq![
        Mark::Control(Control::SetAttribute(Attribute::Bold)),
        Mark::Control(Control::SetForeground(Color::Cyan)),
        Mark::Text(' '),
    ] + canvas::written(shown) + seq![
        Mark::Text(' '),
        Mark::Control(Control::SetAttribute(Attribute::Reset)),
        Mark::Text('│'),
    ];
    let n = widths.len();
    earlier_headers_stay(headers, indices, widths, col, w, n);
    a_header_cell_is(headers, col, w);
    let before = render::header_cells(headers, indices, widths, n);
    assert(render::header_cells(headers, indices.push(col), widths.push(w), n + 1) == before
        + new);
    let start = render::ch('│') + render::header_gutter(ln_w);
    inserted_before_the_end(start, before, new, Seq::empty(), render::line_end());
    let none = Seq::<Mark>::empty();
    assert(start + before + none + render::line_end() =~= render::header_line(
        headers,
        indices,
        widths,
        ln_w,
    ));
    assert(start + (before + new) + none + render::line_end() =~= render::header_line(
        headers,
        indices.push(col),
        widths.push(w),
        ln_w,
    ));
}

proof fn later_headers_follow(
    headers: Seq<Seq<char>>,
    indices: Seq<usize>,
    widths: Seq<usize>,
    k: nat,
    n: nat,
)
    requires
        k <= n,
    ensures
        render::header_cells(headers, indices, widths, k).is_prefix_of(
            render::header_cells(headers, indices, widths, n),
        ),
    decreases n,
{
    if k < n {
        later_headers_follow(headers, indices, widths, k, (n - 1) as nat);
    }
}

/// In the header line, the header of visible column `k` stands where that column
/// begins, which is where the cells below it stand.
pub proof fn a_header_stands_above_its_column(
    headers: Seq<Seq<char>>,
    indices: Seq<usize>,
    widths: Seq<usize>,
    ln_w: Option<usize>,
    k: int,
)
    requires
        indices.len() == widths.len(),
        0 <= k < widths.len(),
    ensures
        ({
            let line = render::header_line(headers, indices, widths, ln_w);
            let shown = if indices[k] < headers.len() {
                text::fit(headers[indices[k] as int], widths[k] as nat)
            } else {
                Seq::new(widths[k] as nat, |i: int| ' ')
            };
            let cell = seq![
                Mark::Control(Control::SetAttribute(Attribute::Bold)),
                Mark::Control(Control::SetForeground(Color::Cyan)),
                Mark::Text(' '),
            ] + canvas::written(shown) + seq![
                Mark::Text(' '),
                Mark::Control(Control::SetAttribute(Attribute::Reset)),
                Mark::Text('│'),
            ];
            exists|p: int|
                0 <= p && p + cell.len() <= line.len() && canvas::mark_columns(
                    #[trigger] line.take(p),
                ) == 1 + geometry::gutter_span(ln_w) + geometry::span(widths.take(k))
                    && line.subrange(p, p + cell.len()) == cell
        }),
{
    let line = render::header_line(headers, indices, widths, ln_w);
    let shown = if indices[k] < headers.len() {
        text::fit(headers[indices[k] as int], widths[k] as nat)
    } else {
        Seq::new(widths[k] as nat, |i: int| ' ')
    };
    let cell = seq![
        Mark::Control(Control::SetAttribute(Attribute::Bold)),
        Mark::Control(Control::SetForeground(Color::Cyan)),
        Mark::Text(' '),
    ] + canvas::written(shown) + seq![
        Mark::Text(' '),
        Mark::Control(Control::SetAttribute(Attribute::Reset)),
        Mark::Text('│'),
    ];
    a_header_cell_is(headers, indices[k], widths[k]);
    let before = render::header_cells(headers, indices, widths, k as nat);
    let all = render::header_cells(headers, indices, widths, widths.len());
    assert(render::header_cells(headers, indices, widths, (k + 1) as nat) == before + cell);
    later_headers_follow(headers, indices, widths, (k + 1) as nat, widths.len());
    let bar = render::ch('│');
    let gutter = render::header_gutter(ln_w);
    let start = bar + gutter;
    found_after(start, before, cell, all, render::line_end());
    alignment::columns_of_ch('│');
    if let Some(w) = ln_w {
        alignment::columns_of_header_cell(seq!['#'], w as nat, Color::DarkGrey);
    }
    alignment::columns_of_header_cells(headers, indices, widths, k as nat);
    canvas::mark_columns_concat(bar, gutter);
    canvas::mark_columns_concat(start, before);
}

// ── borders and rows without data ──────────────────────────────────────────

/// The gutter, where there is one, is drawn like a column in front of the others.
pub proof fn the_gutter_is_the_first_slot(w: usize, widths: Seq<usize>)
    ensures
        render::slots(None, widths) == widths,
        render::slots(Some(w), widths).len() == widths.len() + 1,
        render::slots(Some(w), widths)[0] == w,
        forall|i: int|
            0 <= i < widths.len() ==> render::slots(Some(w), widths)[i + 1] == #[trigger] widths[i],
{
}

/// A border without columns is its corner and the end of the line. The first column
/// adds its stretch and the corner at its end; each further one ends the stretch before
/// it in a joint, and adds the same. A stretch is two longer than the column is wide.
pub proof fn a_column_more_adds_a_stretch(
    slots: Seq<usize>,
    w: usize,
    left: char,
    mid: char,
    right: char,
)
    ensures
        ({
            let line = render::border(slots, left, mid, right);
            let longer = render::border(slots.push(w), left, mid, right);
            let new = Seq::new(w as nat + 2, |i: int| Mark::Text('─')) + seq![
                Mark::Text(right),
                Mark::Text('\r'),
                Mark::Text('\n'),
            ];
            &&& slots.len() == 0 ==> line == seq![
                Mark::Text(left),
                Mark::Text('\r'),
                Mark::Text('\n'),
            ]
            &&& slots.len() == 0 ==> longer == seq![Mark::Text(left)] + new
            &&& slots.len() > 0 ==> longer == line.take(line.len() - 3) + seq![Mark::Text(mid)]
                + new
        }),
{
    let line = render::border(slots, left, mid, right);
    let longer = render::border(slots.push(w), left, mid, right);
    let n = slots.len();
    let stretch = Seq::new(w as nat + 2, |i: int| Mark::Text('─'));
    let new = stretch + seq![Mark::Text(right), Mark::Text('\r'), Mark::Text('\n')];
    assert(render::run('─', w as nat + 2) =~= stretch);
    assert(render::stretches(slots.push(w), 0, mid, right) =~= Seq::empty());
    assert(render::stretches(slots, 0, mid, right) =~= Seq::empty());
    if n == 0 {
        assert(longer =~= seq![Mark::Text(left)] + new);
    } else {
        let last = render::run('─', slots[n - 1] as nat + 2);
        let before = render::stretches(slots, (n - 1) as nat, mid, right);
        earlier_stretches_stay(slots, w, mid, right, (n - 1) as nat);
        assert(render::stretches(slots, n, mid, right) == before + last + render::ch(right));
        assert(render::stretches(slots.push(w), n, mid, right) == before + last + render::ch(mid));
        assert(line.take(line.len() - 3) =~= render::ch(left) + before + last);
        assert(longer =~= (render::ch(left) + before + last) + render::ch(mid) + new);
    }
}

proof fn earlier_stretches_stay(slots: Seq<usize>, w: usize, mid: char, right: char, n: nat)
    requires
        n < slots.len(),
    ensures
        render::stretches(slots.push(w), n, mid, right) == render::stretches(
            slots,
            n,
            mid,
            right,
        ),
    decreases n,
{
    if n > 0 {
        earlier_stretches_stay(slots, w, mid, right, (n - 1) as nat);
    }
}

proof fn earlier_blanks_stay(slots: Seq<usize>, w: usize, n: nat)
    requires
        n <= slots.len(),
    ensures
        render::empty_cells(slots.push(w), n) == render::empty_cells(slots, n),
    decreases n,
{
    if n > 0 {
        earlier_blanks_stay(slots, w, (n - 1) as nat);
    }
}

/// A row without data and without columns is its leading border and the end of the
/// line, on its background. Each column adds spaces, two more than it is wide, and a
/// border.
pub proof fn a_column_more_adds_a_blank(slots: Seq<usize>, w: usize, bg: Option<u8>)
    ensures
        bg is None ==> render::empty_line(Seq::empty(), bg) == seq![
            Mark::Text('│'),
            Mark::Text('\r'),
            Mark::Text('\n'),
        ],
        bg is Some ==> render::empty_line(Seq::empty(), bg) == seq![
            Mark::Control(Control::SetBackground(bg->0)),
            Mark::Text('│'),
            Mark::Control(Control::ResetColor),
            Mark::Text('\r'),
            Mark::Text('\n'),
        ],
        ({
            let new = Seq::new(w as nat + 2, |i: int| Mark::Text(' ')).push(Mark::Text('│'));
            let line = render::empty_line(slots, bg);
            let at = line.len() - if bg is Some {
                3int
            } else {
                2int
            };
            render::empty_line(slots.push(w), bg) == line.take(at) + new + line.skip(at)
        }),
{
    let new = Seq::new(w as nat + 2, |i: int| Mark::Text(' ')).push(Mark::Text('│'));
    assert(render::empty_cells(Seq::empty(), 0) =~= Seq::empty());
    let n = slots.len();
    earlier_blanks_stay(slots, w, n);
    assert(render::boxed(text::spaces(w as nat)) =~= new);
    let before = render::empty_cells(slots, n);
    assert(render::empty_cells(slots.push(w), n + 1) == before + new);
    inserted_before_the_end(
        render::paint(bg) + render::ch('│'),
        before,
        new,
        render::unpaint(bg),
        render::line_end(),
    );
}

} // verus!
