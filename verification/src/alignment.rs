//! The lines of a table line up: all take the same columns.

use vstd::prelude::*;

use crate::canvas;
use crate::canvas::{Attribute, Color, Control};
use crate::geometry;
use crate::render;
use crate::text;

verus! {

/// The columns of every line: the leading border, the gutter and the data columns.
pub open spec fn line_span(ln_w: Option<usize>, widths: Seq<usize>) -> nat {
    1 + geometry::gutter_span(ln_w) + geometry::span(widths)
}

pub(crate) proof fn columns_of_ch(c: char)
    requires
        text::one_column(c),
    ensures
        canvas::mark_columns(render::ch(c)) == 1,
{
    reveal_with_fuel(canvas::mark_columns, 2);
}

proof fn columns_of_command(c: Control)
    ensures
        canvas::mark_columns(canvas::command(c)) == 0,
{
    reveal_with_fuel(canvas::mark_columns, 2);
}

proof fn columns_of_line_end()
    ensures
        canvas::mark_columns(render::line_end()) == 0,
{
    reveal_with_fuel(canvas::mark_columns, 3);
    assert(render::line_end().drop_last() =~= render::ch('\r'));
}

proof fn columns_of_run(c: char, n: nat)
    requires
        text::one_column(c),
    ensures
        canvas::mark_columns(render::run(c, n)) == n,
{
    let s = Seq::new(n, |i: int| c);
    text::columns_of_one_column_text(s);
    canvas::mark_columns_of_text(s);
}

proof fn columns_of_boxed(s: Seq<char>)
    ensures
        canvas::mark_columns(render::boxed(s)) == text::columns(s) + 3,
{
    columns_of_ch(' ');
    columns_of_ch('│');
    canvas::mark_columns_of_text(s);
    let a = render::ch(' ');
    let b = canvas::written(s);
    let c = render::ch(' ');
    canvas::mark_columns_concat(a, b);
    canvas::mark_columns_concat(a + b, c);
    canvas::mark_columns_concat(a + b + c, render::ch('│'));
}

proof fn span_of_slots(ln_w: Option<usize>, widths: Seq<usize>)
    ensures
        geometry::span(render::slots(ln_w, widths)) == geometry::gutter_span(ln_w)
            + geometry::span(widths),
{
    if let Some(w) = ln_w {
        geometry::span_concat(seq![w], widths);
        reveal_with_fuel(geometry::span, 2);
        assert(seq![w].drop_last() =~= Seq::<usize>::empty());
    }
}

proof fn span_of_prefix(widths: Seq<usize>, n: int)
    requires
        0 < n <= widths.len(),
    ensures
        geometry::span(widths.take(n)) == geometry::span(widths.take(n - 1)) + widths[n - 1] + 3,
{
    assert(widths.take(n).drop_last() =~= widths.take(n - 1));
}

proof fn columns_of_stretches(slots: Seq<usize>, n: nat, mid: char, right: char)
    requires
        n <= slots.len(),
        text::one_column(mid),
        text::one_column(right),
    ensures
        canvas::mark_columns(render::stretches(slots, n, mid, right)) == geometry::span(
            slots.take(n as int),
        ),
    decreases n,
{
    if n > 0 {
        columns_of_stretches(slots, (n - 1) as nat, mid, right);
        span_of_prefix(slots, n as int);
        let joint = if n < slots.len() {
            mid
        } else {
            right
        };
        let a = render::stretches(slots, (n - 1) as nat, mid, right);
        let b = render::run('─', slots[n - 1] as nat + 2);
        columns_of_run('─', slots[n - 1] as nat + 2);
        columns_of_ch(joint);
        canvas::mark_columns_concat(a, b);
        canvas::mark_columns_concat(a + b, render::ch(joint));
    }
}

/// A border takes the columns of a line, whatever its corners and joints.
pub proof fn borders_line_up(
    ln_w: Option<usize>,
    widths: Seq<usize>,
    left: char,
    mid: char,
    right: char,
)
    requires
        text::one_column(left),
        text::one_column(mid),
        text::one_column(right),
    ensures
        canvas::mark_columns(render::border(render::slots(ln_w, widths), left, mid, right))
            == line_span(ln_w, widths),
{
    let slots = render::slots(ln_w, widths);
    columns_of_ch(left);
    columns_of_stretches(slots, slots.len(), mid, right);
    columns_of_line_end();
    span_of_slots(ln_w, widths);
    assert(slots.take(slots.len() as int) =~= slots);
    let a = render::ch(left);
    let b = render::stretches(slots, slots.len(), mid, right);
    canvas::mark_columns_concat(a, b);
    canvas::mark_columns_concat(a + b, render::line_end());
}

pub(crate) proof fn columns_of_header_cell(s: Seq<char>, w: nat, color: Color)
    ensures
        canvas::mark_columns(render::header_cell(s, w, color)) == w + 3,
{
    let bold = canvas::command(Control::SetAttribute(Attribute::Bold));
    let fg = canvas::command(Control::SetForeground(color));
    let space = render::ch(' ');
    let body = canvas::written(text::fit(s, w));
    let reset = canvas::command(Control::SetAttribute(Attribute::Reset));
    let bar = render::ch('│');
    text::fit_fills_the_cell(s, w);
    canvas::mark_columns_of_text(text::fit(s, w));
    columns_of_ch(' ');
    columns_of_ch('│');
    columns_of_command(Control::SetAttribute(Attribute::Bold));
    columns_of_command(Control::SetForeground(color));
    columns_of_command(Control::SetAttribute(Attribute::Reset));
    canvas::mark_columns_concat(bold, fg);
    canvas::mark_columns_concat(bold + fg, space);
    canvas::mark_columns_concat(bold + fg + space, body);
    canvas::mark_columns_concat(bold + fg + space + body, space);
    canvas::mark_columns_concat(bold + fg + space + body + space, reset);
    canvas::mark_columns_concat(bold + fg + space + body + space + reset, bar);
}

pub(crate) proof fn columns_of_header_cells(
    headers: Seq<Seq<char>>,
    indices: Seq<usize>,
    widths: Seq<usize>,
    n: nat,
)
    requires
        n <= widths.len(),
    ensures
        canvas::mark_columns(render::header_cells(headers, indices, widths, n)) == geometry::span(
            widths.take(n as int),
        ),
    decreases n,
{
    if n > 0 {
        columns_of_header_cells(headers, indices, widths, (n - 1) as nat);
        span_of_prefix(widths, n as int);
        let s = render::cell_of(headers, indices[n - 1]);
        let w = widths[n - 1] as nat;
        columns_of_header_cell(s, w, Color::Cyan);
        canvas::mark_columns_concat(
            render::header_cells(headers, indices, widths, (n - 1) as nat),
            render::header_cell(s, w, Color::Cyan),
        );
    }
}

/// The header row takes the columns of a line, whatever the headers are.
pub proof fn the_header_lines_up(
    headers: Seq<Seq<char>>,
    indices: Seq<usize>,
    widths: Seq<usize>,
    ln_w: Option<usize>,
)
    ensures
        canvas::mark_columns(render::header_line(headers, indices, widths, ln_w)) == line_span(
            ln_w,
            widths,
        ),
{
    let bar = render::ch('│');
    let gutter = render::header_gutter(ln_w);
    let cells = render::header_cells(headers, indices, widths, widths.len());
    columns_of_ch('│');
    if let Some(w) = ln_w {
        columns_of_header_cell(seq!['#'], w as nat, Color::DarkGrey);
    }
    columns_of_header_cells(headers, indices, widths, widths.len());
    columns_of_line_end();
    assert(widths.take(widths.len() as int) =~= widths);
    canvas::mark_columns_concat(bar, gutter);
    canvas::mark_columns_concat(bar + gutter, cells);
    canvas::mark_columns_concat(bar + gutter + cells, render::line_end());
}

pub(crate) proof fn columns_of_numbered_gutter(ln_w: Option<usize>, row_num: nat)
    requires
        ln_w matches Some(w) ==> text::decimal(row_num).len() <= w,
    ensures
        canvas::mark_columns(render::numbered_gutter(ln_w, row_num)) == geometry::gutter_span(ln_w),
{
    if let Some(w) = ln_w {
        let dim = canvas::command(Control::SetAttribute(Attribute::Dim));
        let grey = canvas::command(Control::SetForeground(Color::DarkGrey));
        let space = render::ch(' ');
        let digits = text::decimal(row_num);
        let number = render::right_aligned(digits, w as nat);
        let body = canvas::written(number);
        let normal = canvas::command(Control::SetAttribute(Attribute::NormalIntensity));
        let fg = canvas::command(Control::SetForeground(Color::Reset));
        let bar = render::ch('│');
        let pad = text::spaces((w - digits.len()) as nat);
        text::decimal_columns(row_num);
        text::columns_of_one_column_text(pad);
        text::columns_concat(pad, digits);
        canvas::mark_columns_of_text(number);
        columns_of_ch(' ');
        columns_of_ch('│');
        columns_of_command(Control::SetAttribute(Attribute::Dim));
        columns_of_command(Control::SetForeground(Color::DarkGrey));
        columns_of_command(Control::SetAttribute(Attribute::NormalIntensity));
        columns_of_command(Control::SetForeground(Color::Reset));
        canvas::mark_columns_concat(dim, grey);
        canvas::mark_columns_concat(dim + grey, space);
        canvas::mark_columns_concat(dim + grey + space, body);
        canvas::mark_columns_concat(dim + grey + space + body, space);
        canvas::mark_columns_concat(dim + grey + space + body + space, normal);
        canvas::mark_columns_concat(dim + grey + space + body + space + normal, fg);
        canvas::mark_columns_concat(dim + grey + space + body + space + normal + fg, bar);
    }
}

pub(crate) proof fn columns_of_data_cells(
    row: Seq<Seq<char>>,
    indices: Seq<usize>,
    widths: Seq<usize>,
    n: nat,
)
    requires
        n <= widths.len(),
    ensures
        canvas::mark_columns(render::data_cells(row, indices, widths, n)) == geometry::span(
            widths.take(n as int),
        ),
    decreases n,
{
    if n > 0 {
        columns_of_data_cells(row, indices, widths, (n - 1) as nat);
        span_of_prefix(widths, n as int);
        let s = render::cell_of(row, indices[n - 1]);
        let w = widths[n - 1] as nat;
        text::fit_fills_the_cell(s, w);
        columns_of_boxed(text::fit(s, w));
        canvas::mark_columns_concat(
            render::data_cells(row, indices, widths, (n - 1) as nat),
            render::boxed(text::fit(s, w)),
        );
    }
}

pub(crate) proof fn columns_of_paint(bg: Option<u8>)
    ensures
        canvas::mark_columns(render::paint(bg)) == 0,
        canvas::mark_columns(render::unpaint(bg)) == 0,
{
    if let Some(color) = bg {
        columns_of_command(Control::SetBackground(color));
        columns_of_command(Control::ResetColor);
    }
}

/// A data row takes the columns of a line, whatever its cells are, if its number has
/// no more digits than the gutter has columns.
pub proof fn data_rows_line_up(
    row: Seq<Seq<char>>,
    indices: Seq<usize>,
    widths: Seq<usize>,
    ln_w: Option<usize>,
    row_num: nat,
    bg: Option<u8>,
)
    requires
        ln_w matches Some(w) ==> text::decimal(row_num).len() <= w,
    ensures
        canvas::mark_columns(render::data_line(row, indices, widths, ln_w, row_num, bg))
            == line_span(ln_w, widths),
{
    let paint = render::paint(bg);
    let bar = render::ch('│');
    let gutter = render::numbered_gutter(ln_w, row_num);
    let cells = render::data_cells(row, indices, widths, widths.len());
    let unpaint = render::unpaint(bg);
    columns_of_paint(bg);
    columns_of_ch('│');
    columns_of_numbered_gutter(ln_w, row_num);
    columns_of_data_cells(row, indices, widths, widths.len());
    columns_of_line_end();
    assert(widths.take(widths.len() as int) =~= widths);
    canvas::mark_columns_concat(paint, bar);
    canvas::mark_columns_concat(paint + bar, gutter);
    canvas::mark_columns_concat(paint + bar + gutter, cells);
    canvas::mark_columns_concat(paint + bar + gutter + cells, unpaint);
    canvas::mark_columns_concat(paint + bar + gutter + cells + unpaint, render::line_end());
}

proof fn columns_of_empty_cells(slots: Seq<usize>, n: nat)
    requires
        n <= slots.len(),
    ensures
        canvas::mark_columns(render::empty_cells(slots, n)) == geometry::span(
            slots.take(n as int),
        ),
    decreases n,
{
    if n > 0 {
        columns_of_empty_cells(slots, (n - 1) as nat);
        span_of_prefix(slots, n as int);
        let blank = text::spaces(slots[n - 1] as nat);
        text::columns_of_one_column_text(blank);
        columns_of_boxed(blank);
        canvas::mark_columns_concat(
            render::empty_cells(slots, (n - 1) as nat),
            render::boxed(blank),
        );
    }
}

/// A row without data takes the columns of a line.
pub proof fn empty_rows_line_up(ln_w: Option<usize>, widths: Seq<usize>, bg: Option<u8>)
    ensures
        canvas::mark_columns(render::empty_line(render::slots(ln_w, widths), bg)) == line_span(
            ln_w,
            widths,
        ),
{
    let slots = render::slots(ln_w, widths);
    let paint = render::paint(bg);
    let bar = render::ch('│');
    let cells = render::empty_cells(slots, slots.len());
    let unpaint = render::unpaint(bg);
    columns_of_paint(bg);
    columns_of_ch('│');
    columns_of_empty_cells(slots, slots.len());
    columns_of_line_end();
    span_of_slots(ln_w, widths);
    assert(slots.take(slots.len() as int) =~= slots);
    canvas::mark_columns_concat(paint, bar);
    canvas::mark_columns_concat(paint + bar, cells);
    canvas::mark_columns_concat(paint + bar + cells, unpaint);
    canvas::mark_columns_concat(paint + bar + cells + unpaint, render::line_end());
}

/// A line fits the terminal, if the gutter does.
pub proof fn lines_fit_the_terminal(
    col_widths: Seq<usize>,
    col_offset: nat,
    ln_w: Option<usize>,
    term_width: nat,
)
    requires
        1 + geometry::gutter_span(ln_w) <= term_width,
    ensures
        line_span(
            ln_w,
            geometry::shown_widths(
                col_widths,
                col_offset,
                geometry::room(term_width, geometry::gutter_span(ln_w)),
            ),
        ) <= term_width,
{
    geometry::shown_columns_fill_the_room(
        col_widths,
        col_offset,
        geometry::room(term_width, geometry::gutter_span(ln_w)),
    );
}

} // verus!
