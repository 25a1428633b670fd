//! The lines of the table as they are drawn.

use vstd::prelude::*;

use crate::canvas;
use crate::canvas::{Attribute, Canvas, Color, Control};
use crate::geometry::VisibleCols;
use crate::text;

verus! {

pub const ZEBRA_BG: u8 = 236;

pub const MATCH_BG: u8 = 58;

pub const CURRENT_MATCH_BG: u8 = 136;

// ── what the lines are ─────────────────────────────────────────────────────

/// One character.
pub open spec fn ch(c: char) -> Seq<canvas::Mark> {
    seq![canvas::Mark::Text(c)]
}

/// A character written `n` times.
pub open spec fn run(c: char, n: nat) -> Seq<canvas::Mark> {
    canvas::written(Seq::new(n, |i: int| c))
}

pub open spec fn line_end() -> Seq<canvas::Mark> {
    seq![canvas::Mark::Text('\r'), canvas::Mark::Text('\n')]
}

/// The widths of all columns of the drawing: the gutter, if there is one, and the data.
pub open spec fn slots(ln_w: Option<usize>, widths: Seq<usize>) -> Seq<usize> {
    match ln_w {
        Some(w) => seq![w] + widths,
        None => widths,
    }
}

/// The first `n` stretches of a border, each with the joint that ends it.
pub open spec fn stretches(slots: Seq<usize>, n: nat, mid: char, right: char) -> Seq<canvas::Mark>
    decreases n,
{
    if n == 0 {
        Seq::empty()
    } else {
        stretches(slots, (n - 1) as nat, mid, right) + run('─', slots[n - 1] as nat + 2) + ch(
            if n < slots.len() {
                mid
            } else {
                right
            },
        )
    }
}

/// A border: a corner, a stretch for each column, and joints between them.
pub open spec fn border(slots: Seq<usize>, left: char, mid: char, right: char) -> Seq<
    canvas::Mark,
> {
    ch(left) + stretches(slots, slots.len(), mid, right) + line_end()
}

/// The cell of a row in a column; empty where the row is too short.
pub open spec fn cell_of(row: Seq<Seq<char>>, col: usize) -> Seq<char> {
    if col < row.len() {
        row[col as int]
    } else {
        Seq::empty()
    }
}

/// A text between two spaces, and the border after it.
pub open spec fn boxed(s: Seq<char>) -> Seq<canvas::Mark> {
    ch(' ') + canvas::written(s) + ch(' ') + ch('│')
}

/// A header cell: bold, in its colour, and reset before the border.
pub open spec fn header_cell(s: Seq<char>, w: nat, color: Color) -> Seq<canvas::Mark> {
    canvas::command(Control::SetAttribute(Attribute::Bold)) + canvas::command(
        Control::SetForeground(color),
    ) + ch(' ') + canvas::written(text::fit(s, w)) + ch(' ') + canvas::command(
        Control::SetAttribute(Attribute::Reset),
    ) + ch('│')
}

pub open spec fn header_cells(
    headers: Seq<Seq<char>>,
    indices: Seq<usize>,
    widths: Seq<usize>,
    n: nat,
) -> Seq<canvas::Mark>
    decreases n,
{
    if n == 0 {
        Seq::empty()
    } else {
        header_cells(headers, indices, widths, (n - 1) as nat) + header_cell(
            cell_of(headers, indices[n - 1]),
            widths[n - 1] as nat,
            Color::Cyan,
        )
    }
}

pub open spec fn header_gutter(ln_w: Option<usize>) -> Seq<canvas::Mark> {
    match ln_w {
        Some(w) => header_cell(seq!['#'], w as nat, Color::DarkGrey),
        None => Seq::empty(),
    }
}

pub open spec fn header_line(
    headers: Seq<Seq<char>>,
    indices: Seq<usize>,
    widths: Seq<usize>,
    ln_w: Option<usize>,
) -> Seq<canvas::Mark> {
    ch('│') + header_gutter(ln_w) + header_cells(headers, indices, widths, widths.len())
        + line_end()
}

/// A text moved to the right end of `w` characters.
pub open spec fn right_aligned(s: Seq<char>, w: nat) -> Seq<char> {
    if s.len() < w {
        text::spaces((w - s.len()) as nat) + s
    } else {
        s
    }
}

/// A line number: dim and grey, without a change to the background.
pub open spec fn numbered_gutter(ln_w: Option<usize>, row_num: nat) -> Seq<canvas::Mark> {
    match ln_w {
        Some(w) => canvas::command(Control::SetAttribute(Attribute::Dim)) + canvas::command(
            Control::SetForeground(Color::DarkGrey),
        ) + ch(' ') + canvas::written(right_aligned(text::decimal(row_num), w as nat)) + ch(' ')
            + canvas::command(Control::SetAttribute(Attribute::NormalIntensity))
            + canvas::command(Control::SetForeground(Color::Reset)) + ch('│'),
        None => Seq::empty(),
    }
}

pub open spec fn data_cells(
    row: Seq<Seq<char>>,
    indices: Seq<usize>,
    widths: Seq<usize>,
    n: nat,
) -> Seq<canvas::Mark>
    decreases n,
{
    if n == 0 {
        Seq::empty()
    } else {
        data_cells(row, indices, widths, (n - 1) as nat) + boxed(
            text::fit(cell_of(row, indices[n - 1]), widths[n - 1] as nat),
        )
    }
}

/// Every other row has a background of its own, if rows are striped.
pub open spec fn stripe(zebra: bool, display_idx: nat) -> Option<u8> {
    if zebra && display_idx % 2 == 1 {
        Some(ZEBRA_BG)
    } else {
        None
    }
}

/// The background of a row: the focused match first, then any match, then the stripes.
pub open spec fn background(
    display_idx: nat,
    zebra: bool,
    is_match: bool,
    is_current_match: bool,
) -> Option<u8> {
    if is_current_match {
        Some(CURRENT_MATCH_BG)
    } else if is_match {
        Some(MATCH_BG)
    } else {
        stripe(zebra, display_idx)
    }
}

pub open spec fn paint(bg: Option<u8>) -> Seq<canvas::Mark> {
    match bg {
        Some(color) => canvas::command(Control::SetBackground(color)),
        None => Seq::empty(),
    }
}

pub open spec fn unpaint(bg: Option<u8>) -> Seq<canvas::Mark> {
    match bg {
        Some(_) => canvas::command(Control::ResetColor),
        None => Seq::empty(),
    }
}

/// A data row on its background, which is reset at the end of the line.
pub open spec fn data_line(
    row: Seq<Seq<char>>,
    indices: Seq<usize>,
    widths: Seq<usize>,
    ln_w: Option<usize>,
    row_num: nat,
    bg: Option<u8>,
) -> Seq<canvas::Mark> {
    paint(bg) + ch('│') + numbered_gutter(ln_w, row_num) + data_cells(
        row,
        indices,
        widths,
        widths.len(),
    ) + unpaint(bg) + line_end()
}

pub open spec fn empty_cells(slots: Seq<usize>, n: nat) -> Seq<canvas::Mark>
    decreases n,
{
    if n == 0 {
        Seq::empty()
    } else {
        empty_cells(slots, (n - 1) as nat) + boxed(text::spaces(slots[n - 1] as nat))
    }
}

/// A row without data.
pub open spec fn empty_line(slots: Seq<usize>, bg: Option<u8>) -> Seq<canvas::Mark> {
    paint(bg) + ch('│') + empty_cells(slots, slots.len()) + unpaint(bg) + line_end()
}

// ── drawing them ───────────────────────────────────────────────────────────

fn end_line(out: &mut Canvas)
    ensures
        final(out)@ == old(out)@ + line_end(),
{
    out.put('\r');
    out.put('\n');
}

/// Draws the stretch of a border over one column.
fn draw_stretch(out: &mut Canvas, w: usize, joint: char)
    ensures
        final(out)@ == old(out)@ + run('─', w as nat + 2) + ch(joint),
{
    out.repeat('─', w);
    out.repeat('─', 2);
    out.put(joint);
}

fn draw_border(
    out: &mut Canvas,
    vis: &VisibleCols,
    ln_w: Option<usize>,
    left: char,
    mid: char,
    right: char,
)
    requires
        vis.well_formed(),
    ensures
        final(out)@ == old(out)@ + border(slots(ln_w, vis.widths@), left, mid, right),
{
    let ghost all = slots(ln_w, vis.widths@);
    let ghost g = all.len() - vis.widths@.len();
    let ghost start = out@;
    assert(stretches(all, 0, mid, right) =~= Seq::empty());
    out.put(left);
    if let Some(w) = ln_w {
        draw_stretch(
            out,
            w,
            if vis.is_empty() {
                right
            } else {
                mid
            },
        );
    }
    for i in 0..vis.widths.len()
        invariant
            all == slots(ln_w, vis.widths@),
            g == all.len() - vis.widths@.len(),
            out@ == start + ch(left) + stretches(all, (g + i) as nat, mid, right),
    {
        draw_stretch(
            out,
            vis.widths[i],
            if i + 1 < vis.widths.len() {
                mid
            } else {
                right
            },
        );
    }
    end_line(out);
}

pub fn render_top_border(out: &mut Canvas, vis: &VisibleCols, ln_w: Option<usize>)
    requires
        vis.well_formed(),
    ensures
        final(out)@ == old(out)@ + border(slots(ln_w, vis.widths@), '┌', '┬', '┐'),
{
    draw_border(out, vis, ln_w, '┌', '┬', '┐');
}

pub fn render_mid_border(out: &mut Canvas, vis: &VisibleCols, ln_w: Option<usize>)
    requires
        vis.well_formed(),
    ensures
        final(out)@ == old(out)@ + border(slots(ln_w, vis.widths@), '├', '┼', '┤'),
{
    draw_border(out, vis, ln_w, '├', '┼', '┤');
}

pub fn render_bot_border(out: &mut Canvas, vis: &VisibleCols, ln_w: Option<usize>)
    requires
        vis.well_formed(),
    ensures
        final(out)@ == old(out)@ + border(slots(ln_w, vis.widths@), '└', '┴', '┘'),
{
    draw_border(out, vis, ln_w, '└', '┴', '┘');
}

/// The text of a cell; empty where the row is too short.
fn cell_text(row: &Vec<String>, col: usize) -> (s: &str)
    ensures
        s@ == cell_of(row.deep_view(), col),
{
    if col < row.len() {
        row[col].as_str()
    } else {
        proof {
            reveal_strlit("");
        }
        ""
    }
}

fn draw_header_cell(out: &mut Canvas, s: &str, w: usize, color: Color)
    ensures
        final(out)@ == old(out)@ + header_cell(s@, w as nat, color),
{
    let fitted = text::fit_cell(s, w);
    out.control(Control::SetAttribute(Attribute::Bold));
    out.control(Control::SetForeground(color));
    out.put(' ');
    out.write(fitted.as_str());
    out.put(' ');
    out.control(Control::SetAttribute(Attribute::Reset));
    out.put('│');
}

pub fn render_header_row(
    out: &mut Canvas,
    headers: &Vec<String>,
    vis: &VisibleCols,
    ln_w: Option<usize>,
)
    requires
        vis.well_formed(),
    ensures
        final(out)@ == old(out)@ + header_line(
            headers.deep_view(),
            vis.indices@,
            vis.widths@,
            ln_w,
        ),
{
    let ghost start = out@;
    out.put('│');
    if let Some(w) = ln_w {
        proof {
            reveal_strlit("#");
            assert("#"@ =~= seq!['#']);
        }
        draw_header_cell(out, "#", w, Color::DarkGrey);
    }
    for i in 0..vis.widths.len()
        invariant
            vis.well_formed(),
            out@ == start + ch('│') + header_gutter(ln_w) + header_cells(
                headers.deep_view(),
                vis.indices@,
                vis.widths@,
                i as nat,
            ),
    {
        draw_header_cell(out, cell_text(headers, vis.indices[i]), vis.widths[i], Color::Cyan);
    }
    end_line(out);
}

fn draw_boxed(out: &mut Canvas, s: &str)
    ensures
        final(out)@ == old(out)@ + boxed(s@),
{
    out.put(' ');
    out.write(s);
    out.put(' ');
    out.put('│');
}

fn start_background(out: &mut Canvas, bg: Option<u8>)
    ensures
        final(out)@ == old(out)@ + paint(bg),
{
    if let Some(color) = bg {
        out.control(Control::SetBackground(color));
    }
}

fn end_background(out: &mut Canvas, bg: Option<u8>)
    ensures
        final(out)@ == old(out)@ + unpaint(bg),
{
    if bg.is_some() {
        out.control(Control::ResetColor);
    }
}

/// Dim grey line number; use only fg/intensity escapes so the row background persists.
fn draw_line_number(out: &mut Canvas, w: usize, row_num: usize)
    ensures
        final(out)@ == old(out)@ + numbered_gutter(Some(w), row_num as nat),
{
    let mut digits = String::new();
    text::push_decimal(&mut digits, row_num as u128);
    let n = digits.as_str().unicode_len();
    out.control(Control::SetAttribute(Attribute::Dim));
    out.control(Control::SetForeground(Color::DarkGrey));
    out.put(' ');
    if n < w {
        out.repeat(' ', w - n);
    }
    out.write(digits.as_str());
    out.put(' ');
    // Turn off dim and reset fg only: the background is untouched.
    out.control(Control::SetAttribute(Attribute::NormalIntensity));
    out.control(Control::SetForeground(Color::Reset));
    out.put('│');
}

fn draw_data_cells(out: &mut Canvas, row: &Vec<String>, vis: &VisibleCols)
    requires
        vis.well_formed(),
    ensures
        final(out)@ == old(out)@ + data_cells(
            row.deep_view(),
            vis.indices@,
            vis.widths@,
            vis.widths@.len(),
        ),
{
    let ghost start = out@;
    for i in 0..vis.widths.len()
        invariant
            vis.well_formed(),
            out@ == start + data_cells(row.deep_view(), vis.indices@, vis.widths@, i as nat),
    {
        let fitted = text::fit_cell(cell_text(row, vis.indices[i]), vis.widths[i]);
        draw_boxed(out, fitted.as_str());
    }
}

pub fn render_data_row(
    out: &mut Canvas,
    row: &Vec<String>,
    vis: &VisibleCols,
    display_idx: usize,
    zebra: bool,
    ln_w: Option<usize>,
    row_num: usize,
    is_match: bool,
    is_current_match: bool,
)
    requires
        vis.well_formed(),
    ensures
        final(out)@ == old(out)@ + data_line(
            row.deep_view(),
            vis.indices@,
            vis.widths@,
            ln_w,
            row_num as nat,
            background(display_idx as nat, zebra, is_match, is_current_match),
        ),
{
    let bg = if is_current_match {
        Some(CURRENT_MATCH_BG)
    } else if is_match {
        Some(MATCH_BG)
    } else if zebra && display_idx % 2 == 1 {
        Some(ZEBRA_BG)
    } else {
        None
    };
    let ghost start = out@;
    start_background(out, bg);
    out.put('│');
    if let Some(w) = ln_w {
        draw_line_number(out, w, row_num);
    }
    draw_data_cells(out, row, vis);
    end_background(out, bg);
    end_line(out);
}

fn draw_empty_cell(out: &mut Canvas, w: usize)
    ensures
        final(out)@ == old(out)@ + boxed(text::spaces(w as nat)),
{
    out.put(' ');
    out.repeat(' ', w);
    out.put(' ');
    out.put('│');
}

pub fn render_empty_row(
    out: &mut Canvas,
    vis: &VisibleCols,
    display_idx: usize,
    zebra: bool,
    ln_w: Option<usize>,
)
    ensures
        final(out)@ == old(out)@ + empty_line(
            slots(ln_w, vis.widths@),
            stripe(zebra, display_idx as nat),
        ),
{
    let bg = if zebra && display_idx % 2 == 1 {
        Some(ZEBRA_BG)
    } else {
        None
    };
    let ghost all = slots(ln_w, vis.widths@);
    let ghost g = all.len() - vis.widths@.len();
    let ghost start = out@;
    assert(empty_cells(all, 0) =~= Seq::empty());
    start_background(out, bg);
    out.put('│');
    if let Some(w) = ln_w {
        draw_empty_cell(out, w);
    }
    for i in 0..vis.widths.len()
        invariant
            all == slots(ln_w, vis.widths@),
            g == all.len() - vis.widths@.len(),
            out@ == start + paint(bg) + ch('│') + empty_cells(all, (g + i) as nat),
    {
        draw_empty_cell(out, vis.widths[i]);
    }
    end_background(out, bg);
    end_line(out);
}

} // verus!
