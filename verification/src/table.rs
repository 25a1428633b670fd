//! The widths of a table's columns.

use vstd::prelude::*;

use crate::reader::CsvData;
use crate::reader;
use crate::text;

verus! {

/// The widest of the header and the first `n` cells of a column. A row may be too
/// short to have a cell there.
pub open spec fn widest(table: reader::Table, col: int, n: nat) -> nat
    decreases n,
{
    if n == 0 {
        text::columns(table.headers[col])
    } else {
        let before = widest(table, col, (n - 1) as nat);
        let row = table.rows[n - 1];
        if col < row.len() && text::columns(row[col]) > before {
            text::columns(row[col])
        } else {
            before
        }
    }
}

/// The width of a column whose widest text takes `natural` columns: capped, but
/// never zero.
pub open spec fn capped(natural: nat, max_col_width: nat) -> nat {
    let w = if natural <= max_col_width {
        natural
    } else {
        max_col_width
    };
    if w >= 1 {
        w
    } else {
        1
    }
}

/// The display width of a column of the table.
pub open spec fn col_width(table: reader::Table, max_col_width: nat, col: int) -> nat {
    capped(widest(table, col, table.rows.len()), max_col_width)
}

/// The display widths of all columns of the table.
pub open spec fn col_widths(table: reader::Table, max_col_width: nat) -> Seq<usize> {
    Seq::new(table.headers.len(), |c: int| col_width(table, max_col_width, c) as usize)
}

/// How wide each column of a table is drawn.
pub struct TableLayout {
    pub col_widths: Vec<usize>,
}

impl TableLayout {
    /// The layout gives each column of the table its display width.
    pub open spec fn fits(self, table: reader::Table, max_col_width: nat) -> bool {
        &&& self.col_widths@.len() == table.headers.len()
        &&& forall|c: int|
            0 <= c < table.headers.len() ==> #[trigger] self.col_widths@[c] == col_width(
                table,
                max_col_width,
                c,
            )
    }

    /// Compute the display width for each column, capped at `max_col_width`.
    pub fn compute(data: &CsvData, max_col_width: usize) -> (layout: Self)
        ensures
            layout.fits(data@, max_col_width as nat),
            layout.col_widths@ == col_widths(data@, max_col_width as nat),
            layout.col_widths@.len() == data.headers@.len(),
            forall|c: int|
                0 <= c < data.headers@.len() ==> {
                    let w = #[trigger] layout.col_widths@[c];
                    &&& w >= 1
                    &&& w <= max_col_width || w == 1
                    &&& text::columns(data.headers@[c]@) <= w || w >= max_col_width
                    &&& forall|r: int|
                        0 <= r < data.rows@.len() && c < (#[trigger] data.rows@[r])@.len()
                            ==> text::columns(data.rows@[r]@[c]@) <= w || w >= max_col_width
                    &&& w == 1 || text::columns(data.headers@[c]@) >= w || exists|r: int|
                        0 <= r < data.rows@.len() && c < (#[trigger] data.rows@[r])@.len()
                            && text::columns(data.rows@[r]@[c]@) >= w
                },
    {
        let ncols = data.headers.len();
        let ghost table = data@;
        let mut col_widths: Vec<usize> = Vec::new();
        for i in 0..ncols
            invariant
                ncols == data.headers@.len(),
                table == data@,
                col_widths@.len() == i,
                forall|c: int| 0 <= c < i ==> #[trigger] col_widths@[c] == widest(table, c, 0),
        {
            col_widths.push(text::str_width(data.headers[i].as_str()));
        }
        for r in 0..data.rows.len()
            invariant
                ncols == data.headers@.len(),
                table == data@,
                col_widths@.len() == ncols,
                forall|c: int|
                    0 <= c < ncols ==> #[trigger] col_widths@[c] == widest(table, c, r as nat),
        {
            let row = &data.rows[r];
            let n = if row.len() < ncols {
                row.len()
            } else {
                ncols
            };
            for i in 0..n
                invariant
                    ncols == data.headers@.len(),
                    table == data@,
                    r < data.rows@.len(),
                    row == data.rows@[r as int],
                    n == (if row@.len() < ncols {
                        row@.len()
                    } else {
                        ncols as nat
                    }),
                    col_widths@.len() == ncols,
                    forall|c: int|
                        0 <= c < i ==> #[trigger] col_widths@[c] == widest(table, c, r as nat + 1),
                    forall|c: int|
                        i <= c < ncols ==> #[trigger] col_widths@[c] == widest(table, c, r as nat),
            {
                assert(table.rows[r as int][i as int] == row@[i as int]@);
                let w = text::str_width(row[i].as_str());
                if w > col_widths[i] {
                    col_widths.set(i, w);
                }
            }
        }
        for i in 0..ncols
            invariant
                ncols == data.headers@.len(),
                table == data@,
                col_widths@.len() == ncols,
                forall|c: int|
                    0 <= c < i ==> #[trigger] col_widths@[c] == col_width(
                        table,
                        max_col_width as nat,
                        c,
                    ),
                forall|c: int|
                    i <= c < ncols ==> #[trigger] col_widths@[c] == widest(
                        table,
                        c,
                        table.rows.len(),
                    ),
        {
            // Ensure every column is at least 1 character wide
            let w = col_widths[i];
            let w = if w <= max_col_width {
                w
            } else {
                max_col_width
            };
            col_widths.set(
                i,
                if w >= 1 {
                    w
                } else {
                    1
                },
            );
        }
        proof {
            assert forall|c: int| 0 <= c < data.headers@.len() implies {
                let w = #[trigger] col_widths@[c];
                &&& w >= 1
                &&& w <= max_col_width || w == 1
                &&& text::columns(data.headers@[c]@) <= w || w >= max_col_width
                &&& forall|r: int|
                    0 <= r < data.rows@.len() && c < (#[trigger] data.rows@[r])@.len()
                        ==> text::columns(data.rows@[r]@[c]@) <= w || w >= max_col_width
                &&& w == 1 || text::columns(data.headers@[c]@) >= w || exists|r: int|
                    0 <= r < data.rows@.len() && c < (#[trigger] data.rows@[r])@.len()
                        && text::columns(data.rows@[r]@[c]@) >= w
            } by {
                a_column_is_as_wide_as_its_widest_text(table, max_col_width as nat, c);
                let w = col_widths@[c];
                assert(table.headers[c] == data.headers@[c]@);
                assert forall|r: int|
                    0 <= r < data.rows@.len() && c < (#[trigger] data.rows@[r])@.len() implies
                    text::columns(data.rows@[r]@[c]@) <= w || w >= max_col_width by {
                    assert(table.rows[r][c] == data.rows@[r]@[c]@);
                }
                if w != 1 && text::columns(table.headers[c]) < w {
                    let r = choose|r: int|
                        0 <= r < table.rows.len() && c < (#[trigger] table.rows[r]).len()
                            && text::columns(table.rows[r][c]) >= w;
                    assert(table.rows[r][c] == data.rows@[r]@[c]@);
                    assert(c < data.rows@[r]@.len());
                }
            }
        }
        TableLayout { col_widths }
    }
}

// ── laws ───────────────────────────────────────────────────────────────────

/// The texts of a column: its header and its cells.
pub open spec fn in_column(table: reader::Table, col: int, s: Seq<char>) -> bool {
    ||| s == table.headers[col]
    ||| exists|r: int|
        0 <= r < table.rows.len() && col < (#[trigger] table.rows[r]).len() && s
            == table.rows[r][col]
}

proof fn widest_bounds(table: reader::Table, col: int, n: nat)
    requires
        0 <= col < table.headers.len(),
        n <= table.rows.len(),
    ensures
        text::columns(table.headers[col]) <= widest(table, col, n),
        forall|r: int|
            0 <= r < n && col < (#[trigger] table.rows[r]).len() ==> text::columns(
                table.rows[r][col],
            ) <= widest(table, col, n),
        exists|s: Seq<char>|
            #[trigger] in_column(table, col, s) && text::columns(s) == widest(table, col, n),
    decreases n,
{
    if n == 0 {
        assert(in_column(table, col, table.headers[col]));
    } else {
        widest_bounds(table, col, (n - 1) as nat);
        let row = table.rows[n - 1];
        if col < row.len() && text::columns(row[col]) > widest(table, col, (n - 1) as nat) {
            assert(in_column(table, col, row[col]));
        }
    }
}

/// A column is as wide as its widest text, be that its header or a cell of any row,
/// up to the cap, and one column wide at least: no text within the cap is wider, and
/// some text fills it.
pub proof fn a_column_is_as_wide_as_its_widest_text(
    table: reader::Table,
    max_col_width: nat,
    col: int,
)
    requires
        0 <= col < table.headers.len(),
    ensures
        ({
            let w = col_width(table, max_col_width, col);
            &&& w >= 1
            &&& w <= max_col_width || w == 1
            &&& text::columns(table.headers[col]) <= w || w >= max_col_width
            &&& forall|r: int|
                0 <= r < table.rows.len() && col < (#[trigger] table.rows[r]).len()
                    ==> text::columns(table.rows[r][col]) <= w || w >= max_col_width
            &&& w == 1 || text::columns(table.headers[col]) >= w || exists|r: int|
                0 <= r < table.rows.len() && col < (#[trigger] table.rows[r]).len()
                    && text::columns(table.rows[r][col]) >= w
        }),
{
    widest_bounds(table, col, table.rows.len());
    let s = choose|s: Seq<char>|
        #[trigger] in_column(table, col, s) && text::columns(s) == widest(
            table,
            col,
            table.rows.len(),
        );
    if s != table.headers[col] {
        let r = choose|r: int|
            0 <= r < table.rows.len() && col < (#[trigger] table.rows[r]).len() && s
                == table.rows[r][col];
        assert(text::columns(table.rows[r][col]) == widest(table, col, table.rows.len()));
    }
}

/// There is a width for every column of the table, in its order.
pub proof fn every_column_has_a_width(table: reader::Table, max_col_width: nat)
    requires
        max_col_width <= usize::MAX,
    ensures
        col_widths(table, max_col_width).len() == table.headers.len(),
        forall|c: int|
            0 <= c < table.headers.len() ==> #[trigger] col_widths(table, max_col_width)[c]
                == col_width(table, max_col_width, c),
{
    assert forall|c: int| 0 <= c < table.headers.len() implies #[trigger] col_widths(
        table,
        max_col_width,
    )[c] == col_width(table, max_col_width, c) by {
        widths_are_capped(table, max_col_width, c);
    }
}

/// A column is never empty, and never wider than the cap (or one, for a cap of zero).
pub proof fn widths_are_capped(table: reader::Table, max_col_width: nat, col: int)
    ensures
        1 <= col_width(table, max_col_width, col),
        col_width(table, max_col_width, col) <= max_col_width || col_width(
            table,
            max_col_width,
            col,
        ) == 1,
{
}

/// Every header and every cell that takes no more than the cap fits its column.
pub proof fn columns_hold_their_texts(
    table: reader::Table,
    max_col_width: nat,
    col: int,
    s: Seq<char>,
)
    requires
        0 <= col < table.headers.len(),
        in_column(table, col, s),
        text::columns(s) <= max_col_width,
    ensures
        text::columns(s) <= col_width(table, max_col_width, col),
{
    widest_bounds(table, col, table.rows.len());
}

/// Every header and every cell that takes no more than the cap is shown whole in a
/// column of full width.
pub proof fn texts_within_the_cap_are_shown_whole(
    table: reader::Table,
    max_col_width: nat,
    col: int,
    s: Seq<char>,
)
    requires
        0 <= col < table.headers.len(),
        in_column(table, col, s),
        text::columns(s) <= max_col_width,
    ensures
        s.is_prefix_of(text::fit(s, col_width(table, max_col_width, col))),
{
    columns_hold_their_texts(table, max_col_width, col, s);
    let w = col_width(table, max_col_width, col);
    assert(text::fit(s, w).take(s.len() as int) =~= s);
}

/// No column is wider than it needs to be: one that is wider than a single column and
/// narrower than the cap holds a text of just its width.
pub proof fn columns_are_tight(table: reader::Table, max_col_width: nat, col: int)
    requires
        0 <= col < table.headers.len(),
        1 < col_width(table, max_col_width, col) < max_col_width,
    ensures
        exists|s: Seq<char>|
            #[trigger] in_column(table, col, s) && text::columns(s) == col_width(
                table,
                max_col_width,
                col,
            ),
{
    widest_bounds(table, col, table.rows.len());
}

} // verus!
