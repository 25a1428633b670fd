//! Searching a table: which rows contain a query.

use vstd::prelude::*;

use crate::reader;

verus! {

// ── lower case and substrings ──────────────────────────────────────────────

pub open spec fn is_ascii_text(s: Seq<char>) -> bool {
    forall|i: int| 0 <= i < s.len() ==> #[trigger] s[i] <= '\u{7f}'
}

pub open spec fn ascii_lower(c: char) -> char {
    if 'A' <= c && c <= 'Z' {
        ((c as nat) + 32) as char
    } else {
        c
    }
}

/// The Unicode lower case of a text that is not all ASCII.
pub uninterp spec fn unicode_lowercase(s: Seq<char>) -> Seq<char>;

/// A text in lower case.
pub open spec fn lowercase(s: Seq<char>) -> Seq<char> {
    if is_ascii_text(s) {
        s.map_values(|c: char| ascii_lower(c))
    } else {
        unicode_lowercase(s)
    }
}

/// `str::to_lowercase`: the text in lower case. That of ASCII text maps `A` to `Z`
/// and keeps all other characters; that of other text is what Unicode's tables say.
#[verifier::external_body]
fn to_lower(s: &str) -> (lower: String)
    ensures
        is_ascii_text(s@) ==> lower@ == s@.map_values(|c: char| ascii_lower(c)),
        !is_ascii_text(s@) ==> lower@ == unicode_lowercase(s@),
{
    s.to_lowercase()
}

pub open spec fn occurs_at(text: Seq<char>, part: Seq<char>, i: int) -> bool {
    &&& 0 <= i
    &&& i + part.len() <= text.len()
    &&& text.subrange(i, i + part.len()) == part
}

pub open spec fn occurs(text: Seq<char>, part: Seq<char>) -> bool {
    exists|i: int| occurs_at(text, part, i)
}

/// `str::contains` for a pattern that is a text: whether it is part of `text`.
#[verifier::external_body]
fn has_part(text: &str, part: &str) -> (found: bool)
    ensures
        found == occurs(text@, part@),
{
    text.contains(part)
}

// ── matching rows ──────────────────────────────────────────────────────────

/// Some cell of the row contains the query, whatever the case.
pub open spec fn row_matches(row: Seq<Seq<char>>, query: Seq<char>) -> bool {
    exists|j: int|
        0 <= j < row.len() && occurs(lowercase(#[trigger] row[j]), lowercase(query))
}

/// The numbers of those among the first `n` rows that contain the query, ascending.
pub open spec fn matches_among(rows: Seq<Seq<Seq<char>>>, query: Seq<char>, n: nat) -> Seq<usize>
    decreases n,
{
    if n == 0 {
        Seq::empty()
    } else {
        let before = matches_among(rows, query, (n - 1) as nat);
        if row_matches(rows[n - 1], query) {
            before.push((n - 1) as usize)
        } else {
            before
        }
    }
}

/// The matches of a query in a table. The empty query matches nothing.
pub open spec fn matches_of(table: reader::Table, query: Seq<char>) -> Seq<usize> {
    if query.len() == 0 {
        Seq::empty()
    } else {
        matches_among(table.rows, query, table.rows.len())
    }
}

pub open spec fn ascending(rows: Seq<usize>) -> bool {
    forall|i: int, j: int| 0 <= i < j < rows.len() ==> rows[i] < rows[j]
}

fn row_has(row: &Vec<String>, lower_query: &str) -> (found: bool)
    ensures
        found == exists|j: int|
            0 <= j < row@.len() && occurs(lowercase(#[trigger] row.deep_view()[j]), lower_query@),
{
    for j in 0..row.len()
        invariant
            forall|k: int|
                0 <= k < j ==> !occurs(lowercase(#[trigger] row.deep_view()[k]), lower_query@),
    {
        let cell = to_lower(row[j].as_str());
        assert(row.deep_view()[j as int] == row@[j as int]@);
        if has_part(cell.as_str(), lower_query) {
            return true;
        }
    }
    false
}

/// The rows that contain a query that is not empty.
pub fn find_matches(rows: &Vec<Vec<String>>, query: &str) -> (found: Vec<usize>)
    ensures
        found@ == matches_among(rows.deep_view(), query@, rows@.len()),
        forall|i: int, j: int| 0 <= i < j < found@.len() ==> found@[i] < found@[j],
        forall|r: usize| #[trigger]
            found@.contains(r) <==> r < rows@.len() && exists|j: int, i: int|
                0 <= j < rows@[r as int]@.len() && 0 <= i <= lowercase(
                    rows@[r as int]@[j]@,
                ).len() && #[trigger] lowercase(query@).is_prefix_of(
                    lowercase(rows@[r as int]@[j]@).skip(i),
                ),
{
    let q = to_lower(query);
    let mut found: Vec<usize> = Vec::new();
    for i in 0..rows.len()
        invariant
            q@ == lowercase(query@),
            found@ == matches_among(rows.deep_view(), query@, i as nat),
    {
        assert(rows.deep_view()[i as int] == rows@[i as int].deep_view());
        if row_has(&rows[i], q.as_str()) {
            found.push(i);
        }
    }
    proof {
        let all = rows.deep_view();
        matches_are_the_rows_that_contain_the_query(all, query@, all.len());
        assert forall|r: usize| #[trigger]
            found@.contains(r) <==> r < rows@.len() && exists|j: int, i: int|
                0 <= j < rows@[r as int]@.len() && 0 <= i <= lowercase(
                    rows@[r as int]@[j]@,
                ).len() && #[trigger] lowercase(query@).is_prefix_of(
                    lowercase(rows@[r as int]@[j]@).skip(i),
                ) by {
            if r < rows@.len() {
                cells_decide(all[r as int], query@);
                assert(all[r as int] == rows@[r as int].deep_view());
                assert(forall|j: int|
                    0 <= j < rows@[r as int]@.len() ==> #[trigger] rows@[r as int]@[j]@
                        == all[r as int][j]);
            }
        }
    }
    found
}

/// Whether a row is among ascending row numbers.
pub fn contains_row(rows: &Vec<usize>, row: usize) -> (found: bool)
    requires
        ascending(rows@),
    ensures
        found == rows@.contains(row),
{
    let mut lo: usize = 0;
    let mut hi: usize = rows.len();
    while lo < hi
        invariant
            lo <= hi <= rows@.len(),
            ascending(rows@),
            forall|i: int| 0 <= i < lo ==> rows@[i] < row,
            forall|i: int| hi <= i < rows@.len() ==> rows@[i] > row,
        decreases hi - lo,
    {
        let mid = lo + (hi - lo) / 2;
        if rows[mid] == row {
            assert(rows@.contains(row));
            return true;
        } else if rows[mid] < row {
            lo = mid + 1;
        } else {
            hi = mid;
        }
    }
    false
}

// ── laws ───────────────────────────────────────────────────────────────────

/// The lower case of ASCII text has its letters `A` to `Z` moved up by the distance
/// from `A` to `a`, and is otherwise the text itself, character by character; that of
/// any other text is what the Unicode tables say of the whole of it.
pub proof fn lower_case_goes_by_characters(s: Seq<char>)
    ensures
        (forall|i: int| 0 <= i < s.len() ==> #[trigger] s[i] <= '\u{7f}') ==> {
            &&& lowercase(s).len() == s.len()
            &&& forall|i: int|
                0 <= i < s.len() ==> {
                    let c = #[trigger] s[i];
                    if 'A' <= c && c <= 'Z' {
                        lowercase(s)[i] as nat == c as nat + 32
                    } else {
                        lowercase(s)[i] == c
                    }
                }
        },
        (exists|i: int| 0 <= i < s.len() && #[trigger] s[i] > '\u{7f}') ==> lowercase(s)
            == unicode_lowercase(s),
{
    if is_ascii_text(s) {
        assert forall|i: int| 0 <= i < s.len() implies {
            let c = #[trigger] s[i];
            if 'A' <= c && c <= 'Z' {
                lowercase(s)[i] as nat == c as nat + 32
            } else {
                lowercase(s)[i] == c
            }
        } by {
            assert(lowercase(s)[i] == ascii_lower(s[i]));
        }
    }
}

/// A text is part of another exactly if the other begins with it once some of its own
/// beginning is dropped.
pub proof fn a_part_begins_somewhere(text: Seq<char>, part: Seq<char>)
    ensures
        occurs(text, part) <==> exists|i: int|
            0 <= i <= text.len() && #[trigger] part.is_prefix_of(text.skip(i)),
{
    if occurs(text, part) {
        let i = choose|i: int| occurs_at(text, part, i);
        assert(text.skip(i).take(part.len() as int) =~= text.subrange(i, i + part.len()));
        assert(part.is_prefix_of(text.skip(i)));
    }
    if exists|i: int| 0 <= i <= text.len() && #[trigger] part.is_prefix_of(text.skip(i)) {
        let i = choose|i: int| 0 <= i <= text.len() && #[trigger] part.is_prefix_of(text.skip(i));
        assert(text.subrange(i, i + part.len()) =~= text.skip(i).take(part.len() as int));
        assert(occurs_at(text, part, i));
    }
}

proof fn cells_decide(row: Seq<Seq<char>>, query: Seq<char>)
    ensures
        row_matches(row, query) <==> exists|j: int, i: int|
            0 <= j < row.len() && 0 <= i <= lowercase(row[j]).len() && #[trigger] lowercase(
                query,
            ).is_prefix_of(lowercase(row[j]).skip(i)),
{
    let q = lowercase(query);
    if row_matches(row, query) {
        let j = choose|j: int| 0 <= j < row.len() && occurs(lowercase(#[trigger] row[j]), q);
        a_part_begins_somewhere(lowercase(row[j]), q);
        let i = choose|i: int|
            0 <= i <= lowercase(row[j]).len() && #[trigger] q.is_prefix_of(
                lowercase(row[j]).skip(i),
            );
        assert(q.is_prefix_of(lowercase(row[j]).skip(i)));
    }
    if exists|j: int, i: int|
        0 <= j < row.len() && 0 <= i <= lowercase(row[j]).len() && #[trigger] q.is_prefix_of(
            lowercase(row[j]).skip(i),
        ) {
        let (j, i) = choose|j: int, i: int|
            0 <= j < row.len() && 0 <= i <= lowercase(row[j]).len() && #[trigger] q.is_prefix_of(
                lowercase(row[j]).skip(i),
            );
        a_part_begins_somewhere(lowercase(row[j]), q);
        assert(occurs(lowercase(row[j]), q));
    }
}

/// A row is among the matches of a query exactly if in any one of its cells, the first
/// as well as the last, the lower case of the query occurs in that of the cell. Each
/// row is listed once, from the top of the table to its end.
pub proof fn any_cell_makes_its_row_a_match(table: reader::Table, query: Seq<char>)
    requires
        table.rows.len() <= usize::MAX,
        query.len() > 0,
    ensures
        forall|r: usize| #[trigger]
            matches_of(table, query).contains(r) <==> r < table.rows.len() && exists|
                j: int,
                i: int,
            |
                0 <= j < table.rows[r as int].len() && 0 <= i <= lowercase(
                    table.rows[r as int][j],
                ).len() && #[trigger] lowercase(query).is_prefix_of(
                    lowercase(table.rows[r as int][j]).skip(i),
                ),
        forall|i: int, j: int|
            0 <= i < j < matches_of(table, query).len() ==> matches_of(table, query)[i]
                < matches_of(table, query)[j],
{
    matches_are_the_rows_that_contain_the_query(table.rows, query, table.rows.len());
    assert forall|r: usize| #[trigger]
        matches_of(table, query).contains(r) <==> r < table.rows.len() && exists|j: int, i: int|
            0 <= j < table.rows[r as int].len() && 0 <= i <= lowercase(
                table.rows[r as int][j],
            ).len() && #[trigger] lowercase(query).is_prefix_of(
                lowercase(table.rows[r as int][j]).skip(i),
            ) by {
        cells_decide(table.rows[r as int], query);
    }
}

/// Without a query there are no matches.
pub proof fn the_empty_query_matches_nothing(table: reader::Table)
    ensures
        matches_of(table, Seq::empty()).len() == 0,
{
}

/// A row of which any one cell holds the query, written in the same or in another case,
/// with whatever text around it, is a match. This is said of cells in ASCII.
pub proof fn a_cell_that_holds_the_query_is_found(
    table: reader::Table,
    query: Seq<char>,
    r: usize,
    j: int,
    before: Seq<char>,
    held: Seq<char>,
    after: Seq<char>,
)
    requires
        table.rows.len() <= usize::MAX,
        r < table.rows.len(),
        0 <= j < table.rows[r as int].len(),
        table.rows[r as int][j] == before + held + after,
        forall|k: int|
            0 <= k < table.rows[r as int][j].len() ==> #[trigger] table.rows[r as int][j][k]
                <= '\u{7f}',
        query.len() > 0,
        query.len() == held.len(),
        forall|k: int|
            0 <= k < query.len() ==> {
                let c = #[trigger] query[k];
                ||| c == held[k]
                ||| 'A' <= c && c <= 'Z' && held[k] as nat == c as nat + 32
                ||| 'A' <= held[k] && held[k] <= 'Z' && c as nat == held[k] as nat + 32
            },
    ensures
        matches_of(table, query).contains(r),
{
    let cell = table.rows[r as int][j];
    let i = before.len() as int;
    assert forall|k: int| 0 <= k < query.len() implies cell[i + k] == #[trigger] held[k] by {}
    assert forall|k: int| 0 <= k < query.len() implies #[trigger] query[k] <= '\u{7f}' by {
        assert(cell[i + k] == held[k]);
    }
    lower_case_goes_by_characters(cell);
    lower_case_goes_by_characters(query);
    let q = lowercase(query);
    let text = lowercase(cell).skip(i);
    assert forall|k: int| 0 <= k < q.len() implies text[k] == q[k] by {
        assert(text[k] == lowercase(cell)[i + k]);
        assert(cell[i + k] == held[k]);
        let c = query[k];
        assert(q[k] as nat == text[k] as nat);
    }
    assert(q =~= text.take(q.len() as int));
    assert(q.is_prefix_of(lowercase(table.rows[r as int][j]).skip(i)));
    any_cell_makes_its_row_a_match(table, query);
}

/// The matches are the rows that contain the query, all of them, in ascending order.
pub proof fn matches_are_the_rows_that_contain_the_query(
    rows: Seq<Seq<Seq<char>>>,
    query: Seq<char>,
    n: nat,
)
    requires
        n <= rows.len(),
        rows.len() <= usize::MAX,
    ensures
        ascending(matches_among(rows, query, n)),
        forall|r: usize| #[trigger]
            matches_among(rows, query, n).contains(r) <==> r < n && row_matches(
                rows[r as int],
                query,
            ),
    decreases n,
{
    if n > 0 {
        let before = matches_among(rows, query, (n - 1) as nat);
        let all = matches_among(rows, query, n);
        matches_are_the_rows_that_contain_the_query(rows, query, (n - 1) as nat);
        assert forall|i: int| 0 <= i < before.len() implies #[trigger] before[i] < n - 1 by {
            assert(before.contains(before[i]));
        }
        assert forall|r: usize| #[trigger] all.contains(r) <==> r < n && row_matches(
            rows[r as int],
            query,
        ) by {
            if row_matches(rows[n - 1], query) {
                assert(all == before.push((n - 1) as usize));
                assert(all[before.len() as int] == n - 1);
                if before.contains(r) {
                    let i = choose|i: int| 0 <= i < before.len() && before[i] == r;
                    assert(all[i] == r);
                }
            }
        }
    }
}

/// Upper and lower case do not matter: two queries with the same lower case match the
/// same rows.
pub proof fn case_does_not_matter(table: reader::Table, a: Seq<char>, b: Seq<char>)
    requires
        lowercase(a) == lowercase(b),
        a.len() == 0 <==> b.len() == 0,
    ensures
        matches_of(table, a) == matches_of(table, b),
{
    same_matches(table.rows, a, b, table.rows.len());
}

proof fn same_matches(rows: Seq<Seq<Seq<char>>>, a: Seq<char>, b: Seq<char>, n: nat)
    requires
        lowercase(a) == lowercase(b),
    ensures
        matches_among(rows, a, n) == matches_among(rows, b, n),
    decreases n,
{
    if n > 0 {
        same_matches(rows, a, b, (n - 1) as nat);
    }
}

/// Typing on never adds a match: a row that contains the longer query contains the
/// shorter one. This is said of ASCII queries; the lower case of other text need not
/// begin with that of its beginning.
pub proof fn typing_on_narrows_the_search(row: Seq<Seq<char>>, query: Seq<char>, c: char)
    requires
        is_ascii_text(query.push(c)),
        row_matches(row, query.push(c)),
    ensures
        row_matches(row, query),
{
    let longer = lowercase(query.push(c));
    let shorter = lowercase(query);
    assert(forall|i: int| 0 <= i < query.len() ==> query.push(c)[i] == #[trigger] query[i]);
    let j = choose|j: int|
        0 <= j < row.len() && occurs(lowercase(#[trigger] row[j]), longer);
    let cell = lowercase(row[j]);
    let i = choose|i: int| occurs_at(cell, longer, i);
    assert forall|k: int| 0 <= k < shorter.len() implies cell.subrange(i, i + shorter.len())[k]
        == shorter[k] by {
        assert(cell.subrange(i, i + longer.len())[k] == longer[k]);
    }
    assert(cell.subrange(i, i + shorter.len()) =~= shorter);
    assert(occurs_at(cell, shorter, i));
    assert(occurs(lowercase(row[j]), shorter));
}

} // verus!
