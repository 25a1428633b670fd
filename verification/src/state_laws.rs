//! What holds of every session with the viewer.

use vstd::prelude::*;

use crate::geometry;
use crate::reader;
use crate::search;
use crate::state;

verus! {

/// The offsets lie within the table, the matches are those of the query, the focused
/// match is one of them, and while a query is typed no match is focused.
pub open spec fn consistent(s: state::Session, table: reader::Table, ncols: nat) -> bool {
    &&& s.row_offset <= table.rows.len()
    &&& s.col_offset == 0 || s.col_offset < ncols
    &&& s.matches == search::matches_of(table, s.search_query)
    &&& s.match_pos matches Some(pos) ==> pos < s.matches.len()
    &&& s.mode == state::Mode::Searching ==> s.match_pos is None
}

/// One key, on a terminal of some size. The size may be another for each key.
pub struct Press {
    pub key: state::Key,
    pub term_width: nat,
    pub term_height: nat,
}

/// The state after a number of keys.
pub open spec fn after(
    show_line_numbers: bool,
    table: reader::Table,
    col_widths: Seq<usize>,
    presses: Seq<Press>,
) -> state::Session
    decreases presses.len(),
{
    if presses.len() == 0 {
        state::initial(show_line_numbers)
    } else {
        let before = after(show_line_numbers, table, col_widths, presses.drop_last());
        let press = presses.last();
        state::step(
            before,
            table,
            col_widths,
            press.key,
            press.term_width,
            press.term_height,
        )
    }
}

proof fn matches_lie_in_the_table(table: reader::Table, query: Seq<char>)
    requires
        table.rows.len() <= usize::MAX,
    ensures
        forall|i: int|
            0 <= i < search::matches_of(table, query).len() ==> #[trigger] search::matches_of(
                table,
                query,
            )[i] < table.rows.len(),
        search::ascending(search::matches_of(table, query)),
{
    search::matches_are_the_rows_that_contain_the_query(table.rows, query, table.rows.len());
    let m = search::matches_of(table, query);
    assert forall|i: int| 0 <= i < m.len() implies #[trigger] m[i] < table.rows.len() by {
        assert(m.contains(m[i]));
    }
}

/// Every key keeps the state consistent.
pub proof fn every_key_keeps_the_state_consistent(
    s: state::Session,
    table: reader::Table,
    col_widths: Seq<usize>,
    key: state::Key,
    term_width: nat,
    term_height: nat,
)
    requires
        table.rows.len() <= usize::MAX,
        consistent(s, table, col_widths.len()),
    ensures
        consistent(
            state::step(s, table, col_widths, key, term_width, term_height),
            table,
            col_widths.len(),
        ),
{
    matches_lie_in_the_table(table, s.search_query);
}

/// Whatever keys are pressed, the state stays consistent.
pub proof fn every_session_stays_consistent(
    show_line_numbers: bool,
    table: reader::Table,
    col_widths: Seq<usize>,
    presses: Seq<Press>,
)
    requires
        table.rows.len() <= usize::MAX,
    ensures
        consistent(
            after(show_line_numbers, table, col_widths, presses),
            table,
            col_widths.len(),
        ),
    decreases presses.len(),
{
    if presses.len() > 0 {
        every_session_stays_consistent(
            show_line_numbers,
            table,
            col_widths,
            presses.drop_last(),
        );
        let press = presses.last();
        every_key_keeps_the_state_consistent(
            after(show_line_numbers, table, col_widths, presses.drop_last()),
            table,
            col_widths,
            press.key,
            press.term_width,
            press.term_height,
        );
    }
}

/// After moving to a match it is on screen, if any row is.
pub proof fn the_focused_match_is_on_screen(s: state::Session, forward: bool, term_height: nat)
    requires
        s.matches.len() > 0,
        s.matches.len() <= usize::MAX,
        s.match_pos matches Some(pos) ==> pos < s.matches.len(),
        geometry::rows_that_fit(term_height) > 0,
    ensures
        ({
            let t = state::navigated(s, forward, term_height);
            &&& t.match_pos is Some
            &&& t.match_pos->0 < t.matches.len()
            &&& state::on_screen(
                t.matches[t.match_pos->0 as int] as nat,
                t.row_offset,
                geometry::rows_that_fit(term_height),
            )
        }),
{
}

/// Moving to the next match and back focuses the same match again, and so does moving
/// back and forth.
pub proof fn next_and_previous_undo_each_other(
    s: state::Session,
    forward: bool,
    term_height: nat,
)
    requires
        s.match_pos is Some,
        s.match_pos->0 < s.matches.len() <= usize::MAX,
    ensures
        state::navigated(
            state::navigated(s, forward, term_height),
            !forward,
            term_height,
        ).match_pos == s.match_pos,
{
    let n = s.matches.len();
    let pos = s.match_pos->0 as nat;
    vstd::arithmetic::div_mod::lemma_mod_self_0(n as int);
    vstd::arithmetic::div_mod::lemma_small_mod(pos, n);
    if pos + 1 < n {
        vstd::arithmetic::div_mod::lemma_small_mod(pos + 1, n);
    }
}

/// From no match the next one is the first and the previous one is the last.
pub proof fn navigation_starts_at_an_end(s: state::Session, term_height: nat)
    requires
        s.match_pos is None,
        0 < s.matches.len() <= usize::MAX,
    ensures
        state::navigated(s, true, term_height).match_pos == Some(0usize),
        state::navigated(s, false, term_height).match_pos == Some((s.matches.len() - 1) as usize),
{
}

pub open spec fn navigated_times(
    s: state::Session,
    k: nat,
    term_height: nat,
) -> state::Session
    decreases k,
{
    if k == 0 {
        s
    } else {
        state::navigated(
            navigated_times(s, (k - 1) as nat, term_height),
            true,
            term_height,
        )
    }
}

/// Moving on `k` times focuses the match `k` further on, in a circle.
pub proof fn matches_form_a_circle(s: state::Session, k: nat, term_height: nat)
    requires
        s.match_pos is Some,
        s.match_pos->0 < s.matches.len() <= usize::MAX,
    ensures
        (navigated_times(s, k, term_height).matches == s.matches),
        navigated_times(s, k, term_height).match_pos == Some(
            ((s.match_pos->0 + k) % s.matches.len() as int) as usize,
        ),
    decreases k,
{
    let n = s.matches.len() as int;
    let p = s.match_pos->0 as int;
    if k == 0 {
        vstd::arithmetic::div_mod::lemma_small_mod(p as nat, n as nat);
    } else {
        matches_form_a_circle(s, (k - 1) as nat, term_height);
        vstd::arithmetic::div_mod::lemma_mod_bound(p + k - 1, n);
        vstd::arithmetic::div_mod::lemma_add_mod_noop(p + k - 1, 1, n);
        if n == 1 {
        } else {
            vstd::arithmetic::div_mod::lemma_small_mod(1, n as nat);
        }
        vstd::arithmetic::div_mod::lemma_mod_bound(p + k, n);
    }
}

/// Typing a character and taking it back leaves the state as it was.
pub proof fn backspace_undoes_typing(
    s: state::Session,
    table: reader::Table,
    c: char,
    term_height: nat,
)
    requires
        s.mode == state::Mode::Searching,
        s.match_pos is None,
        s.matches == search::matches_of(table, s.search_query),
    ensures
        ({
            let press = state::Key { code: state::KeyCode::Char(c), ctrl: false };
            let back = state::Key { code: state::KeyCode::Backspace, ctrl: false };
            state::typed(
                state::typed(s, table, press, term_height),
                table,
                back,
                term_height,
            ) == s
        }),
{
    assert(s.search_query.push(c).drop_last() =~= s.search_query);
}

/// Typing a query moves nothing on the screen: only accepting it scrolls.
pub proof fn typing_does_not_scroll(
    s: state::Session,
    table: reader::Table,
    key: state::Key,
    term_height: nat,
)
    requires
        !(key.code is Enter),
    ensures
        state::typed(s, table, key, term_height).row_offset == s.row_offset,
        state::typed(s, table, key, term_height).col_offset == s.col_offset,
        state::typed(s, table, key, term_height).show_line_numbers == s.show_line_numbers,
{
}

/// Giving a search up clears it and keeps what is on the screen.
pub proof fn giving_up_clears_the_search(
    s: state::Session,
    table: reader::Table,
    ctrl: bool,
    term_height: nat,
)
    ensures
        state::typed(
            s,
            table,
            state::Key { code: state::KeyCode::Esc, ctrl },
            term_height,
        ) == (state::Session {
            row_offset: s.row_offset,
            col_offset: s.col_offset,
            ..state::initial(s.show_line_numbers)
        }),
{
}

/// Accepting a query that has matches focuses the first of them.
pub proof fn accepting_focuses_the_first_match(
    s: state::Session,
    table: reader::Table,
    ctrl: bool,
    term_height: nat,
)
    requires
        0 < s.matches.len() <= usize::MAX,
    ensures
        ({
            let t = state::typed(
                s,
                table,
                state::Key { code: state::KeyCode::Enter, ctrl },
                term_height,
            );
            &&& t.mode == state::Mode::Normal
            &&& t.search_query == s.search_query
            &&& (t.matches == s.matches)
            &&& t.match_pos == Some(0usize)
        }),
{
}

/// While a query is typed no key ends the viewer.
pub proof fn no_key_quits_a_search(key: state::Key)
    ensures
        !state::quits(state::Mode::Searching, key),
{
}

/// Scrolling stays within the table: going down, by a row, a page or to the end, never
/// passes the offset at which the last row is shown, unless the screen has grown since.
pub proof fn scrolling_down_stops_at_the_last_row(
    s: state::Session,
    total_rows: nat,
    col_widths: Seq<usize>,
    motion: state::Motion,
    term_width: nat,
    term_height: nat,
)
    requires
        motion is Down || motion is PageDown || motion is End,
        s.row_offset <= geometry::last_offset(total_rows, term_height),
    ensures
        s.row_offset <= state::scrolled(
            s,
            total_rows,
            col_widths,
            motion,
            term_width,
            term_height,
        ).row_offset <= geometry::last_offset(total_rows, term_height),
{
}

/// A step down that moves the table is undone by a step up.
pub proof fn up_undoes_down(
    s: state::Session,
    total_rows: nat,
    col_widths: Seq<usize>,
    term_width: nat,
    term_height: nat,
)
    requires
        s.row_offset < geometry::last_offset(total_rows, term_height),
    ensures
        state::scrolled(
            state::scrolled(
                s,
                total_rows,
                col_widths,
                state::Motion::Down,
                term_width,
                term_height,
            ),
            total_rows,
            col_widths,
            state::Motion::Up,
            term_width,
            term_height,
        ) == s,
{
}

/// A step to the right that moves the table is undone by a step to the left; one that
/// does not leaves the last column on screen, or first in line where nothing fits.
pub proof fn left_undoes_right(
    s: state::Session,
    total_rows: nat,
    col_widths: Seq<usize>,
    term_width: nat,
    term_height: nat,
)
    ensures
        ({
            let right = state::scrolled(
                s,
                total_rows,
                col_widths,
                state::Motion::Right,
                term_width,
                term_height,
            );
            if right == s {
                state::last_visible(s, total_rows, col_widths, term_width) + 1 >= col_widths.len()
            } else {
                state::scrolled(
                    right,
                    total_rows,
                    col_widths,
                    state::Motion::Left,
                    term_width,
                    term_height,
                ) == s
            }
        }),
{
}

/// Line numbers switched twice are as they were.
pub proof fn line_numbers_toggle(
    s: state::Session,
    table: reader::Table,
    col_widths: Seq<usize>,
    ctrl: bool,
    term_width: nat,
    term_height: nat,
)
    ensures
        ({
            let hash = state::Key { code: state::KeyCode::Char('#'), ctrl };
            let once = state::browsed(s, table, col_widths, hash, term_width, term_height);
            &&& once.show_line_numbers == !s.show_line_numbers
            &&& state::browsed(once, table, col_widths, hash, term_width, term_height) == s
        }),
{
}

} // verus!
