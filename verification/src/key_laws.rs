//! What each key does, told by what is on the screen before and after it.

use vstd::prelude::*;

use crate::geometry;
use crate::reader;
use crate::search;
use crate::state;
use crate::text;

verus! {

/// The view of a state leaves nothing out.
pub proof fn the_view_holds_the_state(state: state::State)
    ensures
        state@.row_offset == state.row_offset,
        state@.col_offset == state.col_offset,
        state@.show_line_numbers == state.show_line_numbers,
        state@.mode == state.mode,
        state@.search_query == state.search_query@,
        (state@.matches == state.matches@),
        state@.match_pos == state.match_pos,
{
}

/// A session starts at the top left corner of the table, without a search.
pub proof fn a_session_starts_at_the_top(show_line_numbers: bool)
    ensures
        ({
            let s = state::initial(show_line_numbers);
            &&& s.row_offset == 0
            &&& s.col_offset == 0
            &&& s.show_line_numbers == show_line_numbers
            &&& s.mode == state::Mode::Normal
            &&& s.search_query.len() == 0
            &&& s.matches.len() == 0
            &&& s.match_pos is None
        }),
{
}

// ── scrolling ──────────────────────────────────────────────────────────────

/// A step down moves the table up by one row, as long as its last row is not on the
/// screen yet; from there on it does nothing.
pub proof fn down_moves_on_by_one_row(
    s: state::Session,
    table: reader::Table,
    col_widths: Seq<usize>,
    key: state::Key,
    term_width: nat,
    term_height: nat,
)
    requires
        s.mode == state::Mode::Normal,
        key.code is Down || key.code == state::KeyCode::Char('j'),
    ensures
        ({
            let t = state::step(s, table, col_widths, key, term_width, term_height);
            let page = if term_height >= 5 {
                term_height - 5
            } else {
                0
            };
            &&& s.row_offset + page < table.rows.len() ==> t == (state::Session {
                row_offset: s.row_offset + 1,
                ..s
            })
            &&& s.row_offset + page >= table.rows.len() ==> t == s
        }),
{
}

/// A step up moves the table down by one row, unless its first row is on the screen.
pub proof fn up_moves_back_by_one_row(
    s: state::Session,
    table: reader::Table,
    col_widths: Seq<usize>,
    key: state::Key,
    term_width: nat,
    term_height: nat,
)
    requires
        s.mode == state::Mode::Normal,
        key.code is Up || key.code == state::KeyCode::Char('k'),
    ensures
        ({
            let t = state::step(s, table, col_widths, key, term_width, term_height);
            &&& s.row_offset > 0 ==> t.row_offset + 1 == s.row_offset
            &&& s.row_offset == 0 ==> t.row_offset == 0
            &&& t == (state::Session { row_offset: t.row_offset, ..s })
        }),
{
}

/// Where a whole page follows below the screen, the first row shown after a page down
/// is the one that comes after the last row shown before it. Where less than a page
/// follows, the last row of the table comes to stand at the bottom of the screen, or
/// the first one at its top if all rows fit.
pub proof fn page_down_goes_on_where_the_screen_ended(
    s: state::Session,
    table: reader::Table,
    col_widths: Seq<usize>,
    ctrl: bool,
    term_width: nat,
    term_height: nat,
)
    requires
        s.mode == state::Mode::Normal,
    ensures
        ({
            let key = state::Key { code: state::KeyCode::PageDown, ctrl };
            let t = state::step(s, table, col_widths, key, term_width, term_height);
            let page = if term_height >= 5 {
                term_height - 5
            } else {
                0
            };
            let last_shown = s.row_offset + page - 1;
            &&& last_shown + page < table.rows.len() ==> t.row_offset == last_shown + 1
            &&& last_shown + page >= table.rows.len() && table.rows.len() >= page ==> t.row_offset
                + page == table.rows.len()
            &&& table.rows.len() < page ==> t.row_offset == 0
            &&& t == (state::Session { row_offset: t.row_offset, ..s })
        }),
{
}

/// The last row shown after a page up is the one that comes before the first row shown
/// before it, unless there is less than a page above: then the table is shown from its
/// first row on.
pub proof fn page_up_ends_where_the_screen_began(
    s: state::Session,
    table: reader::Table,
    col_widths: Seq<usize>,
    ctrl: bool,
    term_width: nat,
    term_height: nat,
)
    requires
        s.mode == state::Mode::Normal,
    ensures
        ({
            let key = state::Key { code: state::KeyCode::PageUp, ctrl };
            let t = state::step(s, table, col_widths, key, term_width, term_height);
            let page = if term_height >= 5 {
                term_height - 5
            } else {
                0
            };
            &&& s.row_offset >= page ==> t.row_offset + page - 1 == s.row_offset - 1
            &&& s.row_offset < page ==> t.row_offset == 0
            &&& t == (state::Session { row_offset: t.row_offset, ..s })
        }),
{
}

/// Where a whole page follows below the screen, a page up undoes a page down.
pub proof fn page_up_undoes_page_down(
    s: state::Session,
    table: reader::Table,
    col_widths: Seq<usize>,
    ctrl: bool,
    term_width: nat,
    term_height: nat,
)
    requires
        s.mode == state::Mode::Normal,
        s.row_offset + geometry::rows_that_fit(term_height) <= geometry::last_offset(
            table.rows.len(),
            term_height,
        ),
    ensures
        ({
            let down = state::Key { code: state::KeyCode::PageDown, ctrl };
            let up = state::Key { code: state::KeyCode::PageUp, ctrl };
            let t = state::step(s, table, col_widths, down, term_width, term_height);
            &&& t.row_offset == s.row_offset + geometry::rows_that_fit(term_height)
            &&& state::step(t, table, col_widths, up, term_width, term_height) == s
        }),
{
}

/// The start of the table is its first row and its first column.
pub proof fn home_goes_to_the_first_cell(
    s: state::Session,
    table: reader::Table,
    col_widths: Seq<usize>,
    key: state::Key,
    term_width: nat,
    term_height: nat,
)
    requires
        s.mode == state::Mode::Normal,
        key.code is Home || key.code == state::KeyCode::Char('g'),
    ensures
        state::step(s, table, col_widths, key, term_width, term_height) == (state::Session {
            row_offset: 0,
            col_offset: 0,
            ..s
        }),
{
}

/// At the end of the table its last row stands at the bottom of the screen, or its first
/// one at the top if all rows fit. The columns stay.
pub proof fn end_brings_the_last_row_to_the_bottom(
    s: state::Session,
    table: reader::Table,
    col_widths: Seq<usize>,
    key: state::Key,
    term_width: nat,
    term_height: nat,
)
    requires
        s.mode == state::Mode::Normal,
        key.code is End || key.code == state::KeyCode::Char('G'),
    ensures
        ({
            let t = state::step(s, table, col_widths, key, term_width, term_height);
            let page = if term_height >= 5 {
                term_height - 5
            } else {
                0
            };
            &&& table.rows.len() >= page ==> t.row_offset + page == table.rows.len()
            &&& table.rows.len() < page ==> t.row_offset == 0
            &&& t == (state::Session { row_offset: t.row_offset, ..s })
        }),
{
}

/// A step to the left shows one column more at the left end, if there is one.
pub proof fn left_moves_back_by_one_column(
    s: state::Session,
    table: reader::Table,
    col_widths: Seq<usize>,
    key: state::Key,
    term_width: nat,
    term_height: nat,
)
    requires
        s.mode == state::Mode::Normal,
        key.code is Left || key.code == state::KeyCode::Char('h'),
    ensures
        ({
            let t = state::step(s, table, col_widths, key, term_width, term_height);
            &&& s.col_offset > 0 ==> t.col_offset + 1 == s.col_offset
            &&& s.col_offset == 0 ==> t.col_offset == 0
            &&& t == (state::Session { col_offset: t.col_offset, ..s })
        }),
{
}

/// A step to the right drops one column at the left end, as long as the last column of
/// the table is not on the screen; from there on it does nothing. Where no column fits
/// the screen, it stops at the last one.
pub proof fn right_moves_on_until_the_last_column_shows(
    s: state::Session,
    table: reader::Table,
    col_widths: Seq<usize>,
    key: state::Key,
    term_width: nat,
    term_height: nat,
)
    requires
        s.mode == state::Mode::Normal,
        key.code is Right || key.code == state::KeyCode::Char('l'),
        table.rows.len() <= usize::MAX,
    ensures
        ({
            let t = state::step(s, table, col_widths, key, term_width, term_height);
            let border = 1 + if s.show_line_numbers {
                text::decimal(table.rows.len()).len() + 3
            } else {
                0
            };
            let room = if term_width >= border {
                (term_width - border) as nat
            } else {
                0
            };
            let shown = geometry::shown_widths(col_widths, s.col_offset, room).len();
            let beyond = if shown > 0 {
                s.col_offset + shown
            } else {
                s.col_offset + 1
            };
            &&& beyond < col_widths.len() ==> t.col_offset == s.col_offset + 1
            &&& beyond >= col_widths.len() ==> t.col_offset == s.col_offset
            &&& t == (state::Session { col_offset: t.col_offset, ..s })
        }),
{
    geometry::the_gutter_is_as_wide_as_the_last_number(
        table.rows.len() as usize,
        s.show_line_numbers,
    );
}

// ── the other keys while browsing ──────────────────────────────────────────

/// The number sign switches the line numbers and changes nothing else.
pub proof fn the_number_sign_switches_line_numbers(
    s: state::Session,
    table: reader::Table,
    col_widths: Seq<usize>,
    ctrl: bool,
    term_width: nat,
    term_height: nat,
)
    requires
        s.mode == state::Mode::Normal,
    ensures
        state::step(
            s,
            table,
            col_widths,
            state::Key { code: state::KeyCode::Char('#'), ctrl },
            term_width,
            term_height,
        ) == (state::Session { show_line_numbers: !s.show_line_numbers, ..s }),
{
}

/// A slash starts a search over: it takes keys as a query, which is empty and has no
/// matches. The screen stays where it is.
pub proof fn a_slash_starts_a_search(
    s: state::Session,
    table: reader::Table,
    col_widths: Seq<usize>,
    ctrl: bool,
    term_width: nat,
    term_height: nat,
)
    requires
        s.mode == state::Mode::Normal,
    ensures
        ({
            let key = state::Key { code: state::KeyCode::Char('/'), ctrl };
            let t = state::step(s, table, col_widths, key, term_width, term_height);
            &&& t.mode == state::Mode::Searching
            &&& t.search_query.len() == 0
            &&& t.matches.len() == 0
            &&& t.match_pos is None
            &&& t.row_offset == s.row_offset
            &&& t.col_offset == s.col_offset
            &&& t.show_line_numbers == s.show_line_numbers
        }),
{
}

/// `n` goes to the next match, `N` to the one before.
pub proof fn n_goes_through_the_matches(
    s: state::Session,
    table: reader::Table,
    col_widths: Seq<usize>,
    ctrl: bool,
    term_width: nat,
    term_height: nat,
)
    requires
        s.mode == state::Mode::Normal,
    ensures
        ({
            let next = state::Key { code: state::KeyCode::Char('n'), ctrl };
            let previous = state::Key { code: state::KeyCode::Char('N'), ctrl };
            &&& state::step(s, table, col_widths, next, term_width, term_height)
                == state::navigated(s, true, term_height)
            &&& state::step(s, table, col_widths, previous, term_width, term_height)
                == state::navigated(s, false, term_height)
        }),
{
}

/// A key that has no meaning while browsing changes nothing, and neither does one that
/// ends the viewer.
pub proof fn other_keys_change_nothing(
    s: state::Session,
    table: reader::Table,
    col_widths: Seq<usize>,
    key: state::Key,
    term_width: nat,
    term_height: nat,
)
    requires
        s.mode == state::Mode::Normal,
        match key.code {
            state::KeyCode::Char(c) => c != 'j' && c != 'k' && c != 'h' && c != 'l' && c != 'g'
                && c != 'G' && c != 'n' && c != 'N' && c != '/' && c != '#',
            state::KeyCode::Backspace => true,
            state::KeyCode::Enter => true,
            state::KeyCode::Esc => true,
            state::KeyCode::Other => true,
            _ => false,
        },
    ensures
        state::step(s, table, col_widths, key, term_width, term_height) == s,
{
}

/// Three keys end the viewer, and only while the table is browsed: `q`, escape, and `c`
/// with control.
pub proof fn three_keys_end_the_viewer(mode: state::Mode, key: state::Key)
    ensures
        state::quits(mode, key) <==> mode == state::Mode::Normal && (key.code is Esc || key.code
            == state::KeyCode::Char('q') || (key.code == state::KeyCode::Char('c') && key.ctrl)),
{
}

// ── going through the matches ──────────────────────────────────────────────

/// Going to a match focuses the one after the focused one, or the one before, and from
/// an end of the list the other end. Without a focus it starts at the end it comes to
/// first. Without matches nothing happens.
pub proof fn the_focus_moves_by_one_match(s: state::Session, forward: bool, term_height: nat)
    requires
        s.matches.len() <= usize::MAX,
        s.match_pos matches Some(p) ==> p < s.matches.len(),
    ensures
        ({
            let t = state::navigated(s, forward, term_height);
            let n = s.matches.len();
            &&& n == 0 ==> t == s
            &&& n > 0 ==> {
                &&& t.match_pos is Some
                &&& t.match_pos->0 < n
                &&& t == (state::Session {
                    match_pos: t.match_pos,
                    row_offset: t.row_offset,
                    ..s
                })
                &&& forward && s.match_pos is None ==> t.match_pos->0 == 0
                &&& !forward && s.match_pos is None ==> t.match_pos->0 == n - 1
                &&& forward && s.match_pos is Some && s.match_pos->0 + 1 < n ==> t.match_pos->0
                    == s.match_pos->0 + 1
                &&& forward && s.match_pos is Some && s.match_pos->0 + 1 == n ==> t.match_pos->0
                    == 0
                &&& !forward && s.match_pos is Some && s.match_pos->0 > 0 ==> t.match_pos->0
                    == s.match_pos->0 - 1
                &&& !forward && s.match_pos is Some && s.match_pos->0 == 0 ==> t.match_pos->0
                    == n - 1
            }
        }),
{
    let n = s.matches.len();
    if n > 0 && s.match_pos is Some {
        let p = s.match_pos->0 as nat;
        vstd::arithmetic::div_mod::lemma_mod_self_0(n as int);
        if p + 1 < n {
            vstd::arithmetic::div_mod::lemma_small_mod(p + 1, n);
        }
    }
}

/// Going to a match that is on the screen does not scroll. Going to one that is not
/// brings its row to the middle: half a screen of rows stands above it, or all that
/// there are.
pub proof fn a_match_off_screen_is_centered(s: state::Session, forward: bool, term_height: nat)
    requires
        0 < s.matches.len() <= usize::MAX,
        s.match_pos matches Some(p) ==> p < s.matches.len(),
    ensures
        ({
            let t = state::navigated(s, forward, term_height);
            let page = if term_height >= 5 {
                term_height - 5
            } else {
                0
            };
            let row = s.matches[t.match_pos->0 as int];
            &&& s.row_offset <= row < s.row_offset + page ==> t.row_offset == s.row_offset
            &&& !(s.row_offset <= row < s.row_offset + page) && row >= page / 2 ==> t.row_offset
                + page / 2 == row
            &&& !(s.row_offset <= row < s.row_offset + page) && row < page / 2 ==> t.row_offset
                == 0
        }),
{
    the_focus_moves_by_one_match(s, forward, term_height);
}

// ── typing a query ─────────────────────────────────────────────────────────

/// New matches leave the focus where it is if there are enough of them, move it to the
/// last one if there are fewer, and take it away if there are none. Nothing comes into
/// focus, and nothing else changes.
pub proof fn the_focus_stays_among_the_matches(s: state::Session, table: reader::Table)
    requires
        search::matches_of(table, s.search_query).len() <= usize::MAX,
    ensures
        ({
            let t = state::searched(s, table);
            let n = t.matches.len();
            &&& (t.matches == search::matches_of(table, s.search_query))
            &&& s.match_pos is None || n == 0 ==> t.match_pos is None
            &&& s.match_pos is Some && s.match_pos->0 < n ==> t.match_pos == s.match_pos
            &&& s.match_pos is Some && 0 < n <= s.match_pos->0 ==> t.match_pos is Some
                && t.match_pos->0 + 1 == n
            &&& t.row_offset == s.row_offset
            &&& t.col_offset == s.col_offset
            &&& t.show_line_numbers == s.show_line_numbers
            &&& t.mode == s.mode
            &&& t.search_query == s.search_query
        }),
{
}

/// A character that is typed, without control, is appended to the query, and a backspace
/// takes the last one away. The matches are those of the new query.
pub proof fn typing_edits_the_query_at_its_end(
    s: state::Session,
    table: reader::Table,
    col_widths: Seq<usize>,
    c: char,
    ctrl: bool,
    term_width: nat,
    term_height: nat,
)
    requires
        s.mode == state::Mode::Searching,
    ensures
        ({
            let key = state::Key { code: state::KeyCode::Char(c), ctrl: false };
            let t = state::step(s, table, col_widths, key, term_width, term_height);
            &&& t.search_query.len() == s.search_query.len() + 1
            &&& t.search_query.take(s.search_query.len() as int) == s.search_query
            &&& t.search_query.last() == c
            &&& t == state::searched(
                (state::Session { search_query: t.search_query, ..s }),
                table,
            )
        }),
        ({
            let key = state::Key { code: state::KeyCode::Backspace, ctrl };
            let t = state::step(s, table, col_widths, key, term_width, term_height);
            &&& s.search_query.len() == 0 ==> t.search_query.len() == 0
            &&& s.search_query.len() > 0 ==> t.search_query.len() + 1 == s.search_query.len()
            &&& t.search_query.is_prefix_of(s.search_query)
            &&& t == state::searched(
                (state::Session { search_query: t.search_query, ..s }),
                table,
            )
        }),
{
    let t = s.search_query.push(c);
    assert(t.take(s.search_query.len() as int) =~= s.search_query);
}

/// Return accepts the query as it is. If it has matches, the first of them is focused,
/// as going to the next match does without a focus; if not, nothing else changes.
pub proof fn return_accepts_the_query(
    s: state::Session,
    table: reader::Table,
    col_widths: Seq<usize>,
    ctrl: bool,
    term_width: nat,
    term_height: nat,
)
    requires
        s.mode == state::Mode::Searching,
        s.matches.len() <= usize::MAX,
    ensures
        ({
            let key = state::Key { code: state::KeyCode::Enter, ctrl };
            let t = state::step(s, table, col_widths, key, term_width, term_height);
            let page = if term_height >= 5 {
                term_height - 5
            } else {
                0
            };
            let first = s.matches[0];
            &&& t == (state::Session {
                mode: state::Mode::Normal,
                match_pos: t.match_pos,
                row_offset: t.row_offset,
                ..s
            })
            &&& s.matches.len() == 0 ==> t.match_pos == s.match_pos && t.row_offset
                == s.row_offset
            &&& s.matches.len() > 0 ==> {
                &&& t.match_pos == Some(0usize)
                &&& s.row_offset <= first < s.row_offset + page ==> t.row_offset == s.row_offset
                &&& !(s.row_offset <= first < s.row_offset + page) && first >= page / 2
                    ==> t.row_offset + page / 2 == first
                &&& !(s.row_offset <= first < s.row_offset + page) && first < page / 2
                    ==> t.row_offset == 0
            }
        }),
{
}

/// Escape gives the search up: the table is browsed again, from where it was, with no
/// query and no matches.
pub proof fn escape_gives_the_search_up(
    s: state::Session,
    table: reader::Table,
    col_widths: Seq<usize>,
    ctrl: bool,
    term_width: nat,
    term_height: nat,
)
    requires
        s.mode == state::Mode::Searching,
    ensures
        ({
            let key = state::Key { code: state::KeyCode::Esc, ctrl };
            let t = state::step(s, table, col_widths, key, term_width, term_height);
            &&& t.mode == state::Mode::Normal
            &&& t.search_query.len() == 0
            &&& t.matches.len() == 0
            &&& t.match_pos is None
            &&& t.row_offset == s.row_offset
            &&& t.col_offset == s.col_offset
            &&& t.show_line_numbers == s.show_line_numbers
        }),
{
}

/// While a query is typed, characters with control and all keys that neither edit nor
/// end the query change nothing.
pub proof fn other_keys_do_not_edit_the_query(
    s: state::Session,
    table: reader::Table,
    col_widths: Seq<usize>,
    key: state::Key,
    term_width: nat,
    term_height: nat,
)
    requires
        s.mode == state::Mode::Searching,
        match key.code {
            state::KeyCode::Char(_) => key.ctrl,
            state::KeyCode::Backspace => false,
            state::KeyCode::Enter => false,
            state::KeyCode::Esc => false,
            _ => true,
        },
    ensures
        state::step(s, table, col_widths, key, term_width, term_height) == s,
{
}

} // verus!
