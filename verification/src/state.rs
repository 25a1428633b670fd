//! The state of the viewer and what each key does to it.

use vstd::prelude::*;

use crate::geometry;
use crate::geometry::{ln_col_width, max_row_offset, visible_rows, VisibleCols};
use crate::reader;
use crate::reader::CsvData;
use crate::search;
use crate::table::TableLayout;

verus! {

#[derive(Clone, Copy, Debug, PartialEq, Eq, Structural)]
pub enum Mode {
    Normal,
    Searching,
}

/// The keys that the viewer tells apart.
#[derive(Clone, Copy, Debug)]
pub enum KeyCode {
    Char(char),
    Backspace,
    Enter,
    Esc,
    Up,
    Down,
    Left,
    Right,
    PageUp,
    PageDown,
    Home,
    End,
    Other,
}

/// A key press.
#[derive(Clone, Copy, Debug)]
pub struct Key {
    pub code: KeyCode,
    pub ctrl: bool,
}

/// Whether the viewer goes on after a key.
#[derive(Clone, Copy, Debug, PartialEq, Eq, Structural)]
pub enum Flow {
    Continue,
    Quit,
}

pub struct State {
    pub row_offset: usize,
    pub col_offset: usize,
    pub show_line_numbers: bool,
    pub mode: Mode,
    /// The active search query (updated in real-time while typing).
    pub search_query: String,
    /// Row indices (sorted ascending) that contain the search query.
    pub matches: Vec<usize>,
    /// Index into `matches` of the currently focused match.
    pub match_pos: Option<usize>,
}

/// The contents of a state.
#[verifier::ext_equal]
pub struct Session {
    pub row_offset: nat,
    pub col_offset: nat,
    pub show_line_numbers: bool,
    pub mode: Mode,
    pub search_query: Seq<char>,
    pub matches: Seq<usize>,
    pub match_pos: Option<usize>,
}

impl View for State {
    type V = Session;

    open spec fn view(&self) -> Session {
        Session {
            row_offset: self.row_offset as nat,
            col_offset: self.col_offset as nat,
            show_line_numbers: self.show_line_numbers,
            mode: self.mode,
            search_query: self.search_query@,
            matches: self.matches@,
            match_pos: self.match_pos,
        }
    }
}

// ── what the operations do ─────────────────────────────────────────────────

/// The state in which a viewer starts.
pub open spec fn initial(show_line_numbers: bool) -> Session {
    Session {
        row_offset: 0,
        col_offset: 0,
        show_line_numbers,
        mode: Mode::Normal,
        search_query: Seq::empty(),
        matches: Seq::empty(),
        match_pos: None,
    }
}

/// The focused match after there are only `n` matches left.
pub open spec fn kept_focus(match_pos: Option<usize>, n: nat) -> Option<usize> {
    match match_pos {
        Some(pos) => if pos < n {
            Some(pos)
        } else if n == 0 {
            None
        } else {
            Some((n - 1) as usize)
        },
        None => None,
    }
}

/// The matches brought in line with the query.
pub open spec fn searched(s: Session, table: reader::Table) -> Session {
    let matches = search::matches_of(table, s.search_query);
    Session { matches, match_pos: kept_focus(s.match_pos, matches.len()), ..s }
}

/// The search given up.
pub open spec fn unsearched(s: Session, mode: Mode) -> Session {
    Session {
        mode,
        search_query: Seq::empty(),
        matches: Seq::empty(),
        match_pos: None,
        ..s
    }
}

/// The match after `match_pos`, or before it, in a circle of `n` matches.
pub open spec fn next_match(match_pos: Option<usize>, n: nat, forward: bool) -> nat {
    match match_pos {
        None => if forward {
            0
        } else {
            (n - 1) as nat
        },
        Some(pos) => if forward {
            (pos as nat + 1) % n
        } else if pos == 0 {
            (n - 1) as nat
        } else {
            (pos - 1) as nat
        },
    }
}

/// The row is among the `n` rows from `row_offset` on.
pub open spec fn on_screen(row: nat, row_offset: nat, n: nat) -> bool {
    row_offset <= row < row_offset + n
}

/// The offset that centers a row on a screen of `n` rows.
pub open spec fn centered(row: nat, n: nat) -> nat {
    if row >= n / 2 {
        (row - n / 2) as nat
    } else {
        0
    }
}

/// The next or previous match focused, and scrolled to if it was off screen.
pub open spec fn navigated(s: Session, forward: bool, term_height: nat) -> Session {
    if s.matches.len() == 0 {
        s
    } else {
        let pos = next_match(s.match_pos, s.matches.len(), forward);
        let row = s.matches[pos as int] as nat;
        let n = geometry::rows_that_fit(term_height);
        Session {
            match_pos: Some(pos as usize),
            row_offset: if on_screen(row, s.row_offset, n) {
                s.row_offset
            } else {
                centered(row, n)
            },
            ..s
        }
    }
}

/// The last column that is on screen, at least partly. Where there is none, the
/// column that would be the first.
pub open spec fn last_visible(
    s: Session,
    total_rows: nat,
    col_widths: Seq<usize>,
    term_width: nat,
) -> nat {
    let reserved = geometry::gutter_span(geometry::gutter(total_rows, s.show_line_numbers));
    let n = geometry::shown_widths(
        col_widths,
        s.col_offset,
        geometry::room(term_width, reserved),
    ).len();
    if n > 0 {
        (s.col_offset + n - 1) as nat
    } else {
        s.col_offset
    }
}

/// The key ends the viewer.
pub open spec fn quits(mode: Mode, key: Key) -> bool {
    mode == Mode::Normal && match key.code {
        KeyCode::Esc => true,
        KeyCode::Char(c) => c == 'q' || (c == 'c' && key.ctrl),
        _ => false,
    }
}

/// What a key does while a query is typed.
pub open spec fn typed(s: Session, table: reader::Table, key: Key, term_height: nat) -> Session {
    match key.code {
        KeyCode::Char(c) => if key.ctrl {
            s
        } else {
            searched(Session { search_query: s.search_query.push(c), ..s }, table)
        },
        KeyCode::Backspace => searched(
            Session {
                search_query: if s.search_query.len() == 0 {
                    s.search_query
                } else {
                    s.search_query.drop_last()
                },
                ..s
            },
            table,
        ),
        KeyCode::Enter => {
            let accepted = Session { mode: Mode::Normal, ..s };
            if s.matches.len() == 0 {
                accepted
            } else {
                navigated(Session { match_pos: None, ..accepted }, true, term_height)
            }
        },
        KeyCode::Esc => unsearched(s, Mode::Normal),
        _ => s,
    }
}

pub enum Motion {
    Down,
    Up,
    Right,
    Left,
    PageDown,
    PageUp,
    Home,
    End,
}

/// The scrolling that a key stands for.
pub open spec fn motion(code: KeyCode) -> Option<Motion> {
    match code {
        KeyCode::Down => Some(Motion::Down),
        KeyCode::Up => Some(Motion::Up),
        KeyCode::Right => Some(Motion::Right),
        KeyCode::Left => Some(Motion::Left),
        KeyCode::PageDown => Some(Motion::PageDown),
        KeyCode::PageUp => Some(Motion::PageUp),
        KeyCode::Home => Some(Motion::Home),
        KeyCode::End => Some(Motion::End),
        KeyCode::Char(c) => if c == 'j' {
            Some(Motion::Down)
        } else if c == 'k' {
            Some(Motion::Up)
        } else if c == 'l' {
            Some(Motion::Right)
        } else if c == 'h' {
            Some(Motion::Left)
        } else if c == 'g' {
            Some(Motion::Home)
        } else if c == 'G' {
            Some(Motion::End)
        } else {
            None
        },
        _ => None,
    }
}

pub open spec fn minus(a: nat, b: nat) -> nat {
    if a >= b {
        (a - b) as nat
    } else {
        0
    }
}

pub open spec fn scrolled(
    s: Session,
    total_rows: nat,
    col_widths: Seq<usize>,
    motion: Motion,
    term_width: nat,
    term_height: nat,
) -> Session {
    let page = geometry::rows_that_fit(term_height);
    let last = geometry::last_offset(total_rows, term_height);
    match motion {
        Motion::Down => Session {
            row_offset: if s.row_offset < last {
                s.row_offset + 1
            } else {
                s.row_offset
            },
            ..s
        },
        Motion::Up => Session { row_offset: minus(s.row_offset, 1), ..s },
        Motion::Right => Session {
            col_offset: if last_visible(s, total_rows, col_widths, term_width) + 1
                < col_widths.len() {
                s.col_offset + 1
            } else {
                s.col_offset
            },
            ..s
        },
        Motion::Left => Session { col_offset: minus(s.col_offset, 1), ..s },
        Motion::PageDown => Session {
            row_offset: if s.row_offset + page <= last {
                s.row_offset + page
            } else {
                last
            },
            ..s
        },
        Motion::PageUp => Session { row_offset: minus(s.row_offset, page), ..s },
        Motion::Home => Session { row_offset: 0, col_offset: 0, ..s },
        Motion::End => Session { row_offset: last, ..s },
    }
}

/// What a key does while the table is browsed.
pub open spec fn browsed(
    s: Session,
    table: reader::Table,
    col_widths: Seq<usize>,
    key: Key,
    term_width: nat,
    term_height: nat,
) -> Session {
    match motion(key.code) {
        Some(m) => scrolled(s, table.rows.len(), col_widths, m, term_width, term_height),
        None => match key.code {
            KeyCode::Char(c) => if c == '/' {
                unsearched(s, Mode::Searching)
            } else if c == 'n' {
                navigated(s, true, term_height)
            } else if c == 'N' {
                navigated(s, false, term_height)
            } else if c == '#' {
                Session { show_line_numbers: !s.show_line_numbers, ..s }
            } else {
                s
            },
            _ => s,
        },
    }
}

/// The state after a key.
pub open spec fn step(
    s: Session,
    table: reader::Table,
    col_widths: Seq<usize>,
    key: Key,
    term_width: nat,
    term_height: nat,
) -> Session {
    if s.mode == Mode::Searching {
        typed(s, table, key, term_height)
    } else {
        browsed(s, table, col_widths, key, term_width, term_height)
    }
}

// ── the operations ─────────────────────────────────────────────────────────

/// `String::pop`: takes the last character off, if there is one.
pub assume_specification[ String::pop ](s: &mut String) -> (c: Option<char>)
    ensures
        old(s)@.len() == 0 ==> c is None && final(s)@ == old(s)@,
        old(s)@.len() > 0 ==> c == Some(old(s)@.last()) && final(s)@ == old(s)@.drop_last(),
;

impl State {
    /// The focused match is one of the matches.
    pub open spec fn focus_in_range(self) -> bool {
        self.match_pos matches Some(pos) ==> pos < self.matches@.len()
    }

    pub fn new(show_line_numbers: bool) -> (state: Self)
        ensures
            state@ == initial(show_line_numbers),
    {
        State {
            row_offset: 0,
            col_offset: 0,
            show_line_numbers,
            mode: Mode::Normal,
            search_query: String::new(),
            matches: Vec::new(),
            match_pos: None,
        }
    }

    /// Find the rows that contain the query.
    pub fn update_matches(&mut self, data: &CsvData)
        ensures
            final(self)@ == searched(old(self)@, data@),
            final(self).focus_in_range(),
    {
        if self.search_query.as_str().is_empty() {
            self.matches.clear();
            self.match_pos = None;
            return;
        }
        self.matches = search::find_matches(&data.rows, self.search_query.as_str());
        // Keep match_pos valid after matches shrink.
        if let Some(pos) = self.match_pos {
            if pos >= self.matches.len() {
                self.match_pos = if self.matches.len() == 0 {
                    None
                } else {
                    Some(self.matches.len() - 1)
                };
            }
        }
    }

    /// Move to the next or previous match, scrolling row_offset to keep it visible.
    pub fn navigate_match(&mut self, forward: bool, term_height: usize)
        requires
            old(self).focus_in_range(),
        ensures
            final(self)@ == navigated(old(self)@, forward, term_height as nat),
            final(self).focus_in_range(),
    {
        if self.matches.len() == 0 {
            return;
        }
        let next_pos = match self.match_pos {
            None => if forward {
                0
            } else {
                self.matches.len() - 1
            },
            Some(pos) => if forward {
                (pos + 1) % self.matches.len()
            } else if pos == 0 {
                self.matches.len() - 1
            } else {
                pos - 1
            },
        };
        self.match_pos = Some(next_pos);
        let target_row = self.matches[next_pos];
        let vis_rows = visible_rows(term_height);
        if target_row < self.row_offset || target_row - self.row_offset >= vis_rows {
            // Center the match on screen.
            self.row_offset = target_row.saturating_sub(vis_rows / 2);
        }
    }

    fn clear_search(&mut self, mode: Mode)
        ensures
            final(self)@ == unsearched(old(self)@, mode),
    {
        self.search_query = String::new();
        self.matches.clear();
        self.match_pos = None;
        self.mode = mode;
    }

    /// A key while a query is typed.
    fn search_key(&mut self, key: Key, data: &CsvData, term_height: usize)
        ensures
            final(self)@ == typed(old(self)@, data@, key, term_height as nat),
            old(self).focus_in_range() ==> final(self).focus_in_range(),
    {
        match key.code {
            KeyCode::Char(c) => {
                if !key.ctrl {
                    self.search_query.push(c);
                    self.update_matches(data);
                }
            },
            KeyCode::Backspace => {
                self.search_query.pop();
                self.update_matches(data);
            },
            KeyCode::Enter => {
                self.mode = Mode::Normal;
                if self.matches.len() > 0 {
                    // Jump to first match from the top.
                    self.match_pos = None;
                    self.navigate_match(true, term_height);
                }
            },
            KeyCode::Esc => {
                self.clear_search(Mode::Normal);
            },
            _ => {},
        }
    }

    fn scroll_right(&mut self, data: &CsvData, layout: &TableLayout, term_width: usize)
        ensures
            final(self)@ == scrolled(
                old(self)@,
                data@.rows.len(),
                layout.col_widths@,
                Motion::Right,
                term_width as nat,
                0,
            ),
    {
        let ln_w = ln_col_width(data.rows.len(), self.show_line_numbers);
        let reserved = geometry::reserved_left(ln_w);
        let vis = VisibleCols::compute(
            layout.col_widths.as_slice(),
            self.col_offset,
            term_width,
            reserved,
        );
        proof {
            geometry::shown_columns_exist(
                layout.col_widths@,
                self.col_offset as nat,
                geometry::room(term_width as nat, reserved as nat),
            );
        }
        let ncols = layout.col_widths.len();
        let n = vis.indices.len();
        let last_visible = if n > 0 {
            vis.indices[n - 1]
        } else {
            self.col_offset
        };
        if ncols > 0 && last_visible < ncols - 1 {
            self.col_offset = self.col_offset + 1;
        }
    }

    /// A key while the table is browsed.
    fn browse_key(
        &mut self,
        key: Key,
        data: &CsvData,
        layout: &TableLayout,
        term_width: usize,
        term_height: usize,
    ) -> (flow: Flow)
        requires
            old(self).focus_in_range(),
        ensures
            quits(Mode::Normal, key) <==> flow == Flow::Quit,
            final(self)@ == browsed(
                old(self)@,
                data@,
                layout.col_widths@,
                key,
                term_width as nat,
                term_height as nat,
            ),
            final(self).focus_in_range(),
    {
        match key.code {
            KeyCode::Esc | KeyCode::Char('q') => {
                return Flow::Quit;
            },
            KeyCode::Char('c') => {
                if key.ctrl {
                    return Flow::Quit;
                }
            },
            KeyCode::Char('/') => {
                self.clear_search(Mode::Searching);
            },
            KeyCode::Char('n') => {
                self.navigate_match(true, term_height);
            },
            KeyCode::Char('N') => {
                self.navigate_match(false, term_height);
            },
            KeyCode::Char('#') => {
                self.show_line_numbers = !self.show_line_numbers;
            },
            KeyCode::Down | KeyCode::Char('j') => {
                let max = max_row_offset(data.rows.len(), term_height);
                if self.row_offset < max {
                    self.row_offset = self.row_offset + 1;
                }
            },
            KeyCode::Up | KeyCode::Char('k') => {
                self.row_offset = self.row_offset.saturating_sub(1);
            },
            KeyCode::Right | KeyCode::Char('l') => {
                self.scroll_right(data, layout, term_width);
            },
            KeyCode::Left | KeyCode::Char('h') => {
                self.col_offset = self.col_offset.saturating_sub(1);
            },
            KeyCode::PageDown => {
                let page = visible_rows(term_height);
                let max = max_row_offset(data.rows.len(), term_height);
                self.row_offset = if self.row_offset >= max || page >= max - self.row_offset {
                    max
                } else {
                    self.row_offset + page
                };
            },
            KeyCode::PageUp => {
                let page = visible_rows(term_height);
                self.row_offset = self.row_offset.saturating_sub(page);
            },
            KeyCode::Home | KeyCode::Char('g') => {
                self.row_offset = 0;
                self.col_offset = 0;
            },
            KeyCode::End | KeyCode::Char('G') => {
                self.row_offset = max_row_offset(data.rows.len(), term_height);
            },
            _ => {},
        }
        Flow::Continue
    }

    /// Does what a key stands for, on a terminal of the given size.
    pub fn handle_key(
        &mut self,
        key: Key,
        data: &CsvData,
        layout: &TableLayout,
        term_width: usize,
        term_height: usize,
    ) -> (flow: Flow)
        requires
            old(self).focus_in_range(),
        ensures
            quits(old(self).mode, key) <==> flow == Flow::Quit,
            final(self)@ == step(
                old(self)@,
                data@,
                layout.col_widths@,
                key,
                term_width as nat,
                term_height as nat,
            ),
            final(self).focus_in_range(),
    {
        match self.mode {
            Mode::Searching => {
                self.search_key(key, data, term_height);
                Flow::Continue
            },
            Mode::Normal => self.browse_key(key, data, layout, term_width, term_height),
        }
    }
}

} // verus!
