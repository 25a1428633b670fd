use csvcat::reader::CsvData;
use csvcat::search::{contains_row, find_matches};
use csvcat::state::{Flow, Key, KeyCode, Mode, State};
use csvcat::table::TableLayout;

fn strings(cells: &[&str]) -> Vec<String> {
    cells.iter().map(|s| s.to_string()).collect()
}

/// A table of `n` rows with two columns. Every tenth row names a fruit.
fn numbered_table(n: usize) -> CsvData {
    let rows = (0..n)
        .map(|i| {
            let name = if i % 10 == 0 { "Apple" } else { "stone" };
            vec![i.to_string(), name.to_string()]
        })
        .collect();
    CsvData { headers: strings(&["id", "name"]), rows }
}

fn key(code: KeyCode) -> Key {
    Key { code, ctrl: false }
}

fn press(state: &mut State, data: &CsvData, code: KeyCode) -> Flow {
    let layout = TableLayout::compute(data, 40);
    state.handle_key(key(code), data, &layout, 80, 24)
}

fn type_text(state: &mut State, data: &CsvData, s: &str) {
    for c in s.chars() {
        assert_eq!(press(state, data, KeyCode::Char(c)), Flow::Continue);
    }
}

#[test]
fn starts_at_the_top() {
    let state = State::new(true);
    assert_eq!((state.row_offset, state.col_offset), (0, 0));
    assert!(state.show_line_numbers);
    assert_eq!(state.mode, Mode::Normal);
    assert_eq!(state.search_query, "");
    assert!(state.matches.is_empty());
    assert_eq!(state.match_pos, None);
}

#[test]
fn quit_keys() {
    let data = numbered_table(5);
    assert_eq!(press(&mut State::new(false), &data, KeyCode::Char('q')), Flow::Quit);
    assert_eq!(press(&mut State::new(false), &data, KeyCode::Esc), Flow::Quit);
    assert_eq!(press(&mut State::new(false), &data, KeyCode::Char('c')), Flow::Continue);
    let layout = TableLayout::compute(&data, 40);
    let ctrl_c = Key { code: KeyCode::Char('c'), ctrl: true };
    assert_eq!(State::new(false).handle_key(ctrl_c, &data, &layout, 80, 24), Flow::Quit);
}

#[test]
fn no_key_quits_while_typing() {
    let data = numbered_table(5);
    let layout = TableLayout::compute(&data, 40);
    let mut state = State::new(false);
    press(&mut state, &data, KeyCode::Char('/'));
    let ctrl_c = Key { code: KeyCode::Char('c'), ctrl: true };
    assert_eq!(state.handle_key(ctrl_c, &data, &layout, 80, 24), Flow::Continue);
    assert_eq!(state.search_query, "");
    assert_eq!(press(&mut state, &data, KeyCode::Char('q')), Flow::Continue);
    assert_eq!(state.search_query, "q");
    assert_eq!(press(&mut state, &data, KeyCode::Esc), Flow::Continue);
    assert_eq!(state.mode, Mode::Normal);
}

#[test]
fn down_and_up() {
    let data = numbered_table(100);
    let mut state = State::new(false);
    press(&mut state, &data, KeyCode::Down);
    press(&mut state, &data, KeyCode::Char('j'));
    assert_eq!(state.row_offset, 2);
    press(&mut state, &data, KeyCode::Up);
    assert_eq!(state.row_offset, 1);
    press(&mut state, &data, KeyCode::Char('k'));
    press(&mut state, &data, KeyCode::Char('k'));
    assert_eq!(state.row_offset, 0);
}

#[test]
fn down_stops_at_the_last_row() {
    let data = numbered_table(20);
    let mut state = State::new(false);
    for _ in 0..5 {
        press(&mut state, &data, KeyCode::Down);
    }
    // 19 rows fit on 24 lines.
    assert_eq!(state.row_offset, 1);
}

#[test]
fn pages() {
    let data = numbered_table(100);
    let mut state = State::new(false);
    press(&mut state, &data, KeyCode::PageDown);
    assert_eq!(state.row_offset, 19);
    for _ in 0..10 {
        press(&mut state, &data, KeyCode::PageDown);
    }
    assert_eq!(state.row_offset, 81);
    press(&mut state, &data, KeyCode::PageUp);
    assert_eq!(state.row_offset, 62);
    for _ in 0..10 {
        press(&mut state, &data, KeyCode::PageUp);
    }
    assert_eq!(state.row_offset, 0);
}

#[test]
fn home_and_end() {
    let data = numbered_table(100);
    let mut state = State::new(false);
    press(&mut state, &data, KeyCode::End);
    assert_eq!(state.row_offset, 81);
    state.col_offset = 1;
    press(&mut state, &data, KeyCode::Home);
    assert_eq!((state.row_offset, state.col_offset), (0, 0));
    press(&mut state, &data, KeyCode::Char('G'));
    assert_eq!(state.row_offset, 81);
    press(&mut state, &data, KeyCode::Char('g'));
    assert_eq!(state.row_offset, 0);
}

#[test]
fn right_stops_once_the_last_column_shows() {
    let data = CsvData {
        headers: strings(&["aaaaaaaaaa", "bbbbbbbbbb", "cccccccccc"]),
        rows: vec![],
    };
    let layout = TableLayout::compute(&data, 40);
    let mut state = State::new(false);
    // One full column and a clipped one fit.
    state.handle_key(key(KeyCode::Right), &data, &layout, 20, 24);
    assert_eq!(state.col_offset, 1);
    state.handle_key(key(KeyCode::Char('l')), &data, &layout, 20, 24);
    assert_eq!(state.col_offset, 1);
    state.handle_key(key(KeyCode::Left), &data, &layout, 20, 24);
    assert_eq!(state.col_offset, 0);
    state.handle_key(key(KeyCode::Char('h')), &data, &layout, 20, 24);
    assert_eq!(state.col_offset, 0);
}

#[test]
fn right_moves_on_where_nothing_fits() {
    let data = CsvData { headers: strings(&["a", "b"]), rows: vec![] };
    let layout = TableLayout::compute(&data, 40);
    let mut state = State::new(false);
    state.handle_key(key(KeyCode::Right), &data, &layout, 2, 24);
    assert_eq!(state.col_offset, 1);
    state.handle_key(key(KeyCode::Right), &data, &layout, 2, 24);
    assert_eq!(state.col_offset, 1);
}

#[test]
fn hash_toggles_line_numbers() {
    let data = numbered_table(3);
    let mut state = State::new(false);
    press(&mut state, &data, KeyCode::Char('#'));
    assert!(state.show_line_numbers);
    press(&mut state, &data, KeyCode::Char('#'));
    assert!(!state.show_line_numbers);
}

#[test]
fn search_ignores_case() {
    let rows = vec![strings(&["One", "two"]), strings(&["ONES"]), strings(&["three"])];
    assert_eq!(find_matches(&rows, "one"), vec![0, 1]);
    assert_eq!(find_matches(&rows, "oNe"), vec![0, 1]);
    assert_eq!(find_matches(&rows, "T"), vec![0, 2]);
    assert_eq!(find_matches(&rows, "four"), Vec::<usize>::new());
}

#[test]
fn search_ignores_case_beyond_ascii() {
    let rows = vec![strings(&["ÉCOLE"]), strings(&["école"]), strings(&["ecole"])];
    assert_eq!(find_matches(&rows, "École"), vec![0, 1]);
}

#[test]
fn search_does_not_join_cells() {
    let rows = vec![strings(&["ab", "cd"])];
    assert_eq!(find_matches(&rows, "bc"), Vec::<usize>::new());
    assert_eq!(find_matches(&rows, "cd"), vec![0]);
}

#[test]
fn row_membership() {
    let rows = vec![1, 4, 9, 16];
    for r in 0..20 {
        assert_eq!(contains_row(&rows, r), rows.contains(&r));
    }
    assert!(!contains_row(&vec![], 0));
}

#[test]
fn typing_searches_at_once() {
    let data = numbered_table(100);
    let mut state = State::new(false);
    press(&mut state, &data, KeyCode::Char('/'));
    assert_eq!(state.mode, Mode::Searching);
    type_text(&mut state, &data, "aP");
    assert_eq!(state.matches, vec![0, 10, 20, 30, 40, 50, 60, 70, 80, 90]);
    assert_eq!(state.match_pos, None);
    assert_eq!(state.row_offset, 0);
}

#[test]
fn typing_on_narrows() {
    let data = numbered_table(100);
    let mut state = State::new(false);
    press(&mut state, &data, KeyCode::Char('/'));
    type_text(&mut state, &data, "9");
    let wide = state.matches.clone();
    type_text(&mut state, &data, "1");
    assert_eq!(state.matches, vec![91]);
    assert!(state.matches.iter().all(|r| wide.contains(r)));
}

#[test]
fn backspace_takes_a_character_back() {
    let data = numbered_table(100);
    let mut state = State::new(false);
    press(&mut state, &data, KeyCode::Char('/'));
    type_text(&mut state, &data, "9");
    let before = state.matches.clone();
    type_text(&mut state, &data, "9");
    assert_eq!(state.matches, vec![99]);
    press(&mut state, &data, KeyCode::Backspace);
    assert_eq!(state.search_query, "9");
    assert_eq!(state.matches, before);
    press(&mut state, &data, KeyCode::Backspace);
    assert_eq!(state.search_query, "");
    assert!(state.matches.is_empty());
    press(&mut state, &data, KeyCode::Backspace);
    assert_eq!(state.search_query, "");
}

#[test]
fn enter_goes_to_the_first_match() {
    let data = numbered_table(100);
    let mut state = State::new(false);
    press(&mut state, &data, KeyCode::Char('/'));
    type_text(&mut state, &data, "55");
    press(&mut state, &data, KeyCode::Enter);
    assert_eq!(state.mode, Mode::Normal);
    assert_eq!(state.match_pos, Some(0));
    assert_eq!(state.search_query, "55");
    // 19 rows fit: row 55 is centered.
    assert_eq!(state.row_offset, 46);
}

#[test]
fn enter_without_a_match_stays() {
    let data = numbered_table(100);
    let mut state = State::new(false);
    press(&mut state, &data, KeyCode::Char('/'));
    type_text(&mut state, &data, "zzz");
    press(&mut state, &data, KeyCode::Enter);
    assert_eq!(state.mode, Mode::Normal);
    assert_eq!(state.match_pos, None);
    assert_eq!(state.row_offset, 0);
}

#[test]
fn escape_gives_the_search_up() {
    let data = numbered_table(100);
    let mut state = State::new(false);
    press(&mut state, &data, KeyCode::PageDown);
    press(&mut state, &data, KeyCode::Char('/'));
    type_text(&mut state, &data, "apple");
    press(&mut state, &data, KeyCode::Esc);
    assert_eq!(state.mode, Mode::Normal);
    assert_eq!(state.search_query, "");
    assert!(state.matches.is_empty());
    assert_eq!(state.match_pos, None);
    assert_eq!(state.row_offset, 19);
}

#[test]
fn next_and_previous_go_in_a_circle() {
    let data = numbered_table(30);
    let mut state = State::new(false);
    press(&mut state, &data, KeyCode::Char('/'));
    type_text(&mut state, &data, "apple");
    press(&mut state, &data, KeyCode::Enter);
    assert_eq!(state.match_pos, Some(0));
    press(&mut state, &data, KeyCode::Char('n'));
    assert_eq!(state.match_pos, Some(1));
    press(&mut state, &data, KeyCode::Char('N'));
    assert_eq!(state.match_pos, Some(0));
    press(&mut state, &data, KeyCode::Char('N'));
    assert_eq!(state.match_pos, Some(2));
    press(&mut state, &data, KeyCode::Char('n'));
    assert_eq!(state.match_pos, Some(0));
}

#[test]
fn navigation_without_focus_starts_at_an_end() {
    let mut state = State::new(false);
    state.matches = vec![3, 5, 8];
    state.navigate_match(true, 24);
    assert_eq!(state.match_pos, Some(0));
    state.match_pos = None;
    state.navigate_match(false, 24);
    assert_eq!(state.match_pos, Some(2));
    state.matches.clear();
    state.match_pos = None;
    state.navigate_match(true, 24);
    assert_eq!(state.match_pos, None);
}

#[test]
fn a_focused_match_is_on_screen() {
    for height in 6..40 {
        let mut state = State::new(false);
        state.matches = vec![0, 3, 17, 18, 60, 99];
        for forward in [true, true, true, false, true, true, true, true, true, false, false] {
            state.navigate_match(forward, height);
            let row = state.matches[state.match_pos.unwrap()];
            assert!(state.row_offset <= row && row < state.row_offset + height - 5);
        }
    }
}

#[test]
fn focus_stays_valid_when_matches_shrink() {
    let data = numbered_table(100);
    let mut state = State::new(false);
    state.search_query = "9".to_string();
    state.update_matches(&data);
    state.match_pos = Some(15);
    state.search_query = "99".to_string();
    state.update_matches(&data);
    assert_eq!(state.match_pos, Some(0));
    state.search_query = "nowhere".to_string();
    state.update_matches(&data);
    assert_eq!(state.match_pos, None);
    state.match_pos = Some(3);
    state.search_query = String::new();
    state.update_matches(&data);
    assert_eq!(state.match_pos, None);
}

#[test]
fn sessions_stay_within_the_table() {
    let data = numbered_table(37);
    let layout = TableLayout::compute(&data, 40);
    let codes = [
        KeyCode::End,
        KeyCode::Char('/'),
        KeyCode::Char('3'),
        KeyCode::Enter,
        KeyCode::PageDown,
        KeyCode::Char('n'),
        KeyCode::Down,
        KeyCode::Right,
        KeyCode::Char('#'),
        KeyCode::Other,
        KeyCode::Char('N'),
        KeyCode::PageUp,
    ];
    let mut state = State::new(false);
    for i in 0..400 {
        let (width, height) = ((i * 7) % 50, (i * 5) % 30);
        state.handle_key(key(codes[(i * i + i / 3) % codes.len()]), &data, &layout, width, height);
        assert!(state.row_offset <= data.rows.len());
        assert!(state.col_offset < data.headers.len());
        if let Some(pos) = state.match_pos {
            assert!(pos < state.matches.len());
        }
    }
}
