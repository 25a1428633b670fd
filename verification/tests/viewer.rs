use csvcat::canvas::{Attribute, Canvas, Color, Control, Draw};
use csvcat::geometry::VisibleCols;
use csvcat::reader::CsvData;
use csvcat::render::{
    render_bot_border, render_data_row, render_empty_row, render_header_row, render_mid_border,
    render_top_border,
};
use csvcat::state::{Mode, State};
use csvcat::table::TableLayout;
use csvcat::viewer::{clear_on_resize, nothing_fits, print_table, render_frame, render_status_bar, status_line};

fn strings(cells: &[&str]) -> Vec<String> {
    cells.iter().map(|s| s.to_string()).collect()
}

fn people() -> CsvData {
    CsvData {
        headers: strings(&["id", "name"]),
        rows: vec![strings(&["1", "Ada"]), strings(&["2", "Grace Hopper"]), strings(&["3"])],
    }
}

/// The text alone, without commands.
fn text_of(steps: &[Draw<String>]) -> String {
    let mut s = String::new();
    for step in steps {
        if let Draw::Text(t) = step {
            s.push_str(t);
        }
    }
    s
}

fn controls_of(steps: &[Draw<String>]) -> Vec<Control> {
    let mut found = Vec::new();
    for step in steps {
        if let Draw::Control(c) = step {
            found.push(*c);
        }
    }
    found
}

fn vis(indices: &[usize], widths: &[usize]) -> VisibleCols {
    VisibleCols { indices: indices.to_vec(), widths: widths.to_vec() }
}

fn text(s: &str) -> Draw<String> {
    Draw::Text(s.to_string())
}

fn frame(data: &CsvData, state: &State, width: usize, height: usize) -> Vec<Draw<String>> {
    let layout = TableLayout::compute(data, 40);
    let mut out = Canvas::new();
    render_frame(data, &layout, &mut out, state, width, height, true);
    out.finish()
}

#[test]
fn canvas_joins_text() {
    let mut out = Canvas::new();
    out.put('a');
    out.write("bc");
    out.repeat('-', 3);
    out.control(Control::ResetColor);
    out.control(Control::HideCursor);
    out.write("d");
    assert_eq!(
        out.finish(),
        vec![
            text("abc---"),
            Draw::Control(Control::ResetColor),
            Draw::Control(Control::HideCursor),
            text("d"),
        ]
    );
    assert!(Canvas::new().finish().is_empty());
}

#[test]
fn borders_with_columns() {
    let mut out = Canvas::new();
    let v = vis(&[0, 1], &[1, 3]);
    render_top_border(&mut out, &v, None);
    render_mid_border(&mut out, &v, None);
    render_bot_border(&mut out, &v, None);
    assert_eq!(out.finish(), vec![text("┌───┬─────┐\r\n├───┼─────┤\r\n└───┴─────┘\r\n")]);
}

#[test]
fn borders_with_a_gutter() {
    let mut out = Canvas::new();
    let v = vis(&[0], &[2]);
    render_top_border(&mut out, &v, Some(1));
    render_mid_border(&mut out, &v, Some(1));
    render_bot_border(&mut out, &v, Some(1));
    assert_eq!(text_of(&out.finish()), "┌───┬────┐\r\n├───┼────┤\r\n└───┴────┘\r\n");
}

#[test]
fn borders_with_a_gutter_alone() {
    let mut out = Canvas::new();
    let v = vis(&[], &[]);
    render_top_border(&mut out, &v, Some(2));
    render_mid_border(&mut out, &v, Some(2));
    render_bot_border(&mut out, &v, Some(2));
    assert_eq!(text_of(&out.finish()), "┌────┐\r\n├────┤\r\n└────┘\r\n");
}

#[test]
fn header_row() {
    let mut out = Canvas::new();
    render_header_row(&mut out, &strings(&["id", "name"]), &vis(&[1, 5], &[6, 1]), Some(2));
    assert_eq!(
        out.finish(),
        vec![
            text("│"),
            Draw::Control(Control::SetAttribute(Attribute::Bold)),
            Draw::Control(Control::SetForeground(Color::DarkGrey)),
            text(" #  "),
            Draw::Control(Control::SetAttribute(Attribute::Reset)),
            text("│"),
            Draw::Control(Control::SetAttribute(Attribute::Bold)),
            Draw::Control(Control::SetForeground(Color::Cyan)),
            text(" name   "),
            Draw::Control(Control::SetAttribute(Attribute::Reset)),
            text("│"),
            Draw::Control(Control::SetAttribute(Attribute::Bold)),
            Draw::Control(Control::SetForeground(Color::Cyan)),
            text("   "),
            Draw::Control(Control::SetAttribute(Attribute::Reset)),
            text("│\r\n"),
        ]
    );
}

#[test]
fn data_row() {
    let mut out = Canvas::new();
    let row = strings(&["abcdef", "x"]);
    render_data_row(&mut out, &row, &vis(&[0, 1], &[4, 2]), 0, true, Some(3), 42, false, false);
    assert_eq!(
        out.finish(),
        vec![
            text("│"),
            Draw::Control(Control::SetAttribute(Attribute::Dim)),
            Draw::Control(Control::SetForeground(Color::DarkGrey)),
            text("  42 "),
            Draw::Control(Control::SetAttribute(Attribute::NormalIntensity)),
            Draw::Control(Control::SetForeground(Color::Reset)),
            text("│ abc… │ x  │\r\n"),
        ]
    );
}

#[test]
fn line_numbers_are_never_cut() {
    let mut out = Canvas::new();
    render_data_row(&mut out, &vec![], &vis(&[], &[]), 0, false, Some(1), 123, false, false);
    assert_eq!(text_of(&out.finish()), "│ 123 │\r\n");
}

fn row_controls(display_idx: usize, zebra: bool, is_match: bool, is_current: bool) -> Vec<Control> {
    let mut out = Canvas::new();
    let row = strings(&["a"]);
    render_data_row(&mut out, &row, &vis(&[0], &[1]), display_idx, zebra, None, 1, is_match, is_current);
    controls_of(&out.finish())
}

#[test]
fn row_backgrounds() {
    assert_eq!(row_controls(0, true, false, false), vec![]);
    assert_eq!(row_controls(1, true, false, false), vec![Control::SetBackground(236), Control::ResetColor]);
    assert_eq!(row_controls(1, false, false, false), vec![]);
    assert_eq!(row_controls(1, true, true, false), vec![Control::SetBackground(58), Control::ResetColor]);
    assert_eq!(row_controls(0, false, true, true), vec![Control::SetBackground(136), Control::ResetColor]);
    assert_eq!(row_controls(0, false, false, true), vec![Control::SetBackground(136), Control::ResetColor]);
}

#[test]
fn empty_row() {
    let mut out = Canvas::new();
    render_empty_row(&mut out, &vis(&[0, 1], &[1, 2]), 1, true, Some(2));
    assert_eq!(
        out.finish(),
        vec![
            Draw::Control(Control::SetBackground(236)),
            text("│    │   │    │"),
            Draw::Control(Control::ResetColor),
            text("\r\n"),
        ]
    );
}

#[test]
fn prints_the_whole_table() {
    let steps = print_table(&people(), 40, true, false, 80);
    assert_eq!(
        text_of(&steps),
        "┌────┬──────────────┐\r\n\
         │ id │ name         │\r\n\
         ├────┼──────────────┤\r\n\
         │ 1  │ Ada          │\r\n\
         │ 2  │ Grace Hopper │\r\n\
         │ 3  │              │\r\n\
         └────┴──────────────┘\r\n"
    );
}

#[test]
fn prints_line_numbers() {
    let steps = print_table(&people(), 5, false, true, 80);
    assert_eq!(
        text_of(&steps),
        "┌───┬────┬───────┐\r\n\
         │ # │ id │ name  │\r\n\
         ├───┼────┼───────┤\r\n\
         │ 1 │ 1  │ Ada   │\r\n\
         │ 2 │ 2  │ Grac… │\r\n\
         │ 3 │ 3  │       │\r\n\
         └───┴────┴───────┘\r\n"
    );
}

#[test]
fn prints_nothing_where_nothing_fits() {
    assert!(print_table(&people(), 40, true, false, 3).is_empty());
    let none = CsvData { headers: vec![], rows: vec![] };
    assert!(print_table(&none, 40, true, false, 80).is_empty());
}

#[test]
fn prints_the_gutter_alone_where_no_column_fits() {
    let steps = print_table(&people(), 40, true, true, 3);
    assert_eq!(text_of(&steps), "┌───┐\r\n│ # │\r\n├───┤\r\n│ 1 │\r\n│ 2 │\r\n│ 3 │\r\n└───┘\r\n");
}

#[test]
fn frame_shows_the_table_and_fills_the_screen() {
    let steps = frame(&people(), &State::new(false), 40, 10);
    let s = text_of(&steps);
    assert!(s.starts_with(
        "┌────┬──────────────┐\r\n\
         │ id │ name         │\r\n\
         ├────┼──────────────┤\r\n\
         │ 1  │ Ada          │\r\n\
         │ 2  │ Grace Hopper │\r\n\
         │ 3  │              │\r\n\
         │    │              │\r\n\
         │    │              │\r\n\
         └────┴──────────────┘\r\n"
    ));
    assert_eq!(s.matches('\n').count() + 1, 10);
    assert_eq!(steps[0], Draw::Control(Control::HideCursor));
    assert_eq!(steps[1], Draw::Control(Control::MoveTo(0, 0)));
    assert!(controls_of(&steps).contains(&Control::MoveTo(0, 9)));
}

#[test]
fn frame_lines_have_equal_widths() {
    let data = CsvData {
        headers: strings(&["名前", "b\tc", "long long header"]),
        rows: vec![strings(&["日本語テキスト", "x", "e\u{301}"]), strings(&["a", "", "yy"])],
    };
    for width in 8..60 {
        for show in [false, true] {
            let s = text_of(&frame(&data, &State::new(show), width, 9));
            let lines: Vec<&str> = s.split("\r\n").collect();
            let spans: Vec<usize> = lines[..8]
                .iter()
                .map(|l| unicode_width::UnicodeWidthStr::width(*l))
                .collect();
            assert!(spans.iter().all(|w| *w == spans[0]));
            assert!(spans[0] <= width);
        }
    }
}

#[test]
fn frame_without_anything_to_show() {
    let steps = frame(&people(), &State::new(false), 3, 10);
    assert_eq!(
        steps,
        vec![Draw::Control(Control::HideCursor), Draw::Control(Control::MoveTo(0, 0))]
    );
}

#[test]
fn narrow_terminals_show_nothing() {
    let data = people();
    let layout = TableLayout::compute(&data, 40);
    assert!(nothing_fits(&data, &layout, &State::new(false), 4));
    assert!(!nothing_fits(&data, &layout, &State::new(false), 5));
    assert!(!nothing_fits(&data, &layout, &State::new(true), 0));
}

#[test]
fn frame_from_an_offset() {
    let mut state = State::new(true);
    state.row_offset = 1;
    state.col_offset = 1;
    let s = text_of(&frame(&people(), &state, 40, 7));
    assert!(s.starts_with(
        "┌───┬──────────────┐\r\n\
         │ # │ name         │\r\n\
         ├───┼──────────────┤\r\n\
         │ 2 │ Grace Hopper │\r\n\
         │ 3 │              │\r\n\
         └───┴──────────────┘\r\n Rows 2-3/3 │ Cols 2-2/2 │"
    ));
}

#[test]
fn frame_highlights_matches() {
    let data = people();
    let mut state = State::new(false);
    state.search_query = "a".to_string();
    state.update_matches(&data);
    assert_eq!(state.matches, vec![0, 1]);
    state.match_pos = Some(1);
    let steps = frame(&data, &state, 40, 8);
    let backgrounds: Vec<Control> = controls_of(&steps)
        .into_iter()
        .filter(|c| matches!(c, Control::SetBackground(_)))
        .collect();
    assert_eq!(backgrounds, vec![Control::SetBackground(58), Control::SetBackground(136)]);
}

#[test]
fn frame_shows_the_cursor_while_typing() {
    let mut state = State::new(false);
    state.mode = Mode::Searching;
    state.search_query = "日x".to_string();
    let steps = frame(&people(), &state, 40, 10);
    assert_eq!(steps[0], Draw::Control(Control::ShowCursor));
    let n = steps.len();
    assert_eq!(
        steps[n - 5..],
        [
            Draw::Control(Control::MoveTo(0, 9)),
            Draw::Control(Control::SetAttribute(Attribute::Reset)),
            text("/日x"),
            Draw::Control(Control::ClearUntilNewLine),
            Draw::Control(Control::MoveTo(4, 9)),
        ]
    );
}

#[test]
fn long_queries_are_clipped() {
    let mut state = State::new(false);
    state.mode = Mode::Searching;
    state.search_query = "abcdefgh".to_string();
    let mut out = Canvas::new();
    render_status_bar(&mut out, &people(), &state, &vis(&[0], &[2]), 6, 3);
    assert_eq!(text_of(&out.finish()), "/abcd");
}

#[test]
fn status_line_text() {
    let data = people();
    let mut state = State::new(false);
    assert_eq!(
        status_line(&data, &state, 2, 24),
        " Rows 1-3/3 │ Cols 1-2/2 │ hjkl/arrows │ PgUp/Dn │ g/G │ / search │ n/N │ # show-ln │ q "
    );
    state.show_line_numbers = true;
    state.search_query = "a".to_string();
    state.matches = vec![0, 1];
    assert_eq!(
        status_line(&data, &state, 1, 6),
        " Rows 1-1/3 │ Cols 1-1/2 │ /a (0/2) │ hjkl/arrows │ PgUp/Dn │ g/G │ / search │ n/N │ # hide-ln │ q "
    );
    state.match_pos = Some(1);
    let none = CsvData { headers: vec![], rows: vec![] };
    assert!(status_line(&none, &state, 0, 24).starts_with(" Rows 0-0/0 │ Cols 1-0/0 │ /a (2/2) │"));
}

#[test]
fn status_bar_fills_the_width() {
    for width in [0, 1, 5, 30, 95, 120] {
        let mut out = Canvas::new();
        render_status_bar(&mut out, &people(), &State::new(false), &vis(&[0], &[2]), width, 3);
        let steps = out.finish();
        assert_eq!(text_of(&steps).chars().count(), width);
        assert_eq!(
            controls_of(&steps),
            vec![
                Control::MoveTo(0, 2),
                Control::SetAttribute(Attribute::Reverse),
                Control::SetAttribute(Attribute::Bold),
                Control::SetAttribute(Attribute::Reset),
            ]
        );
    }
}

#[test]
fn screen_is_cleared_when_its_size_changes() {
    let mut out = Canvas::new();
    assert_eq!(clear_on_resize(&mut out, (0, 0), (80, 24)), (80, 24));
    assert_eq!(clear_on_resize(&mut out, (80, 24), (80, 24)), (80, 24));
    assert_eq!(clear_on_resize(&mut out, (80, 24), (80, 25)), (80, 25));
    assert_eq!(
        out.finish(),
        vec![Draw::Control(Control::ClearAll), Draw::Control(Control::ClearAll)]
    );
}
