use csvcat::geometry::{ln_col_width, max_row_offset, reserved_left, visible_rows, VisibleCols};
use csvcat::text::{fit_cell, push_decimal, truncate_to_width};

fn decimal(n: u128) -> String {
    let mut s = String::new();
    push_decimal(&mut s, n);
    s
}

#[test]
fn fit_pads_short_text() {
    assert_eq!(fit_cell("ab", 5), "ab   ");
    assert_eq!(fit_cell("", 3), "   ");
}

#[test]
fn fit_keeps_text_of_the_right_width() {
    assert_eq!(fit_cell("abc", 3), "abc");
    assert_eq!(fit_cell("日本", 4), "日本");
}

#[test]
fn fit_cuts_long_text() {
    assert_eq!(fit_cell("abcdef", 4), "abc…");
    assert_eq!(fit_cell("abcdef", 1), "…");
}

#[test]
fn fit_into_no_width_is_empty() {
    assert_eq!(fit_cell("abc", 0), "");
    assert_eq!(fit_cell("", 0), "");
}

#[test]
fn fit_pads_before_a_wide_character_that_does_not_fit() {
    // Two columns each: only one fits beside the ellipsis.
    assert_eq!(fit_cell("日本語", 4), "日… ");
    assert_eq!(fit_cell("日本語", 5), "日本…");
    assert_eq!(fit_cell("日本語", 2), "… ");
}

#[test]
fn control_characters_take_no_column() {
    assert_eq!(fit_cell("a\tb", 3), "a\tb ");
    assert_eq!(fit_cell("\u{0}x", 2), "\u{0}x ");
    assert_eq!(fit_cell("\t\tabcd", 3), "\t\tab…");
}

#[test]
fn zero_width_characters_stay_with_their_base() {
    // A combining accent takes no column.
    assert_eq!(fit_cell("e\u{301}", 3), "e\u{301}  ");
    assert_eq!(fit_cell("e\u{301}fgh", 2), "e\u{301}…");
}

#[test]
fn ellipsis_and_box_characters_take_one_column() {
    assert_eq!(fit_cell("…│─", 4), "…│─ ");
}

#[test]
fn fitting_twice_is_fitting_once() {
    for s in ["", "abc", "abcdefgh", "日本語テキスト", "a\tb"] {
        for w in 0..9 {
            let once = fit_cell(s, w);
            assert_eq!(fit_cell(&once, w), once);
        }
    }
}

#[test]
fn truncation_keeps_text_that_fits() {
    assert_eq!(truncate_to_width("abc", 3), "abc");
    assert_eq!(truncate_to_width("abc", 10), "abc");
}

#[test]
fn truncation_cuts_at_a_character() {
    assert_eq!(truncate_to_width("abcdef", 4), "abcd");
    assert_eq!(truncate_to_width("日本語", 5), "日本");
    assert_eq!(truncate_to_width("日本語", 1), "");
    assert_eq!(truncate_to_width("abc", 0), "");
}

#[test]
fn truncation_keeps_trailing_zero_width_characters() {
    assert_eq!(truncate_to_width("e\u{301}fg", 1), "e\u{301}");
}

#[test]
fn decimals() {
    assert_eq!(decimal(0), "0");
    assert_eq!(decimal(7), "7");
    assert_eq!(decimal(10), "10");
    assert_eq!(decimal(1234567890), "1234567890");
    assert_eq!(decimal(u128::MAX), u128::MAX.to_string());
}

#[test]
fn rows_beside_the_frame() {
    assert_eq!(visible_rows(24), 19);
    assert_eq!(visible_rows(5), 0);
    assert_eq!(visible_rows(3), 0);
}

#[test]
fn offsets_end_at_the_last_row() {
    assert_eq!(max_row_offset(100, 24), 81);
    assert_eq!(max_row_offset(10, 24), 0);
    assert_eq!(max_row_offset(10, 4), 10);
}

#[test]
fn gutter_has_room_for_the_largest_number() {
    assert_eq!(ln_col_width(0, true), Some(1));
    assert_eq!(ln_col_width(9, true), Some(1));
    assert_eq!(ln_col_width(10, true), Some(2));
    assert_eq!(ln_col_width(99999, true), Some(5));
    assert_eq!(ln_col_width(usize::MAX, true), Some(usize::MAX.to_string().len()));
    assert_eq!(ln_col_width(42, false), None);
    assert_eq!(reserved_left(Some(2)), 5);
    assert_eq!(reserved_left(None), 0);
}

#[test]
fn all_columns_fit() {
    let vis = VisibleCols::compute(&[3, 4], 0, 80, 0);
    assert_eq!(vis.indices, vec![0, 1]);
    assert_eq!(vis.widths, vec![3, 4]);
    assert!(!vis.is_empty());
}

#[test]
fn last_column_is_clipped() {
    // 1 + (3 + 3) leaves 13 - 7 = 6: three columns of text.
    let vis = VisibleCols::compute(&[3, 10, 5], 0, 13, 0);
    assert_eq!(vis.indices, vec![0, 1]);
    assert_eq!(vis.widths, vec![3, 3]);
}

#[test]
fn too_little_room_for_another_column() {
    let vis = VisibleCols::compute(&[3, 10], 0, 10, 0);
    assert_eq!(vis.indices, vec![0]);
    assert_eq!(vis.widths, vec![3]);
}

#[test]
fn columns_start_at_the_offset() {
    let vis = VisibleCols::compute(&[3, 4, 5], 1, 80, 6);
    assert_eq!(vis.indices, vec![1, 2]);
    assert_eq!(vis.widths, vec![4, 5]);
}

#[test]
fn no_column_fits() {
    assert!(VisibleCols::compute(&[3], 0, 4, 0).is_empty());
    assert!(VisibleCols::compute(&[3], 0, 0, 0).is_empty());
    assert!(VisibleCols::compute(&[3], 0, 5, 6).is_empty());
    assert!(VisibleCols::compute(&[3], 1, 80, 0).is_empty());
    assert!(VisibleCols::compute(&[3], 7, 80, usize::MAX).is_empty());
}

#[test]
fn clipped_columns_fill_the_terminal() {
    let widths = [7, 1, 12, 3, 9];
    for term_width in 0..60 {
        let vis = VisibleCols::compute(&widths, 0, term_width, 0);
        let span: usize = vis.widths.iter().map(|w| w + 3).sum();
        if !vis.is_empty() {
            assert!(1 + span <= term_width);
        }
        if vis.widths.len() < widths.len() {
            assert!(1 + span + 4 > term_width);
        }
    }
}
