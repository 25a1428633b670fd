use csvcat::reader::{assemble, delimiter_byte, load_csv, CsvData, LoadError};
use csvcat::table::TableLayout;

fn strings(cells: &[&str]) -> Vec<String> {
    cells.iter().map(|s| s.to_string()).collect()
}

fn table(headers: &[&str], rows: &[&[&str]]) -> CsvData {
    CsvData { headers: strings(headers), rows: rows.iter().map(|r| strings(r)).collect() }
}

fn loaded(input: &[u8], delimiter: u8) -> CsvData {
    match load_csv(input, delimiter) {
        Ok(data) => data,
        Err(_) => panic!("the table is faulty"),
    }
}

#[test]
fn loads_headers_and_rows() {
    let data = loaded(b"name,age\nAda,36\nAlan,41\n", b',');
    assert_eq!(data.headers, vec!["name", "age"]);
    assert_eq!(data.rows, vec![vec!["Ada", "36"], vec!["Alan", "41"]]);
}

#[test]
fn loads_with_another_delimiter() {
    let data = loaded(b"a;b\n1,5;2\n", b';');
    assert_eq!(data.headers, vec!["a", "b"]);
    assert_eq!(data.rows, vec![vec!["1,5", "2"]]);
}

#[test]
fn loads_quoted_fields() {
    let data = loaded(b"a,b\n\"x, \"\"y\"\"\",\"two\nlines\"\n", b',');
    assert_eq!(data.rows, vec![vec!["x, \"y\"", "two\nlines"]]);
}

#[test]
fn loads_nothing_from_nothing() {
    let data = loaded(b"", b',');
    assert!(data.headers.is_empty());
    assert!(data.rows.is_empty());
}

#[test]
fn loads_headers_alone() {
    let data = loaded(b"a,b,c", b',');
    assert_eq!(data.headers, vec!["a", "b", "c"]);
    assert!(data.rows.is_empty());
}

#[test]
fn rejects_rows_of_another_length() {
    match load_csv(b"a,b\n1,2\n3\n4,5\n", b',') {
        Err(LoadError::Row(n, err)) => {
            assert_eq!(n, 1);
            assert!(matches!(err.kind(), csv::ErrorKind::UnequalLengths { expected_len: 2, len: 1, .. }));
        }
        _ => panic!("the short row was accepted"),
    }
}

#[test]
fn rejects_rows_that_are_not_utf8() {
    match load_csv(b"a\nok\n\xff\n", b',') {
        Err(LoadError::Row(n, err)) => {
            assert_eq!(n, 1);
            assert!(matches!(err.kind(), csv::ErrorKind::Utf8 { .. }));
        }
        _ => panic!("the row was accepted"),
    }
}

#[test]
fn rejects_headers_that_are_not_utf8() {
    match load_csv(b"\xff,b\n1,2\n", b',') {
        Err(LoadError::Headers(err)) => {
            assert!(matches!(err.kind(), csv::ErrorKind::Utf8 { .. }));
        }
        _ => panic!("the headers were accepted"),
    }
}

#[test]
fn every_row_has_as_many_fields_as_the_header() {
    let data = loaded(b"a,b,c\n1,,3\n,,\n\"\",x,y\n", b',');
    assert_eq!(data.rows.len(), 3);
    for row in &data.rows {
        assert_eq!(row.len(), data.headers.len());
    }
}

#[test]
fn assembles_rows_without_a_fault() {
    match assemble(Ok(strings(&["a"])), vec![Ok(strings(&["1"])), Ok(strings(&["2"]))]) {
        Ok(data) => {
            assert_eq!(data.headers, vec!["a"]);
            assert_eq!(data.rows, vec![vec!["1"], vec!["2"]]);
        }
        Err(_) => panic!("there is no fault"),
    }
}

#[test]
fn delimiters_are_single_bytes() {
    assert_eq!(delimiter_byte(','), b',');
    assert_eq!(delimiter_byte('\t'), b'\t');
    assert_eq!(delimiter_byte('é'), 0xe9);
    // U+2192: only the lowest byte counts.
    assert_eq!(delimiter_byte('→'), 0x92);
}

#[test]
fn columns_are_as_wide_as_their_widest_text() {
    let data = table(&["id", "name"], &[&["1", "Ada"], &["1234", "x"]]);
    assert_eq!(TableLayout::compute(&data, 40).col_widths, vec![4, 4]);
}

#[test]
fn column_widths_are_capped() {
    let data = table(&["id", "a long header"], &[&["123456789", "x"]]);
    assert_eq!(TableLayout::compute(&data, 5).col_widths, vec![5, 5]);
}

#[test]
fn columns_are_never_empty() {
    let data = table(&["", "a"], &[&["", "b"]]);
    assert_eq!(TableLayout::compute(&data, 40).col_widths, vec![1, 1]);
    assert_eq!(TableLayout::compute(&data, 0).col_widths, vec![1, 1]);
}

#[test]
fn wide_characters_count_double() {
    let data = table(&["x"], &[&["日本語"]]);
    assert_eq!(TableLayout::compute(&data, 40).col_widths, vec![6]);
}

#[test]
fn cells_beyond_the_headers_do_not_count() {
    let data = table(&["a", "b"], &[&["1"], &["1", "22", "333"]]);
    assert_eq!(TableLayout::compute(&data, 40).col_widths, vec![1, 2]);
}
