//! Reading a CSV table out of raw bytes.

use vstd::prelude::*;

verus! {

/// A table of text: a header row and data rows.
pub struct CsvData {
    pub headers: Vec<String>,
    pub rows: Vec<Vec<String>>,
}

/// The contents of a table.
pub struct Table {
    pub headers: Seq<Seq<char>>,
    pub rows: Seq<Seq<Seq<char>>>,
}

impl View for CsvData {
    type V = Table;

    open spec fn view(&self) -> Table {
        Table { headers: self.headers.deep_view(), rows: self.rows.deep_view() }
    }
}

/// Why a table could not be read.
pub enum LoadError {
    /// The header row could not be read.
    Headers(csv::Error),
    /// The data row with this number, counted from zero, could not be read.
    Row(usize, csv::Error),
}

// ── the csv crate ──────────────────────────────────────────────────────────

/// `csv::Reader`, which gives the records of a CSV text one after the other.
#[verifier::external_type_specification]
#[verifier::external_body]
#[verifier::reject_recursive_types(R)]
pub struct ExReader<R>(csv::Reader<R>);

/// `csv::StringRecord`, the fields of one record.
#[verifier::external_type_specification]
#[verifier::external_body]
pub struct ExStringRecord(csv::StringRecord);

/// `csv::Error`, which says what is wrong with a record.
#[verifier::external_type_specification]
#[verifier::external_body]
pub struct ExError(csv::Error);

/// What `csv::Reader::headers` gives for a CSV text: the fields of its first record,
/// or `None` where one of them is not UTF-8. A text without any record has no fields
/// there.
pub uninterp spec fn csv_headers(input: Seq<u8>, delimiter: u8) -> Option<Seq<Seq<char>>>;

/// What calls of `csv::Reader::read_record` give for a CSV text, one after the other
/// until there is no more: the fields of each record after the first, or `None` where
/// the record is faulty.
pub uninterp spec fn csv_rows(input: Seq<u8>, delimiter: u8) -> Seq<Option<Seq<Seq<char>>>>;

/// The header record of a reader.
pub uninterp spec fn header_row(reader: csv::Reader<&[u8]>) -> Option<Seq<Seq<char>>>;

/// The records that a reader has still to give.
pub uninterp spec fn unread_rows(reader: csv::Reader<&[u8]>) -> Seq<Option<Seq<Seq<char>>>>;

/// The fields that a record holds.
pub uninterp spec fn fields(record: csv::StringRecord) -> Seq<Seq<char>>;

/// Every record that a reader gives has as many fields as its header.
pub open spec fn rectangular(
    headers: Option<Seq<Seq<char>>>,
    rows: Seq<Option<Seq<Seq<char>>>>,
) -> bool {
    forall|i: int|
        0 <= i < rows.len() && headers is Some && (#[trigger] rows[i]) is Some ==> rows[i]->0.len()
            == headers->0.len()
}

/// `csv::ReaderBuilder::new`, `delimiter` and `from_reader`: a reader over the
/// records of `input`, of which the first is the header. The reader is not flexible:
/// a record with another number of fields than the header is faulty.
#[verifier::external_body]
fn open_reader(input: &[u8], delimiter: u8) -> (reader: csv::Reader<&[u8]>)
    ensures
        header_row(reader) == csv_headers(input@, delimiter),
        unread_rows(reader) == csv_rows(input@, delimiter),
        rectangular(header_row(reader), unread_rows(reader)),
{
    csv::ReaderBuilder::new().delimiter(delimiter).from_reader(input)
}

/// `csv::Reader::headers`: the header record. It takes nothing from the records that
/// are still to come, and fails where the header is not UTF-8.
#[verifier::external_body]
fn read_headers(reader: &mut csv::Reader<&[u8]>) -> (result: Result<csv::StringRecord, csv::Error>)
    ensures
        header_row(*final(reader)) == header_row(*old(reader)),
        unread_rows(*final(reader)) == unread_rows(*old(reader)),
        match result {
            Ok(record) => header_row(*old(reader)) == Some(fields(record)),
            Err(_) => header_row(*old(reader)) is None,
        },
{
    reader.headers().cloned()
}

/// `csv::StringRecord::new`: a record without fields.
#[verifier::external_body]
fn empty_record() -> (record: csv::StringRecord)
    ensures
        fields(record) == Seq::<Seq<char>>::empty(),
{
    csv::StringRecord::new()
}

/// `csv::Reader::read_record`: takes the next record off those that are still to
/// come. The answer is `false` where there is none, and an error where the record is
/// faulty.
#[verifier::external_body]
fn read_row(reader: &mut csv::Reader<&[u8]>, record: &mut csv::StringRecord) -> (result: Result<
    bool,
    csv::Error,
>)
    ensures
        header_row(*final(reader)) == header_row(*old(reader)),
        unread_rows(*old(reader)).len() == 0 ==> {
            &&& result is Ok
            &&& !result->Ok_0
            &&& unread_rows(*final(reader)) == unread_rows(*old(reader))
        },
        unread_rows(*old(reader)).len() > 0 ==> {
            &&& unread_rows(*final(reader)) == unread_rows(*old(reader)).drop_first()
            &&& match unread_rows(*old(reader))[0] {
                Some(row) => result is Ok && result->Ok_0 && fields(*final(record)) == row,
                None => result is Err,
            }
        },
{
    reader.read_record(record)
}

/// `csv::StringRecord::iter`: the fields of a record, in order.
#[verifier::external_body]
fn record_fields(record: &csv::StringRecord) -> (row: Vec<String>)
    ensures
        row.deep_view() == fields(*record),
{
    record.iter().map(str::to_string).collect()
}

// ── loading ────────────────────────────────────────────────────────────────

/// The table that a header and data rows without a fault make up.
pub open spec fn table_of(headers: Seq<Seq<char>>, rows: Seq<Option<Seq<Seq<char>>>>) -> Table {
    Table { headers, rows: rows.map_values(|row: Option<Seq<Seq<char>>>| row->0) }
}

/// What comes of a header and rows of which any may be faulty: the first fault ends
/// the reading.
pub open spec fn loaded(
    headers: Option<Seq<Seq<char>>>,
    rows: Seq<Option<Seq<Seq<char>>>>,
    result: Result<CsvData, LoadError>,
) -> bool {
    match result {
        Ok(data) => {
            &&& headers is Some
            &&& forall|i: int| 0 <= i < rows.len() ==> (#[trigger] rows[i]) is Some
            &&& data@ == table_of(headers->0, rows)
        },
        Err(LoadError::Headers(_)) => headers is None,
        Err(LoadError::Row(n, _)) => {
            &&& headers is Some
            &&& forall|i: int| 0 <= i < n ==> (#[trigger] rows[i]) is Some
            &&& n < rows.len()
            &&& rows[n as int] is None
        },
    }
}

/// The fields of a record that was read, or `None` if it was faulty.
pub open spec fn outcome(record: Result<Vec<String>, csv::Error>) -> Option<Seq<Seq<char>>> {
    match record {
        Ok(row) => Some(row.deep_view()),
        Err(_) => None,
    }
}

pub open spec fn outcomes(records: Seq<Result<Vec<String>, csv::Error>>) -> Seq<
    Option<Seq<Seq<char>>>,
> {
    records.map_values(|record: Result<Vec<String>, csv::Error>| outcome(record))
}

/// Makes a table of a header and rows, or fails with the first fault among them.
pub fn assemble(
    headers: Result<Vec<String>, csv::Error>,
    records: Vec<Result<Vec<String>, csv::Error>>,
) -> (result: Result<CsvData, LoadError>)
    ensures
        loaded(outcome(headers), outcomes(records@), result),
        result is Ok <==> headers is Ok && forall|i: int|
            0 <= i < records@.len() ==> (#[trigger] records@[i]) is Ok,
        result is Ok ==> {
            &&& result->Ok_0.headers.deep_view() == headers->Ok_0.deep_view()
            &&& result->Ok_0.rows@.len() == records@.len()
            &&& forall|i: int|
                0 <= i < records@.len() ==> (#[trigger] result->Ok_0.rows@[i]).deep_view()
                    == records@[i]->Ok_0.deep_view()
        },
        (result is Err && result->Err_0 is Headers) <==> headers is Err,
        result matches Err(LoadError::Row(n, _)) ==> n < records@.len() && forall|i: int|
            0 <= i < n ==> (#[trigger] records@[i]) is Ok,
        result matches Err(LoadError::Headers(err)) ==> headers == Err::<Vec<String>, csv::Error>(
            err,
        ),
        result matches Err(LoadError::Row(n, err)) ==> records@[n as int] == Err::<
            Vec<String>,
            csv::Error,
        >(err),
{
    let ghost all = outcomes(records@);
    let names = match headers {
        Ok(names) => names,
        Err(err) => {
            return Err(LoadError::Headers(err));
        },
    };
    let mut rows: Vec<Vec<String>> = Vec::new();
    for record in it: records
        invariant
            outcome(headers) == Some(names.deep_view()),
            it.seq() == records@,
            all == outcomes(records@),
            rows@.len() == it.index(),
            forall|i: int|
                0 <= i < rows@.len() ==> #[trigger] all[i] == Some(rows@[i].deep_view()),
            forall|i: int| 0 <= i < rows@.len() ==> (#[trigger] records@[i]) is Ok,
    {
        match record {
            Ok(row) => {
                rows.push(row);
            },
            Err(err) => {
                return Err(LoadError::Row(rows.len(), err));
            },
        }
    }
    let data = CsvData { headers: names, rows };
    assert(data@.rows =~= table_of(data@.headers, all).rows);
    assert forall|i: int| 0 <= i < records@.len() implies (#[trigger] records@[i]) is Ok
        && data.rows@[i].deep_view() == records@[i]->Ok_0.deep_view() by {
        assert(all[i] == outcome(records@[i]));
    }
    Ok(data)
}

/// Reads rows until there are no more, or until one is faulty.
fn read_rows(reader: &mut csv::Reader<&[u8]>) -> (records: Vec<Result<Vec<String>, csv::Error>>)
    ensures
        outcomes(records@).is_prefix_of(unread_rows(*old(reader))),
        records@.len() < unread_rows(*old(reader)).len() ==> records@.len() > 0
            && records@.last() is Err,
{
    let ghost all = unread_rows(*reader);
    // Reuse a single StringRecord allocation for all rows
    let mut record = empty_record();
    let mut records: Vec<Result<Vec<String>, csv::Error>> = Vec::new();
    loop
        invariant_except_break
            unread_rows(*reader) == all.skip(records@.len() as int),
        invariant
            outcomes(records@).is_prefix_of(all),
        ensures
            records@.len() < all.len() ==> records@.len() > 0 && records@.last() is Err,
        decreases all.len() - records@.len(),
    {
        match read_row(reader, &mut record) {
            Ok(true) => {
                records.push(Ok(record_fields(&record)));
            },
            Ok(false) => {
                break;
            },
            Err(err) => {
                records.push(Err(err));
                break;
            },
        }
    }
    records
}

/// The byte that parts fields, for a delimiter given as a character: its lowest byte.
pub fn delimiter_byte(delimiter: char) -> (byte: u8)
    ensures
        byte as nat == (delimiter as nat) % 256,
{
    ((delimiter as u32) % 256) as u8
}

/// Reads a table out of CSV text whose fields are parted by `delimiter`.
pub fn load_csv(input: &[u8], delimiter: u8) -> (result: Result<CsvData, LoadError>)
    ensures
        loaded(csv_headers(input@, delimiter), csv_rows(input@, delimiter), result),
        result is Ok <==> csv_headers(input@, delimiter) is Some && forall|i: int|
            0 <= i < csv_rows(input@, delimiter).len() ==> (#[trigger] csv_rows(
                input@,
                delimiter,
            )[i]) is Some,
        result is Ok ==> {
            let records = csv_rows(input@, delimiter);
            &&& csv_headers(input@, delimiter) == Some(result->Ok_0.headers.deep_view())
            &&& result->Ok_0.rows@.len() == records.len()
            &&& forall|i: int|
                0 <= i < records.len() ==> #[trigger] records[i] == Some(
                    result->Ok_0.rows@[i].deep_view(),
                )
        },
        (result is Err && result->Err_0 is Headers) <==> csv_headers(input@, delimiter) is None,
        result matches Err(LoadError::Row(n, _)) ==> n < csv_rows(input@, delimiter).len()
            && csv_rows(input@, delimiter)[n as int] is None && forall|i: int|
            0 <= i < n ==> (#[trigger] csv_rows(input@, delimiter)[i]) is Some,
        result matches Ok(data) ==> forall|i: int|
            0 <= i < data@.rows.len() ==> (#[trigger] data@.rows[i]).len() == data@.headers.len(),
{
    let mut reader = open_reader(input, delimiter);
    let ghost all = unread_rows(reader);
    let headers = match read_headers(&mut reader) {
        Ok(record) => record_fields(&record),
        Err(err) => {
            return assemble(Err(err), Vec::new());
        },
    };
    let records = read_rows(&mut reader);
    proof {
        let seen = outcomes(records@);
        if records@.len() < all.len() {
            assert(seen[records@.len() - 1] is None);
        } else {
            assert(seen =~= all);
        }
        assert forall|i: int| 0 <= i < seen.len() implies seen[i] == #[trigger] all[i] by {}
    }
    assemble(Ok(headers), records)
}

// ── laws ───────────────────────────────────────────────────────────────────

/// The view of a table leaves nothing out: every header, every row and every cell is
/// in it, at its place.
pub proof fn the_view_holds_every_cell(data: CsvData)
    ensures
        data@.headers.len() == data.headers@.len(),
        forall|c: int|
            0 <= c < data.headers@.len() ==> #[trigger] data@.headers[c] == data.headers@[c]@,
        data@.rows.len() == data.rows@.len(),
        forall|r: int|
            0 <= r < data.rows@.len() ==> (#[trigger] data@.rows[r]).len()
                == data.rows@[r]@.len(),
        forall|r: int, c: int|
            0 <= r < data.rows@.len() && 0 <= c < data.rows@[r]@.len()
                ==> #[trigger] data@.rows[r][c] == data.rows@[r]@[c]@,
{
}

/// A table that was loaded holds every record, in the order of the text, whatever their
/// number: row `i` is the fields of record `i`, and there are no other rows.
pub proof fn every_record_becomes_a_row(
    headers: Option<Seq<Seq<char>>>,
    rows: Seq<Option<Seq<Seq<char>>>>,
    data: CsvData,
)
    requires
        loaded(headers, rows, Ok(data)),
    ensures
        headers == Some(data.headers.deep_view()),
        data.rows@.len() == rows.len(),
        forall|i: int|
            0 <= i < rows.len() ==> #[trigger] rows[i] == Some(data.rows@[i].deep_view()),
{
    assert(data@.rows.len() == rows.len());
    assert forall|i: int| 0 <= i < rows.len() implies #[trigger] rows[i] == Some(
        data.rows@[i].deep_view(),
    ) by {
        assert(data@.rows[i] == data.rows@[i].deep_view());
    }
}

/// What a text holds decides what comes of it: two tables loaded from the same header
/// and rows agree, and what loads at one time does not fail at another.
pub proof fn loading_is_decided_by_the_records(
    headers: Option<Seq<Seq<char>>>,
    rows: Seq<Option<Seq<Seq<char>>>>,
    a: Result<CsvData, LoadError>,
    b: Result<CsvData, LoadError>,
)
    requires
        loaded(headers, rows, a),
        loaded(headers, rows, b),
    ensures
        a is Ok <==> b is Ok,
        a is Ok ==> a->Ok_0.headers.deep_view() == b->Ok_0.headers.deep_view()
            && a->Ok_0.rows.deep_view() == b->Ok_0.rows.deep_view(),
        a is Err ==> (a->Err_0 is Headers <==> b->Err_0 is Headers),
        a is Err && a->Err_0 is Row ==> a->Err_0->Row_0 == b->Err_0->Row_0,
{
    if a is Ok && b is Ok {
        every_record_becomes_a_row(headers, rows, a->Ok_0);
        every_record_becomes_a_row(headers, rows, b->Ok_0);
        let x = a->Ok_0.rows.deep_view();
        let y = b->Ok_0.rows.deep_view();
        assert forall|i: int| 0 <= i < rows.len() implies x[i] == y[i] by {
            assert(rows[i] is Some);
        }
        assert(x =~= y);
    }
}

} // verus!
