//! Delimited text through the `csv` crate: reading a header and records
//! from bytes, and writing rows as CSV.
use vstd::prelude::*;
use crate::text::views;

verus! {

/// The header and the first `limit` records that `csv` reads from the bytes
/// with the given delimiter, records allowed to differ in length (a
/// `ReaderBuilder` with `flexible(true)`), each record's fields as text; or
/// `None` where the header or one of those records fails to read.
pub uninterp spec fn csv_table(bytes: Seq<u8>, delimiter: u8, limit: nat) -> Option<
    (Seq<Seq<char>>, Seq<Seq<Seq<char>>>),
>;

/// The texts of rows.
pub open spec fn rows_text(rows: Seq<Vec<String>>) -> Seq<Seq<Seq<char>>> {
    rows.map_values(|row: Vec<String>| views(row@))
}

/// `ReaderBuilder::new().delimiter(delimiter).flexible(true)` over the bytes:
/// the header and at most `limit` records, each field as a `String`; `None`
/// where reading fails.
#[verifier::external_body]
pub fn csv_read(bytes: &[u8], delimiter: u8, limit: usize) -> (r: Option<(Vec<String>, Vec<Vec<String>>)>)
    ensures
        match r {
            Some((h, rs)) => csv_table(bytes@, delimiter, limit as nat) == Some((views(h@), rows_text(rs@)))
                && rs@.len() <= limit,
            None => csv_table(bytes@, delimiter, limit as nat) is None,
        },
{
    let mut reader = ::csv::ReaderBuilder::new().delimiter(delimiter).flexible(true).from_reader(bytes);
    let headers: Vec<String> = reader.headers().ok()?.iter().map(|f| f.to_string()).collect();
    let mut rows: Vec<Vec<String>> = Vec::new();
    for record in reader.records().take(limit) {
        rows.push(record.ok()?.iter().map(|f| f.to_string()).collect());
    }
    Some((headers, rows))
}

/// The bytes that a default `csv::Writer` writes for the rows, one record
/// per row; `None` where it refuses them.
pub uninterp spec fn csv_text(rows: Seq<Seq<Seq<char>>>) -> Option<Seq<u8>>;

/// All rows have the same number of fields.
pub open spec fn same_lengths(rows: Seq<Seq<Seq<char>>>) -> bool {
    forall|i: int, j: int| 0 <= i < rows.len() && 0 <= j < rows.len() ==> #[trigger] rows[i].len()
        == #[trigger] rows[j].len()
}

/// `csv::Writer::from_writer(Vec::new())`, each row written with
/// `write_record`, then `into_inner`. The writer refuses a record whose
/// length differs from the first record's; writing into memory does not
/// otherwise fail, so rows of one length are always written.
#[verifier::external_body]
pub fn csv_write(rows: &Vec<Vec<String>>) -> (r: Option<Vec<u8>>)
    ensures
        match r {
            Some(b) => csv_text(rows_text(rows@)) == Some(b@),
            None => csv_text(rows_text(rows@)) is None,
        },
        same_lengths(rows_text(rows@)) ==> r is Some,
{
    let mut writer = ::csv::Writer::from_writer(Vec::new());
    for row in rows {
        writer.write_record(row).ok()?;
    }
    writer.into_inner().ok()
}

} // verus!
