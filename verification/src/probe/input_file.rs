//! The stat probe's input file: its bytes read as a CSV table, and the table read as spots.
use crate::debug_run::rows::row_view;
use crate::probe::spots::{
    header_format, load_rows, loaded_rows, record_view, InputFormat, ProbeSpot,
    RowSkip, RowSkipText, SpotText,
};
use vstd::prelude::*;

verus! {

/// The table the CSV reader reads from a text with its default settings (a header row, then
/// records of as many fields): the header fields and each record's fields, or the reader's
/// error for a record it cannot read; or the reader's error when the header row cannot be read.
pub uninterp spec fn csv_table(text: Seq<u8>) -> Result<
    (Seq<Seq<char>>, Seq<Result<Seq<Seq<char>>, Seq<char>>>),
    Seq<char>,
>;

/// A table as read, taken as texts.
pub open spec fn table_view(t: Result<(Vec<String>, Vec<Result<Vec<String>, String>>), String>) -> Result<
    (Seq<Seq<char>>, Seq<Result<Seq<Seq<char>>, Seq<char>>>),
    Seq<char>,
> {
    match t {
        Ok((headers, records)) => Ok(
            (
                row_view(headers@),
                records@.map_values(|x: Result<Vec<String>, String>| record_view(x)),
            ),
        ),
        Err(e) => Err(e@),
    }
}

/// Reads a text as a CSV table with `csv::Reader::from_reader`, `headers` and `records`.
/// The table is named (`csv_table`), not stated: the CSV grammar and the reader's error
/// messages are the crate's; the contract says only that the table depends on the bytes alone.
#[verifier::external_body]
fn read_csv_table(text: &[u8]) -> (r: Result<(Vec<String>, Vec<Result<Vec<String>, String>>), String>)
    ensures
        table_view(r) == csv_table(text@),
{
    let mut reader = csv::Reader::from_reader(text);
    let headers: Vec<String> = match reader.headers() {
        Ok(h) => h.iter().map(|f| f.to_string()).collect(),
        Err(e) => return Err(e.to_string()),
    };
    let records = reader.records().map(|r| match r {
        Ok(record) => Ok(record.iter().map(|f| f.to_string()).collect()),
        Err(e) => Err(e.to_string()),
    }).collect();
    Ok((headers, records))
}

/// Why an input file gives no rows at all.
#[derive(Debug)]
pub enum InputError {
    /// The header row could not be read; with the reader's error.
    UnreadableHeaders(String),
    /// The header row fits neither layout; with the header fields.
    UnsupportedHeaders(Vec<String>),
}

/// Why an input file gives no rows, as texts.
pub enum InputErrorText {
    UnreadableHeaders(Seq<char>),
    UnsupportedHeaders(Seq<Seq<char>>),
}

/// The rows of an input file: its layout, its spots (`None` when there is none, so that the
/// fixed-seed sample is used), and the rows that gave no spot.
pub struct InputRows {
    pub format: InputFormat,
    pub rows: Option<Vec<ProbeSpot>>,
    pub skipped: Vec<RowSkip>,
}

/// What a table gives: an error when its header row could not be read or fits neither
/// layout; else its layout, its spots when there are any, and the rows that gave none.
pub open spec fn table_rows(
    table: Result<(Seq<Seq<char>>, Seq<Result<Seq<Seq<char>>, Seq<char>>>), Seq<char>>,
) -> Result<(InputFormat, Option<Seq<SpotText>>, Seq<RowSkipText>), InputErrorText> {
    match table {
        Err(e) => Err(InputErrorText::UnreadableHeaders(e)),
        Ok((headers, records)) => match header_format(headers) {
            None => Err(InputErrorText::UnsupportedHeaders(headers)),
            Some(f) => {
                let (spots, skipped) = loaded_rows(headers, records, f);
                Ok(
                    (
                        f,
                        if spots.len() == 0 {
                            None
                        } else {
                            Some(spots)
                        },
                        skipped,
                    ),
                )
            },
        },
    }
}

/// The rows of an input file, or why there are none, taken as texts.
pub open spec fn input_view(r: Result<InputRows, InputError>) -> Result<
    (InputFormat, Option<Seq<SpotText>>, Seq<RowSkipText>),
    InputErrorText,
> {
    match r {
        Ok(x) => Ok(
            (
                x.format,
                match x.rows {
                    Some(v) => Some(v@.map_values(|p: ProbeSpot| crate::probe::spots::spot_text(p))),
                    None => None,
                },
                x.skipped@.map_values(|k: RowSkip| crate::probe::spots::skip_view(k)),
            ),
        ),
        Err(InputError::UnreadableHeaders(e)) => Err(InputErrorText::UnreadableHeaders(e@)),
        Err(InputError::UnsupportedHeaders(h)) => Err(InputErrorText::UnsupportedHeaders(row_view(h@))),
    }
}

/// Reads the rows of a table the CSV reader gave (`load_input_rows` once the file is read).
pub fn rows_from_table(table: Result<(Vec<String>, Vec<Result<Vec<String>, String>>), String>) -> (r: Result<InputRows, InputError>)
    ensures
        input_view(r) == table_rows(table_view(table)),
{
    match table {
        Err(e) => Err(InputError::UnreadableHeaders(e)),
        Ok((headers, records)) => match crate::probe::spots::detect_input_format(headers.as_slice()) {
            None => Err(InputError::UnsupportedHeaders(headers)),
            Some(format) => {
                let loaded = load_rows(headers.as_slice(), records.as_slice(), format);
                let rows = if loaded.rows.len() == 0 {
                    None
                } else {
                    Some(loaded.rows)
                };
                Ok(InputRows { format, rows, skipped: loaded.skipped })
            },
        },
    }
}

/// Reads the rows of an input file from its bytes: the bytes are read as a CSV table, and the
/// table as rows.
pub fn load_input_text(text: &[u8]) -> (r: Result<InputRows, InputError>)
    ensures
        input_view(r) == table_rows(csv_table(text@)),
{
    rows_from_table(read_csv_table(text))
}

} // verus!
