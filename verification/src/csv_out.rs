//! Rows written as CSV text: each record encoded by the CSV writer, the records one after the
//! other.
use crate::debug_run::rows::row_view;
use vstd::prelude::*;

verus! {

/// The bytes the CSV writer (default settings: commas, quoting where needed, a line feed after
/// each record) writes for one record on its own, or the writer's error.
pub uninterp spec fn csv_record(fields: Seq<Seq<char>>) -> Result<Seq<u8>, Seq<char>>;

/// Encoded bytes, or the error, taken as plain values.
pub open spec fn bytes_result(r: Result<Vec<u8>, String>) -> Result<Seq<u8>, Seq<char>> {
    match r {
        Ok(b) => Ok(b@),
        Err(e) => Err(e@),
    }
}

/// Encodes one record with `csv::Writer::from_writer` on an empty buffer, `write_record` and
/// `into_inner`. The bytes are named (`csv_record`), not stated: the quoting rules are the
/// crate's; the contract says only that they depend on the fields alone.
#[verifier::external_body]
fn write_csv_record(fields: &[String]) -> (r: Result<Vec<u8>, String>)
    ensures
        bytes_result(r) == csv_record(row_view(fields@)),
{
    let mut writer = csv::Writer::from_writer(Vec::new());
    if let Err(e) = writer.write_record(fields) {
        return Err(e.to_string());
    }
    writer.into_inner().map_err(|e| e.to_string())
}

/// The text of records written one after the other: each record's bytes in order, or the
/// error of the first record that cannot be written.
pub open spec fn csv_text(rows: Seq<Seq<Seq<char>>>) -> Result<Seq<u8>, Seq<char>>
    decreases rows.len(),
{
    if rows.len() == 0 {
        Ok(Seq::empty())
    } else {
        match csv_text(rows.drop_last()) {
            Err(e) => Err(e),
            Ok(before) => match csv_record(rows.last()) {
                Ok(line) => Ok(before + line),
                Err(e) => Err(e),
            },
        }
    }
}

/// Once a record cannot be written, the text of any longer run of records gives that error.
proof fn lemma_error_stays(rows: Seq<Seq<Seq<char>>>, k: int)
    requires
        0 <= k <= rows.len(),
        csv_text(rows.take(k)) is Err,
    ensures
        csv_text(rows) == csv_text(rows.take(k)),
    decreases rows.len() - k,
{
    if k < rows.len() {
        assert(rows.drop_last().take(k) == rows.take(k));
        lemma_error_stays(rows.drop_last(), k);
    } else {
        assert(rows.take(k) == rows);
    }
}

/// Writes records as CSV text, one after the other (what a CSV writer writes for them).
pub fn encode_rows(rows: &[Vec<String>]) -> (r: Result<Vec<u8>, String>)
    ensures
        bytes_result(r) == csv_text(rows@.map_values(|f: Vec<String>| row_view(f@))),
{
    let ghost all = rows@.map_values(|f: Vec<String>| row_view(f@));
    let mut out: Vec<u8> = Vec::new();
    let n = rows.len();
    let mut i: usize = 0;
    while i < n
        invariant
            i <= n,
            n == rows@.len(),
            all == rows@.map_values(|f: Vec<String>| row_view(f@)),
            csv_text(all.take(i as int)) == Ok::<Seq<u8>, Seq<char>>(out@),
        decreases n - i,
    {
        assert(all.take(i + 1).drop_last() == all.take(i as int));
        assert(all.take(i + 1).last() == row_view(rows@[i as int]@));
        match write_csv_record(rows[i].as_slice()) {
            Ok(line) => {
                let ghost before = out@;
                let mut k: usize = 0;
                while k < line.len()
                    invariant
                        k <= line@.len(),
                        out@ == before + line@.take(k as int),
                    decreases line@.len() - k,
                {
                    out.push(line[k]);
                    assert(line@.take(k + 1) == line@.take(k as int).push(line@[k as int]));
                    k = k + 1;
                }
                assert(line@.take(line@.len() as int) == line@);
            },
            Err(e) => {
                proof {
                    lemma_error_stays(all, i + 1);
                }
                return Err(e);
            },
        }
        i = i + 1;
    }
    assert(all.take(n as int) == all);
    Ok(out)
}

} // verus!
