//! Loading employee records from CSV text: rows that conform to the
//! schema become records, malformed rows are silently dropped.

use vstd::prelude::*;

use crate::decimal::{dec_val, is_u32_digits, parse_u32};
use crate::record::{Record, RecordView};

verus! {

/// The data rows that the CSV reader yields for the given text, after
/// the header row, each as the sequence of its fields.
pub uninterp spec fn csv_rows_of(s: Seq<char>) -> Seq<Seq<Seq<char>>>;

/// Relies on `csv::Reader`: parses CSV text whose first row is a header;
/// every data row read without error becomes the sequence of its fields,
/// rows the reader rejects (such as rows of uneven width) are dropped.
/// The result depends on the input text alone.
#[verifier::external_body]
fn csv_rows(data: &str) -> (rows: Vec<Vec<String>>)
    ensures
        rows.deep_view() == csv_rows_of(data@),
{
    csv::Reader::from_reader(data.as_bytes())
        .into_records()
        .filter_map(|row| row.ok())
        .map(|row| row.iter().map(|field| field.to_string()).collect())
        .collect()
}

/// The record a row stands for: `Some` exactly when the row has the
/// five schema fields and a salary that is a digit string fitting in
/// a `u32`; `None` for a malformed row.
pub open spec fn spec_parse_row(row: Seq<Seq<char>>) -> Option<RecordView> {
    if row.len() == 5 && is_u32_digits(row[4]) {
        Some(
            RecordView {
                first_name: row[0],
                last_name: row[1],
                email: row[2],
                role: row[3],
                salary: dec_val(row[4]) as u32,
            },
        )
    } else {
        None
    }
}

/// The records loaded from a sequence of rows: each well-formed row's
/// record, in row order, with malformed rows dropped.
pub open spec fn spec_load(rows: Seq<Seq<Seq<char>>>) -> Seq<RecordView>
    decreases rows.len(),
{
    if rows.len() == 0 {
        Seq::empty()
    } else {
        let rest = spec_load(rows.drop_last());
        match spec_parse_row(rows.last()) {
            Some(r) => rest.push(r),
            None => rest,
        }
    }
}

/// How many rows of the sequence are malformed.
pub open spec fn malformed_count(rows: Seq<Seq<Seq<char>>>) -> nat
    decreases rows.len(),
{
    if rows.len() == 0 {
        0
    } else {
        malformed_count(rows.drop_last()) + (if spec_parse_row(rows.last()) is None {
            1nat
        } else {
            0nat
        })
    }
}

/// Every row either becomes a loaded record or counts as malformed:
/// the number of loaded records is the row count minus the malformed
/// rows, and no malformed row appears in the loaded sequence.
pub proof fn lemma_load_count(rows: Seq<Seq<Seq<char>>>)
    ensures
        spec_load(rows).len() + malformed_count(rows) == rows.len(),
    decreases rows.len(),
{
    if rows.len() > 0 {
        lemma_load_count(rows.drop_last());
    }
}

/// No malformed row reaches the loaded sequence: every loaded record
/// is the parse of some well-formed row of the input.
pub proof fn lemma_loaded_only_well_formed(rows: Seq<Seq<Seq<char>>>)
    ensures
        forall|j: int|
            0 <= j < spec_load(rows).len() ==> exists|i: int|
                0 <= i < rows.len() && spec_parse_row(#[trigger] rows[i]) == Some(
                    #[trigger] spec_load(rows)[j],
                ),
    decreases rows.len(),
{
    if rows.len() > 0 {
        let rest = rows.drop_last();
        lemma_loaded_only_well_formed(rest);
        assert forall|j: int| 0 <= j < spec_load(rows).len() implies exists|i: int|
            0 <= i < rows.len() && spec_parse_row(#[trigger] rows[i]) == Some(
                #[trigger] spec_load(rows)[j],
            ) by {
            if j < spec_load(rest).len() {
                let i = choose|i: int|
                    0 <= i < rest.len() && spec_parse_row(#[trigger] rest[i]) == Some(
                        spec_load(rest)[j],
                    );
                assert(rows[i] == rest[i]);
                assert(spec_load(rows)[j] == spec_load(rest)[j]);
            } else {
                assert(spec_parse_row(rows[rows.len() - 1]) == Some(spec_load(rows)[j]));
            }
        }
    }
}

/// Parses one row against the record schema. Returns `None` exactly
/// when the row is malformed: wrong field count, or a salary that is
/// not a digit string fitting in a `u32`.
pub fn parse_record(row: &Vec<String>) -> (r: Option<Record>)
    ensures
        (match r {
            Some(rec) => spec_parse_row(row.deep_view()) == Some(rec@),
            None => spec_parse_row(row.deep_view()) is None,
        }),
{
    if row.len() != 5 {
        return None;
    }
    let salary = match parse_u32(row[4].as_str()) {
        Some(v) => v,
        None => {
            return None;
        },
    };
    Some(
        Record {
            first_name: row[0].clone(),
            last_name: row[1].clone(),
            email: row[2].clone(),
            role: row[3].clone(),
            salary,
        },
    )
}

/// Loads records from already-split rows: the record of each
/// well-formed row, in row order; malformed rows are dropped
/// without error.
pub fn load_records(rows: &Vec<Vec<String>>) -> (records: Vec<Record>)
    ensures
        records.deep_view() == spec_load(rows.deep_view()),
{
    let mut out: Vec<Record> = Vec::new();
    let mut i: usize = 0;
    while i < rows.len()
        invariant
            i <= rows.len(),
            out.deep_view() == spec_load(rows.deep_view().subrange(0, i as int)),
        decreases rows.len() - i,
    {
        proof {
            assert(rows.deep_view().subrange(0, (i + 1) as int).drop_last() =~= rows.deep_view()
                .subrange(0, i as int));
            assert(rows.deep_view().subrange(0, (i + 1) as int).last() == rows.deep_view()[
                i as int]);
        }
        match parse_record(&rows[i]) {
            Some(rec) => {
                out.push(rec);
            },
            None => {
            },
        }
        proof {
            assert(out.deep_view() =~= spec_load(rows.deep_view().subrange(0, (i + 1) as int)));
        }
        i = i + 1;
    }
    proof {
        assert(rows.deep_view().subrange(0, rows.len() as int) =~= rows.deep_view());
    }
    out
}

/// Loads records from CSV text: splits the text into rows with the
/// CSV reader, then keeps the record of each well-formed row, in row
/// order, silently dropping malformed rows.
pub fn load_records_from_csv(data: &str) -> (records: Vec<Record>)
    ensures
        records.deep_view() == spec_load(csv_rows_of(data@)),
{
    let rows = csv_rows(data);
    load_records(&rows)
}

} // verus!
