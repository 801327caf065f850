use vstd::prelude::*;

use crate::model::strings_view;

verus! {

/// The records of a CSV text after its header line, each as its fields, or
/// `None` where the `csv` crate's reader reports an error.
pub uninterp spec fn csv_table_of(text: Seq<char>) -> Option<Seq<Seq<Seq<char>>>>;

/// The fields of each record, as character sequences.
pub open spec fn rows_view(rows: Seq<Vec<String>>) -> Seq<Seq<Seq<char>>> {
    Seq::new(rows.len(), |i: int| strings_view(rows[i]@))
}

/// Whether every record has at least two fields.
pub open spec fn rows_well_formed(rows: Seq<Seq<Seq<char>>>) -> bool {
    forall|i: int| 0 <= i < rows.len() ==> #[trigger] rows[i].len() >= 2
}

/// Relies on `csv::Reader::from_reader` and its `records`: the text is read
/// as CSV with a header line, and the records that follow are returned; the
/// outcome depends on the text alone.
#[verifier::external_body]
pub(crate) fn parse_table(text: &str) -> (r: Result<Vec<Vec<String>>, String>)
    ensures
        match r {
            Ok(rows) => csv_table_of(text@) == Some(rows_view(rows@)),
            Err(_) => csv_table_of(text@) is None,
        },
{
    let mut reader = csv::Reader::from_reader(text.as_bytes());
    let mut rows = Vec::new();
    for record in reader.records() {
        let record = record.map_err(|e| e.to_string())?;
        rows.push(record.iter().map(|field| field.to_string()).collect());
    }
    Ok(rows)
}

/// Relies on `csv::Reader::from_path` and its `records`: the file at `path`
/// is read as CSV with a header line. What comes back depends on the file
/// system, so nothing is stated of it.
#[verifier::external_body]
pub(crate) fn read_table(path: &str) -> (r: Result<Vec<Vec<String>>, String>) {
    let mut reader = csv::Reader::from_path(path).map_err(|e| e.to_string())?;
    let mut rows = Vec::new();
    for record in reader.records() {
        let record = record.map_err(|e| e.to_string())?;
        rows.push(record.iter().map(|field| field.to_string()).collect());
    }
    Ok(rows)
}

/// Whether every record has at least two fields.
pub fn check_rows(rows: &Vec<Vec<String>>) -> (r: bool)
    ensures
        r == rows_well_formed(rows_view(rows@)),
{
    for i in 0..rows.len()
        invariant
            forall|k: int| 0 <= k < i ==> #[trigger] rows@[k]@.len() >= 2,
    {
        if rows[i].len() < 2 {
            assert(rows_view(rows@)[i as int].len() < 2);
            return false;
        }
    }
    assert(rows_well_formed(rows_view(rows@)));
    true
}

} // verus!
