//! The pipeline itself: write the fixed CSV payload to a temporary file,
//! load it as a table, collect the column names and the table's shape, and
//! delete the file. On any failure the run stops at once, and the temporary
//! file is left behind when the deletion was never reached.

use vstd::prelude::*;

use crate::csv::{
    csv_header, csv_lines, csv_rows, csv_well_formed, has_no, lemma_split_on_append,
    lemma_split_on_no_delim, load_csv, split_on,
};
use crate::error::Failure;
use crate::fs_model::FileSystem;
use crate::manager::{create_or_delete_csv_file, lemma_flags_differ};
use crate::table::{extract_headers, lemma_headers_of_single_batch, DataTable};

verus! {

/// The fixed CSV payload: a header row of two column names and three data
/// rows.
pub open spec fn csv_data_text() -> Seq<char> {
    "heading,value\nbasic,1\ncsv,2\nhere,3"@
}

/// The fixed CSV payload as a string.
pub fn csv_data() -> (s: String)
    ensures
        s@ == csv_data_text(),
{
    "heading,value\nbasic,1\ncsv,2\nhere,3".to_owned()
}

/// Law: the fixed payload is CSV the model accepts; its column names are
/// exactly `heading` and `value`, in that order and nothing else, and it has
/// three data rows.
pub proof fn lemma_fixed_payload_shape()
    ensures
        csv_well_formed(csv_data_text()),
        csv_header(csv_data_text()) == seq!["heading"@, "value"@],
        csv_rows(csv_data_text()).len() == 3,
{
    reveal_strlit("heading,value\nbasic,1\ncsv,2\nhere,3");
    reveal_strlit("heading,value");
    reveal_strlit("basic,1");
    reveal_strlit("csv,2");
    reveal_strlit("here,3");
    reveal_strlit("heading");
    reveal_strlit("value");
    reveal_strlit("basic");
    reveal_strlit("here");
    reveal_strlit("csv");
    reveal_strlit("1");
    reveal_strlit("2");
    reveal_strlit("3");
    let content = csv_data_text();
    let head = "heading,value"@;
    let row1 = "basic,1"@;
    let row2 = "csv,2"@;
    let row3 = "here,3"@;
    assert(content =~= head + seq!['\n'] + (row1 + seq!['\n'] + (row2 + seq!['\n'] + row3)));
    assert(has_no(head, '\n'));
    assert(has_no(row1, '\n'));
    assert(has_no(row2, '\n'));
    assert(has_no(row3, '\n'));
    lemma_split_on_append(head, row1 + seq!['\n'] + (row2 + seq!['\n'] + row3), '\n');
    lemma_split_on_append(row1, row2 + seq!['\n'] + row3, '\n');
    lemma_split_on_append(row2, row3, '\n');
    lemma_split_on_no_delim(row3, '\n');
    assert(csv_lines(content) =~= seq![head, row1, row2, row3]);
    assert(head =~= "heading"@ + seq![','] + "value"@);
    assert(has_no("heading"@, ','));
    assert(has_no("value"@, ','));
    lemma_split_on_append("heading"@, "value"@, ',');
    lemma_split_on_no_delim("value"@, ',');
    assert(csv_header(content) =~= seq!["heading"@, "value"@]);
    assert(row1 =~= "basic"@ + seq![','] + "1"@);
    assert(has_no("basic"@, ','));
    assert(has_no("1"@, ','));
    lemma_split_on_append("basic"@, "1"@, ',');
    lemma_split_on_no_delim("1"@, ',');
    assert(row2 =~= "csv"@ + seq![','] + "2"@);
    assert(has_no("csv"@, ','));
    assert(has_no("2"@, ','));
    lemma_split_on_append("csv"@, "2"@, ',');
    lemma_split_on_no_delim("2"@, ',');
    assert(row3 =~= "here"@ + seq![','] + "3"@);
    assert(has_no("here"@, ','));
    assert(has_no("3"@, ','));
    lemma_split_on_append("here"@, "3"@, ',');
    lemma_split_on_no_delim("3"@, ',');
    assert(csv_rows(content).len() == 3);
    assert forall|i: int| 0 <= i < csv_rows(content).len() implies (#[trigger] csv_rows(
        content,
    )[i]).len() == csv_header(content).len() by {
        assert(csv_rows(content)[i] == split_on(csv_lines(content)[i + 1], ','));
        if i == 0 {
            assert(split_on(row1, ',') == seq!["basic"@] + seq!["1"@]);
        } else if i == 1 {
            assert(split_on(row2, ',') == seq!["csv"@] + seq!["2"@]);
        } else {
            assert(split_on(row3, ',') == seq!["here"@] + seq!["3"@]);
        }
    }
}

/// Writes the fixed CSV payload to a temporary file at `file_name`, then
/// loads that file as a table with its column names inferred from the header
/// row. The file stays on the filesystem for the caller to delete.
pub fn read_csv_file_with_inferred_schema(fs: &mut FileSystem, file_name: String) -> (r: Result<
    DataTable,
    Failure,
>)
    ensures
        final(fs)@ == old(fs)@.insert(file_name@, csv_data_text()),
        r is Ok,
        r matches Ok(table) ==> {
            &&& table.batches@.len() == 1
            &&& table.batches@[0].spec_fields() == csv_header(csv_data_text())
            &&& table.batches@[0].spec_rows() == csv_rows(csv_data_text())
            &&& table.wf()
        },
{
    proof {
        lemma_fixed_payload_shape();
    }
    let content = csv_data();
    let created = create_or_delete_csv_file(fs, file_name.clone(), Some(content), "create");
    proof {
        assert(created is Ok);
    }
    load_csv(fs, file_name.as_str())
}

/// What one run of the pipeline reports: the collected column names and the
/// shape of the loaded table.
pub struct Report {
    pub header: Vec<String>,
    pub num_rows: usize,
    pub num_columns: usize,
}

/// Runs the whole pipeline at `file_name`: create the temporary file with
/// the fixed payload, load it, collect the column names and the table's
/// shape, and delete the file. A failed load would stop the run and leave
/// the file behind, but the fixed payload is proven to load, so the run
/// always reaches the deletion and reports three rows under the two column
/// names `heading` and `value`.
pub fn run_report(fs: &mut FileSystem, file_name: String) -> (r: Result<Report, Failure>)
    ensures
        final(fs)@ == old(fs)@.remove(file_name@),
        r matches Ok(report) ==> {
            &&& report.header.deep_view() == seq!["heading"@, "value"@]
            &&& report.num_rows == 3
            &&& report.num_columns == 2
        },
        r is Ok,
{
    let ghost name = file_name@;
    proof {
        lemma_fixed_payload_shape();
    }
    let table = match read_csv_file_with_inferred_schema(fs, file_name.clone()) {
        Ok(table) => table,
        Err(e) => {
            return Err(e);
        },
    };
    let header = extract_headers(&table.batches);
    proof {
        lemma_headers_of_single_batch(table.batches@);
    }
    let num_rows = table.batches[0].num_rows();
    let num_columns = table.batches[0].num_columns();
    let deleted = create_or_delete_csv_file(fs, file_name, None, "delete");
    proof {
        lemma_flags_differ();
        assert(deleted is Ok);
        assert(old(fs)@.insert(name, csv_data_text()).remove(name) =~= old(fs)@.remove(name));
    }
    Ok(Report { header, num_rows, num_columns })
}

} // verus!
