//! The tabular result as the pipeline reads it: record batches, each with an
//! ordered list of field names and rows of text cells, and the collection of
//! all field names across the batches of a table.

use vstd::prelude::*;

verus! {

/// One materialized chunk of a table: an ordered schema (field names) and
/// the rows that were read, each row holding one text cell per field.
pub struct RecordBatch {
    pub fields: Vec<String>,
    pub rows: Vec<Vec<String>>,
}

impl RecordBatch {
    /// The ordered field names of the batch.
    pub open spec fn spec_fields(&self) -> Seq<Seq<char>> {
        self.fields.deep_view()
    }

    /// The rows of the batch, each a sequence of cells.
    pub open spec fn spec_rows(&self) -> Seq<Seq<Seq<char>>> {
        self.rows.deep_view()
    }

    /// Every row holds exactly one cell per field.
    pub open spec fn wf(&self) -> bool {
        forall|i: int|
            0 <= i < self.spec_rows().len() ==> #[trigger] self.spec_rows()[i].len()
                == self.spec_fields().len()
    }

    /// How many rows the batch holds.
    pub fn num_rows(&self) -> (n: usize)
        ensures
            n == self.spec_rows().len(),
    {
        self.rows.len()
    }

    /// How many columns the batch holds.
    pub fn num_columns(&self) -> (n: usize)
        ensures
            n == self.spec_fields().len(),
    {
        self.fields.len()
    }
}

/// A materialized table: the record batches the engine handed back, in order.
pub struct DataTable {
    pub batches: Vec<RecordBatch>,
}

impl DataTable {
    /// Every batch of the table is well formed.
    pub open spec fn wf(&self) -> bool {
        forall|i: int| 0 <= i < self.batches@.len() ==> (#[trigger] self.batches@[i]).wf()
    }
}

/// The field names of a sequence of batches, in batch order: the names of
/// each batch appended after those of the batches before it. A name that
/// occurs in several batches occurs as often in the result.
pub open spec fn headers_of(batches: Seq<RecordBatch>) -> Seq<Seq<char>>
    decreases batches.len(),
{
    if batches.len() == 0 {
        Seq::empty()
    } else {
        headers_of(batches.drop_last()) + batches.last().spec_fields()
    }
}

/// Law: the header list of a single batch is exactly that batch's field
/// list, in order and nothing else.
pub proof fn lemma_headers_of_single_batch(batches: Seq<RecordBatch>)
    requires
        batches.len() == 1,
    ensures
        headers_of(batches) == batches[0].spec_fields(),
{
    assert(batches.drop_last().len() == 0);
    assert(headers_of(batches.drop_last()) =~= Seq::<Seq<char>>::empty());
    assert(batches.last() == batches[0]);
    assert(headers_of(batches) =~= batches[0].spec_fields());
}

/// Walks every batch and appends each of its field names to one running
/// list, in order.
pub fn extract_headers(batches: &Vec<RecordBatch>) -> (header: Vec<String>)
    ensures
        header.deep_view() == headers_of(batches@),
{
    let mut header: Vec<String> = Vec::new();
    let mut i: usize = 0;
    while i < batches.len()
        invariant
            i <= batches@.len(),
            header.deep_view() == headers_of(batches@.take(i as int)),
        decreases batches@.len() - i,
    {
        let batch = &batches[i];
        let mut j: usize = 0;
        while j < batch.fields.len()
            invariant
                i < batches@.len(),
                batch == &batches@[i as int],
                j <= batch.fields@.len(),
                header.deep_view() == headers_of(batches@.take(i as int)) + batch.spec_fields()
                    .take(j as int),
            decreases batch.fields@.len() - j,
        {
            let name = batch.fields[j].clone();
            proof {
                let pre = header.deep_view();
                assert(name@ == batch.spec_fields()[j as int]);
                assert(batch.spec_fields().take(j as int + 1) =~= batch.spec_fields().take(
                    j as int,
                ).push(name@));
                assert(pre.push(name@) =~= headers_of(batches@.take(i as int))
                    + batch.spec_fields().take(j as int + 1));
            }
            let ghost pre = header.deep_view();
            header.push(name);
            proof {
                assert(header.deep_view() =~= pre.push(batch.spec_fields()[j as int]));
            }
            j += 1;
        }
        proof {
            assert(batch.spec_fields().take(batch.fields@.len() as int) =~= batch.spec_fields());
            assert(batches@.take(i as int + 1).drop_last() =~= batches@.take(i as int));
            assert(batches@.take(i as int + 1).last() == batches@[i as int]);
            assert(headers_of(batches@.take(i as int + 1)) == headers_of(batches@.take(i as int))
                + batches@[i as int].spec_fields());
        }
        i += 1;
    }
    proof {
        assert(batches@.take(batches@.len() as int) =~= batches@);
    }
    header
}

} // verus!
