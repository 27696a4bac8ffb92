//! The CSV model: how a file's text decomposes into lines and
//! comma-separated fields, and the loading of a file from the filesystem
//! model into a table whose column names come from the header row.
//!
//! The model is deliberately plain: fields carry no quoting or escaping, a
//! line break always ends a line and a comma always ends a field. Content is
//! well formed when it is non-empty and every data line has exactly as many
//! fields as the header line; in particular a trailing line break makes an
//! empty last line and is rejected.

use vstd::prelude::*;
use vstd::string::StrSliceExecFns;

use crate::error::Failure;
use crate::fs_model::FileSystem;
use crate::table::{DataTable, RecordBatch};

verus! {

/// The split of `cur ++ s` at every occurrence of `d`, appended to `acc`:
/// `cur` is the part of the current piece read so far, `acc` the pieces
/// already finished.
pub open spec fn split_rec(s: Seq<char>, d: char, cur: Seq<char>, acc: Seq<Seq<char>>) -> Seq<
    Seq<char>,
>
    decreases s.len(),
{
    if s.len() == 0 {
        acc.push(cur)
    } else if s[0] == d {
        split_rec(s.skip(1), d, Seq::empty(), acc.push(cur))
    } else {
        split_rec(s.skip(1), d, cur.push(s[0]), acc)
    }
}

/// The pieces of `s` between the occurrences of the delimiter `d`. There is
/// always at least one piece; an empty `s` gives one empty piece.
pub open spec fn split_on(s: Seq<char>, d: char) -> Seq<Seq<char>> {
    split_rec(s, d, Seq::empty(), Seq::empty())
}

/// A split never returns fewer pieces than were already finished, plus the
/// one under construction.
proof fn lemma_split_rec_len(s: Seq<char>, d: char, cur: Seq<char>, acc: Seq<Seq<char>>)
    ensures
        split_rec(s, d, cur, acc).len() >= acc.len() + 1,
    decreases s.len(),
{
    if s.len() == 0 {
    } else if s[0] == d {
        lemma_split_rec_len(s.skip(1), d, Seq::empty(), acc.push(cur));
    } else {
        lemma_split_rec_len(s.skip(1), d, cur.push(s[0]), acc);
    }
}

/// A split yields at least one piece.
pub proof fn lemma_split_on_nonempty(s: Seq<char>, d: char)
    ensures
        split_on(s, d).len() >= 1,
{
    lemma_split_rec_len(s, d, Seq::empty(), Seq::empty());
}

/// Whether the delimiter `d` occurs nowhere in `s`.
pub open spec fn has_no(s: Seq<char>, d: char) -> bool {
    forall|i: int| 0 <= i < s.len() ==> s[i] != d
}

/// A split of delimiter-free text finishes the one piece under construction.
proof fn lemma_split_rec_no_delim(s: Seq<char>, d: char, cur: Seq<char>, acc: Seq<Seq<char>>)
    requires
        has_no(s, d),
    ensures
        split_rec(s, d, cur, acc) == acc.push(cur + s),
    decreases s.len(),
{
    if s.len() == 0 {
        assert(cur + s =~= cur);
    } else {
        assert(s[0] != d);
        assert forall|i: int| 0 <= i < s.skip(1).len() implies s.skip(1)[i] != d by {
            assert(s.skip(1)[i] == s[i + 1]);
        }
        lemma_split_rec_no_delim(s.skip(1), d, cur.push(s[0]), acc);
        assert(cur.push(s[0]) + s.skip(1) =~= cur + s);
    }
}

/// The pieces already finished stand unchanged in front of whatever the rest
/// of the split yields.
proof fn lemma_split_rec_acc(s: Seq<char>, d: char, cur: Seq<char>, acc: Seq<Seq<char>>)
    ensures
        split_rec(s, d, cur, acc) == acc + split_rec(s, d, cur, Seq::empty()),
    decreases s.len(),
{
    if s.len() == 0 {
        assert(acc.push(cur) =~= acc + Seq::<Seq<char>>::empty().push(cur));
    } else if s[0] == d {
        lemma_split_rec_acc(s.skip(1), d, Seq::empty(), acc.push(cur));
        lemma_split_rec_acc(s.skip(1), d, Seq::empty(), Seq::<Seq<char>>::empty().push(cur));
        assert(acc.push(cur) + split_rec(s.skip(1), d, Seq::empty(), Seq::empty()) =~= acc + (
        Seq::<Seq<char>>::empty().push(cur) + split_rec(s.skip(1), d, Seq::empty(), Seq::empty())));
    } else {
        lemma_split_rec_acc(s.skip(1), d, cur.push(s[0]), acc);
    }
}

/// Law: splitting text in which the delimiter does not occur yields that
/// text as the single piece.
pub proof fn lemma_split_on_no_delim(s: Seq<char>, d: char)
    requires
        has_no(s, d),
    ensures
        split_on(s, d) == seq![s],
{
    lemma_split_rec_no_delim(s, d, Seq::empty(), Seq::empty());
    assert(Seq::<char>::empty() + s =~= s);
    assert(Seq::<Seq<char>>::empty().push(s) =~= seq![s]);
}

/// Law: splitting `a ++ d ++ b` yields `a` as the first piece, when `d` does
/// not occur in `a`, followed by the pieces of `b`.
pub proof fn lemma_split_on_append(a: Seq<char>, b: Seq<char>, d: char)
    requires
        has_no(a, d),
    ensures
        split_on(a + seq![d] + b, d) == seq![a] + split_on(b, d),
{
    lemma_split_rec_step(a, b, d, Seq::empty(), Seq::empty());
    assert(Seq::<char>::empty() + a =~= a);
    lemma_split_rec_acc(b, d, Seq::empty(), Seq::<Seq<char>>::empty().push(a));
    assert(Seq::<Seq<char>>::empty().push(a) =~= seq![a]);
}

/// A delimiter-free prefix `a`, then the delimiter, finishes the piece
/// `cur ++ a` and the split goes on behind the delimiter.
proof fn lemma_split_rec_step(
    a: Seq<char>,
    b: Seq<char>,
    d: char,
    cur: Seq<char>,
    acc: Seq<Seq<char>>,
)
    requires
        has_no(a, d),
    ensures
        split_rec(a + seq![d] + b, d, cur, acc) == split_rec(b, d, Seq::empty(), acc.push(cur + a)),
    decreases a.len(),
{
    let s = a + seq![d] + b;
    if a.len() == 0 {
        assert(s[0] == d);
        assert(s.skip(1) =~= b);
        assert(cur + a =~= cur);
    } else {
        assert(s[0] == a[0]);
        assert(a[0] != d);
        assert forall|i: int| 0 <= i < a.skip(1).len() implies a.skip(1)[i] != d by {
            assert(a.skip(1)[i] == a[i + 1]);
        }
        assert(s.skip(1) =~= a.skip(1) + seq![d] + b);
        lemma_split_rec_step(a.skip(1), b, d, cur.push(a[0]), acc);
        assert(cur.push(a[0]) + a.skip(1) =~= cur + a);
    }
}

/// Splits `s` at every occurrence of `d`, as [`split_on`] says.
pub fn split_str(s: &str, d: char) -> (parts: Vec<String>)
    ensures
        parts.deep_view() == split_on(s@, d),
{
    let n = s.unicode_len();
    let mut parts: Vec<String> = Vec::new();
    let mut start: usize = 0;
    let mut i: usize = 0;
    proof {
        assert(s@.skip(0) =~= s@);
        assert(s@.subrange(0, 0) =~= Seq::<char>::empty());
        assert(parts.deep_view() =~= Seq::<Seq<char>>::empty());
    }
    while i < n
        invariant
            n == s@.len(),
            start <= i <= n,
            split_on(s@, d) == split_rec(
                s@.skip(i as int),
                d,
                s@.subrange(start as int, i as int),
                parts.deep_view(),
            ),
        decreases n - i,
    {
        let c = s.get_char(i);
        proof {
            assert(s@.skip(i as int)[0] == s@[i as int]);
            assert(s@.skip(i as int).skip(1) =~= s@.skip(i as int + 1));
        }
        if c == d {
            let piece = s.substring_char(start, i).to_owned();
            let ghost pre = parts.deep_view();
            proof {
                assert(piece@ == s@.subrange(start as int, i as int));
            }
            parts.push(piece);
            proof {
                assert(parts.deep_view() =~= pre.push(s@.subrange(start as int, i as int)));
                assert(s@.subrange(i as int + 1, i as int + 1) =~= Seq::<char>::empty());
            }
            start = i + 1;
        } else {
            proof {
                assert(s@.subrange(start as int, i as int + 1) =~= s@.subrange(
                    start as int,
                    i as int,
                ).push(s@[i as int]));
            }
        }
        i += 1;
    }
    let piece = s.substring_char(start, n).to_owned();
    let ghost pre = parts.deep_view();
    proof {
        assert(s@.skip(n as int).len() == 0);
        assert(piece@ == s@.subrange(start as int, n as int));
    }
    parts.push(piece);
    proof {
        assert(parts.deep_view() =~= pre.push(s@.subrange(start as int, n as int)));
        assert(split_on(s@, d) == pre.push(s@.subrange(start as int, n as int)));
    }
    parts
}

/// The lines of a file's content: its text split at every line break.
pub open spec fn csv_lines(content: Seq<char>) -> Seq<Seq<char>> {
    split_on(content, '\n')
}

/// The column names a file's content declares: the fields of its first line.
pub open spec fn csv_header(content: Seq<char>) -> Seq<Seq<char>> {
    split_on(csv_lines(content)[0], ',')
}

/// The data rows of a file's content: the fields of every line after the
/// first.
pub open spec fn csv_rows(content: Seq<char>) -> Seq<Seq<Seq<char>>> {
    Seq::new((csv_lines(content).len() - 1) as nat, |i: int| split_on(csv_lines(content)[i + 1], ','))
}

/// Whether a file's content is CSV this model accepts: non-empty, and every
/// data row has exactly one field per column name.
pub open spec fn csv_well_formed(content: Seq<char>) -> bool {
    &&& content.len() > 0
    &&& forall|i: int|
        0 <= i < csv_rows(content).len() ==> (#[trigger] csv_rows(content)[i]).len()
            == csv_header(content).len()
}

/// Parses a file's text into one record batch whose field names are the
/// header fields and whose rows are the data lines, field by field. Returns
/// [`Failure::FileLoadFailure`] exactly on text the model rejects.
fn parse_csv_text(content: &str) -> (r: Result<RecordBatch, Failure>)
    ensures
        r is Ok <==> csv_well_formed(content@),
        r matches Ok(batch) ==> {
            &&& batch.spec_fields() == csv_header(content@)
            &&& batch.spec_rows() == csv_rows(content@)
            &&& batch.wf()
        },
        r matches Err(e) ==> e == Failure::FileLoadFailure,
{
    if content.unicode_len() == 0 {
        return Err(Failure::FileLoadFailure);
    }
    let lines = split_str(content, '\n');
    proof {
        lemma_split_on_nonempty(content@, '\n');
        assert(lines@.len() == csv_lines(content@).len());
    }
    let fields = split_str(lines[0].as_str(), ',');
    proof {
        assert(lines@[0]@ == lines.deep_view()[0]);
        assert(fields.deep_view() == csv_header(content@));
    }
    let mut rows: Vec<Vec<String>> = Vec::new();
    let mut i: usize = 1;
    while i < lines.len()
        invariant
            1 <= i <= lines@.len(),
            lines.deep_view() == csv_lines(content@),
            fields.deep_view() == csv_header(content@),
            rows.deep_view() =~= csv_rows(content@).take(i as int - 1),
            forall|k: int|
                0 <= k < rows.deep_view().len() ==> (#[trigger] rows.deep_view()[k]).len()
                    == fields.deep_view().len(),
        decreases lines@.len() - i,
    {
        let row = split_str(lines[i].as_str(), ',');
        proof {
            assert(lines@[i as int]@ == lines.deep_view()[i as int]);
            assert(row.deep_view() == csv_rows(content@)[i as int - 1]);
        }
        if row.len() != fields.len() {
            proof {
                assert(row.deep_view().len() == row@.len());
                assert(fields.deep_view().len() == fields@.len());
                assert(csv_rows(content@)[i as int - 1].len() != csv_header(content@).len());
            }
            return Err(Failure::FileLoadFailure);
        }
        let ghost pre = rows.deep_view();
        rows.push(row);
        proof {
            assert(rows.deep_view() =~= pre.push(csv_rows(content@)[i as int - 1]));
            assert(rows.deep_view() =~= csv_rows(content@).take(i as int));
        }
        i += 1;
    }
    proof {
        assert(csv_rows(content@).take(lines@.len() - 1) =~= csv_rows(content@));
    }
    let batch = RecordBatch { fields, rows };
    Ok(batch)
}

/// Loads the file at `path` from the filesystem as a CSV table of one record
/// batch, its schema inferred from the header row. Fails with
/// [`Failure::FileLoadFailure`] exactly when no file is at the path or its
/// content is not CSV the model accepts.
pub fn load_csv(fs: &FileSystem, path: &str) -> (r: Result<DataTable, Failure>)
    ensures
        r is Ok <==> fs@.contains_key(path@) && csv_well_formed(fs@[path@]),
        r matches Ok(table) ==> {
            &&& table.batches@.len() == 1
            &&& table.batches@[0].spec_fields() == csv_header(fs@[path@])
            &&& table.batches@[0].spec_rows() == csv_rows(fs@[path@])
            &&& table.wf()
        },
        r matches Err(e) ==> e == Failure::FileLoadFailure,
{
    let content = match fs.read_file(path) {
        Some(content) => content,
        None => {
            return Err(Failure::FileLoadFailure);
        },
    };
    let batch = match parse_csv_text(content.as_str()) {
        Ok(batch) => batch,
        Err(e) => {
            return Err(e);
        },
    };
    let mut batches: Vec<RecordBatch> = Vec::new();
    batches.push(batch);
    Ok(DataTable { batches })
}

} // verus!
