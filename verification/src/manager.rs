//! The temporary-file manager: one entry point that, keyed by an operation
//! flag, creates the file with the supplied content, deletes it, or does
//! nothing. Its whole effect on the filesystem is given by [`manage_spec`].

use vstd::prelude::*;
use vstd::string::StrSliceExecFns;

use crate::error::Failure;
use crate::fs_model::FileSystem;

verus! {

/// Character-by-character string comparison.
pub fn str_eq(a: &str, b: &str) -> (r: bool)
    ensures
        r == (a@ == b@),
{
    let na = a.unicode_len();
    let nb = b.unicode_len();
    if na != nb {
        return false;
    }
    let mut i: usize = 0;
    while i < na
        invariant
            na == a@.len(),
            na == b@.len(),
            i <= na,
            forall|j: int| 0 <= j < i ==> a@[j] == b@[j],
        decreases na - i,
    {
        if a.get_char(i) != b.get_char(i) {
            return false;
        }
        i += 1;
    }
    proof {
        assert(a@ =~= b@);
    }
    true
}

/// What the manager does to a filesystem `m`, and what it returns, for a
/// path, an optional content and an operation flag:
/// - `"create"` with content stores it at the path (overwriting);
/// - `"create"` without content changes nothing and succeeds;
/// - `"delete"` removes the file, or fails when no file is there;
/// - any other flag changes nothing and succeeds.
pub open spec fn manage_spec(
    m: Map<Seq<char>, Seq<char>>,
    path: Seq<char>,
    content: Option<Seq<char>>,
    operation: Seq<char>,
) -> (Map<Seq<char>, Seq<char>>, Result<(), Failure>) {
    if operation == "create"@ {
        match content {
            Some(c) => (m.insert(path, c), Ok(())),
            None => (m, Ok(())),
        }
    } else if operation == "delete"@ {
        if m.contains_key(path) {
            (m.remove(path), Ok(()))
        } else {
            (m, Err(Failure::FileDeleteFailure))
        }
    } else {
        (m, Ok(()))
    }
}

/// Creates or deletes the CSV file at `path`, as [`manage_spec`] says.
/// A `create` without content is a deliberate no-op; callers that skip the
/// write this way must expect a later load of the path to fail.
pub fn create_or_delete_csv_file(
    fs: &mut FileSystem,
    path: String,
    content: Option<String>,
    operation: &str,
) -> (r: Result<(), Failure>)
    ensures
        final(fs)@ == manage_spec(old(fs)@, path@, content.deep_view(), operation@).0,
        r == manage_spec(old(fs)@, path@, content.deep_view(), operation@).1,
{
    if str_eq(operation, "create") {
        match content {
            Some(c) => {
                fs.write_file(path, c);
                Ok(())
            },
            None => Ok(()),
        }
    } else if str_eq(operation, "delete") {
        if fs.file_exists(path.as_str()) {
            fs.remove_file(path.as_str());
            Ok(())
        } else {
            Err(Failure::FileDeleteFailure)
        }
    } else {
        Ok(())
    }
}

/// The two flags the manager acts on are distinct words.
pub proof fn lemma_flags_differ()
    ensures
        "create"@ != "delete"@,
{
    reveal_strlit("create");
    reveal_strlit("delete");
    if "create"@ == "delete"@ {
        assert("create"@[0] == "delete"@[0]);
        assert(false);
    }
}

/// Law: a `create` with content puts the file at the path and succeeds, and
/// the `delete` that follows removes it again and succeeds: afterwards no
/// file is at the path.
pub proof fn lemma_create_then_delete(
    m: Map<Seq<char>, Seq<char>>,
    path: Seq<char>,
    content: Seq<char>,
)
    ensures
        manage_spec(m, path, Some(content), "create"@).0.contains_key(path),
        manage_spec(m, path, Some(content), "create"@).1 is Ok,
        manage_spec(
            manage_spec(m, path, Some(content), "create"@).0,
            path,
            None,
            "delete"@,
        ).1 is Ok,
        !manage_spec(
            manage_spec(m, path, Some(content), "create"@).0,
            path,
            None,
            "delete"@,
        ).0.contains_key(path),
{
    lemma_flags_differ();
}

/// Law: a `create` without content leaves the filesystem exactly as it was
/// and raises no error.
pub proof fn lemma_create_without_content_is_noop(m: Map<Seq<char>, Seq<char>>, path: Seq<char>)
    ensures
        manage_spec(m, path, None, "create"@) == (m, Ok::<(), Failure>(())),
{
}

/// Law: a `delete` of a path that holds no file fails with
/// [`Failure::FileDeleteFailure`] and leaves the filesystem unchanged.
pub proof fn lemma_delete_missing_fails(
    m: Map<Seq<char>, Seq<char>>,
    path: Seq<char>,
    content: Option<Seq<char>>,
)
    requires
        !m.contains_key(path),
    ensures
        manage_spec(m, path, content, "delete"@) == (m, Err::<(), Failure>(
            Failure::FileDeleteFailure,
        )),
{
    lemma_flags_differ();
}

} // verus!
