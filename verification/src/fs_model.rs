//! A model of the filesystem as far as the pipeline touches it: a map from
//! paths to file contents. Writing, removing and reading a file are exact
//! map operations, so the lifecycle of the temporary file can be proved.

use vstd::prelude::*;
use vstd::hash_map::StringHashMap;

verus! {

/// The files the pipeline may touch, keyed by path. Its view is the map
/// from each path to the content stored under it.
pub struct FileSystem {
    files: StringHashMap<String>,
}

impl View for FileSystem {
    type V = Map<Seq<char>, Seq<char>>;

    closed spec fn view(&self) -> Map<Seq<char>, Seq<char>> {
        self.files@.map_values(|c: String| c@)
    }
}

impl FileSystem {
    /// An empty filesystem: no path holds a file.
    pub fn new() -> (fs: Self)
        ensures
            fs@ == Map::<Seq<char>, Seq<char>>::empty(),
    {
        let fs = FileSystem { files: StringHashMap::new() };
        proof {
            assert(fs@ =~= Map::<Seq<char>, Seq<char>>::empty());
        }
        fs
    }

    /// Whether a file is present at `path`.
    pub fn file_exists(&self, path: &str) -> (present: bool)
        ensures
            present == self@.contains_key(path@),
    {
        let present = self.files.contains_key(path);
        proof {
            assert(self@.contains_key(path@) == self.files@.contains_key(path@));
        }
        present
    }

    /// Stores `content` at `path`, overwriting whatever was there.
    pub fn write_file(&mut self, path: String, content: String)
        ensures
            final(self)@ == old(self)@.insert(path@, content@),
    {
        let ghost old_files = self.files@;
        let ghost p = path@;
        let ghost c = content@;
        self.files.insert(path, content);
        proof {
            assert(final(self)@ =~= old(self)@.insert(p, c));
        }
    }

    /// Removes the file at `path`; absent paths are left as they are.
    pub fn remove_file(&mut self, path: &str)
        ensures
            final(self)@ == old(self)@.remove(path@),
    {
        self.files.remove(path);
        proof {
            assert(final(self)@ =~= old(self)@.remove(path@));
        }
    }

    /// The content stored at `path`, when a file is there.
    pub fn read_file(&self, path: &str) -> (content: Option<&String>)
        ensures
            content is Some <==> self@.contains_key(path@),
            content matches Some(c) ==> c@ == self@[path@],
    {
        let content = self.files.get(path);
        proof {
            assert(content is Some <==> self@.contains_key(path@));
            if content is Some {
                assert(self@[path@] == self.files@[path@]@);
            }
        }
        content
    }
}

} // verus!
