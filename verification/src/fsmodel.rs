use vstd::prelude::*;
use vstd::hash_map::StringHashMap;

use crate::path::parent_of;
use crate::path::parent_str;

verus! {

/// A model of the slice of the file system that logging touches: the set of
/// directories that exist and the text content of the files that exist, both
/// named by their path strings.  Operations mirror the underlying
/// file-system calls they stand for: creating a directory or a file demands
/// that the parent directory already exist, and one call creates exactly one
/// level.  Permissions and concurrent writers are outside the model.
pub struct FsState {
    dir_map: StringHashMap<()>,
    file_map: StringHashMap<String>,
}

impl FsState {
    /// The set of directory paths that exist.
    pub closed spec fn dirs(self) -> Set<Seq<char>> {
        self.dir_map@.dom()
    }

    /// The contents of the files that exist, by path.
    pub closed spec fn files(self) -> Map<Seq<char>, Seq<char>> {
        Map::new(
            |p: Seq<char>| self.file_map@.dom().contains(p),
            |p: Seq<char>| self.file_map@[p]@,
        )
    }

    /// An empty model: no directories and no files.
    pub fn new() -> (r: FsState)
        ensures
            r.dirs() == Set::<Seq<char>>::empty(),
            r.files() == Map::<Seq<char>, Seq<char>>::empty(),
    {
        let r = FsState { dir_map: StringHashMap::new(), file_map: StringHashMap::new() };
        proof {
            assert(r.dirs() =~= Set::<Seq<char>>::empty());
            assert(r.files() =~= Map::<Seq<char>, Seq<char>>::empty());
        }
        r
    }

    /// Seeds a directory that already exists (caller and test setup).
    pub fn add_dir(&mut self, d: &str)
        ensures
            final(self).dirs() == old(self).dirs().insert(d@),
            final(self).files() == old(self).files(),
    {
        self.dir_map.insert(d.to_owned(), ());
        proof {
            assert(self.dirs() =~= old(self).dirs().insert(d@));
            assert(self.files() =~= old(self).files());
        }
    }

    /// Seeds a file that already exists, with its content (caller and test
    /// setup).
    pub fn add_file(&mut self, p: &str, content: &str)
        ensures
            final(self).files() == old(self).files().insert(p@, content@),
            final(self).dirs() == old(self).dirs(),
    {
        self.file_map.insert(p.to_owned(), content.to_owned());
        proof {
            assert(self.files() =~= old(self).files().insert(p@, content@));
        }
    }

    /// Whether a directory exists at `d`.
    pub fn is_dir(&self, d: &str) -> (r: bool)
        ensures
            r == self.dirs().contains(d@),
    {
        self.dir_map.contains_key(d)
    }

    /// Whether anything exists at `p`: a file or a directory.
    pub fn path_exists(&self, p: &str) -> (r: bool)
        ensures
            r == (self.files().contains_key(p@) || self.dirs().contains(p@)),
    {
        self.file_map.contains_key(p) || self.dir_map.contains_key(p)
    }

    /// The content of the file at `p`, when one exists.
    pub fn read_file(&self, p: &str) -> (r: Option<String>)
        ensures
            match r {
                Some(c) => self.files().contains_key(p@) && c@ == self.files()[p@],
                None => !self.files().contains_key(p@),
            },
    {
        match self.file_map.get(p) {
            Some(c) => Some(c.clone()),
            None => None,
        }
    }

    /// Creates the directory `d`, one level at a time: succeeds exactly when
    /// the parent directory exists and nothing stands at `d` itself.  On
    /// failure the state is unchanged.
    pub fn create_dir(&mut self, d: &str) -> (r: bool)
        ensures
            r == (old(self).dirs().contains(parent_of(d@)) && !old(self).dirs().contains(d@)
                && !old(self).files().contains_key(d@)),
            r ==> final(self).dirs() == old(self).dirs().insert(d@) && final(self).files()
                == old(self).files(),
            !r ==> *final(self) == *old(self),
    {
        let parent = parent_str(d);
        if self.dir_map.contains_key(parent.as_str()) && !self.dir_map.contains_key(d)
            && !self.file_map.contains_key(d) {
            self.dir_map.insert(d.to_owned(), ());
            proof {
                assert(self.dirs() =~= old(self).dirs().insert(d@));
                assert(self.files() =~= old(self).files());
            }
            true
        } else {
            false
        }
    }

    /// Writes `content` as the whole content of the file at `p`, creating or
    /// truncating it: succeeds exactly when the parent directory exists and
    /// no directory stands at `p`.  On failure the state is unchanged.
    pub fn write_file(&mut self, p: &str, content: &str) -> (r: bool)
        ensures
            r == (old(self).dirs().contains(parent_of(p@)) && !old(self).dirs().contains(p@)),
            r ==> final(self).files() == old(self).files().insert(p@, content@)
                && final(self).dirs() == old(self).dirs(),
            !r ==> *final(self) == *old(self),
    {
        let parent = parent_str(p);
        if self.dir_map.contains_key(parent.as_str()) && !self.dir_map.contains_key(p) {
            self.file_map.insert(p.to_owned(), content.to_owned());
            proof {
                assert(self.files() =~= old(self).files().insert(p@, content@));
            }
            true
        } else {
            false
        }
    }

    /// Creates an empty file at `p`, truncating an existing one: succeeds
    /// exactly when the parent directory exists and no directory stands at
    /// `p`.  On failure the state is unchanged.
    pub fn create_file(&mut self, p: &str) -> (r: bool)
        ensures
            r == (old(self).dirs().contains(parent_of(p@)) && !old(self).dirs().contains(p@)),
            r ==> final(self).files() == old(self).files().insert(p@, Seq::<char>::empty())
                && final(self).dirs() == old(self).dirs(),
            !r ==> *final(self) == *old(self),
    {
        let r = self.write_file(p, "");
        proof {
            reveal_strlit("");
            assert(""@ =~= Seq::<char>::empty());
        }
        r
    }
}

} // verus!
