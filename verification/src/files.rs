//! File identity: one handle for each path.

use crate::util::FileRef;
use vstd::prelude::*;

verus! {

/// The paths that were seen, each once. The handle of a file is the index
/// of its path.
pub struct FileTable {
    paths: Vec<String>,
}

impl View for FileTable {
    type V = Seq<Seq<char>>;

    closed spec fn view(&self) -> Seq<Seq<char>> {
        self.paths@.map_values(|p: String| p@)
    }
}

/// The handle of `path` in `paths`: the index at which it stands, or the
/// length of the table if it is not in it.
pub open spec fn handle_of(paths: Seq<Seq<char>>, path: Seq<char>) -> int {
    if paths.contains(path) {
        choose|i: int| 0 <= i < paths.len() && paths[i] == path
    } else {
        paths.len() as int
    }
}

impl FileTable {
    /// Every path stands in the table once.
    pub open spec fn wf(&self) -> bool {
        self@.no_duplicates()
    }

    /// The empty table.
    pub fn new() -> (t: Self)
        ensures
            t.wf(),
            t@ == Seq::<Seq<char>>::empty(),
    {
        let t = FileTable { paths: Vec::new() };
        assert(t@ =~= Seq::<Seq<char>>::empty());
        t
    }

    /// The path of the file `file`, if the table has given that handle out.
    pub fn path(&self, file: FileRef) -> (r: Option<&String>)
        ensures
            match r {
                Some(p) => file < self@.len() && p@ == self@[file as int],
                None => file >= self@.len(),
            },
    {
        if file < self.paths.len() as u64 {
            Some(&self.paths[file as usize])
        } else {
            None
        }
    }

    /// The handle of the file at `path`: the one that the path was given
    /// before, or a new one.
    pub fn file(&mut self, path: String) -> (f: FileRef)
        requires
            old(self).wf(),
        ensures
            final(self).wf(),
            f == handle_of(old(self)@, path@),
            final(self)@ == if old(self)@.contains(path@) {
                old(self)@
            } else {
                old(self)@.push(path@)
            },
            f < final(self)@.len(),
            final(self)@[f as int] == path@,
    {
        let ghost before = self@;
        let mut i: usize = 0;
        while i < self.paths.len()
            invariant
                i <= self.paths.len(),
                self@ == before,
                before.no_duplicates(),
                forall|j: int| 0 <= j < i ==> before[j] != path@,
            decreases self.paths.len() - i,
        {
            if self.paths[i] == path {
                proof {
                    assert(before[i as int] == path@);
                    assert(before.contains(path@));
                    let c = handle_of(before, path@);
                    assert(before[c] == path@);
                }
                return i as u64;
            }
            i = i + 1;
        }
        assert(!before.contains(path@));
        self.paths.push(path);
        assert(self@ =~= before.push(path@));
        i as u64
    }
}

} // verus!
