//! An explicit snapshot of the part of the filesystem that resolution
//! probes: a list of paths, each a file or a directory, files with their
//! text. Callers that sit at the filesystem boundary build one by probing;
//! every function here is pure over it, so the resolution heuristics are
//! verified against this model. The order of the entries is the order in
//! which a directory scan would enumerate them.
use vstd::prelude::*;
use crate::strutil::str_eq;

verus! {

/// Whether a path names a file or a directory.
#[derive(Clone, Copy, Debug, PartialEq, Eq, Structural)]
pub enum FsNodeKind {
    File,
    Dir,
}

/// One probed path.
#[derive(Clone, Debug)]
pub struct FsEntry {
    /// Absolute path, `/`-separated.
    pub path: String,
    /// File or directory.
    pub kind: FsNodeKind,
    /// The file's text; empty and meaningless for a directory.
    pub content: String,
}

/// The probed part of a filesystem.
#[derive(Clone, Debug)]
pub struct FsSnapshot {
    pub entries: Vec<FsEntry>,
}

/// Index of the first entry whose path is `p`, if any.
pub open spec fn spec_entry_index(entries: Seq<FsEntry>, p: Seq<char>) -> Option<int>
    decreases entries.len(),
{
    if entries.len() == 0 {
        None
    } else if entries[0].path@ == p {
        Some(0int)
    } else {
        match spec_entry_index(entries.skip(1), p) {
            Some(i) => Some(i + 1),
            None => None,
        }
    }
}

/// `spec_entry_index` returns the first matching index; `None` means no
/// entry has path `p`.
pub proof fn lemma_entry_index_first(entries: Seq<FsEntry>, p: Seq<char>)
    ensures
        match spec_entry_index(entries, p) {
            Some(i) => 0 <= i < entries.len() && entries[i].path@ == p && (forall|j: int|
                0 <= j < i ==> entries[j].path@ != p),
            None => forall|j: int| 0 <= j < entries.len() ==> entries[j].path@ != p,
        },
    decreases entries.len(),
{
    if entries.len() == 0 {
    } else if entries[0].path@ == p {
    } else {
        lemma_entry_index_first(entries.skip(1), p);
        match spec_entry_index(entries.skip(1), p) {
            Some(i) => {
                assert(entries[i + 1].path@ == entries.skip(1)[i].path@);
                assert forall|j: int| 0 <= j < i + 1 implies entries[j].path@ != p by {
                    if j > 0 {
                        assert(entries[j].path@ == entries.skip(1)[j - 1].path@);
                    }
                }
            },
            None => {
                assert forall|j: int| 0 <= j < entries.len() implies entries[j].path@ != p by {
                    if j > 0 {
                        assert(entries[j].path@ == entries.skip(1)[j - 1].path@);
                    }
                }
            },
        }
    }
}

impl FsSnapshot {
    /// The kind recorded for `p`: that of its first entry, or `None`
    /// when the snapshot has no entry for `p`.
    pub open spec fn kind_of(self, p: Seq<char>) -> Option<FsNodeKind> {
        match spec_entry_index(self.entries@, p) {
            Some(i) => Some(self.entries@[i].kind),
            None => None,
        }
    }

    /// The text recorded for the file `p`.
    pub open spec fn content_of(self, p: Seq<char>) -> Option<Seq<char>> {
        match spec_entry_index(self.entries@, p) {
            Some(i) => Some(self.entries@[i].content@),
            None => None,
        }
    }

    /// Some entry names `p`.
    pub open spec fn contains_path(self, p: Seq<char>) -> bool {
        spec_entry_index(self.entries@, p) is Some
    }

    /// `p` is recorded as a directory.
    pub open spec fn is_dir(self, p: Seq<char>) -> bool {
        self.kind_of(p) == Some(FsNodeKind::Dir)
    }

    /// `p` is recorded as a file.
    pub open spec fn is_file(self, p: Seq<char>) -> bool {
        self.kind_of(p) == Some(FsNodeKind::File)
    }

    /// A fresh, empty snapshot.
    pub fn new() -> (r: FsSnapshot)
        ensures
            r.entries@.len() == 0,
    {
        FsSnapshot { entries: Vec::new() }
    }

    /// Record a directory at `path`.
    pub fn add_dir(&mut self, path: String)
        ensures
            final(self).entries@.len() == old(self).entries@.len() + 1,
            final(self).entries@ == old(self).entries@.push(final(self).entries@.last()),
            final(self).entries@.last().path == path,
            final(self).entries@.last().kind == FsNodeKind::Dir,
    {
        let content = String::new();
        self.entries.push(FsEntry { path, kind: FsNodeKind::Dir, content });
    }

    /// Record a file at `path` holding `content`.
    pub fn add_file(&mut self, path: String, content: String)
        ensures
            final(self).entries@ == old(self).entries@.push(
                FsEntry { path, kind: FsNodeKind::File, content },
            ),
    {
        self.entries.push(FsEntry { path, kind: FsNodeKind::File, content });
    }

    /// Look up the first entry recorded for `p`.
    pub fn lookup(&self, p: &str) -> (r: Option<&FsEntry>)
        ensures
            match r {
                Some(e) => {
                    &&& spec_entry_index(self.entries@, p@) is Some
                    &&& *e == self.entries@[spec_entry_index(self.entries@, p@).unwrap()]
                    &&& e.path@ == p@
                },
                None => spec_entry_index(self.entries@, p@) is None,
            },
    {
        proof {
            lemma_entry_index_first(self.entries@, p@);
        }
        let n = self.entries.len();
        let mut i: usize = 0;
        while i < n
            invariant
                n == self.entries@.len(),
                i <= n,
                forall|j: int| 0 <= j < i ==> self.entries@[j].path@ != p@,
            decreases n - i,
        {
            let e = &self.entries[i];
            if str_eq(e.path.as_str(), p) {
                proof {
                    lemma_entry_index_first(self.entries@, p@);
                    let k = spec_entry_index(self.entries@, p@).unwrap();
                    assert(k == i) by {
                        if k < i {
                            assert(self.entries@[k].path@ != p@);
                        }
                        if k > i {
                            assert(self.entries@[i as int].path@ != p@);
                        }
                    }
                }
                return Some(e);
            }
            i = i + 1;
        }
        proof {
            lemma_entry_index_first(self.entries@, p@);
        }
        None
    }

    /// The kind recorded for `p`, executably.
    pub fn lookup_kind(&self, p: &str) -> (r: Option<FsNodeKind>)
        ensures
            r == self.kind_of(p@),
    {
        match self.lookup(p) {
            Some(e) => Some(e.kind),
            None => None,
        }
    }
}

} // verus!
