//! The documents that the server was told about.

use vstd::prelude::*;

verus! {

/// What is remembered of a document: the version that the server was last told of, and the
/// digest of its contents then.
#[derive(Debug, PartialEq, Eq)]
pub struct OpenFileState {
    pub version: i32,
    pub last_sha256: String,
}

/// An [`OpenFileState`] with its digest taken as a sequence.
pub ghost struct Record {
    pub version: int,
    pub sha256: Seq<char>,
}

impl View for OpenFileState {
    type V = Record;

    open spec fn view(&self) -> Record {
        Record { version: self.version as int, sha256: self.last_sha256@ }
    }
}

/// An entry of the table: a path and what is remembered of the document there.
#[derive(Debug)]
struct Entry {
    path: Vec<u8>,
    state: OpenFileState,
}

/// The documents that are open at the server, by their canonical paths.
#[derive(Debug)]
pub struct OpenFiles {
    entries: Vec<Entry>,
}

spec fn holds(entries: Seq<Entry>, path: Seq<u8>) -> bool {
    exists|i: int| 0 <= i < entries.len() && (#[trigger] entries[i]).path@ == path
}

spec fn index_of(entries: Seq<Entry>, path: Seq<u8>) -> int {
    choose|i: int| 0 <= i < entries.len() && (#[trigger] entries[i]).path@ == path
}

impl View for OpenFiles {
    type V = Map<Seq<u8>, Record>;

    closed spec fn view(&self) -> Map<Seq<u8>, Record> {
        Map::new(
            |path: Seq<u8>| holds(self.entries@, path),
            |path: Seq<u8>| self.entries@[index_of(self.entries@, path)].state@,
        )
    }
}

/// A copy of a path.
pub(crate) fn copy_path(path: &Vec<u8>) -> (copy: Vec<u8>)
    ensures
        copy@ == path@,
{
    let copy: Vec<u8> = path.clone();
    assert(copy@ =~= path@);
    copy
}

fn same_path(left: &Vec<u8>, right: &Vec<u8>) -> (same: bool)
    ensures
        same == (left@ == right@),
{
    if left.len() != right.len() {
        return false;
    }
    let mut i: usize = 0;
    while i < left.len()
        invariant
            i <= left.len(),
            left.len() == right.len(),
            forall|j: int| 0 <= j < i ==> left@[j] == right@[j],
        decreases left.len() - i,
    {
        if left[i] != right[i] {
            return false;
        }
        i = i + 1;
    }
    assert(left@ =~= right@);
    true
}

impl OpenFiles {
    /// No path has two entries.
    #[verifier::type_invariant]
    closed spec fn distinct(self) -> bool {
        forall|i: int, j: int|
            0 <= i < self.entries@.len() && 0 <= j < self.entries@.len() && (
            #[trigger] self.entries@[i]).path@ == (#[trigger] self.entries@[j]).path@ ==> i == j
    }

    /// A table without documents.
    pub fn new() -> (files: Self)
        ensures
            files@ == Map::<Seq<u8>, Record>::empty(),
    {
        let files: OpenFiles = OpenFiles { entries: Vec::new() };
        assert(files@ =~= Map::<Seq<u8>, Record>::empty());
        files
    }

    fn position(&self, path: &Vec<u8>) -> (found: Option<usize>)
        ensures
            match found {
                Some(i) => i < self.entries@.len() && self.entries@[i as int].path@ == path@,
                None => !holds(self.entries@, path@),
            },
    {
        let mut i: usize = 0;
        while i < self.entries.len()
            invariant
                i <= self.entries@.len(),
                forall|j: int| 0 <= j < i ==> (#[trigger] self.entries@[j]).path@ != path@,
            decreases self.entries@.len() - i,
        {
            if same_path(&self.entries[i].path, path) {
                return Some(i);
            }
            i = i + 1;
        }
        None
    }

    /// What is remembered of the document at `path`.
    pub fn get(&self, path: &Vec<u8>) -> (state: Option<&OpenFileState>)
        ensures
            match state {
                Some(state) => self@.contains_key(path@) && state@ == self@[path@],
                None => !self@.contains_key(path@),
            },
    {
        proof {
            use_type_invariant(self);
        }
        match self.position(path) {
            Some(i) => {
                assert(holds(self.entries@, path@));
                assert(index_of(self.entries@, path@) == i);
                Some(&self.entries[i].state)
            },
            None => None,
        }
    }

    /// Remembers `state` of the document at `path`, in place of what was remembered before.
    pub fn insert(&mut self, path: Vec<u8>, state: OpenFileState)
        ensures
            final(self)@ == old(self)@.insert(path@, state@),
    {
        proof {
            use_type_invariant(&*self);
        }
        let ghost before = self.entries@;
        let ghost map_before = self@;
        let ghost key = path@;
        let ghost record = state@;
        let entry: Entry = Entry { path, state };
        let found: Option<usize> = self.position(&entry.path);
        let mut entries: Vec<Entry> = Vec::new();
        std::mem::swap(&mut entries, &mut self.entries);
        match found {
            Some(i) => {
                entries.set(i, entry);
            },
            None => {
                entries.push(entry);
            },
        }
        proof {
            let at = match found {
                Some(i) => i as int,
                None => before.len() as int,
            };
            assert forall|i: int, j: int|
                0 <= i < entries@.len() && 0 <= j < entries@.len() && (#[trigger] entries@[i]).path@
                    == (#[trigger] entries@[j]).path@ implies i == j by {
                if i != at && j != at {
                    assert(before[i].path@ == before[j].path@);
                } else if i != at {
                    assert(before[i].path@ == key);
                } else if j != at {
                    assert(before[j].path@ == key);
                }
            }
            assert(entries@[at].path@ == key);
            assert forall|p: Seq<u8>| holds(entries@, p) == (p == key || holds(before, p)) by {
                if holds(before, p) {
                    let i = index_of(before, p);
                    assert(before[i].path@ == p);
                    assert(entries@[i].path@ == p);
                }
                if holds(entries@, p) && p != key {
                    let i = index_of(entries@, p);
                    assert(entries@[i].path@ == p);
                    assert(before[i].path@ == p);
                }
            }
            assert forall|p: Seq<u8>| holds(entries@, p) implies entries@[index_of(
                entries@,
                p,
            )].state@ == (if p == key {
                record
            } else {
                before[index_of(before, p)].state@
            }) by {
                let i = index_of(entries@, p);
                assert(entries@[i].path@ == p);
                if p == key {
                    assert(entries@[at].path@ == p);
                } else {
                    assert(holds(before, p));
                    let k = index_of(before, p);
                    assert(before[k].path@ == p);
                    assert(entries@[k].path@ == p);
                }
            }
        }
        self.entries = entries;
        assert(self@ =~= map_before.insert(key, record));
    }
}

} // verus!
