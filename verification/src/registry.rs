//! The tailer registry: at most one tailer for every path.
//!
//! The tailers are kept in a vector that is searched from the front. A
//! sidecar follows a handful of files, and kept this way the registry's
//! meaning, a map from path to tailer, is proved of the code itself.

use crate::sidecar::{chunk_report, report_view, PollError, Tailer, TailerState};
use vstd::prelude::*;

verus! {

/// The tailers of `entries` by their paths. Where a path occurs twice the
/// later entry counts.
pub open spec fn by_path(entries: Seq<TailerState>) -> Map<Seq<char>, TailerState>
    decreases entries.len(),
{
    if entries.len() == 0 {
        Map::empty()
    } else {
        by_path(entries.drop_last()).insert(entries.last().path, entries.last())
    }
}

/// True where no two of `entries` have the same path.
pub open spec fn distinct_paths(entries: Seq<TailerState>) -> bool {
    forall|i: int, j: int|
        0 <= i < j < entries.len() ==> (#[trigger] entries[i]).path != (#[trigger] entries[j]).path
}

/// The paths of a registry are those of its entries.
pub proof fn lemma_by_path_keys(entries: Seq<TailerState>, path: Seq<char>)
    ensures
        by_path(entries).contains_key(path) <==> exists|i: int|
            0 <= i < entries.len() && (#[trigger] entries[i]).path == path,
    decreases entries.len(),
{
    if entries.len() > 0 {
        let before = entries.drop_last();
        lemma_by_path_keys(before, path);
        if by_path(entries).contains_key(path) {
            if entries.last().path == path {
                assert(entries[entries.len() - 1].path == path);
            } else {
                let i = choose|i: int| 0 <= i < before.len() && (#[trigger] before[i]).path == path;
                assert(entries[i].path == path);
            }
        }
        if exists|i: int| 0 <= i < entries.len() && (#[trigger] entries[i]).path == path {
            let i = choose|i: int| 0 <= i < entries.len() && (#[trigger] entries[i]).path == path;
            if i < before.len() {
                assert(before[i].path == path);
            }
        }
    }
}

/// Under its path a registry without doubles holds the entry itself.
pub proof fn lemma_by_path_entry(entries: Seq<TailerState>, i: int)
    requires
        distinct_paths(entries),
        0 <= i < entries.len(),
    ensures
        by_path(entries).contains_key(entries[i].path),
        by_path(entries)[entries[i].path] == entries[i],
    decreases entries.len(),
{
    let before = entries.drop_last();
    if i < entries.len() - 1 {
        assert(distinct_paths(before)) by {
            assert forall|a: int, b: int| 0 <= a < b < before.len() implies (#[trigger] before[a]).path
                != (#[trigger] before[b]).path by {
                assert(before[a] == entries[a] && before[b] == entries[b]);
            }
        }
        assert(before[i] == entries[i]);
        lemma_by_path_entry(before, i);
        assert(entries[i].path != entries[entries.len() - 1].path);
    }
}

/// Putting another tailer in the place of an entry with the same path puts
/// it under that path in the registry.
pub proof fn lemma_by_path_update(entries: Seq<TailerState>, i: int, state: TailerState)
    requires
        distinct_paths(entries),
        0 <= i < entries.len(),
        state.path == entries[i].path,
    ensures
        distinct_paths(entries.update(i, state)),
        by_path(entries.update(i, state)) == by_path(entries).insert(state.path, state),
    decreases entries.len(),
{
    let after = entries.update(i, state);
    assert(distinct_paths(after)) by {
        assert forall|a: int, b: int| 0 <= a < b < after.len() implies (#[trigger] after[a]).path
            != (#[trigger] after[b]).path by {
            assert(after[a].path == entries[a].path && after[b].path == entries[b].path);
        }
    }
    let before = entries.drop_last();
    if i == entries.len() - 1 {
        assert(after.drop_last() =~= before);
        assert(by_path(after) =~= by_path(entries).insert(state.path, state));
    } else {
        assert(distinct_paths(before)) by {
            assert forall|a: int, b: int| 0 <= a < b < before.len() implies (#[trigger] before[a]).path
                != (#[trigger] before[b]).path by {
                assert(before[a] == entries[a] && before[b] == entries[b]);
            }
        }
        assert(before[i] == entries[i]);
        lemma_by_path_update(before, i, state);
        assert(after.drop_last() =~= before.update(i, state));
        assert(after.last() == entries.last());
        assert(entries[i].path != entries[entries.len() - 1].path);
        assert(by_path(after) =~= by_path(entries).insert(state.path, state));
    }
}

/// The views of a run of tailers.
pub open spec fn states(entries: Seq<Tailer>) -> Seq<TailerState> {
    entries.map_values(|t: Tailer| t@)
}

/// All tailers of the sidecar, by the paths of the files they follow.
#[derive(Debug)]
pub struct Tailers {
    entries: Vec<Tailer>,
}

impl View for Tailers {
    type V = Map<Seq<char>, TailerState>;

    closed spec fn view(&self) -> Map<Seq<char>, TailerState> {
        by_path(states(self.entries@))
    }
}

impl Tailers {
    #[verifier::type_invariant]
    spec fn no_doubles(&self) -> bool {
        distinct_paths(states(self.entries@))
    }

    /// A registry without tailers.
    pub fn new() -> (tailers: Self)
        ensures
            tailers@ == Map::<Seq<char>, TailerState>::empty(),
    {
        Tailers { entries: Vec::new() }
    }

    fn position(&self, path: &String) -> (r: Option<usize>)
        ensures
            match r {
                Some(i) => i < self.entries@.len() && self.entries@[i as int]@.path == path@,
                None => !self@.contains_key(path@),
            },
    {
        let n = self.entries.len();
        let mut i: usize = 0;
        while i < n
            invariant
                i <= n == self.entries@.len(),
                forall|k: int| 0 <= k < i ==> (#[trigger] states(self.entries@)[k]).path != path@,
            decreases n - i,
        {
            if *self.entries[i].path() == *path {
                return Some(i);
            }
            assert(states(self.entries@)[i as int] == self.entries@[i as int]@);
            i += 1;
        }
        proof {
            lemma_by_path_keys(states(self.entries@), path@);
        }
        None
    }

    /// The tailer of the file at `path`, if there is one.
    pub fn get(&self, path: &String) -> (r: Option<&Tailer>)
        ensures
            match r {
                Some(tailer) => self@.contains_key(path@) && self@[path@] == tailer@ && tailer@.path
                    == path@,
                None => !self@.contains_key(path@),
            },
    {
        match self.position(path) {
            Some(i) => {
                proof {
                    use_type_invariant(self);
                    lemma_by_path_entry(states(self.entries@), i as int);
                }
                Some(&self.entries[i])
            },
            None => None,
        }
    }

    /// Puts `tailer` in the registry unless the registry has a tailer for
    /// its path already; that one is kept then. Returns whether `tailer` was
    /// put in.
    pub fn insert(&mut self, tailer: Tailer) -> (inserted: bool)
        ensures
            inserted == !old(self)@.contains_key(tailer@.path),
            final(self)@ == if inserted {
                old(self)@.insert(tailer@.path, tailer@)
            } else {
                old(self)@
            },
    {
        proof {
            use_type_invariant(&*self);
        }
        match self.position(tailer.path()) {
            Some(i) => {
                proof {
                    lemma_by_path_entry(states(self.entries@), i as int);
                }
                false
            },
            None => {
                let ghost before = states(self.entries@);
                let mut entries: Vec<Tailer> = Vec::new();
                core::mem::swap(&mut self.entries, &mut entries);
                entries.push(tailer);
                proof {
                    let after = states(entries@);
                    lemma_by_path_keys(before, tailer@.path);
                    assert(after =~= before.push(tailer@));
                    assert(after.drop_last() =~= before);
                    assert forall|a: int, b: int| 0 <= a < b < after.len() implies (#[trigger] after[a]).path
                        != (#[trigger] after[b]).path by {
                        assert(after[a] == before[a]);
                        if b < before.len() {
                            assert(after[b] == before[b]);
                        }
                    }
                }
                self.entries = entries;
                true
            },
        }
    }

    /// Takes in that the file at `path` was opened again and has the identity
    /// `dev_ino`: its tailer starts over at the first byte. Returns whether
    /// the registry has a tailer for `path`; nothing changes where not.
    pub fn reopened(&mut self, path: &String, dev_ino: (u64, u64)) -> (known: bool)
        ensures
            known == old(self)@.contains_key(path@),
            final(self)@ == if known {
                old(self)@.insert(
                    path@,
                    TailerState { offset: 0, id: dev_ino, ..old(self)@[path@] },
                )
            } else {
                old(self)@
            },
    {
        proof {
            use_type_invariant(&*self);
        }
        match self.position(path) {
            Some(i) => {
                let ghost before = states(self.entries@);
                let mut entries: Vec<Tailer> = Vec::new();
                core::mem::swap(&mut self.entries, &mut entries);
                let mut tailer = entries.remove(i);
                tailer.reopened(dev_ino);
                entries.insert(i, tailer);
                proof {
                    lemma_by_path_entry(before, i as int);
                    lemma_by_path_update(before, i as int, tailer@);
                    assert(states(entries@) =~= before.update(i as int, tailer@));
                }
                self.entries = entries;
                true
            },
            None => false,
        }
    }

    /// Ends a poll of the file at `path`: `chunk` are the bytes read from the
    /// tailer's offset to the end of the file, `position` is where the file
    /// stands after them. The tailer's offset moves there, and what there is
    /// to report is returned as by the tailer's own `poll`. `None` where the
    /// registry has no tailer for `path`; nothing changes then.
    pub fn poll(&mut self, path: &String, chunk: &[u8], position: u64) -> (r: Option<
        Result<Option<String>, PollError>,
    >)
        ensures
            r is Some <==> old(self)@.contains_key(path@),
            final(self)@ == if r is Some {
                old(self)@.insert(path@, TailerState { offset: position, ..old(self)@[path@] })
            } else {
                old(self)@
            },
            r matches Some(outcome) ==> report_view(outcome) == chunk_report(chunk@),
    {
        proof {
            use_type_invariant(&*self);
        }
        match self.position(path) {
            Some(i) => {
                let ghost before = states(self.entries@);
                let mut entries: Vec<Tailer> = Vec::new();
                core::mem::swap(&mut self.entries, &mut entries);
                let mut tailer = entries.remove(i);
                let outcome = tailer.poll(chunk, position);
                entries.insert(i, tailer);
                proof {
                    lemma_by_path_entry(before, i as int);
                    lemma_by_path_update(before, i as int, tailer@);
                    assert(states(entries@) =~= before.update(i as int, tailer@));
                }
                self.entries = entries;
                Some(outcome)
            },
            None => None,
        }
    }
}

} // verus!
