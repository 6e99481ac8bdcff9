//! An in-memory registry of run records with unique identifiers.
//!
//! This is the decision core of the run storage API: creating, saving,
//! fetching, deleting and counting runs, with insert-or-replace semantics
//! keyed by the run id.  A persistence adapter wraps these operations
//! around its database.

use vstd::prelude::*;
use vstd::string::StringExecFns;

use crate::run_record::RunRecord;

verus! {

/// First index at or after `i` whose record carries `id`; `-1` when there
/// is none.
pub open spec fn spec_find_run(s: Seq<RunRecord>, id: Seq<char>, i: nat) -> int
    decreases s.len() - i,
{
    if i >= s.len() {
        -1
    } else if s[i as int].id@ == id {
        i as int
    } else {
        spec_find_run(s, id, i + 1)
    }
}

/// An in-memory collection of run records, at most one per identifier.
#[derive(Debug, Clone)]
pub struct RunStore {
    /// The stored runs, in insertion order.
    pub runs: Vec<RunRecord>,
}

impl RunStore {
    /// No two stored runs share an identifier.
    pub open spec fn wf(self) -> bool {
        forall|i: int, j: int|
            0 <= i < j < self.runs@.len() ==> (#[trigger] self.runs@[i]).id@ != (
            #[trigger] self.runs@[j]).id@
    }

    /// Creates an empty store.
    pub fn new() -> (r: RunStore)
        ensures
            r.runs@.len() == 0,
            r.wf(),
    {
        RunStore { runs: Vec::new() }
    }

    /// The first stored index of `id`, if any.
    fn find(&self, id: &String) -> (r: Option<usize>)
        ensures
            match r {
                Some(k) => 0 <= k < self.runs@.len() && spec_find_run(self.runs@, id@, 0)
                    == k as int,
                None => spec_find_run(self.runs@, id@, 0) < 0,
            },
    {
        let ghost s = self.runs@;
        let n: usize = self.runs.len();
        let mut i: usize = 0;
        while i < n
            invariant
                0 <= i <= n,
                n == s.len(),
                self.runs@ == s,
                spec_find_run(s, id@, 0) == spec_find_run(s, id@, i as nat),
            decreases n - i,
        {
            if self.runs[i].id == *id {
                return Some(i);
            }
            i = i + 1;
        }
        None
    }

    /// Inserts the record, or replaces the stored record with its id.
    pub fn save_run(&mut self, record: RunRecord)
        requires
            old(self).wf(),
        ensures
            final (self).wf(),
            ({
                let s = old(self).runs@;
                let j = spec_find_run(s, record.id@, 0);
                &&& (j < 0 ==> final (self).runs@ == s.push(record))
                &&& (j >= 0 ==> final (self).runs@ == s.update(j, record))
            }),
    {
        let ghost s = self.runs@;
        let found = self.find(&record.id);
        match found {
            Some(k) => {
                proof {
                    lemma_find_run_found(s, record.id@, 0);
                }
                self.runs.set(k, record);
                proof {
                    assert forall|i: int, j: int|
                        0 <= i < j < self.runs@.len() implies (#[trigger] self.runs@[i]).id@ != (
                        #[trigger] self.runs@[j]).id@ by {
                        assert(s[k as int].id@ == record.id@);
                    }
                }
            },
            None => {
                self.runs.push(record);
                proof {
                    lemma_find_run_none(s, record.id@, 0);
                    assert forall|i: int, j: int|
                        0 <= i < j < self.runs@.len() implies (#[trigger] self.runs@[i]).id@ != (
                        #[trigger] self.runs@[j]).id@ by {
                        if j == s.len() {
                            assert(s[i].id@ != record.id@);
                        }
                    }
                }
            },
        }
    }

    /// The stored record with the given id, if any.
    pub fn get_run(&self, id: &str) -> (r: Option<&RunRecord>)
        ensures
            match r {
                Some(rec) => spec_find_run(self.runs@, id@, 0) >= 0 && *rec == self.runs@[
                    spec_find_run(self.runs@, id@, 0)],
                None => spec_find_run(self.runs@, id@, 0) < 0,
            },
    {
        let id_owned: String = id.to_owned();
        let found = self.find(&id_owned);
        match found {
            Some(k) => Some(&self.runs[k]),
            None => None,
        }
    }
}

/// A found first-match index lies inside the sequence.
proof fn lemma_find_run_inside(s: Seq<RunRecord>, id: Seq<char>, i: nat)
    requires
        spec_find_run(s, id, i) >= 0,
    ensures
        i <= spec_find_run(s, id, i) < s.len(),
    decreases s.len() - i,
{
    if i < s.len() && s[i as int].id@ != id {
        lemma_find_run_inside(s, id, i + 1);
    }
}

/// A found first-match index matches and lies inside the sequence.
proof fn lemma_find_run_found(s: Seq<RunRecord>, id: Seq<char>, i: nat)
    requires
        spec_find_run(s, id, i) >= 0,
    ensures
        i <= spec_find_run(s, id, i) < s.len(),
        s[spec_find_run(s, id, i)].id@ == id,
    decreases s.len() - i,
{
    if i < s.len() && s[i as int].id@ != id {
        lemma_find_run_found(s, id, i + 1);
    }
}

/// When no index matches, every entry from the scan start differs.
proof fn lemma_find_run_none(s: Seq<RunRecord>, id: Seq<char>, i: nat)
    requires
        spec_find_run(s, id, i) < 0,
        i <= s.len(),
    ensures
        forall|j: int| i <= j < s.len() ==> (#[trigger] s[j]).id@ != id,
    decreases s.len() - i,
{
    if i < s.len() {
        lemma_find_run_none(s, id, i + 1);
    }
}

/// Creates a fresh run under the given identifier and stores it; the
/// record starts with no points.  Returns the identifier.
pub fn create_run(store: &mut RunStore, id: String) -> (r: Result<String, String>)
    requires
        old(store).wf(),
    ensures
        final (store).wf(),
        ({
            let s = old(store).runs@;
            let j = spec_find_run(s, id@, 0);
            &&& (r matches Ok(out) && out@ == id@)
            &&& (j < 0 ==> final (store).runs@.len() == s.len() + 1)
            &&& (j >= 0 ==> final (store).runs@.len() == s.len())
            &&& ({
                let k = if j < 0 {
                    s.len() as int
                } else {
                    j
                };
                let rec = final (store).runs@[k];
                rec.id@ == id@ && rec.coordinates@.len() == 0 && rec.total_distance_meters == 0
                    && rec.duration_ms == 0
            })
        }),
{
    let ghost s = store.runs@;
    let id_out: String = id.clone();
    let record: RunRecord = RunRecord::new(id, String::new(), Vec::new(), 0);
    let ghost recg = record;
    proof {
        assert(recg.coordinates@.len() == 0);
        assert(recg.total_distance_meters == 0);
        assert(recg.duration_ms == 0);
    }
    store.save_run(record);
    proof {
        let j = spec_find_run(s, id@, 0);
        if j >= 0 {
            lemma_find_run_inside(s, id@, 0);
        }
    }
    Ok(id_out)
}

/// Deletes the run with the given identifier.  Returns whether a run was
/// deleted.
pub fn delete_run(store: &mut RunStore, id: &str) -> (r: Result<bool, String>)
    requires
        old(store).wf(),
    ensures
        final (store).wf(),
        ({
            let s = old(store).runs@;
            let j = spec_find_run(s, id@, 0);
            &&& (j < 0 ==> r == Result::<bool, String>::Ok(false) && final (store).runs@ == s)
            &&& (j >= 0 ==> r == Result::<bool, String>::Ok(true) && final (store).runs@
                == s.remove(j))
        }),
{
    let ghost s = store.runs@;
    let id_owned: String = id.to_owned();
    let found = store.find(&id_owned);
    match found {
        Some(k) => {
            store.runs.remove(k);
            proof {
                assert forall|i: int, j: int|
                    0 <= i < j < store.runs@.len() implies (#[trigger] store.runs@[i]).id@ != (
                    #[trigger] store.runs@[j]).id@ by {
                    assert(store.runs@[i] == if i < k as int {
                        s[i]
                    } else {
                        s[i + 1]
                    });
                    assert(store.runs@[j] == if j < k as int {
                        s[j]
                    } else {
                        s[j + 1]
                    });
                }
            }
            Ok(true)
        },
        None => Ok(false),
    }
}

/// The number of stored runs.
pub fn get_run_count(store: &RunStore) -> (r: Result<i64, String>)
    requires
        store.runs@.len() <= 0x7FFF_FFFF_FFFF_FFFF,
    ensures
        r == Result::<i64, String>::Ok(store.runs@.len() as i64),
{
    Ok(store.runs.len() as i64)
}

} // verus!
