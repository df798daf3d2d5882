//! The set of directory paths currently undergoing a bulk conversion
//! pass — the system's single concurrency guard.
//!
//! A pass begins only when its directory is not already in the set, and
//! the directory is removed again when the pass ends, however it ends.
//! The surrounding application holds the set behind a mutex; the
//! check-and-insert and the removal verified here are the whole of what
//! runs under the lock.

use vstd::prelude::*;
use vstd::string::StrSliceExecFns;
use vstd::string::StringExecFns;

verus! {

/// Character-for-character string equality.
fn str_eq(a: &str, b: &str) -> (r: bool)
    ensures
        r == (a@ == b@),
{
    let na = a.unicode_len();
    let nb = b.unicode_len();
    if na != nb {
        return false;
    }
    let mut i: usize = 0;
    while i < na
        invariant
            i <= na,
            na == a@.len(),
            na == b@.len(),
            forall|j: int| 0 <= j < i ==> a@[j] == b@[j],
        decreases na - i,
    {
        if a.get_char(i) != b.get_char(i) {
            return false;
        }
        i = i + 1;
    }
    proof {
        assert(a@ =~= b@);
    }
    true
}

/// The directories with a conversion pass in flight.
pub struct InFlightDirectorySet {
    dirs: Vec<String>,
}

impl InFlightDirectorySet {
    /// Whether `d` is marked in flight.
    pub closed spec fn spec_contains(&self, d: Seq<char>) -> bool {
        exists|i: int| 0 <= i < self.dirs@.len() && self.dirs@[i]@ == d
    }

    /// An empty set: no directory is in flight.
    pub fn new() -> (r: Self)
        ensures
            forall|d: Seq<char>| !r.spec_contains(d),
    {
        InFlightDirectorySet { dirs: Vec::new() }
    }

    /// Whether `dir` is marked in flight.
    pub fn contains(&self, dir: &str) -> (r: bool)
        ensures
            r == self.spec_contains(dir@),
    {
        let n = self.dirs.len();
        let mut i: usize = 0;
        while i < n
            invariant
                i <= n,
                n == self.dirs@.len(),
                forall|j: int| 0 <= j < i ==> self.dirs@[j]@ != dir@,
            decreases n - i,
        {
            if str_eq(self.dirs[i].as_str(), dir) {
                return true;
            }
            i = i + 1;
        }
        false
    }

    /// Marks `dir` in flight unless it already is: returns true and
    /// inserts it when it was absent, returns false and changes nothing
    /// when a pass over it is already running. No other directory's
    /// membership changes.
    pub fn try_begin(&mut self, dir: &str) -> (r: bool)
        ensures
            r == !old(self).spec_contains(dir@),
            final(self).spec_contains(dir@),
            forall|d: Seq<char>|
                d != dir@ ==> final(self).spec_contains(d) == old(self).spec_contains(d),
    {
        if self.contains(dir) {
            return false;
        }
        let ghost prev = self.dirs@;
        self.dirs.push(dir.to_owned());
        proof {
            assert(self.dirs@[prev.len() as int]@ == dir@);
            assert forall|d: Seq<char>| d != dir@ implies self.spec_contains(d) == (exists|i: int|
                0 <= i < prev.len() && prev[i]@ == d) by {
                if self.spec_contains(d) {
                    let i = choose|i: int| 0 <= i < self.dirs@.len() && self.dirs@[i]@ == d;
                    assert(i < prev.len() && prev[i]@ == d);
                }
                if exists|i: int| 0 <= i < prev.len() && prev[i]@ == d {
                    let i = choose|i: int| 0 <= i < prev.len() && prev[i]@ == d;
                    assert(self.dirs@[i]@ == d);
                    assert(self.spec_contains(d));
                }
            }
        }
        true
    }

    /// Unmarks `dir`: afterwards it is not in flight, and no other
    /// directory's membership changes. Called when the pass ends,
    /// whether it succeeded or failed.
    pub fn finish(&mut self, dir: &str)
        ensures
            !final(self).spec_contains(dir@),
            forall|d: Seq<char>|
                d != dir@ ==> final(self).spec_contains(d) == old(self).spec_contains(d),
    {
        let n = self.dirs.len();
        let mut kept: Vec<String> = Vec::new();
        let mut i: usize = 0;
        while i < n
            invariant
                i <= n,
                n == self.dirs@.len(),
                self.dirs@ == old(self).dirs@,
                forall|j: int| 0 <= j < kept@.len() ==> #[trigger] kept@[j]@ != dir@,
                forall|j: int|
                    0 <= j < kept@.len() ==> exists|k: int|
                        0 <= k < i && self.dirs@[k]@ == #[trigger] kept@[j]@,
                forall|k: int|
                    0 <= k < i && self.dirs@[k]@ != dir@ ==> exists|j: int|
                        0 <= j < kept@.len() && kept@[j]@ == #[trigger] self.dirs@[k]@,
            decreases n - i,
        {
            let keep = !str_eq(self.dirs[i].as_str(), dir);
            if keep {
                let ghost prevk = kept@;
                kept.push(self.dirs[i].clone());
                proof {
                    assert(kept@[prevk.len() as int]@ == self.dirs@[i as int]@);
                    assert(forall|j: int| 0 <= j < prevk.len() ==> kept@[j] == prevk[j]);
                }
            }
            i = i + 1;
        }
        self.dirs = kept;
    }
}

} // verus!
