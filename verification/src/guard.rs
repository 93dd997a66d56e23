//! The peer store guard: exclusive access to a datastore path.
//!
//! One running instance per datastore directory: whoever acquires the
//! path's lock first keeps it until release, and every later attempt fails
//! fast with the lock error — a signal that another instance is already
//! using the directory, never to be retried automatically. The registry
//! here is the lock discipline itself; the operating-system advisory lock
//! on the `.p2p_file.lock` file enforces the same discipline across
//! processes.

use vstd::prelude::*;
use vstd::string::StrSliceExecFns;
use vstd::string::StringExecFns;
use crate::init::CommsInitializationError;

verus! {

/// The path of the lock file under a datastore directory.
pub fn lock_file_path(datastore_path: &str) -> (r: String)
    ensures
        r@ == datastore_path@ + "/"@ + ".p2p_file.lock"@,
{
    String::from_str(datastore_path).concat("/").concat(".p2p_file.lock")
}

/// Whether some held lock is on `path`.
pub open spec fn holds_path(locked: Seq<Seq<char>>, path: Seq<char>) -> bool {
    exists|i: int| 0 <= i < locked.len() && locked[i] == path
}

/// A held lock: keep it to keep the path locked, release it to free it.
#[derive(Debug)]
pub struct StoreLockHandle {
    pub path: String,
}

/// Which datastore paths are locked.
pub struct StoreLockRegistry {
    pub locked: Vec<String>,
}

impl StoreLockRegistry {
    /// The paths currently locked.
    pub open spec fn paths(self) -> Seq<Seq<char>> {
        Seq::new(self.locked@.len(), |i: int| self.locked@[i]@)
    }

    /// No path is locked twice.
    pub open spec fn wf(self) -> bool {
        forall|i: int, j: int|
            0 <= i < j < self.paths().len() ==> #[trigger] self.paths()[i] != #[trigger] self.paths()[j]
    }

    /// A registry with nothing locked.
    pub fn new() -> (r: StoreLockRegistry)
        ensures
            r.wf(),
            r.paths().len() == 0,
    {
        StoreLockRegistry { locked: Vec::new() }
    }

    /// Whether `path` is locked.
    pub fn is_locked(&self, path: &String) -> (r: bool)
        ensures
            r == holds_path(self.paths(), path@),
    {
        let mut i: usize = 0;
        while i < self.locked.len()
            invariant
                i <= self.locked@.len(),
                forall|j: int| 0 <= j < i ==> self.paths()[j] != path@,
            decreases self.locked@.len() - i,
        {
            if self.locked[i] == *path {
                assert(self.paths()[i as int] == path@);
                return true;
            }
            i = i + 1;
        }
        assert(!holds_path(self.paths(), path@));
        false
    }

    /// Attempts the exclusive lock on a datastore path. The first attempt
    /// succeeds and records the path; as long as the lock is held, every
    /// further attempt on the same path fails with the lock error — fatal,
    /// not to be retried, since another instance holds the directory.
    pub fn acquire(&mut self, path: &String) -> (r: Result<
        StoreLockHandle,
        CommsInitializationError,
    >)
        requires
            old(self).wf(),
        ensures
            final(self).wf(),
            r is Ok <==> !holds_path(old(self).paths(), path@),
            r matches Ok(h) ==> h.path@ == path@ && final(self).paths() == old(self).paths().push(
                path@,
            ),
            r matches Err(e) ==> e is CannotAcquireFileLock && *final(self) == *old(self),
            holds_path(final(self).paths(), path@),
    {
        if self.is_locked(path) {
            return Err(CommsInitializationError::CannotAcquireFileLock);
        }
        let ghost before = self.paths();
        let owned = path.as_str().to_owned();
        self.locked.push(owned);
        proof {
            assert(self.paths() =~= before.push(path@));
            assert(self.paths()[self.paths().len() - 1] == path@);
            assert forall|a: int, b: int|
                0 <= a < b < self.paths().len() implies #[trigger] self.paths()[a]
                != #[trigger] self.paths()[b] by {
                if b < self.paths().len() - 1 {
                    assert(self.paths()[a] == before[a] && self.paths()[b] == before[b]);
                } else {
                    assert(self.paths()[a] == before[a]);
                    assert(!holds_path(before, path@));
                }
            }
        }
        Ok(StoreLockHandle { path: path.as_str().to_owned() })
    }

    /// Releases a held lock: its path is free again; other paths stay
    /// locked.
    pub fn release(&mut self, handle: StoreLockHandle)
        requires
            old(self).wf(),
        ensures
            final(self).wf(),
            !holds_path(final(self).paths(), handle.path@),
            forall|p: Seq<char>|
                p != handle.path@ ==> holds_path(final(self).paths(), p) == holds_path(
                    old(self).paths(),
                    p,
                ),
    {
        let ghost orig = self.paths();
        let mut i: usize = 0;
        while i < self.locked.len()
            invariant
                i <= self.locked@.len(),
                self.paths() == orig,
                orig == old(self).paths(),
                old(self).wf(),
                forall|j: int| 0 <= j < i ==> orig[j] != handle.path@,
            decreases self.locked@.len() - i,
        {
            if self.locked[i] == handle.path {
                assert(orig[i as int] == handle.path@);
                self.locked.remove(i);
                proof {
                    let cur = self.paths();
                    assert(cur =~= orig.remove(i as int));
                    orig.remove_ensures(i as int);
                    assert(!holds_path(cur, handle.path@)) by {
                        assert forall|w: int| 0 <= w < cur.len() implies cur[w] != handle.path@ by {
                            if w < i {
                                assert(cur[w] == orig[w]);
                            } else {
                                assert(cur[w] == orig[w + 1]);
                                assert(orig[i as int] == handle.path@);
                            }
                        }
                    }
                    assert forall|p: Seq<char>| p != handle.path@ implies holds_path(cur, p)
                        == holds_path(orig, p) by {
                        if holds_path(orig, p) {
                            let w = choose|w: int| 0 <= w < orig.len() && orig[w] == p;
                            if w < i {
                                assert(cur[w] == p);
                            } else {
                                assert(w > i);
                                assert(cur[w - 1] == p);
                            }
                        }
                        if holds_path(cur, p) {
                            let w = choose|w: int| 0 <= w < cur.len() && cur[w] == p;
                            if w < i {
                                assert(orig[w] == p);
                            } else {
                                assert(orig[w + 1] == p);
                            }
                        }
                    }
                    assert forall|a: int, b: int|
                        0 <= a < b < cur.len() implies #[trigger] cur[a] != #[trigger] cur[b] by {
                        let ka = if a < i { a } else { a + 1 };
                        let kb = if b < i { b } else { b + 1 };
                        assert(cur[a] == orig[ka] && cur[b] == orig[kb]);
                        assert(0 <= ka < kb < orig.len());
                    }
                }
                return ;
            }
            i = i + 1;
        }
        proof {
            assert(!holds_path(self.paths(), handle.path@));
        }
    }
}

/// Law: the exclusive lock admits one holder per path. While an acquire of
/// a path has succeeded — the path is registered — any further acquire of
/// the same path fails, whatever else is locked.
pub proof fn lemma_exclusive_lock(locked: Seq<Seq<char>>, path: Seq<char>)
    ensures
        holds_path(locked.push(path), path),
        !holds_path(locked, path) ==> (forall|q: Seq<char>|
            holds_path(locked, q) ==> holds_path(locked.push(path), q)),
{
    assert(locked.push(path)[locked.len() as int] == path);
    if !holds_path(locked, path) {
        assert forall|q: Seq<char>| holds_path(locked, q) implies holds_path(
            locked.push(path),
            q,
        ) by {
            let w = choose|w: int| 0 <= w < locked.len() && locked[w] == q;
            assert(locked.push(path)[w] == q);
        }
    }
}

} // verus!
