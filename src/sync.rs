//! Cooperative synchronization: a spinlock that owns its value and a
//! counting semaphore. A task that cannot proceed yields to the scheduler
//! and tries again; these types decide each attempt.

use vstd::prelude::*;

verus! {

/// A lock over a value of type `T`. While it is held, the value lives in the
/// one [`SpinLockGuard`] that [`SpinLock::lock`] handed out.
pub struct SpinLock<T> {
    locked: bool,
    data: Option<T>,
}

/// Proof of holding a [`SpinLock`]: it owns the protected value until it is
/// given back to [`SpinLock::unlock`].
pub struct SpinLockGuard<T> {
    value: T,
}

/// A lock attempt on a lock whose contents are `s` (`None` while held):
/// the lock is then held, and the attempt gets the value if it was free.
pub open spec fn lock_of<T>(s: Option<T>) -> (Option<T>, Option<T>) {
    (None, s)
}

/// Releasing a held lock with value `v`.
pub open spec fn unlock_of<T>(v: T) -> Option<T> {
    Some(v)
}

/// The value a lock attempt's result carries, if it got the lock.
pub open spec fn guarded_value<T>(r: Option<SpinLockGuard<T>>) -> Option<T> {
    match r {
        Some(g) => Some(g@),
        None => None,
    }
}

impl<T> View for SpinLock<T> {
    /// The protected value when the lock is free; `None` while it is held.
    type V = Option<T>;

    closed spec fn view(&self) -> Option<T> {
        self.data
    }
}

impl<T> SpinLock<T> {
    pub closed spec fn wf(&self) -> bool {
        self.locked == self.data is None
    }

    /// A free lock over `value`.
    pub fn new(value: T) -> (l: SpinLock<T>)
        ensures
            l.wf(),
            l@ == Some(value),
    {
        SpinLock { locked: false, data: Some(value) }
    }

    /// Whether the lock is held.
    pub fn is_locked(&self) -> (r: bool)
        requires
            self.wf(),
        ensures
            r == self@ is None,
    {
        self.locked
    }

    /// One acquisition attempt: takes the lock if it is free and hands out the
    /// guard; `None` if it is held, and the caller yields and tries again.
    pub fn lock(&mut self) -> (r: Option<SpinLockGuard<T>>)
        requires
            old(self).wf(),
        ensures
            final(self).wf(),
            (final(self)@, guarded_value(r)) == lock_of(old(self)@),
    {
        if self.locked {
            None
        } else {
            self.locked = true;
            match self.data.take() {
                Some(value) => Some(SpinLockGuard { value }),
                None => None,
            }
        }
    }

    /// Releases the lock, storing the guard's value back.
    pub fn unlock(&mut self, guard: SpinLockGuard<T>)
        requires
            old(self).wf(),
            old(self)@ is None,
        ensures
            final(self).wf(),
            final(self)@ == unlock_of(guard@),
    {
        self.data = Some(guard.value);
        self.locked = false;
    }
}

impl<T> View for SpinLockGuard<T> {
    type V = T;

    closed spec fn view(&self) -> T {
        self.value
    }
}

impl<T> SpinLockGuard<T> {
    /// The protected value.
    pub fn get(&self) -> (r: &T)
        ensures
            *r == self@,
    {
        &self.value
    }

    /// Replaces the protected value.
    pub fn set(&mut self, value: T)
        ensures
            final(self)@ == value,
    {
        self.value = value;
    }
}

/// Mutual exclusion: once a lock attempt succeeds, every further attempt
/// fails until the lock is released; after a release the next attempt
/// succeeds and receives exactly the value released, so what the holder
/// wrote is what the next holder sees.
pub proof fn lemma_spinlock_exclusion<T>(s: Option<T>, v: T)
    ensures
        lock_of(s).1 is Some ==> lock_of(lock_of(s).0).1 is None,
        lock_of(lock_of(s).0).0 is None,
        lock_of(unlock_of(v)).1 == Some(v),
{
}

/// A counting semaphore.
pub struct Semaphore {
    count: isize,
}

impl View for Semaphore {
    type V = int;

    closed spec fn view(&self) -> int {
        self.count as int
    }
}

/// One wait attempt on count `c`: the new count and whether a token was taken.
pub open spec fn try_wait_of(c: int) -> (int, bool) {
    if c > 0 {
        (c - 1, true)
    } else {
        (c, false)
    }
}

impl Semaphore {
    /// A semaphore holding `initial` tokens.
    pub fn new(initial: isize) -> (s: Semaphore)
        ensures
            s@ == initial,
    {
        Semaphore { count: initial }
    }

    /// The current count.
    pub fn count(&self) -> (r: isize)
        ensures
            r == self@,
    {
        self.count
    }

    /// Adds a token.
    pub fn post(&mut self)
        requires
            old(self)@ < isize::MAX,
        ensures
            final(self)@ == old(self)@ + 1,
    {
        self.count = self.count + 1;
    }

    /// Takes a token if one is available; returns whether it did.
    pub fn try_wait(&mut self) -> (r: bool)
        ensures
            (final(self)@, r) == try_wait_of(old(self)@),
    {
        if self.count > 0 {
            self.count = self.count - 1;
            true
        } else {
            false
        }
    }

    /// One step of waiting: takes a token if one is available and returns
    /// true; returns false when the caller must yield and wait again.
    pub fn wait(&mut self) -> (r: bool)
        ensures
            (final(self)@, r) == try_wait_of(old(self)@),
    {
        self.try_wait()
    }
}

/// An operation on a semaphore.
pub enum SemOp {
    Post,
    Wait,
}

/// Count and number of successful waits after `ops`, from `initial` tokens.
pub open spec fn run_sem(initial: int, ops: Seq<SemOp>) -> (int, nat)
    decreases ops.len(),
{
    if ops.len() == 0 {
        (initial, 0)
    } else {
        let (c, taken) = run_sem(initial, ops.drop_last());
        match ops.last() {
            SemOp::Post => (c + 1, taken),
            SemOp::Wait => {
                let (c2, ok) = try_wait_of(c);
                (c2, if ok {
                    taken + 1
                } else {
                    taken
                })
            },
        }
    }
}

/// Number of posts in `ops`.
pub open spec fn posts_in(ops: Seq<SemOp>) -> nat
    decreases ops.len(),
{
    if ops.len() == 0 {
        0
    } else {
        posts_in(ops.drop_last()) + if ops.last() is Post {
            1nat
        } else {
            0nat
        }
    }
}

/// Semaphore conservation: from a non-negative initial count, after any
/// sequence of posts and wait attempts the successful waits number at most
/// the initial count plus the posts, the count is what is left over, and the
/// two are equal exactly when the count is zero.
pub proof fn lemma_semaphore_conservation(initial: int, ops: Seq<SemOp>)
    requires
        initial >= 0,
    ensures
        run_sem(initial, ops).1 <= initial + posts_in(ops),
        run_sem(initial, ops).0 == initial + posts_in(ops) - run_sem(initial, ops).1,
        run_sem(initial, ops).1 == initial + posts_in(ops) <==> run_sem(initial, ops).0 == 0,
    decreases ops.len(),
{
    if ops.len() > 0 {
        lemma_semaphore_conservation(initial, ops.drop_last());
    }
}

} // verus!
