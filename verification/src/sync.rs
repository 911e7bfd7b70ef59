use std::sync::Arc;

use vstd::prelude::*;
use vstd::rwlock::{ReadHandle, RwLock, RwLockPredicate, WriteHandle};

verus! {

/// The invariant of a shared value: every value of the type may be held.
pub struct AnyValue;

impl<T> RwLockPredicate<T> for AnyValue {
    open spec fn inv(self, v: T) -> bool {
        true
    }
}

/// A value shared between threads behind a reader-writer lock (the verified
/// lock of `vstd::rwlock`). Taking the lock waits, spinning, until no other
/// guard holds it in a conflicting way; a guard gives the lock back only
/// when it is released, not when it is dropped.
pub struct Shared<T> {
    lock: Arc<RwLock<T, AnyValue>>,
    made_with: Ghost<T>,
}

/// Another handle to the same lock (`Arc::clone`): the handle is the same
/// shared value.
#[verifier::external_body]
fn clone_handle<T>(lock: &Arc<RwLock<T, AnyValue>>) -> (c: Arc<RwLock<T, AnyValue>>)
    ensures
        c == *lock,
{
    Arc::clone(lock)
}

impl<T> Shared<T> {
    /// The value the lock was made with.
    pub closed spec fn initial(&self) -> T {
        self.made_with@
    }

    /// Puts `value` behind a new lock.
    pub fn new(value: T) -> (s: Self)
        ensures
            s.initial() == value,
    {
        let ghost made_with = value;
        let lock = RwLock::new(value, Ghost(AnyValue));
        Shared { lock: Arc::new(lock), made_with: Ghost(made_with) }
    }

    /// Another handle to the same lock: whatever one handle writes, the
    /// other reads.
    pub fn share(&self) -> (c: Self)
        ensures
            c == *self,
    {
        Shared { lock: clone_handle(&self.lock), made_with: self.made_with }
    }

    /// Takes the lock for reading, waiting while a writer holds it.
    pub fn read(&self) -> (g: ReadGuard<'_, T>)
        ensures
            g.owner() == *self,
    {
        ReadGuard { handle: self.lock.acquire_read(), owner: Ghost(*self) }
    }

    /// Takes the lock for writing, waiting while any other guard holds it.
    /// The guard holds the value the lock held.
    pub fn write(&self) -> (g: WriteGuard<'_, T>)
        ensures
            g.owner() == *self,
            g.view() == g.taken(),
    {
        let (value, handle) = self.lock.acquire_write();
        let ghost taken = value;
        WriteGuard { value, handle, owner: Ghost(*self), taken: Ghost(taken) }
    }

    /// Puts `value` behind the lock and returns the value it held, taking
    /// the lock for writing for that time.
    pub fn replace(&self, value: T) -> (old: T) {
        let (old, handle) = self.lock.acquire_write();
        handle.release_write(value);
        old
    }
}

/// The lock of a `Shared` value, taken for reading.
pub struct ReadGuard<'a, T> {
    handle: ReadHandle<'a, T, AnyValue>,
    owner: Ghost<Shared<T>>,
}

/// What one read through a guard saw: the shared value it read and the
/// value the lock held. Only releasing a read guard makes one.
pub struct ReadReceipt<T> {
    shared: Ghost<Shared<T>>,
    seen: Ghost<T>,
}

impl<T> ReadReceipt<T> {
    /// The shared value read.
    pub closed spec fn shared(&self) -> Shared<T> {
        self.shared@
    }

    /// The value the lock held while the guard was held.
    pub closed spec fn seen(&self) -> T {
        self.seen@
    }
}

impl<'a, T> ReadGuard<'a, T> {
    /// The value the lock holds while the guard is held.
    pub closed spec fn view(&self) -> T {
        self.handle.view()
    }

    /// The shared value whose lock the guard holds.
    pub closed spec fn owner(&self) -> Shared<T> {
        self.owner@
    }

    /// The value the lock holds.
    pub fn value(&self) -> (v: &T)
        ensures
            *v == self.view(),
    {
        self.handle.borrow()
    }

    /// Gives the lock back, and tells what was read.
    pub fn release(self) -> (r: ReadReceipt<T>)
        ensures
            r.shared() == self.owner(),
            r.seen() == self.view(),
    {
        let ghost owner = self.owner@;
        let ghost seen = self.handle.view();
        let ReadGuard { handle, .. } = self;
        handle.release_read();
        ReadReceipt { shared: Ghost(owner), seen: Ghost(seen) }
    }
}

/// The lock of a `Shared` value, taken for writing: the guard holds the
/// value until it is released, and then puts it back.
pub struct WriteGuard<'a, T> {
    value: T,
    handle: WriteHandle<'a, T, AnyValue>,
    owner: Ghost<Shared<T>>,
    taken: Ghost<T>,
}

/// What one write through a guard did: the shared value it went to, the
/// value the lock held when the guard took it, and the value the guard put
/// back. Only releasing a guard makes one.
pub struct WriteReceipt<T> {
    shared: Ghost<Shared<T>>,
    before: Ghost<T>,
    after: Ghost<T>,
}

impl<T> WriteReceipt<T> {
    /// The shared value written to.
    pub closed spec fn shared(&self) -> Shared<T> {
        self.shared@
    }

    /// The value the lock held when the guard took it.
    pub closed spec fn before(&self) -> T {
        self.before@
    }

    /// The value the guard put back.
    pub closed spec fn after(&self) -> T {
        self.after@
    }
}

impl<'a, T> WriteGuard<'a, T> {
    /// The value the guard holds.
    pub closed spec fn view(&self) -> T {
        self.value
    }

    /// The shared value whose lock the guard holds.
    pub closed spec fn owner(&self) -> Shared<T> {
        self.owner@
    }

    /// The value the lock held when the guard took it.
    pub closed spec fn taken(&self) -> T {
        self.taken@
    }

    /// The value the guard holds.
    pub fn value(&self) -> (v: &T)
        ensures
            *v == self.view(),
    {
        &self.value
    }

    /// The value the guard holds, to change.
    pub fn value_mut(&mut self) -> (v: &mut T)
        ensures
            *v == old(self).view(),
            final(self).view() == *final(v),
            final(self).owner() == old(self).owner(),
            final(self).taken() == old(self).taken(),
    {
        &mut self.value
    }

    /// Gives the lock back, with the value the guard holds, and tells what
    /// the write did.
    pub fn release(self) -> (w: WriteReceipt<T>)
        ensures
            w.shared() == self.owner(),
            w.before() == self.taken(),
            w.after() == self.view(),
    {
        let ghost owner = self.owner@;
        let ghost taken = self.taken@;
        let ghost after = self.value;
        let WriteGuard { value, handle, .. } = self;
        handle.release_write(value);
        WriteReceipt { shared: Ghost(owner), before: Ghost(taken), after: Ghost(after) }
    }
}

} // verus!
