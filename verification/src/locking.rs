//! Mutual-exclusion primitives, modeled as explicit lock-state machines.
//!
//! On the real core these are test-and-test-and-set spin locks; acquisition
//! spins until the atomic flag is won. In this model a lock owns its data
//! and moves it into the guard on acquisition, so exclusion is enforced by
//! ownership and by the acquisition precondition: a held lock cannot be
//! acquired again (on a single core, spinning on a lock the same context
//! already holds would deadlock -- the plain lock must therefore never be
//! used from interrupt context).
//!
//! The interrupt-masking variant additionally saves the current mask state
//! on acquisition, disables interrupts while the lock is held, and restores
//! the saved state -- exactly, not an unconditional re-enable -- on release.

use vstd::prelude::*;

use crate::irq::spec_all_masked;
use crate::irq::spec_disable_interrupts;

verus! {

/// Spin lock that must never be used from interrupt context.
pub struct SpinLock<T> {
    data: Option<T>,
}

/// Grants exclusive access to the data of the [`SpinLock`] it was acquired
/// from, for as long as it exists; releasing it through
/// [`SpinLock::unlock`] hands the data back.
pub struct LockGuard<T> {
    data: T,
}

impl<T> LockGuard<T> {
    pub closed spec fn view(&self) -> T {
        self.data
    }

    pub fn get(&self) -> (r: &T)
        ensures
            *r == self@,
    {
        &self.data
    }

    pub fn get_mut(&mut self) -> (r: &mut T)
        ensures
            *r == old(self)@,
            final(self)@ == *final(r),
    {
        &mut self.data
    }
}

impl<T> SpinLock<T> {
    /// Whether the lock is currently held (its data moved out into a guard).
    pub closed spec fn is_locked(&self) -> bool {
        self.data is None
    }

    /// The guarded data; meaningful only while the lock is not held.
    pub closed spec fn view(&self) -> T
        recommends
            !self.is_locked(),
    {
        self.data->Some_0
    }

    pub fn new(data: T) -> (s: Self)
        ensures
            !s.is_locked(),
            s@ == data,
    {
        SpinLock { data: Some(data) }
    }

    /// Acquire the lock. On hardware this spins until the flag is won; a
    /// single holder at a time is guaranteed, which the model states by
    /// requiring the lock to be free: acquiring a lock this context already
    /// holds would spin against itself forever.
    pub fn lock(&mut self) -> (g: LockGuard<T>)
        requires
            !old(self).is_locked(),
        ensures
            final(self).is_locked(),
            g@ == old(self)@,
    {
        let mut taken: Option<T> = None;
        core::mem::swap(&mut self.data, &mut taken);
        match taken {
            Some(data) => LockGuard { data },
            None => unreached(),
        }
    }

    /// Release the lock, handing the guard's data back to it.
    pub fn unlock(&mut self, guard: LockGuard<T>)
        requires
            old(self).is_locked(),
        ensures
            !final(self).is_locked(),
            final(self)@ == guard@,
    {
        self.data = Some(guard.data);
    }
}

/// At any time a lock has at most one holder: the number of live guards is
/// one when it is held and zero otherwise, so two critical sections on the
/// same lock can never overlap.
pub proof fn lemma_mutual_exclusion<T>(l: SpinLock<T>)
    ensures
        spec_holders(l) <= 1,
        spec_holders(l) == 1 <==> l.is_locked(),
{
}

/// The number of logical holders of a lock.
pub open spec fn spec_holders<T>(l: SpinLock<T>) -> nat {
    if l.is_locked() {
        1
    } else {
        0
    }
}

/// Spin lock that may also be used from interrupt context: it masks
/// interrupts for as long as it is held.
pub struct IRQSpinLock<T> {
    data: Option<T>,
}

/// Grants exclusive access to the data of the [`IRQSpinLock`] it was
/// acquired from, and remembers the interrupt-mask state from just before
/// acquisition so that release can restore it exactly.
pub struct IRQLockGuard<T> {
    data: T,
    old_daif: u64,
}

impl<T> IRQLockGuard<T> {
    pub closed spec fn view(&self) -> T {
        self.data
    }

    /// The interrupt-mask state saved at acquisition.
    pub closed spec fn spec_saved_daif(&self) -> u64 {
        self.old_daif
    }

    pub fn get(&self) -> (r: &T)
        ensures
            *r == self@,
    {
        &self.data
    }

    pub fn get_mut(&mut self) -> (r: &mut T)
        ensures
            *r == old(self)@,
            final(self)@ == *final(r),
            final(self).spec_saved_daif() == old(self).spec_saved_daif(),
    {
        &mut self.data
    }
}

impl<T> IRQSpinLock<T> {
    /// Whether the lock is currently held.
    pub closed spec fn is_locked(&self) -> bool {
        self.data is None
    }

    /// The guarded data; meaningful only while the lock is not held.
    pub closed spec fn view(&self) -> T
        recommends
            !self.is_locked(),
    {
        self.data->Some_0
    }

    pub fn new(data: T) -> (s: Self)
        ensures
            !s.is_locked(),
            s@ == data,
    {
        IRQSpinLock { data: Some(data) }
    }

    /// Acquire the lock: save the current interrupt-mask state in the
    /// guard, leave the core with every exception class masked, and take
    /// the data. `daif` models the core's mask register, which the caller
    /// owns.
    pub fn lock(&mut self, daif: &mut u64) -> (g: IRQLockGuard<T>)
        requires
            !old(self).is_locked(),
        ensures
            final(self).is_locked(),
            g@ == old(self)@,
            g.spec_saved_daif() == *old(daif),
            *final(daif) == spec_disable_interrupts(*old(daif)),
            spec_all_masked(*final(daif)),
    {
        let old_daif = *daif;
        *daif = crate::irq::disable_interrupts(*daif);

        let mut taken: Option<T> = None;
        core::mem::swap(&mut self.data, &mut taken);
        match taken {
            Some(data) => IRQLockGuard { data, old_daif },
            None => unreached(),
        }
    }

    /// Release the lock and restore the interrupt-mask state that was saved
    /// at acquisition -- exactly as it was, so nested acquisitions across
    /// different mask states compose.
    pub fn unlock(&mut self, daif: &mut u64, guard: IRQLockGuard<T>)
        requires
            old(self).is_locked(),
        ensures
            !final(self).is_locked(),
            final(self)@ == guard@,
            *final(daif) == guard.spec_saved_daif(),
    {
        self.data = Some(guard.data);
        *daif = guard.old_daif;
    }
}

/// Acquiring the interrupt-masking lock while interrupts are already
/// disabled and then releasing it leaves interrupts disabled: the saved
/// state is restored exactly.
pub proof fn lemma_irq_lock_nesting(daif: u64)
    ensures
        spec_all_masked(spec_disable_interrupts(daif)),
        spec_all_masked(daif) ==> spec_disable_interrupts(daif) == daif,
{
    crate::irq::lemma_mask_restore_exact(daif);
}

} // verus!
