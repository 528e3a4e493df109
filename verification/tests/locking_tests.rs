use kernel_mm::irq::disable_interrupts;
use kernel_mm::irq::enable_interrupts;
use kernel_mm::irq::DAIF_ALL_MASKED;
use kernel_mm::locking::IRQSpinLock;
use kernel_mm::locking::SpinLock;

#[test]
fn lock_guards_data() {
    let mut lock = SpinLock::new(41u64);
    let mut guard = lock.lock();
    assert_eq!(*guard.get(), 41);
    *guard.get_mut() = 42;
    lock.unlock(guard);
    let guard = lock.lock();
    assert_eq!(*guard.get(), 42);
    lock.unlock(guard);
}

#[test]
fn mutual_exclusion_instrumented_counter() {
    // Two logical holders never observe overlapping critical sections: a
    // counter incremented on entry and decremented on exit never exceeds 1.
    let mut lock = SpinLock::new(0u64);
    let mut inside: u32 = 0;
    let mut max_inside: u32 = 0;

    for _ in 0..2 {
        // First logical holder.
        let mut guard = lock.lock();
        inside += 1;
        max_inside = max_inside.max(inside);
        *guard.get_mut() += 1;
        lock.unlock(guard);
        inside -= 1;

        // Second logical holder: can only enter once the first released.
        let mut guard = lock.lock();
        inside += 1;
        max_inside = max_inside.max(inside);
        *guard.get_mut() += 1;
        lock.unlock(guard);
        inside -= 1;
    }

    assert_eq!(max_inside, 1);
    let guard = lock.lock();
    assert_eq!(*guard.get(), 4);
    lock.unlock(guard);
}

#[test]
fn irq_lock_masks_while_held() {
    let mut lock = IRQSpinLock::new(7u32);
    let mut daif: u64 = 0;
    let guard = lock.lock(&mut daif);
    // All four exception classes masked while the lock is held.
    assert_eq!(daif & DAIF_ALL_MASKED, DAIF_ALL_MASKED);
    lock.unlock(&mut daif, guard);
    // The pre-acquisition state (everything unmasked) is restored.
    assert_eq!(daif, 0);
}

#[test]
fn irq_lock_nesting_restores_exact_state() {
    // Acquiring the interrupt-masking lock while interrupts are already
    // disabled, then releasing it, leaves interrupts disabled.
    let outer = IRQSpinLock::new(0u8);
    let inner = IRQSpinLock::new(0u8);
    let mut outer = outer;
    let mut inner = inner;

    let mut daif: u64 = enable_interrupts(0);
    let outer_guard = outer.lock(&mut daif);
    assert_eq!(daif & DAIF_ALL_MASKED, DAIF_ALL_MASKED);

    let inner_guard = inner.lock(&mut daif);
    assert_eq!(daif & DAIF_ALL_MASKED, DAIF_ALL_MASKED);
    inner.unlock(&mut daif, inner_guard);
    // Still disabled: the inner release restored the saved (masked) state,
    // it did not unconditionally re-enable.
    assert_eq!(daif & DAIF_ALL_MASKED, DAIF_ALL_MASKED);

    outer.unlock(&mut daif, outer_guard);
    assert_eq!(daif, 0);
}

#[test]
fn interrupt_mask_values() {
    assert_eq!(disable_interrupts(0), 0x3C0);
    assert_eq!(enable_interrupts(0x3C0), 0);
    // Bits outside the mask fields are preserved.
    assert_eq!(disable_interrupts(0x1), 0x3C1);
    assert_eq!(enable_interrupts(0x3C1), 0x1);
    assert_eq!(disable_interrupts(0x3C0), 0x3C0);
}
