use core::sync::atomic::Ordering;
use lamlock::futex::Futex;
use lamlock::lambda::LambdaLock;
use lamlock::rawlock::RawLock;
use lamlock::LockNotPoisoned;
use lamlock::LockPoisoned;

#[test]
fn futex_notify_reports_a_sleeper() {
    let mut futex = Futex::new(3);
    assert_eq!(futex.load(), 3);
    assert!(futex.wait(3));
    assert!(!futex.wait(0));
    assert!(futex.notify(1, 3));
    assert_eq!(futex.load(), 1);
    assert!(!futex.wait(3));
    assert!(!futex.notify(4, 3));
    assert_eq!(futex.load(), 4);
}

#[test]
fn futex_store_and_swap() {
    let mut futex = Futex::new(0);
    futex.store(2);
    assert_eq!(futex.load(), 2);
    assert_eq!(futex.swap(4), 2);
    assert_eq!(futex.load(), 4);
}

#[test]
fn futex_compare_exchange() {
    let mut futex = Futex::new(0);
    assert_eq!(futex.compare_exchange(0, 3), Ok(0));
    assert_eq!(futex.load(), 3);
    assert_eq!(futex.compare_exchange(0, 1), Err(3));
    assert_eq!(futex.load(), 3);
}

#[test]
fn raw_lock_acquire_release() {
    let mut raw = RawLock::new();
    assert_eq!(raw.try_acquire(), Ok(true));
    assert_eq!(raw.try_acquire(), Ok(false));
    raw.release();
    assert_eq!(raw.acquire(), Ok(()));
    assert_eq!(raw.try_acquire(), Ok(false));
    assert!(!raw.is_poisoned(Ordering::Acquire));
}

#[test]
fn raw_lock_poison_fails_every_acquire() {
    let mut raw = RawLock::new();
    raw.poison();
    assert!(raw.is_poisoned(Ordering::Acquire));
    assert_eq!(raw.try_acquire(), Err(LockPoisoned));
    assert_eq!(raw.acquire(), Err(LockPoisoned));
    assert!(raw.is_poisoned(Ordering::Acquire));
}

#[test]
fn raw_lock_acquire_poison() {
    let mut raw = RawLock::new();
    assert_eq!(raw.acquire_poison(), Err(LockNotPoisoned));
    assert_eq!(raw.try_acquire(), Ok(true));
    assert_eq!(raw.acquire_poison(), Err(LockNotPoisoned));
    raw.poison();
    assert_eq!(raw.acquire_poison(), Ok(()));
    assert!(!raw.is_poisoned(Ordering::Acquire));
    assert_eq!(raw.try_acquire(), Ok(false));
    raw.release();
    assert_eq!(raw.try_acquire(), Ok(true));
}

#[test]
fn raw_lock_tail() {
    let mut raw = RawLock::new();
    assert!(!raw.has_tail(Ordering::Relaxed));
    assert_eq!(raw.swap_tail(7), None);
    assert!(raw.has_tail(Ordering::Relaxed));
    assert_eq!(raw.swap_tail(9), Some(7));
    assert!(!raw.try_close(7));
    assert!(raw.has_tail(Ordering::SeqCst));
    assert!(raw.try_close(9));
    assert!(!raw.has_tail(Ordering::SeqCst));
    assert!(!raw.try_close(9));
}

#[test]
fn error_texts_of_the_lock() {
    assert_eq!(LockPoisoned.to_string(), "Lock is poisoned");
    assert_eq!(LockNotPoisoned.to_string(), "Lock is not poisoned");
}

#[test]
fn lambda_lock_try_lock() {
    let mut lock = LambdaLock::new();
    assert_eq!(lock.try_lock(), Some(true));
    assert_eq!(lock.try_lock(), Some(false));
    lock.release();
    assert_eq!(lock.swap_tail(2), None);
    assert_eq!(lock.try_lock(), Some(false));
    assert_eq!(lock.swap_tail(5), Some(2));
}
