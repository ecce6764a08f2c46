use core::ops::ControlFlow;
use lamlock::Lock;
use lamlock::LockNotPoisoned;
use lamlock::LockPoisoned;

#[test]
fn lib_smoke_test() {
    let mut lock = Lock::new(0);
    lock.run(|data: &mut i32| {
        *data += 1;
    })
    .unwrap();
    assert_eq!(lock.run(|x: &mut i32| *x).unwrap(), 1);
}

#[test]
fn run_slowly_goes_through_the_queue() {
    let mut lock = Lock::new(0);
    lock.run_slowly(|data: &mut i32| {
        *data += 1;
    })
    .unwrap();
    assert_eq!(lock.run_slowly(|x: &mut i32| *x * 10).unwrap(), 10);
    assert_eq!(lock.run(|x: &mut i32| *x).unwrap(), 1);
}

#[test]
fn run_returns_what_the_function_returns() {
    let mut lock = Lock::new(String::from("ab"));
    let len = lock
        .run(|text: &mut String| {
            text.push('c');
            text.len()
        })
        .unwrap();
    assert_eq!(len, 3);
    assert_eq!(lock.run(|text: &mut String| text.clone()).unwrap(), "abc");
}

#[test]
fn inspect_unpoison() {
    let mut lock = Lock::new(0);
    lock.poison().unwrap();
    assert_eq!(lock.run(|_: &mut i32| ()), Err(LockPoisoned));
    lock.unpoison().unwrap();
    assert_eq!(lock.run(|_: &mut i32| ()), Ok(()));
}

#[test]
fn poison_is_sticky() {
    let mut lock = Lock::new(5);
    assert_eq!(lock.poison(), Ok(()));
    assert_eq!(lock.poison(), Err(LockPoisoned));
    for _ in 0..10 {
        assert_eq!(lock.run(|x: &mut i32| *x += 1), Err(LockPoisoned));
        assert_eq!(lock.run_slowly(|x: &mut i32| *x += 1), Err(LockPoisoned));
    }
    assert_eq!(
        lock.inspect_poison(|x: &mut i32| ControlFlow::Continue(*x)),
        Ok(5)
    );
    assert_eq!(lock.run(|x: &mut i32| *x += 1), Err(LockPoisoned));
    assert_eq!(lock.unpoison(), Ok(()));
    assert_eq!(lock.run(|x: &mut i32| *x), Ok(5));
}

#[test]
fn inspect_poison_wants_poison() {
    let mut lock = Lock::new(1);
    assert_eq!(
        lock.inspect_poison(|x: &mut i32| {
            *x = 2;
            ControlFlow::Break(())
        }),
        Err(LockNotPoisoned)
    );
    assert_eq!(lock.unpoison(), Err(LockNotPoisoned));
    assert_eq!(lock.run(|x: &mut i32| *x), Ok(1));
}

#[test]
fn inspect_poison_continue_and_break() {
    let mut lock = Lock::new(1);
    lock.poison().unwrap();
    let kept = lock.inspect_poison(|x: &mut i32| {
        *x += 1;
        ControlFlow::Continue(*x)
    });
    assert_eq!(kept, Ok(2));
    assert_eq!(lock.run(|x: &mut i32| *x), Err(LockPoisoned));
    let released = lock.inspect_poison(|x: &mut i32| {
        *x += 1;
        ControlFlow::Break(*x)
    });
    assert_eq!(released, Ok(3));
    assert_eq!(lock.run(|x: &mut i32| *x), Ok(3));
}

#[test]
fn multi_thread_inspect_poison() {
    let mut lock = Lock::new(String::new());
    lock.poison().unwrap();
    lock.inspect_poison(|_: &mut String| ControlFlow::Break(()))
        .unwrap();
    lock.poison().unwrap();
    for _ in 0..100 {
        if lock.run(|x: &mut String| x.push('A')).is_err() {
            lock.inspect_poison(|x: &mut String| {
                x.push('A');
                ControlFlow::Break(())
            })
            .unwrap();
        }
    }
    assert_eq!(lock.run(|x: &mut String| x.len()).unwrap(), 100);
    assert_eq!(
        lock.run(|x: &mut String| x.chars().all(|c| c == 'A'))
            .unwrap(),
        true
    );
}

#[test]
fn counter_of_a_hundred_runs() {
    let mut lock = Lock::new(0);
    for runner in 0..100 {
        if runner % 2 == 0 {
            lock.run(|x: &mut i32| *x += 1).unwrap();
        } else {
            lock.run_slowly(|x: &mut i32| *x += 1).unwrap();
        }
    }
    assert_eq!(lock.run(|x: &mut i32| *x).unwrap(), 100);
}
