use lamlock::config::Config;
use lamlock::config::VGetrandomOpaqueParams;
use lamlock::error::Error;
use lamlock::local_state::Filling;
use lamlock::local_state::LocalState;
use lamlock::local_state::EAGAIN;
use lamlock::local_state::EINTR;
use lamlock::pool::Pool;
use lamlock::pool::Ptr;
use lamlock::pool::Rental;
use lamlock::utils::guess_cpu_count;
use lamlock::vdso::mocked_params;
use lamlock::vdso::mocked_vgetrandom;
use lamlock::vdso::PAGE_SIZE;
use std::collections::HashMap;

/// The stand-in for the kernel: it maps blocks at made-up addresses and
/// keeps the counter of each state.
struct Kernel {
    next_base: usize,
    mapped: Vec<usize>,
    counters: HashMap<usize, usize>,
}

impl Kernel {
    fn new() -> Self {
        Kernel { next_base: 0x1000, mapped: Vec::new(), counters: HashMap::new() }
    }

    fn mmap(&mut self, bytes: usize) -> Option<usize> {
        let base = self.next_base;
        self.next_base += bytes + 0x1000;
        self.mapped.push(base);
        Some(base)
    }

    fn vgetrandom(&mut self, buf: &mut [u8], state: Ptr) -> i32 {
        mocked_vgetrandom(buf, self.counters.entry(state.0).or_insert(0))
    }
}

fn mock_pool() -> Pool {
    let cpu_count = 4;
    Pool::new(Some(Config::new(mocked_params(), PAGE_SIZE, cpu_count))).expect("Failed to create shared pool")
}

fn get(pool: &mut Pool, kernel: &mut Kernel) -> Result<Ptr, Error> {
    loop {
        match pool.get()? {
            Rental::Rented(ptr) => return Ok(ptr),
            Rental::Exhausted => {
                let mapped = kernel.mmap(pool.block_bytes());
                pool.grow(mapped)?;
            }
        }
    }
}

fn local_state(pool: &mut Pool, kernel: &mut Kernel) -> Result<LocalState, Error> {
    loop {
        match LocalState::new(pool)? {
            Some(state) => return Ok(state),
            None => {
                let mapped = kernel.mmap(pool.block_bytes());
                pool.grow(mapped)?;
            }
        }
    }
}

fn fill(state: &mut LocalState, kernel: &mut Kernel, buf: &mut [u8]) -> Result<(), Error> {
    let mut action = state.begin(buf.len());
    while let Filling::Call { from } = action {
        let ptr = state.enter();
        let result = kernel.vgetrandom(&mut buf[from..], ptr);
        let outcome = state.try_fill(result);
        action = state.fill(buf.len(), from, outcome)?;
    }
    Ok(())
}

#[test]
fn test_config() {
    let config = Config::new(mocked_params(), PAGE_SIZE, 4);
    assert!(config.page_size > 0);
    assert!(config.pages_per_block > 0);
    assert!(config.states_per_page > 0);
}

#[test]
fn config_figures() {
    let config = Config::new(mocked_params(), PAGE_SIZE, 4);
    assert_eq!(config.page_size, 64);
    assert_eq!(config.states_per_page, 8);
    assert_eq!(config.pages_per_block, 1);
    let params = VGetrandomOpaqueParams {
        size_of_opaque_states: 144,
        mmap_prot: 3,
        mmap_flags: 0x22,
        reserved: [0; 13],
    };
    let config = Config::new(params, 4096, 64);
    assert_eq!(config.states_per_page, 28);
    // 64 * 144 = 9216 bytes, which reach into the third page.
    assert_eq!(config.pages_per_block, 3);
    assert_eq!(config.params.mmap_prot, 3);
    assert_eq!(config.params.mmap_flags, 0x22);
    // Bytes that end on a page boundary take no page more.
    let params = VGetrandomOpaqueParams { size_of_opaque_states: 128, ..params };
    let config = Config::new(params, 4096, 64);
    assert_eq!(config.pages_per_block, 2);
    assert_eq!(config.states_per_page, 32);
    let config = Config::new(mocked_params(), 64, 8);
    assert_eq!(config.pages_per_block, 1);
    let config = Config::new(mocked_params(), 64, 9);
    assert_eq!(config.pages_per_block, 2);
    let config = Config::new(mocked_params(), 64, 1);
    assert_eq!(config.pages_per_block, 1);
}

#[test]
fn guess_cpu_count_counts_the_mask() {
    let mut cpu_set = [0u8; 128];
    assert_eq!(guess_cpu_count(128, &cpu_set), 1);
    cpu_set[0] = 0b1011;
    cpu_set[5] = 0xff;
    cpu_set[127] = 0x80;
    assert_eq!(guess_cpu_count(128, &cpu_set), 12);
    assert_eq!(guess_cpu_count(0, &cpu_set), 1);
    assert_eq!(guess_cpu_count(-22, &cpu_set), 1);
    let full = [0xffu8; 128];
    assert_eq!(guess_cpu_count(128, &full), 1024);
}

#[test]
fn error_texts() {
    assert_eq!(Error::NotSupported.to_string(), "Operation not supported on this platform");
    assert_eq!(Error::AllocationFailure.to_string(), "Failed to allocate memory");
    assert_eq!(Error::Errno(11).to_string(), "System call failed with error code: 11");
    assert_eq!(Error::Errno(-4).to_string(), "System call failed with error code: -4");
    assert_eq!(Error::Errno(0).to_string(), "System call failed with error code: 0");
    assert_eq!(Error::Errno(1090).to_string(), "System call failed with error code: 1090");
    assert_eq!(
        Error::Errno(i32::MIN).to_string(),
        "System call failed with error code: -2147483648"
    );
    assert_eq!(Error::PoolPoisoned.to_string(), "Memory pool has been poisoned");
}

#[test]
fn pool_without_the_function_is_not_supported() {
    assert!(matches!(Pool::new(None), Err(Error::NotSupported)));
}

#[test]
fn pool_smoke_test() {
    let mut kernel = Kernel::new();
    let mut pool = mock_pool();
    let ptr = get(&mut pool, &mut kernel).expect("Failed to get pointer from pool");
    pool.recycle(ptr);
}

#[test]
fn pool_carves_a_block_in_order() {
    let mut pool = mock_pool();
    assert_eq!(pool.block_bytes(), 64);
    assert_eq!(pool.block_states(), 8);
    assert_eq!(pool.get(), Ok(Rental::Exhausted));
    assert_eq!(pool.grow(Some(0x4000)), Ok(()));
    for index in 0..8 {
        assert_eq!(pool.get(), Ok(Rental::Rented(Ptr(0x4000 + 8 * index))));
    }
    assert_eq!(pool.get(), Ok(Rental::Exhausted));
    // What comes back is rented again in the order in which it came back.
    pool.recycle(Ptr(0x4010));
    pool.recycle(Ptr(0x4000));
    assert_eq!(pool.get(), Ok(Rental::Rented(Ptr(0x4010))));
    assert_eq!(pool.get(), Ok(Rental::Rented(Ptr(0x4000))));
}

#[test]
fn pool_carves_pages_without_straddling() {
    let params = VGetrandomOpaqueParams {
        size_of_opaque_states: 24,
        mmap_prot: 0,
        mmap_flags: 0,
        reserved: [0; 13],
    };
    // Two states of 24 bytes fit a page of 64; 3 * 24 = 72 bytes make two pages.
    let config = Config::new(params, 64, 3);
    assert_eq!(config.states_per_page, 2);
    assert_eq!(config.pages_per_block, 2);
    let mut pool = Pool::new(Some(config)).unwrap();
    assert_eq!(pool.grow(Some(0x1000)), Ok(()));
    let mut rented = Vec::new();
    while let Ok(Rental::Rented(ptr)) = pool.get() {
        rented.push(ptr.0);
    }
    assert_eq!(rented, vec![0x1000, 0x1018, 0x1040, 0x1058]);
}

#[test]
fn pool_grow_reports_a_failed_mapping() {
    let mut pool = mock_pool();
    assert_eq!(pool.grow(None), Err(Error::AllocationFailure));
    assert_eq!(pool.get(), Ok(Rental::Exhausted));
}

#[test]
fn pool_grow_takes_in_fresh_blocks_only() {
    let mut pool = mock_pool();
    assert_eq!(pool.grow(Some(0)), Err(Error::AllocationFailure));
    assert_eq!(pool.grow(Some(usize::MAX - 63)), Err(Error::AllocationFailure));
    assert_eq!(pool.grow(Some(0x1000)), Ok(()));
    assert_eq!(pool.grow(Some(0x1000)), Err(Error::AllocationFailure));
    assert_eq!(pool.grow(Some(0x1000 + 63)), Err(Error::AllocationFailure));
    assert_eq!(pool.grow(Some(0x1000 - 63)), Err(Error::AllocationFailure));
    assert_eq!(pool.grow(Some(0x1000 + 64)), Ok(()));
    assert_eq!(pool.grow(Some(0x1000 - 64)), Ok(()));
    assert_eq!(pool.grow(Some(usize::MAX - 64)), Ok(()));
    let closed = pool.close();
    assert_eq!(closed.blocks, vec![0x1000, 0x1040, 0x0fc0, usize::MAX - 64]);
    assert_eq!(closed.drained, 32);
}

#[test]
fn pool_never_rents_a_state_twice() {
    let mut kernel = Kernel::new();
    let mut pool = mock_pool();
    let mut out = std::collections::HashSet::new();
    for _ in 0..100 {
        let ptr = get(&mut pool, &mut kernel).unwrap();
        assert!(out.insert(ptr.0));
    }
    // 100 states out need 13 blocks of 8.
    assert_eq!(kernel.mapped.len(), 13);
    assert!(out.len() <= pool.block_states() * kernel.mapped.len());
    for &address in &out {
        let base = kernel.mapped.iter().filter(|&&base| base <= address && address < base + 64).count();
        assert_eq!(base, 1);
        let base = kernel.mapped.iter().find(|&&base| base <= address && address < base + 64).unwrap();
        assert_eq!((address - base) % 8, 0);
    }
}

#[test]
fn pool_close_counts_the_states() {
    let mut kernel = Kernel::new();
    let mut pool = mock_pool();
    let mut out = Vec::new();
    for _ in 0..20 {
        out.push(get(&mut pool, &mut kernel).unwrap());
    }
    for ptr in out {
        pool.recycle(ptr);
    }
    let closed = pool.close();
    assert_eq!(closed.blocks, kernel.mapped);
    assert_eq!(closed.blocks.len(), 3);
    assert_eq!(closed.block_bytes, 64);
    assert_eq!(closed.drained, 1 * 8 * closed.blocks.len());
}

#[test]
fn pool_close_misses_a_leaked_state() {
    let mut kernel = Kernel::new();
    let mut pool = mock_pool();
    let _leaked = get(&mut pool, &mut kernel).unwrap();
    let closed = pool.close();
    assert_eq!(closed.drained, 7);
}

#[test]
fn get_local_state() {
    let mut kernel = Kernel::new();
    let mut pool = mock_pool();
    _ = local_state(&mut pool, &mut kernel).expect("Failed to create local state");
}

#[test]
fn fill_local_state() {
    let mut kernel = Kernel::new();
    let mut pool = mock_pool();
    let mut local_state = local_state(&mut pool, &mut kernel).unwrap();
    let mut buf = [0u8; 64];
    let res = fill(&mut local_state, &mut kernel, &mut buf);
    assert!(res.is_ok(), "Failed to fill local state: {:?}", res);
    assert!(buf.iter().any(|&x| x != 0), "Buffer should not be empty");
    let expected: Vec<u8> = (0..64).collect();
    assert_eq!(buf.to_vec(), expected);
    local_state.release(&mut pool);
}

#[test]
fn multi_local_state() {
    let mut kernel = Kernel::new();
    let mut pool = mock_pool();
    let mut states = Vec::new();
    for _ in 0..128 {
        let local_state = local_state(&mut pool, &mut kernel).unwrap();
        states.push(local_state);
    }
    for state in states.iter_mut() {
        let mut buf = [0u8; 64];
        let res = fill(state, &mut kernel, &mut buf);
        assert!(res.is_ok(), "Failed to fill local state: {:?}", res);
        assert!(buf.iter().any(|&x| x != 0), "Buffer should not be empty");
    }
    for state in states {
        state.release(&mut pool);
    }
    assert_eq!(pool.close().drained, 128);
}

#[test]
fn parallel_local_state() {
    let mut kernel = Kernel::new();
    let mut pool = mock_pool();
    for _ in 0..16 {
        for _ in 0..16 {
            let mut local_state = local_state(&mut pool, &mut kernel).unwrap();
            let mut buf = [0u8; 64];
            let res = fill(&mut local_state, &mut kernel, &mut buf);
            assert!(res.is_ok(), "Failed to fill local state: {:?}", res);
            assert!(buf.iter().any(|&x| x != 0), "Buffer should not be empty");
            local_state.release(&mut pool);
        }
    }
    let closed = pool.close();
    assert_eq!(closed.drained, 8 * closed.blocks.len());
}

#[test]
fn try_fill_reports_the_error_number() {
    let mut kernel = Kernel::new();
    let mut pool = mock_pool();
    let mut state = local_state(&mut pool, &mut kernel).unwrap();
    state.enter();
    assert_eq!(state.try_fill(17), Ok(17));
    state.enter();
    assert_eq!(state.try_fill(0), Ok(0));
    state.enter();
    assert_eq!(state.try_fill(-11), Err(Error::Errno(11)));
    state.enter();
    assert_eq!(state.try_fill(-38), Err(Error::Errno(38)));
}

#[test]
fn fill_retries_and_gives_up() {
    let mut kernel = Kernel::new();
    let mut pool = mock_pool();
    let state = local_state(&mut pool, &mut kernel).unwrap();
    assert_eq!(state.begin(0), Filling::Done);
    assert_eq!(state.begin(64), Filling::Call { from: 0 });
    assert_eq!(state.fill(64, 10, Ok(20)), Ok(Filling::Call { from: 30 }));
    assert_eq!(state.fill(64, 10, Ok(54)), Ok(Filling::Done));
    assert_eq!(state.fill(64, 10, Ok(0)), Ok(Filling::Call { from: 10 }));
    assert_eq!(state.fill(64, 10, Err(Error::Errno(EAGAIN))), Ok(Filling::Call { from: 10 }));
    assert_eq!(state.fill(64, 10, Err(Error::Errno(EINTR))), Ok(Filling::Call { from: 10 }));
    assert_eq!(state.fill(64, 10, Err(Error::Errno(38))), Err(Error::Errno(38)));
    assert_eq!(state.fill(64, 10, Err(Error::PoolPoisoned)), Err(Error::PoolPoisoned));
    assert_eq!(EAGAIN, 11);
    assert_eq!(EINTR, 4);
}

#[test]
fn fill_of_an_empty_buffer_calls_nothing() {
    let mut kernel = Kernel::new();
    let mut pool = mock_pool();
    let mut state = local_state(&mut pool, &mut kernel).unwrap();
    let mut empty: [u8; 0] = [];
    assert_eq!(fill(&mut state, &mut kernel, &mut empty), Ok(()));
    assert!(kernel.counters.is_empty());
    assert!(!state.busy());
}

#[test]
fn fill_in_several_calls() {
    let mut pool = mock_pool();
    pool.grow(Some(0x1000)).unwrap();
    let mut state = LocalState::new(&mut pool).unwrap().unwrap();
    let mut counter = 250usize;
    let mut buf = [0u8; 10];
    let mut calls = 0;
    let mut action = state.begin(buf.len());
    // A kernel that is interrupted every other call and fills three bytes at a time.
    while let Filling::Call { from } = action {
        state.enter();
        calls += 1;
        let result = if calls % 2 == 1 {
            -EINTR
        } else {
            let end = buf.len().min(from + 3);
            mocked_vgetrandom(&mut buf[from..end], &mut counter)
        };
        let outcome = state.try_fill(result);
        action = state.fill(buf.len(), from, outcome).unwrap();
    }
    assert_eq!(calls, 8);
    assert_eq!(buf, [250, 251, 252, 253, 254, 255, 0, 1, 2, 3]);
    assert_eq!(counter, 260);
}

#[test]
fn mocked_counter_wraps() {
    let mut counter = usize::MAX - 1;
    let mut buf = [9u8; 4];
    assert_eq!(mocked_vgetrandom(&mut buf, &mut counter), 4);
    assert_eq!(buf, [254, 255, 0, 1]);
    assert_eq!(counter, 2);
    let mut empty: [u8; 0] = [];
    assert_eq!(mocked_vgetrandom(&mut empty, &mut counter), 0);
    assert_eq!(counter, 2);
    let params = mocked_params();
    assert_eq!(params.size_of_opaque_states, 8);
    assert_eq!(params.mmap_prot, 0);
    assert_eq!(params.mmap_flags, 0);
    assert_eq!(params.reserved, [0; 13]);
}

#[test]
fn pool_multi_thread_test() {
    let parallelism = 8;
    let mut kernel = Kernel::new();
    let mut pool = mock_pool();
    let mut held: Vec<Vec<Ptr>> = Vec::new();
    for _ in 0..parallelism {
        let ptrs = (0..16)
            .map(|_| get(&mut pool, &mut kernel).expect("Failed to get pointer from pool"))
            .collect::<Vec<_>>();
        held.push(ptrs);
    }
    for ptrs in held {
        for ptr in ptrs {
            pool.recycle(ptr);
        }
    }
    assert_eq!(pool.close().drained, 16 * parallelism);
}

#[test]
fn global_state_test() {
    let mut kernel = Kernel::new();
    let mut pool = mock_pool();
    let mut states = Vec::new();
    for _ in 0..16 {
        states.push(local_state(&mut pool, &mut kernel).expect("Failed to create local state"));
    }
    for round in 0..16 {
        for state in states.iter_mut() {
            let mut buf = [0u8; 64];
            let res = fill(state, &mut kernel, &mut buf);
            assert!(res.is_ok(), "Failed to fill global state: {:?}", res);
            assert!(buf.iter().any(|&x| x != 0), "Buffer should not be empty");
            assert_eq!(buf[0], (round * 64 % 256) as u8);
        }
    }
}
