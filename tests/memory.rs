use hash_folderoo::memory::{plan_memory, recommend_config, BufferPool, MemoryMode};

#[test]
fn test_recommend_config_runs() {
    let plan = recommend_config(MemoryMode::Balanced, None, None);
    assert!(plan.threads >= 1);
    assert!(plan.buffer_size >= 64 * 1024);
    assert!(plan.num_buffers >= 1);
}

#[test]
fn test_buffer_pool_basic() {
    let mut pool = BufferPool::new(2, 1024);
    {
        let mut first = pool.get();
        let second = pool.get();
        let s1 = first.as_mut_slice();
        if !s1.is_empty() {
            s1[0] = 42;
        }
        // both handed back here
        pool.give_back(first);
        pool.give_back(second);
    }
    // after hand-back, we should be able to get buffers again
    let _ = pool.get();
    let _ = pool.get();
}

#[test]
fn plan_respects_max_ram() {
    let plan = recommend_config(MemoryMode::Booster, None, Some(2 * 1024 * 1024));
    assert!(plan.total_buffer_bytes() <= 2 * 1024 * 1024);
    assert!(plan.num_buffers >= 1);
}

#[test]
fn low_memory_scaling() {
    let plan = recommend_config(MemoryMode::Booster, Some(8), Some(128 * 1024));

    assert!(
        plan.total_buffer_bytes() <= 1024 * 1024,
        "total buffer bytes {} exceeds budget",
        plan.total_buffer_bytes()
    );
    assert!(plan.num_buffers >= 1);

    let mut pool = BufferPool::new(plan.num_buffers, plan.buffer_size);

    {
        let mut bufs = Vec::new();
        for _ in 0..plan.num_buffers {
            bufs.push(pool.get());
        }
        assert!(pool.allocated_buffers() >= plan.num_buffers);
        for b in bufs {
            pool.give_back(b);
        }
    }

    assert!(pool.allocated_buffers() <= pool.max_buffers());
}

#[test]
fn stream_mode_respects_low_memory() {
    let plan = recommend_config(MemoryMode::Stream, None, Some(256 * 1024));

    assert_eq!(plan.mode as u8, MemoryMode::Stream as u8, "should use stream mode");
    assert!(plan.buffer_size <= 64 * 1024, "stream mode should use small buffers");
    assert!(plan.total_buffer_bytes() <= 256 * 1024, "should respect max_ram");
}

#[test]
fn thread_capping_based_on_memory() {
    let plan = recommend_config(MemoryMode::Balanced, None, Some(64 * 1024));

    assert!(plan.threads <= 2, "low memory should cap threads, got {}", plan.threads);
    assert!(plan.num_buffers <= plan.threads, "buffers should not exceed threads");
}

#[test]
fn booster_mode_high_memory() {
    let plan = recommend_config(MemoryMode::Booster, None, Some(64 * 1024 * 1024));

    assert_eq!(plan.mode as u8, MemoryMode::Booster as u8);
    assert!(plan.buffer_size >= 1024 * 1024, "booster should use 1MB+ buffers");
    assert!(plan.threads >= 1);
}

#[test]
fn balanced_mode_default_behavior() {
    let plan = recommend_config(MemoryMode::Balanced, None, Some(4 * 1024 * 1024));

    assert_eq!(plan.mode as u8, MemoryMode::Balanced as u8);
    assert!(plan.buffer_size >= 256 * 1024, "balanced should use 256KB+ buffers");
    assert!(plan.buffer_size <= 1024 * 1024, "balanced should not use huge buffers");
}

#[test]
fn thread_override_respected() {
    let plan = recommend_config(MemoryMode::Balanced, Some(4), Some(16 * 1024 * 1024));

    assert_eq!(plan.threads, 4, "should respect thread override");
}

#[test]
fn buffer_pool_backpressure() {
    let mut pool = BufferPool::new(2, 1024);

    let mut buffers = Vec::new();
    for _ in 0..5 {
        buffers.push(pool.get());
    }

    assert!(pool.allocated_buffers() >= 2, "should track all allocations");

    for b in buffers.drain(..) {
        pool.give_back(b);
    }

    assert!(pool.allocated_buffers() <= pool.max_buffers() + 3, "pool should recover most buffers");
}

#[test]
fn stream_plan_with_one_buffer_budget() {
    for cpus in [1usize, 2, 8, 64] {
        let plan = plan_memory(MemoryMode::Stream, None, Some(64 * 1024), cpus, None);
        assert!(plan.buffer_size <= 64 * 1024);
        assert_eq!(plan.num_buffers, 1);
        assert_eq!(plan.threads, 1);
        assert!(!plan.prefetch_listing);
    }
    let plan = recommend_config(MemoryMode::Stream, None, Some(64 * 1024));
    assert_eq!(plan.num_buffers, 1);
    assert_eq!(plan.threads, 1);
}

#[test]
fn plan_heuristics_per_mode() {
    let s = plan_memory(MemoryMode::Stream, None, Some(1 << 40), 8, None);
    assert_eq!((s.threads, s.buffer_size, s.num_buffers), (4, 64 * 1024, 8));
    let b = plan_memory(MemoryMode::Balanced, None, Some(1 << 40), 8, None);
    assert_eq!((b.threads, b.buffer_size, b.num_buffers), (8, 256 * 1024, 32));
    assert!(b.prefetch_listing);
    let x = plan_memory(MemoryMode::Booster, None, Some(1 << 40), 8, None);
    assert_eq!((x.threads, x.buffer_size, x.num_buffers), (16, 1024 * 1024, 96));
    let one = plan_memory(MemoryMode::Stream, None, Some(1 << 40), 1, None);
    assert_eq!(one.threads, 1);
    let zero = plan_memory(MemoryMode::Balanced, None, Some(1 << 40), 0, None);
    assert_eq!(zero.threads, 1);
}

#[test]
fn plan_scales_down_to_budget() {
    // 8 threads * 4 buffers * 256 KiB = 8 MiB wanted, 1 MiB allowed: 4 buffers.
    let p = plan_memory(MemoryMode::Balanced, None, Some(1024 * 1024), 8, None);
    assert_eq!(p.num_buffers, 4);
    assert_eq!(p.threads, 4);
    assert_eq!(p.total_buffer_bytes(), 1024 * 1024);
    // A budget under one buffer still gets one buffer.
    let q = plan_memory(MemoryMode::Booster, Some(3), Some(10), 8, None);
    assert_eq!((q.threads, q.num_buffers), (1, 1));
    // Without an override the detected RAM, or the default, is the budget.
    let r = plan_memory(MemoryMode::Balanced, None, None, 8, Some(512 * 1024));
    assert_eq!(r.num_buffers, 2);
    let d = plan_memory(MemoryMode::Booster, None, None, 1000, None);
    assert_eq!(d.total_buffer_bytes(), 2 * 1024 * 1024 * 1024);
}

#[test]
fn planner_bounds_hold_across_budgets() {
    for mode in [MemoryMode::Stream, MemoryMode::Balanced, MemoryMode::Booster] {
        for budget in [0u64, 1, 65535, 65536, 300_000, 1 << 20, 1 << 30] {
            for cpus in [1usize, 3, 16] {
                for threads in [None, Some(0usize), Some(1), Some(50)] {
                    let p = plan_memory(mode, threads, Some(budget), cpus, None);
                    assert!(p.threads >= 1 && p.num_buffers >= 1);
                    assert!(p.threads <= p.num_buffers);
                    assert!(p.total_buffer_bytes() <= budget.max(p.buffer_size as u64));
                }
            }
        }
    }
}

#[test]
fn pool_reuses_after_full_return() {
    let mut pool = BufferPool::new(3, 16);
    let mut held = Vec::new();
    for _ in 0..pool.max_buffers() {
        held.push(pool.get());
    }
    for b in held {
        pool.give_back(b);
    }
    let before = pool.allocated_buffers();
    let b = pool.get();
    assert_eq!(pool.allocated_buffers(), before);
    assert_eq!(b.len(), 16);
    assert_eq!(pool.over_budget_advisories(), 0);
}

#[test]
fn pool_over_budget_is_advised() {
    let mut pool = BufferPool::new(1, 8);
    let a = pool.get();
    assert!(pool.try_get().is_none());
    let b = pool.get();
    assert_eq!(pool.allocated_buffers(), 2);
    assert_eq!(pool.over_budget_advisories(), 1);
    assert!(pool.is_over_budget());
    pool.give_back(a);
    pool.give_back(b);
    assert_eq!(pool.idle_buffers(), 1);
    assert_eq!(pool.allocated_buffers(), 1);
    assert!(!pool.is_over_budget());
}

#[test]
fn pool_put_resizes() {
    let mut pool = BufferPool::new(2, 8);
    let a = pool.get();
    assert_eq!(pool.buf_size(), 8);
    pool.put(vec![1u8; 3]);
    let c = pool.get();
    assert_eq!(c.as_slice().len(), 8);
    assert_eq!(c.into_inner().len(), 8);
    pool.give_back(a);
}

#[test]
fn mode_names() {
    assert_eq!(MemoryMode::from_name("STREAM"), MemoryMode::Stream);
    assert_eq!(MemoryMode::from_name("booster"), MemoryMode::Booster);
    assert_eq!(MemoryMode::from_name("unknown"), MemoryMode::Balanced);
}
