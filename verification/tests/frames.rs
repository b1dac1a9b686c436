use meshi::tare::graph::{depth_load, plan_color_loads, solve_step, LoadOp, RenderPassCache, SolveStep};
use meshi::tare::pool::{ReusePool, UNUSED_RETIRE_THRESHOLD};
use meshi::tare::ring::Ring;

#[test]
fn ring_wraps_around() {
    let mut ring: Ring<u32, 3> = Ring::new();
    ring.set(5, 4);
    assert_eq!(*ring.get_mut(1), 5);
    ring.advance();
    ring.advance();
    ring.advance();
    assert_eq!(ring.current(), 0);
    *ring.data_mut() = 7;
    assert_eq!(*ring.data(), 7);
    let ring: Ring<u32, 2> = Ring::new_with(&[1, 2, 3]);
    assert_eq!(*ring.data(), 1);
}

#[test]
fn transient_allocator_avoids_in_frame_reuse() {
    let mut pool: ReusePool<u64, u32> = ReusePool::new();
    // nothing released yet: both requests need fresh resources
    assert_eq!(pool.acquire(1), None);
    pool.record(1, 10);
    assert_eq!(pool.acquire(1), None);
    pool.record(1, 11);
    // one advance later the frame is still in flight
    assert!(pool.advance().is_empty());
    assert_eq!(pool.acquire(1), None);
    // its slot comes round after the next advances
    pool.advance();
    pool.advance();
    assert_eq!(pool.acquire(1), Some(11));
    assert_eq!(pool.acquire(1), Some(10));
    assert_eq!(pool.acquire(1), None);
}

#[test]
fn released_resources_retire_after_waiting() {
    let mut pool: ReusePool<u64, u32> = ReusePool::new();
    pool.record(3, 30);
    let mut retired = Vec::new();
    for _ in 0..(UNUSED_RETIRE_THRESHOLD + 3) {
        retired.extend(pool.advance());
    }
    assert_eq!(retired, vec![30]);
    assert_eq!(pool.acquire(3), None);
}

#[test]
fn render_graph_solves_only_when_needed() {
    assert_eq!(solve_step(1, 1, 0), SolveStep::UseCache);
    assert_eq!(solve_step(1, 0, 0), SolveStep::Nothing);
    assert_eq!(solve_step(0, 0, 2), SolveStep::Solve);
}

#[test]
fn color_loads_count_present_attachments() {
    let atts = [None, Some(1u8), None, Some(2), Some(3), Some(4), Some(5), None];
    let clears = [Some(0u8), None, Some(0), None, None, None, None, None];
    let plan = plan_color_loads(&atts, &clears);
    assert_eq!(plan, vec![(1, LoadOp::Clear), (3, LoadOp::Load), (4, LoadOp::Clear), (5, LoadOp::Load)]);
    assert_eq!(depth_load(&Some(1.0f32)), LoadOp::Clear);
    assert_eq!(depth_load::<f32>(&None), LoadOp::Load);
}

#[test]
fn render_pass_is_reused_until_a_pass_is_added() {
    let mut cache: RenderPassCache<u32, u8> = RenderPassCache::new();
    // a graph with no passes has nothing to solve
    assert_eq!(cache.step(0), SolveStep::Nothing);
    assert_eq!(cache.first_pass(), None);
    assert_eq!(cache.step(1), SolveStep::Solve);
    cache.store(vec![7], vec![1]);
    // the second request uses the cache and gets the same pass
    assert_eq!(cache.step(1), SolveStep::UseCache);
    assert_eq!(cache.first_pass(), Some(7));
    assert_eq!(cache.first_pass(), Some(7));
    // adding a pass empties the cache
    cache.clear();
    assert_eq!(cache.step(2), SolveStep::Solve);
}

#[test]
fn recorded_buffer_is_reused_only_after_three_advances() {
    let mut pool: ReusePool<u64, u32> = ReusePool::new();
    pool.record(5, 50);
    assert_eq!(pool.acquire(5), None);
    pool.advance();
    assert_eq!(pool.acquire(5), None);
    pool.advance();
    assert_eq!(pool.acquire(5), None);
    pool.advance();
    assert_eq!(pool.acquire(5), Some(50));
}
