use os4::config::PAGE_SIZE;
use os4::frame_allocator::{
    frame_alloc, frame_dealloc, init_frame_allocator, FrameTracker, PhysPageNum, StackFrameAllocator,
};

fn allocator(l: usize, r: usize) -> StackFrameAllocator {
    let mut a = StackFrameAllocator::new();
    a.init(PhysPageNum(l), PhysPageNum(r));
    a
}

#[test]
fn allocates_linear_range_in_order() {
    let mut a = allocator(10, 13);
    assert_eq!(a.allocate(), Some(PhysPageNum(10)));
    assert_eq!(a.allocate(), Some(PhysPageNum(11)));
    assert_eq!(a.allocate(), Some(PhysPageNum(12)));
    assert_eq!(a.allocate(), None);
}

#[test]
fn new_allocator_has_nothing_to_hand_out() {
    let mut a = StackFrameAllocator::new();
    assert_eq!(a.allocate(), None);
}

#[test]
fn reuse_is_last_in_first_out() {
    let mut a = allocator(0, 100);
    let x = a.allocate().unwrap();
    assert_eq!(x, PhysPageNum(0));
    a.deallocate(x);
    assert_eq!(a.allocate(), Some(x));
    let p = a.allocate().unwrap();
    let q = a.allocate().unwrap();
    a.deallocate(p);
    a.deallocate(q);
    assert_eq!(a.allocate(), Some(q));
    assert_eq!(a.allocate(), Some(p));
    assert_eq!(a.allocate(), Some(PhysPageNum(3)));
}

#[test]
fn exhaustion_returns_none_repeatedly() {
    let mut a = allocator(5, 6);
    assert_eq!(a.allocate(), Some(PhysPageNum(5)));
    assert_eq!(a.allocate(), None);
    assert_eq!(a.allocate(), None);
    a.deallocate(PhysPageNum(5));
    assert_eq!(a.allocate(), Some(PhysPageNum(5)));
    assert_eq!(a.allocate(), None);
}

#[test]
fn release_is_refused_for_unallocated_or_released_frames() {
    let mut a = allocator(0, 10);
    assert!(!a.can_dealloc(PhysPageNum(0)));
    let x = a.allocate().unwrap();
    assert!(a.can_dealloc(x));
    assert!(!a.can_dealloc(PhysPageNum(1)));
    assert!(!a.can_dealloc(PhysPageNum(9)));
    a.deallocate(x);
    assert!(!a.can_dealloc(x));
}

#[test]
fn live_trackers_hold_distinct_frames() {
    let mut a = allocator(100, 110);
    let mut live: Vec<FrameTracker> = Vec::new();
    for _ in 0..6 {
        live.push(frame_alloc(&mut a).unwrap());
    }
    let t = live.remove(2);
    frame_dealloc(&mut a, t);
    let t = live.remove(0);
    frame_dealloc(&mut a, t);
    for _ in 0..4 {
        live.push(frame_alloc(&mut a).unwrap());
    }
    let mut ppns: Vec<usize> = live.iter().map(|f| f.ppn.0).collect();
    ppns.sort();
    ppns.dedup();
    assert_eq!(ppns.len(), 8);
    assert!(ppns.iter().all(|p| *p >= 100 && *p < 110));
}

#[test]
fn frame_allocator_test() {
    let mut a = allocator(0x80, 0x100);
    let mut v: Vec<FrameTracker> = Vec::new();
    for _ in 0..5 {
        v.push(frame_alloc(&mut a).unwrap());
    }
    let first: Vec<usize> = v.iter().map(|f| f.ppn.0).collect();
    assert_eq!(first, vec![0x80, 0x81, 0x82, 0x83, 0x84]);
    for f in v.drain(..) {
        frame_dealloc(&mut a, f);
    }
    for _ in 0..5 {
        v.push(frame_alloc(&mut a).unwrap());
    }
    let second: Vec<usize> = v.iter().map(|f| f.ppn.0).collect();
    assert_eq!(second, vec![0x84, 0x83, 0x82, 0x81, 0x80]);
}

#[test]
fn init_rounds_kernel_end_up_and_memory_end_down() {
    let mut a = StackFrameAllocator::new();
    init_frame_allocator(&mut a, 0x8020_0001, 0x8080_0fff);
    assert_eq!(a.allocate(), Some(PhysPageNum(0x80201)));
    let mut b = StackFrameAllocator::new();
    init_frame_allocator(&mut b, 3 * PAGE_SIZE, 4 * PAGE_SIZE + 7);
    assert_eq!(b.allocate(), Some(PhysPageNum(3)));
    assert_eq!(b.allocate(), None);
}

#[test]
fn tracker_keeps_its_frame() {
    let t = FrameTracker::new(PhysPageNum(42));
    assert_eq!(t.ppn, PhysPageNum(42));
}
