use my_kernel::memory::{BootInfoFrameAllocator, MemoryRegion};

fn region(start: u64, end: u64, usable: bool) -> MemoryRegion {
    MemoryRegion { start_addr: start, end_addr: end, usable }
}

fn drain(a: &mut BootInfoFrameAllocator, n: usize) -> Vec<Option<u64>> {
    (0..n).map(|_| a.allocate_frame()).collect()
}

#[test]
fn frames_of_usable_regions_in_order() {
    let mut a = BootInfoFrameAllocator::init(vec![
        region(0x0, 0x1000, false),
        region(0x1000, 0x3000, true),
        region(0x3000, 0x8000, false),
        region(0x8000, 0xA000, true),
    ]);
    assert_eq!(
        drain(&mut a, 5),
        vec![Some(0x1000), Some(0x2000), Some(0x8000), Some(0x9000), None]
    );
    assert_eq!(a.allocated(), 5);
    assert_eq!(a.allocate_frame(), None);
    assert_eq!(a.allocated(), 6);
}

#[test]
fn partial_last_frame_counts() {
    let mut a = BootInfoFrameAllocator::init(vec![region(0x10000, 0x11001, true)]);
    assert_eq!(drain(&mut a, 3), vec![Some(0x10000), Some(0x11000), None]);
}

#[test]
fn unaligned_start_rounds_down() {
    let mut a = BootInfoFrameAllocator::init(vec![region(0x1800, 0x3000, true)]);
    assert_eq!(drain(&mut a, 3), vec![Some(0x1000), Some(0x2000), None]);
}

#[test]
fn empty_and_inverted_regions_give_nothing() {
    let mut a = BootInfoFrameAllocator::init(vec![
        region(0x5000, 0x5000, true),
        region(0x9000, 0x4000, true),
        region(0x20000, 0x21000, true),
    ]);
    assert_eq!(drain(&mut a, 2), vec![Some(0x20000), None]);
}

#[test]
fn empty_map_gives_nothing() {
    let mut a = BootInfoFrameAllocator::init(Vec::new());
    assert_eq!(a.allocate_frame(), None);
    assert_eq!(a.allocated(), 1);
}

#[test]
fn frames_near_the_top_of_physical_memory() {
    let top = 1u64 << 52;
    let mut a = BootInfoFrameAllocator::init(vec![region(top - 0x2000, top, true)]);
    assert_eq!(drain(&mut a, 3), vec![Some(top - 0x2000), Some(top - 0x1000), None]);
}

#[test]
fn disjoint_regions_never_repeat_a_frame() {
    let mut a = BootInfoFrameAllocator::init(vec![
        region(0x100000, 0x104000, true),
        region(0x0, 0x9f000, true),
        region(0x9f000, 0x100000, false),
    ]);
    let frames: Vec<u64> = drain(&mut a, 200).into_iter().flatten().collect();
    assert_eq!(frames.len(), 4 + 0x9f);
    let mut sorted = frames.clone();
    sorted.sort();
    sorted.dedup();
    assert_eq!(sorted.len(), frames.len());
    assert!(frames.iter().all(|f| f % 4096 == 0));
}

#[test]
fn unusable_regions_may_lie_anywhere() {
    let top = 1u64 << 52;
    let mut a = BootInfoFrameAllocator::init(vec![
        region(top, u64::MAX, false),
        region(0x3000, 0x4000, true),
    ]);
    assert_eq!(drain(&mut a, 2), vec![Some(0x3000), None]);
}
