use vstd::prelude::*;
use x86_64::structures::paging::{PhysFrame, Size4KiB};
use x86_64::PhysAddr;

verus! {

/// Size of a frame: 4 KiB.
pub const FRAME_SIZE: u64 = 4096;

/// Physical addresses have 52 bits.
pub const PHYS_ADDR_LIMIT: u64 = 0x10_0000_0000_0000;

/// `PhysFrame::<Size4KiB>::containing_address` of x86_64 (with
/// `PhysAddr::new` on the way in and `start_address().as_u64()` on the way
/// out): the start of the 4 KiB frame that holds `addr`, which is `addr`
/// rounded down to a multiple of 4096. `PhysAddr::new` panics when any of
/// bits 52 to 63 is set, so such addresses are left out.
#[verifier::external_body]
fn frame_containing(addr: u64) -> (r: u64)
    requires
        addr < PHYS_ADDR_LIMIT,
    ensures
        r == addr - addr % 4096,
{
    PhysFrame::<Size4KiB>::containing_address(PhysAddr::new(addr)).start_address().as_u64()
}

/// A region of physical memory as the boot loader reports it: the addresses
/// `start_addr..end_addr`, and whether it is free for the kernel to use.
#[derive(Debug, Clone, Copy, PartialEq, Eq, Structural)]
pub struct MemoryRegion {
    pub start_addr: u64,
    pub end_addr: u64,
    pub usable: bool,
}

/// The number of addresses `start_addr + 4096 * k` below `end_addr`.
pub open spec fn frame_count(r: MemoryRegion) -> nat {
    if r.start_addr < r.end_addr {
        ((r.end_addr - r.start_addr + 4095) / 4096) as nat
    } else {
        0
    }
}

/// The frames of a region: those holding `start_addr`, `start_addr + 4096`,
/// and so on while the address is below `end_addr`.
pub open spec fn region_frames(r: MemoryRegion) -> Seq<u64> {
    Seq::new(
        frame_count(r),
        |k: int| ((r.start_addr + 4096 * k) - (r.start_addr + 4096 * k) % 4096) as u64,
    )
}

/// The frames of the usable regions of a memory map, region after region.
pub open spec fn usable_frames_of(regions: Seq<MemoryRegion>) -> Seq<u64>
    decreases regions.len(),
{
    if regions.len() == 0 {
        Seq::empty()
    } else {
        let rest = usable_frames_of(regions.drop_last());
        if regions.last().usable {
            rest + region_frames(regions.last())
        } else {
            rest
        }
    }
}

/// A memory map whose free memory the hardware can address: no usable
/// region reaches past the 52-bit physical address space.
pub open spec fn valid_memory_map(regions: Seq<MemoryRegion>) -> bool {
    forall|i: int|
        0 <= i < regions.len() && (#[trigger] regions[i]).usable ==> regions[i].end_addr
            <= PHYS_ADDR_LIMIT
}

/// A frame allocator that hands out the usable frames of the boot loader's
/// memory map in order, one per call.
pub struct BootInfoFrameAllocator {
    memory_map: Vec<MemoryRegion>,
    next: usize,
}

impl BootInfoFrameAllocator {
    /// The memory map the allocator draws from.
    pub closed spec fn regions(&self) -> Seq<MemoryRegion> {
        self.memory_map@
    }

    /// How many frames have been asked for so far.
    pub closed spec fn next_index(&self) -> nat {
        self.next as nat
    }

    /// The frames the allocator hands out, in order.
    pub open spec fn usable_frames(&self) -> Seq<u64> {
        usable_frames_of(self.regions())
    }

    /// The frames handed out so far, in the order they were handed out.
    pub open spec fn handed_out(&self) -> Seq<u64> {
        self.usable_frames().take(
            if self.next_index() < self.usable_frames().len() {
                self.next_index() as int
            } else {
                self.usable_frames().len() as int
            },
        )
    }

    /// Every usable frame has been handed out: from now on there is nothing.
    pub open spec fn exhausted(&self) -> bool {
        self.next_index() >= self.usable_frames().len()
    }

    pub closed spec fn wf(&self) -> bool {
        valid_memory_map(self.memory_map@)
    }

    /// An allocator over the given memory map that has handed out nothing.
    /// The caller promises that the map is valid and that the memory its
    /// usable regions describe is really unused.
    pub fn init(memory_map: Vec<MemoryRegion>) -> (a: BootInfoFrameAllocator)
        requires
            valid_memory_map(memory_map@),
        ensures
            a.wf(),
            a.regions() == memory_map@,
            a.next_index() == 0,
    {
        BootInfoFrameAllocator { memory_map, next: 0 }
    }

    /// The number of frames asked for so far.
    pub fn allocated(&self) -> (r: usize)
        ensures
            r == self.next_index(),
    {
        self.next
    }

    /// Hands out the next usable frame (its start address), or `None` once
    /// all of them are gone; either way the count of requests goes up by one.
    pub fn allocate_frame(&mut self) -> (r: Option<u64>)
        requires
            old(self).wf(),
            old(self).next_index() < usize::MAX,
        ensures
            final(self).wf(),
            final(self).regions() == old(self).regions(),
            final(self).next_index() == old(self).next_index() + 1,
            r == (if old(self).next_index() < old(self).usable_frames().len() {
                Some(old(self).usable_frames()[old(self).next_index() as int])
            } else {
                None
            }),
            final(self).handed_out() == (match r {
                Some(f) => old(self).handed_out().push(f),
                None => old(self).handed_out(),
            }),
            r is None <==> old(self).exhausted(),
            r is None ==> final(self).exhausted(),
    {
        proof {
            let fs = old(self).usable_frames();
            let n = old(self).next_index() as int;
            if n < fs.len() {
                assert(fs.take(n + 1) =~= fs.take(n).push(fs[n]));
            }
        }
        let frame = self.nth_usable_frame(self.next as u64);
        self.next = self.next + 1;
        frame
    }

    /// The `n`th usable frame, if there are that many.
    fn nth_usable_frame(&self, n: u64) -> (r: Option<u64>)
        requires
            self.wf(),
        ensures
            r == (if n < self.usable_frames().len() {
                Some(self.usable_frames()[n as int])
            } else {
                None
            }),
    {
        let ghost regions = self.memory_map@;
        let mut remaining: u64 = n;
        let mut i: usize = 0;
        while i < self.memory_map.len()
            invariant
                regions == self.memory_map@,
                valid_memory_map(regions),
                i <= regions.len(),
                usable_frames_of(regions.take(i as int)).len() + remaining == n,
            decreases regions.len() - i,
        {
            proof {
                assert(regions.take(i + 1).drop_last() =~= regions.take(i as int));
            }
            let region = self.memory_map[i];
            if region.usable && region.start_addr < region.end_addr {
                let count = (region.end_addr - region.start_addr - 1) / FRAME_SIZE + 1;
                assert(count == frame_count(region)) by (nonlinear_arith)
                    requires
                        region.start_addr < region.end_addr,
                        count == (region.end_addr - region.start_addr - 1) / 4096 + 1,
                ;
                if remaining < count {
                    assert(remaining * 4096 < region.end_addr - region.start_addr) by (nonlinear_arith)
                        requires
                            region.start_addr < region.end_addr,
                            remaining < count,
                            count == (region.end_addr - region.start_addr - 1) / 4096 + 1,
                    ;
                    let addr = region.start_addr + remaining * FRAME_SIZE;
                    assert(regions[i as int].usable);
                    assert(region.end_addr <= PHYS_ADDR_LIMIT);
                    let frame = frame_containing(addr);
                    proof {
                        let prefix = usable_frames_of(regions.take(i as int));
                        assert(usable_frames_of(regions.take(i + 1)) =~= prefix + region_frames(region));
                        lemma_usable_frames_prefix(regions, i + 1, regions.len() as int);
                        assert(regions.take(regions.len() as int) =~= regions);
                        assert(usable_frames_of(regions.take(i + 1))[n as int] == frame);
                    }
                    return Some(frame);
                }
                remaining = remaining - count;
            }
            proof {
                if region.usable && region.start_addr >= region.end_addr {
                    assert(region_frames(region) =~= Seq::<u64>::empty());
                    assert(usable_frames_of(regions.take(i + 1)) =~= usable_frames_of(
                        regions.take(i as int),
                    ));
                }
            }
            i = i + 1;
        }
        proof {
            assert(regions.take(i as int) =~= regions);
        }
        None
    }
}

/// The frames of a shorter prefix of a memory map come first among those of
/// a longer one.
proof fn lemma_usable_frames_prefix(regions: Seq<MemoryRegion>, j: int, k: int)
    requires
        0 <= j <= k <= regions.len(),
    ensures
        usable_frames_of(regions.take(j)).len() <= usable_frames_of(regions.take(k)).len(),
        usable_frames_of(regions.take(k)).subrange(0, usable_frames_of(regions.take(j)).len() as int)
            == usable_frames_of(regions.take(j)),
    decreases k - j,
{
    if j < k {
        lemma_usable_frames_prefix(regions, j, k - 1);
        assert(regions.take(k).drop_last() =~= regions.take(k - 1));
        let a = usable_frames_of(regions.take(j));
        let b = usable_frames_of(regions.take(k - 1));
        let c = usable_frames_of(regions.take(k));
        assert(c.subrange(0, a.len() as int) =~= b.subrange(0, a.len() as int));
    } else {
        assert(usable_frames_of(regions.take(k)).subrange(0, usable_frames_of(regions.take(k)).len() as int)
            =~= usable_frames_of(regions.take(k)));
    }
}

/// The usable regions start on frame boundaries and do not overlap: what a
/// memory map must satisfy for its free memory to be handed out safely.
pub open spec fn usable_regions_disjoint_aligned(regions: Seq<MemoryRegion>) -> bool {
    &&& forall|i: int|
        0 <= i < regions.len() && (#[trigger] regions[i]).usable ==> regions[i].start_addr % 4096
            == 0
    &&& forall|i: int, j: int|
        0 <= i < regions.len() && 0 <= j < regions.len() && i != j && (#[trigger] regions[i]).usable
            && (#[trigger] regions[j]).usable ==> regions[i].end_addr <= regions[j].start_addr
            || regions[j].end_addr <= regions[i].start_addr
}

/// `f` lies in one of the usable regions.
pub open spec fn in_usable_region(regions: Seq<MemoryRegion>, f: u64) -> bool {
    exists|i: int|
        0 <= i < regions.len() && (#[trigger] regions[i]).usable && regions[i].start_addr <= f
            < regions[i].end_addr
}

proof fn lemma_region_frame(r: MemoryRegion, k: int)
    requires
        r.start_addr % 4096 == 0,
        0 <= k < frame_count(r),
    ensures
        region_frames(r)[k] == r.start_addr + 4096 * k,
        r.start_addr <= region_frames(r)[k] < r.end_addr,
        region_frames(r)[k] % 4096 == 0,
{
    let s = r.start_addr as int;
    let e = r.end_addr as int;
    assert((s + 4096 * k) % 4096 == 0) by (nonlinear_arith)
        requires
            s % 4096 == 0,
    ;
    assert(s + 4096 * k < e) by (nonlinear_arith)
        requires
            s < e,
            0 <= k,
            k < (e - s + 4095) / 4096,
    ;
}

proof fn lemma_frames_in_regions(regions: Seq<MemoryRegion>)
    requires
        usable_regions_disjoint_aligned(regions),
    ensures
        forall|k: int|
            0 <= k < usable_frames_of(regions).len() ==> #[trigger] usable_frames_of(regions)[k]
                % 4096 == 0 && in_usable_region(regions, usable_frames_of(regions)[k]),
    decreases regions.len(),
{
    if regions.len() > 0 {
        let init = regions.drop_last();
        let last = regions.last();
        let n = regions.len() - 1;
        assert forall|i: int| 0 <= i < init.len() implies #[trigger] init[i] == regions[i] by {}
        lemma_frames_in_regions(init);
        let rest = usable_frames_of(init);
        let all = usable_frames_of(regions);
        assert forall|k: int| 0 <= k < all.len() implies #[trigger] all[k] % 4096 == 0
            && in_usable_region(regions, all[k]) by {
            if k < rest.len() {
                assert(all[k] == rest[k]);
                let i = choose|i: int|
                    0 <= i < init.len() && (#[trigger] init[i]).usable && init[i].start_addr
                        <= rest[k] < init[i].end_addr;
                assert(regions[i] == init[i]);
            } else {
                assert(regions[n] == last);
                lemma_region_frame(last, k - rest.len());
            }
        }
    }
}

/// With the usable regions frame-aligned and pairwise disjoint, no frame is
/// handed out twice, and every frame handed out is frame-aligned and lies in
/// a usable region.
pub proof fn lemma_usable_frames_unique(regions: Seq<MemoryRegion>)
    requires
        usable_regions_disjoint_aligned(regions),
    ensures
        usable_frames_of(regions).no_duplicates(),
        forall|k: int|
            0 <= k < usable_frames_of(regions).len() ==> #[trigger] usable_frames_of(regions)[k]
                % 4096 == 0 && in_usable_region(regions, usable_frames_of(regions)[k]),
    decreases regions.len(),
{
    lemma_frames_in_regions(regions);
    if regions.len() > 0 {
        let init = regions.drop_last();
        let last = regions.last();
        let n = regions.len() - 1;
        assert forall|i: int| 0 <= i < init.len() implies #[trigger] init[i] == regions[i] by {}
        lemma_usable_frames_unique(init);
        let rest = usable_frames_of(init);
        let all = usable_frames_of(regions);
        if last.usable {
            assert forall|a: int, b: int| 0 <= a < b < all.len() implies all[a] != all[b] by {
                if b < rest.len() {
                    assert(all[a] == rest[a] && all[b] == rest[b]);
                } else if a < rest.len() {
                    assert(all[a] == rest[a]);
                    let i = choose|i: int|
                        0 <= i < init.len() && (#[trigger] init[i]).usable && init[i].start_addr
                            <= rest[a] < init[i].end_addr;
                    assert(regions[i] == init[i]);
                    assert(regions[n] == last);
                    lemma_region_frame(last, b - rest.len());
                } else {
                    lemma_region_frame(last, a - rest.len());
                    lemma_region_frame(last, b - rest.len());
                }
            }
        } else {
            assert(all == rest);
        }
    }
}

/// Every frame of a usable region is handed out sooner or later: for each
/// usable region and each `k` with `start_addr + 4096 * k` below its end, the
/// frame holding that address is among the usable frames.
pub proof fn lemma_usable_frames_complete(regions: Seq<MemoryRegion>, i: int, k: int)
    requires
        0 <= i < regions.len(),
        regions[i].usable,
        0 <= k,
        regions[i].start_addr + 4096 * k < regions[i].end_addr,
    ensures
        usable_frames_of(regions).contains(
            ((regions[i].start_addr + 4096 * k) - (regions[i].start_addr + 4096 * k) % 4096) as u64,
        ),
    decreases regions.len(),
{
    let n = regions.len() - 1;
    let init = regions.drop_last();
    let rest = usable_frames_of(init);
    let all = usable_frames_of(regions);
    let r = regions[i];
    let f = ((r.start_addr + 4096 * k) - (r.start_addr + 4096 * k) % 4096) as u64;
    if i == n {
        let s0 = r.start_addr as int;
        let e0 = r.end_addr as int;
        assert(k < (e0 - s0 + 4095) / 4096) by (nonlinear_arith)
            requires
                0 <= k,
                s0 + 4096 * k < e0,
        ;
        assert(k < frame_count(r));
        assert(region_frames(r)[k] == f);
        assert(all == rest + region_frames(r));
        assert(all[rest.len() + k] == f);
    } else {
        assert(init[i] == r);
        lemma_usable_frames_complete(init, i, k);
        let j = choose|j: int| 0 <= j < rest.len() && rest[j] == f;
        if regions.last().usable {
            assert(all[j] == rest[j]);
        } else {
            assert(all == rest);
        }
    }
}

/// Over any sequence of requests to an allocator whose usable regions are
/// frame-aligned and pairwise disjoint, no frame is handed out twice, each
/// one handed out is frame-aligned and inside a usable region, and the next
/// frame it would hand out is not among those already handed out.
pub proof fn lemma_handed_out_fresh(a: &BootInfoFrameAllocator)
    requires
        usable_regions_disjoint_aligned(a.regions()),
    ensures
        a.handed_out().no_duplicates(),
        forall|k: int|
            0 <= k < a.handed_out().len() ==> #[trigger] a.handed_out()[k] % 4096 == 0
                && in_usable_region(a.regions(), a.handed_out()[k]),
        !a.exhausted() ==> !a.handed_out().contains(a.usable_frames()[a.next_index() as int]),
{
    lemma_usable_frames_unique(a.regions());
    let fs = a.usable_frames();
    let h = a.handed_out();
    assert forall|k: int| 0 <= k < h.len() implies #[trigger] h[k] == fs[k] by {}
    if !a.exhausted() {
        let n = a.next_index() as int;
        if h.contains(fs[n]) {
            let k = choose|k: int| 0 <= k < h.len() && h[k] == fs[n];
            assert(h[k] == fs[k]);
        }
    }
}

} // verus!
