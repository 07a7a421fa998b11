use vstd::prelude::*;
use x86_64::structures::paging::{Page, PageTableFlags, Size4KiB};
use x86_64::VirtAddr;

verus! {

/// The flags of a page table entry, carried through to the mapping call.
#[verifier::external_type_specification]
#[verifier::external_body]
pub struct ExPageTableFlags(PageTableFlags);

/// Canonical virtual addresses below the sign-extended upper half.
pub const VIRT_ADDR_LOW_LIMIT: u64 = 0x8000_0000_0000;

/// Size of a page: 4 KiB.
pub const PAGE_SIZE: u64 = 4096;

/// The pages `0, 4096, ...` below this address are searched for a frame
/// before it is mapped.
pub const PROBE_LIMIT: u64 = 0x10_0000;

/// `Page::<Size4KiB>::containing_address` of x86_64 (with `VirtAddr::new` on
/// the way in and `start_address().as_u64()` on the way out): the start of
/// the 4 KiB page that holds `addr`, which is `addr` rounded down to a
/// multiple of 4096. `VirtAddr::new` panics on an address with data in bits
/// 48 to 63 and sign-extends one with bit 47 set, so only addresses below
/// 2^47 are admitted.
#[verifier::external_body]
fn page_containing(addr: u64) -> (r: u64)
    requires
        addr < VIRT_ADDR_LOW_LIMIT,
    ensures
        r == addr - addr % 4096,
{
    Page::<Size4KiB>::containing_address(VirtAddr::new(addr)).start_address().as_u64()
}

/// Why mapping a page failed.
#[derive(Debug, Clone, Copy, PartialEq, Eq, Structural)]
pub enum MapError {
    /// The page was mapped elsewhere and could not be unmapped.
    UnmapFailed,
    /// The frame is already the target of a page in the searched range.
    FrameInUse,
    /// The page table refused the new mapping.
    MapFailed,
}

impl MapError {
    /// The text the kernel reports for this error.
    pub fn message(&self) -> (r: &'static str)
        ensures
            r@ == (match *self {
                MapError::UnmapFailed => "не удалось размапить страницу"@,
                MapError::FrameInUse => "фрейм уже используется"@,
                MapError::MapFailed => "не удалось отобразить страницу"@,
            }),
    {
        match self {
            MapError::UnmapFailed => "не удалось размапить страницу",
            MapError::FrameInUse => "фрейм уже используется",
            MapError::MapFailed => "не удалось отобразить страницу",
        }
    }
}

/// Where a page mapping request stands.
#[derive(Debug, Clone, Copy, PartialEq, Eq, Structural)]
pub enum Phase {
    /// Nothing asked yet.
    Start,
    /// Waiting for the first lookup of the page.
    FirstLookup,
    /// Waiting for the page to be unmapped after the first lookup.
    FirstUnmap,
    /// Waiting for the second lookup of the page.
    SecondLookup,
    /// Waiting for the page to be unmapped after the second lookup.
    SecondUnmap,
    /// Searching for the frame: waiting for the lookup of the page at this
    /// address.
    Probe(u64),
    /// Waiting for the new mapping to be made.
    Mapping,
    /// The request has been answered.
    Finished,
}

/// What the page table reported for the last step that was asked for.
#[derive(Debug, Clone, Copy, PartialEq, Eq)]
pub enum MapEvent {
    /// The request begins.
    Start,
    /// A lookup found the page mapped to this frame, or (`None`) no frame.
    Translated(Option<u64>),
    /// An unmap succeeded (`true`) or failed.
    Unmapped(bool),
    /// A mapping succeeded (`true`) or failed.
    Mapped(bool),
}

/// What the page table is asked to do next.
#[derive(Debug, Clone, Copy, PartialEq, Eq)]
pub enum MapAction {
    /// Look up which frame the page at this address is mapped to.
    Translate(u64),
    /// Unmap the page at this address.
    Unmap(u64),
    /// Map the page to the frame with these flags (and flush the TLB entry).
    MapTo(u64, u64, PageTableFlags),
    /// The request is answered.
    Done(Result<(), MapError>),
}

/// Whether `event` is the kind of report that `phase` waits for.
pub open spec fn expects(phase: Phase, event: MapEvent) -> bool {
    match phase {
        Phase::Start => event is Start,
        Phase::FirstLookup | Phase::SecondLookup | Phase::Probe(_) => event is Translated,
        Phase::FirstUnmap | Phase::SecondUnmap => event is Unmapped,
        Phase::Mapping => event is Mapped,
        Phase::Finished => false,
    }
}

/// The search for the frame goes on at `addr`, or, past the searched range,
/// the page is mapped.
pub open spec fn probe_or_map(addr: u64, page: u64, frame: u64, flags: PageTableFlags) -> (
    Phase,
    MapAction,
) {
    if addr < PROBE_LIMIT {
        (Phase::Probe(addr), MapAction::Translate(addr))
    } else {
        (Phase::Mapping, MapAction::MapTo(page, frame, flags))
    }
}

pub open spec fn finish(r: Result<(), MapError>) -> (Phase, MapAction) {
    (Phase::Finished, MapAction::Done(r))
}

/// One step of mapping `page` to `frame`: from the phase and the report of
/// the page table, the next phase and the next request.
pub open spec fn step_spec(
    page: u64,
    frame: u64,
    flags: PageTableFlags,
    phase: Phase,
    event: MapEvent,
) -> (Phase, MapAction) {
    match (phase, event) {
        (Phase::Start, _) => (Phase::FirstLookup, MapAction::Translate(page)),
        (Phase::FirstLookup, MapEvent::Translated(t)) => match t {
            Some(m) => if m == frame {
                finish(Ok(()))
            } else {
                (Phase::FirstUnmap, MapAction::Unmap(page))
            },
            None => (Phase::SecondLookup, MapAction::Translate(page)),
        },
        (Phase::FirstUnmap, MapEvent::Unmapped(ok)) => if !ok {
            finish(Err(MapError::UnmapFailed))
        } else {
            (Phase::SecondLookup, MapAction::Translate(page))
        },
        (Phase::SecondLookup, MapEvent::Translated(t)) => match t {
            Some(m) => if m == frame {
                finish(Ok(()))
            } else {
                (Phase::SecondUnmap, MapAction::Unmap(page))
            },
            None => probe_or_map(0, page, frame, flags),
        },
        (Phase::SecondUnmap, MapEvent::Unmapped(ok)) => if !ok {
            finish(Err(MapError::UnmapFailed))
        } else {
            probe_or_map(0, page, frame, flags)
        },
        (Phase::Probe(addr), MapEvent::Translated(t)) => if t == Some(frame) {
            finish(Err(MapError::FrameInUse))
        } else {
            probe_or_map((addr + PAGE_SIZE) as u64, page, frame, flags)
        },
        (Phase::Mapping, MapEvent::Mapped(ok)) => if ok {
            finish(Ok(()))
        } else {
            finish(Err(MapError::MapFailed))
        },
        _ => (phase, MapAction::Done(Ok(()))),
    }
}

/// A request to map `page` to `frame` with `flags`, driven step by step:
/// the owner of the page table performs each request that `step` returns
/// and reports the outcome back, until `step` returns `Done`.
///
/// The steps: look the page up; if it is mapped to the frame, done; if it is
/// mapped elsewhere, unmap it; look it up again with the same rules; then
/// look up every page below 0x100000 and refuse if one of them is mapped to
/// the frame; otherwise map the page.
pub struct MapPage {
    page: u64,
    frame: u64,
    flags: PageTableFlags,
    phase: Phase,
}

/// A probe address is a page boundary inside the searched range.
pub open spec fn phase_ok(phase: Phase) -> bool {
    match phase {
        Phase::Probe(addr) => addr < PROBE_LIMIT && addr % PAGE_SIZE == 0,
        _ => true,
    }
}

impl MapPage {
    pub closed spec fn page(&self) -> u64 {
        self.page
    }

    pub closed spec fn frame(&self) -> u64 {
        self.frame
    }

    pub closed spec fn flags(&self) -> PageTableFlags {
        self.flags
    }

    pub closed spec fn phase(&self) -> Phase {
        self.phase
    }

    pub closed spec fn wf(&self) -> bool {
        phase_ok(self.phase)
    }

    /// A fresh request to map `page` to `frame` (both start addresses).
    pub fn new(page: u64, frame: u64, flags: PageTableFlags) -> (m: MapPage)
        ensures
            m.wf(),
            m.page() == page,
            m.frame() == frame,
            m.flags() == flags,
            m.phase() == Phase::Start,
    {
        MapPage { page, frame, flags, phase: Phase::Start }
    }

    /// The current phase.
    pub fn current_phase(&self) -> (p: Phase)
        ensures
            p == self.phase(),
    {
        self.phase
    }

    /// Takes the page table's report on the last request and returns the
    /// next request (see `step_spec`).
    pub fn step(&mut self, event: MapEvent) -> (action: MapAction)
        requires
            old(self).wf(),
            expects(old(self).phase(), event),
        ensures
            final(self).wf(),
            final(self).page() == old(self).page(),
            final(self).frame() == old(self).frame(),
            final(self).flags() == old(self).flags(),
            (final(self).phase(), action) == step_spec(
                old(self).page(),
                old(self).frame(),
                old(self).flags(),
                old(self).phase(),
                event,
            ),
    {
        let page = self.page;
        let frame = self.frame;
        let (phase, action) = match (self.phase, event) {
            (Phase::Start, _) => (Phase::FirstLookup, MapAction::Translate(page)),
            (Phase::FirstLookup, MapEvent::Translated(t)) => match t {
                Some(m) => if m == frame {
                    (Phase::Finished, MapAction::Done(Ok(())))
                } else {
                    (Phase::FirstUnmap, MapAction::Unmap(page))
                },
                None => (Phase::SecondLookup, MapAction::Translate(page)),
            },
            (Phase::FirstUnmap, MapEvent::Unmapped(ok)) => if !ok {
                (Phase::Finished, MapAction::Done(Err(MapError::UnmapFailed)))
            } else {
                (Phase::SecondLookup, MapAction::Translate(page))
            },
            (Phase::SecondLookup, MapEvent::Translated(t)) => match t {
                Some(m) => if m == frame {
                    (Phase::Finished, MapAction::Done(Ok(())))
                } else {
                    (Phase::SecondUnmap, MapAction::Unmap(page))
                },
                None => self.first_probe(),
            },
            (Phase::SecondUnmap, MapEvent::Unmapped(ok)) => if !ok {
                (Phase::Finished, MapAction::Done(Err(MapError::UnmapFailed)))
            } else {
                self.first_probe()
            },
            (Phase::Probe(addr), MapEvent::Translated(t)) => {
                let found = match t {
                    Some(m) => m == frame,
                    None => false,
                };
                if found {
                    (Phase::Finished, MapAction::Done(Err(MapError::FrameInUse)))
                } else {
                    self.probe_next(addr + PAGE_SIZE)
                }
            },
            (Phase::Mapping, MapEvent::Mapped(ok)) => if ok {
                (Phase::Finished, MapAction::Done(Ok(())))
            } else {
                (Phase::Finished, MapAction::Done(Err(MapError::MapFailed)))
            },
            (p, _) => (p, MapAction::Done(Ok(()))),
        };
        self.phase = phase;
        action
    }

    fn first_probe(&self) -> (r: (Phase, MapAction))
        ensures
            r == probe_or_map(0, self.page, self.frame, self.flags),
            phase_ok(r.0),
    {
        self.probe_next(0)
    }

    /// Looks up the page holding `addr` if `addr` is still in the searched
    /// range, else asks for the mapping.
    fn probe_next(&self, addr: u64) -> (r: (Phase, MapAction))
        requires
            addr <= PROBE_LIMIT,
            addr % PAGE_SIZE == 0,
        ensures
            r == probe_or_map(addr, self.page, self.frame, self.flags),
            phase_ok(r.0),
    {
        if addr < PROBE_LIMIT {
            let probe = page_containing(addr);
            (Phase::Probe(probe), MapAction::Translate(probe))
        } else {
            (Phase::Mapping, MapAction::MapTo(self.page, self.frame, self.flags))
        }
    }
}

/// A page table seen as the map from page start addresses to frame start
/// addresses of its 4 KiB mappings: the frame a lookup of `p` reports.
pub open spec fn lookup(table: Map<u64, u64>, p: u64) -> Option<u64> {
    if table.dom().contains(p) {
        Some(table[p])
    } else {
        None
    }
}

/// A model of how a page table answers the requests, for its 4 KiB
/// mappings: a lookup reports the mapping, an unmap of a mapped page removes
/// it and an unmap of an unmapped page fails, and a mapping of a mapped page
/// fails. A mapping of an unmapped page adds it when `can_map` holds; when it
/// does not (no frame left for a missing page-table level, or a huge page on
/// the way), the mapping fails and the table stays as it was. Huge-page
/// mappings themselves are not part of the model: a lookup or unmap of a
/// page under one is not described.
pub open spec fn respond(table: Map<u64, u64>, can_map: bool, action: MapAction) -> (
    MapEvent,
    Map<u64, u64>,
) {
    match action {
        MapAction::Translate(p) => (MapEvent::Translated(lookup(table, p)), table),
        MapAction::Unmap(p) => if table.dom().contains(p) {
            (MapEvent::Unmapped(true), table.remove(p))
        } else {
            (MapEvent::Unmapped(false), table)
        },
        MapAction::MapTo(p, f, _) => if table.dom().contains(p) || !can_map {
            (MapEvent::Mapped(false), table)
        } else {
            (MapEvent::Mapped(true), table.insert(p, f))
        },
        MapAction::Done(_) => (MapEvent::Start, table),
    }
}

/// Drives a request against the model for at most `fuel` steps: the answer
/// and the page table at the end, if it finished.
pub open spec fn run(
    page: u64,
    frame: u64,
    flags: PageTableFlags,
    can_map: bool,
    phase: Phase,
    event: MapEvent,
    table: Map<u64, u64>,
    fuel: nat,
) -> Option<(Result<(), MapError>, Map<u64, u64>)>
    decreases fuel,
{
    if fuel == 0 {
        None
    } else {
        let (next, action) = step_spec(page, frame, flags, phase, event);
        match action {
            MapAction::Done(r) => Some((r, table)),
            _ => {
                let (ev, t) = respond(table, can_map, action);
                run(page, frame, flags, can_map, next, ev, t, (fuel - 1) as nat)
            },
        }
    }
}

/// One of the searched pages, from the `from`th on, is mapped to `frame`.
pub open spec fn frame_mapped_from(table: Map<u64, u64>, frame: u64, from: int) -> bool {
    exists|k: int|
        from <= k < PROBE_LIMIT / PAGE_SIZE && #[trigger] lookup(table, (k * 4096) as u64) == Some(
            frame,
        )
}

/// The last step: mapping the unmapped `page` to `frame` in `table`.
pub open spec fn map_result(table: Map<u64, u64>, page: u64, frame: u64, can_map: bool) -> (
    Result<(), MapError>,
    Map<u64, u64>,
) {
    if can_map {
        (Ok(()), table.insert(page, frame))
    } else {
        (Err(MapError::MapFailed), table)
    }
}

/// What mapping `page` to `frame` does to the model: nothing if the page is
/// already mapped to the frame; otherwise the page is unmapped, and then the
/// request is refused if a page below 0x100000 is mapped to the frame, else
/// the page is mapped to it when the table can make the mapping, and the
/// request fails with `MapFailed` when it cannot.
pub open spec fn map_page_outcome(table: Map<u64, u64>, page: u64, frame: u64, can_map: bool) -> (
    Result<(), MapError>,
    Map<u64, u64>,
) {
    if lookup(table, page) == Some(frame) {
        (Ok(()), table)
    } else {
        let cleared = table.remove(page);
        if frame_mapped_from(cleared, frame, 0) {
            (Err(MapError::FrameInUse), cleared)
        } else {
            map_result(cleared, page, frame, can_map)
        }
    }
}

/// Enough steps for any request: the lookups and unmaps, one lookup per
/// searched page, and the mapping.
pub open spec fn enough_steps() -> nat {
    300
}

proof fn lemma_probe_run(
    page: u64,
    frame: u64,
    flags: PageTableFlags,
    can_map: bool,
    table: Map<u64, u64>,
    j: int,
    fuel: nat,
)
    requires
        0 <= j < 256,
        fuel >= 257 - j,
        !table.dom().contains(page),
    ensures
        run(
            page,
            frame,
            flags,
            can_map,
            Phase::Probe((j * 4096) as u64),
            MapEvent::Translated(lookup(table, (j * 4096) as u64)),
            table,
            fuel,
        ) == Some(
            if frame_mapped_from(table, frame, j) {
                (Err(MapError::FrameInUse), table)
            } else {
                map_result(table, page, frame, can_map)
            },
        ),
    decreases 256 - j,
{
    let addr = (j * 4096) as u64;
    if lookup(table, addr) == Some(frame) {
        assert(frame_mapped_from(table, frame, j));
    } else {
        let next = (addr + PAGE_SIZE) as u64;
        assert(next == (j + 1) * 4096);
        if j + 1 < 256 {
            lemma_probe_run(page, frame, flags, can_map, table, j + 1, (fuel - 1) as nat);
            assert(frame_mapped_from(table, frame, j) == frame_mapped_from(table, frame, j + 1))
                by {
                if frame_mapped_from(table, frame, j) {
                    let k = choose|k: int|
                        j <= k < PROBE_LIMIT / PAGE_SIZE && #[trigger] lookup(
                            table,
                            (k * 4096) as u64,
                        ) == Some(frame);
                    assert(k != j);
                }
            }
        } else {
            assert(!frame_mapped_from(table, frame, j)) by {
                if frame_mapped_from(table, frame, j) {
                    let k = choose|k: int|
                        j <= k < PROBE_LIMIT / PAGE_SIZE && #[trigger] lookup(
                            table,
                            (k * 4096) as u64,
                        ) == Some(frame);
                    assert(k == j);
                }
            }
            let (ev, t2) = respond(table, can_map, MapAction::MapTo(page, frame, flags));
            assert(run(page, frame, flags, can_map, Phase::Mapping, ev, t2, (fuel - 1) as nat)
                == Some(map_result(table, page, frame, can_map)));
        }
    }
}

/// Mapping a page, driven against the model, finishes within
/// `enough_steps()` steps with the answer and the page table that
/// `map_page_outcome` describes.
pub proof fn lemma_map_page_on_model(
    page: u64,
    frame: u64,
    flags: PageTableFlags,
    can_map: bool,
    table: Map<u64, u64>,
)
    ensures
        run(page, frame, flags, can_map, Phase::Start, MapEvent::Start, table, enough_steps())
            == Some(map_page_outcome(table, page, frame, can_map)),
{
    let f0: nat = enough_steps();
    let ev1 = MapEvent::Translated(lookup(table, page));
    assert(run(page, frame, flags, can_map, Phase::Start, MapEvent::Start, table, f0) == run(
        page,
        frame,
        flags,
        can_map,
        Phase::FirstLookup,
        ev1,
        table,
        (f0 - 1) as nat,
    ));
    if lookup(table, page) == Some(frame) {
    } else {
        let cleared = table.remove(page);
        let ev2 = MapEvent::Translated(lookup(cleared, page));
        let probe0 = MapEvent::Translated(lookup(cleared, 0));
        assert(lookup(cleared, page) is None);
        assert((0 * 4096) as u64 == 0);
        if table.dom().contains(page) {
            assert(run(page, frame, flags, can_map, Phase::FirstLookup, ev1, table, (f0 - 1) as nat)
                == run(
                page,
                frame,
                flags,
                can_map,
                Phase::FirstUnmap,
                MapEvent::Unmapped(true),
                cleared,
                (f0 - 2) as nat,
            ));
            assert(run(
                page,
                frame,
                flags,
                can_map,
                Phase::FirstUnmap,
                MapEvent::Unmapped(true),
                cleared,
                (f0 - 2) as nat,
            ) == run(page, frame, flags, can_map, Phase::SecondLookup, ev2, cleared, (f0 - 3) as nat));
            assert(run(page, frame, flags, can_map, Phase::SecondLookup, ev2, cleared, (f0 - 3) as nat)
                == run(page, frame, flags, can_map, Phase::Probe(0), probe0, cleared, (f0 - 4) as nat));
            lemma_probe_run(page, frame, flags, can_map, cleared, 0, (f0 - 4) as nat);
        } else {
            assert(cleared =~= table);
            assert(run(page, frame, flags, can_map, Phase::FirstLookup, ev1, table, (f0 - 1) as nat)
                == run(
                page,
                frame,
                flags,
                can_map,
                Phase::SecondLookup,
                ev2,
                cleared,
                (f0 - 2) as nat,
            ));
            assert(run(page, frame, flags, can_map, Phase::SecondLookup, ev2, cleared, (f0 - 2) as nat)
                == run(page, frame, flags, can_map, Phase::Probe(0), probe0, cleared, (f0 - 3) as nat));
            lemma_probe_run(page, frame, flags, can_map, cleared, 0, (f0 - 3) as nat);
        }
    }
}

/// A request answered `Ok` leaves the page mapped to the frame, and asking
/// again changes nothing, whether or not the table could make new mappings.
pub proof fn lemma_map_page_idempotent(
    table: Map<u64, u64>,
    page: u64,
    frame: u64,
    can_map: bool,
    can_map_again: bool,
)
    requires
        map_page_outcome(table, page, frame, can_map).0 is Ok,
    ensures
        lookup(map_page_outcome(table, page, frame, can_map).1, page) == Some(frame),
        map_page_outcome(map_page_outcome(table, page, frame, can_map).1, page, frame, can_map_again)
            == map_page_outcome(table, page, frame, can_map),
{
}

/// Whether a page, whose lookup gave `translated`, may be mapped to `frame`:
/// it is unmapped, or already mapped to that frame.
pub fn is_mappable(translated: Option<u64>, frame: u64) -> (r: bool)
    ensures
        r == match translated {
            Some(m) => m == frame,
            None => true,
        },
{
    match translated {
        Some(m) => m == frame,
        None => true,
    }
}

} // verus!
