use my_kernel::page_table::{is_mappable, MapAction, MapError, MapEvent, MapPage, Phase};
use std::collections::HashMap;
use x86_64::structures::paging::PageTableFlags;

/// A page table that behaves as documented, counting what it is asked.
struct Table {
    map: HashMap<u64, u64>,
    translations: usize,
    unmaps: usize,
    maps: usize,
    fail_unmap: bool,
    fail_map: bool,
}

impl Table {
    fn new(entries: &[(u64, u64)]) -> Table {
        Table {
            map: entries.iter().copied().collect(),
            translations: 0,
            unmaps: 0,
            maps: 0,
            fail_unmap: false,
            fail_map: false,
        }
    }
}

fn flags() -> PageTableFlags {
    PageTableFlags::PRESENT | PageTableFlags::WRITABLE
}

fn map_page(table: &mut Table, page: u64, frame: u64) -> Result<(), MapError> {
    let mut m = MapPage::new(page, frame, flags());
    let mut event = MapEvent::Start;
    loop {
        match m.step(event) {
            MapAction::Translate(p) => {
                table.translations += 1;
                event = MapEvent::Translated(table.map.get(&p).copied());
            }
            MapAction::Unmap(p) => {
                table.unmaps += 1;
                let ok = !table.fail_unmap && table.map.remove(&p).is_some();
                event = MapEvent::Unmapped(ok);
            }
            MapAction::MapTo(p, f, fl) => {
                assert_eq!(fl, flags());
                table.maps += 1;
                let ok = !table.fail_map && !table.map.contains_key(&p);
                if ok {
                    table.map.insert(p, f);
                }
                event = MapEvent::Mapped(ok);
            }
            MapAction::Done(r) => {
                assert_eq!(m.current_phase(), Phase::Finished);
                return r;
            }
        }
    }
}

#[test]
fn maps_an_unmapped_page() {
    let mut t = Table::new(&[]);
    assert_eq!(map_page(&mut t, 0x20_0000, 0x50_0000), Ok(()));
    assert_eq!(t.map.get(&0x20_0000), Some(&0x50_0000));
    assert_eq!(t.translations, 2 + 256);
    assert_eq!(t.maps, 1);
}

#[test]
fn already_mapped_to_the_frame_is_left_alone() {
    let mut t = Table::new(&[(0x1000, 0x50_0000)]);
    assert_eq!(map_page(&mut t, 0x1000, 0x50_0000), Ok(()));
    assert_eq!(t.translations, 1);
    assert_eq!(t.unmaps + t.maps, 0);
}

#[test]
fn remaps_a_page_mapped_elsewhere() {
    let mut t = Table::new(&[(0x1000, 0x7000)]);
    assert_eq!(map_page(&mut t, 0x1000, 0x50_0000), Ok(()));
    assert_eq!(t.map.get(&0x1000), Some(&0x50_0000));
    assert_eq!(t.unmaps, 1);
    assert_eq!(t.maps, 1);
}

#[test]
fn page_0x1000_is_mapped_to_0x401000_like_any_other() {
    let mut t = Table::new(&[(0x1000, 0x7000)]);
    assert_eq!(map_page(&mut t, 0x1000, 0x40_1000), Ok(()));
    assert_eq!(t.map.get(&0x1000), Some(&0x40_1000));
    let mut empty = Table::new(&[]);
    assert_eq!(map_page(&mut empty, 0x1000, 0x40_1000), Ok(()));
    assert_eq!(empty.map.get(&0x1000), Some(&0x40_1000));
    assert_eq!(empty.maps, 1);
}

#[test]
fn no_mapping_possible_reports_failure_for_page_0x1000() {
    let mut t = Table::new(&[]);
    t.fail_map = true;
    assert_eq!(map_page(&mut t, 0x1000, 0x40_1000), Err(MapError::MapFailed));
    assert!(!t.map.contains_key(&0x1000));
}

#[test]
fn frame_used_by_a_low_page_is_refused() {
    let mut t = Table::new(&[(0xF_F000, 0x50_0000), (0x30_0000, 0x9000)]);
    assert_eq!(map_page(&mut t, 0x30_0000, 0x50_0000), Err(MapError::FrameInUse));
    assert!(!t.map.contains_key(&0x30_0000));
    assert_eq!(t.maps, 0);
}

#[test]
fn frame_used_by_a_high_page_is_not_seen() {
    let mut t = Table::new(&[(0x10_0000, 0x50_0000)]);
    assert_eq!(map_page(&mut t, 0x20_0000, 0x50_0000), Ok(()));
    assert_eq!(t.map.get(&0x20_0000), Some(&0x50_0000));
}

#[test]
fn unmap_failure_is_reported() {
    let mut t = Table::new(&[(0x2000, 0x7000)]);
    t.fail_unmap = true;
    assert_eq!(map_page(&mut t, 0x2000, 0x50_0000), Err(MapError::UnmapFailed));
    assert_eq!(t.map.get(&0x2000), Some(&0x7000));
}

#[test]
fn map_failure_is_reported() {
    let mut t = Table::new(&[]);
    t.fail_map = true;
    assert_eq!(map_page(&mut t, 0x2000, 0x50_0000), Err(MapError::MapFailed));
    assert!(t.map.is_empty());
}

#[test]
fn error_messages() {
    assert_eq!(MapError::UnmapFailed.message(), "не удалось размапить страницу");
    assert_eq!(MapError::FrameInUse.message(), "фрейм уже используется");
    assert_eq!(MapError::MapFailed.message(), "не удалось отобразить страницу");
}

#[test]
fn second_lookup_still_mapped_elsewhere_is_unmapped_again() {
    let mut m = MapPage::new(0x2000, 0x9000, flags());
    assert_eq!(m.step(MapEvent::Start), MapAction::Translate(0x2000));
    assert_eq!(m.step(MapEvent::Translated(Some(0x3000))), MapAction::Unmap(0x2000));
    assert_eq!(m.step(MapEvent::Unmapped(true)), MapAction::Translate(0x2000));
    assert_eq!(m.step(MapEvent::Translated(Some(0x4000))), MapAction::Unmap(0x2000));
    assert_eq!(m.step(MapEvent::Unmapped(true)), MapAction::Translate(0));
    assert_eq!(m.current_phase(), Phase::Probe(0));
    assert_eq!(m.step(MapEvent::Translated(None)), MapAction::Translate(0x1000));
}

#[test]
fn second_lookup_on_the_frame_succeeds() {
    let mut m = MapPage::new(0x2000, 0x9000, flags());
    m.step(MapEvent::Start);
    m.step(MapEvent::Translated(None));
    assert_eq!(m.step(MapEvent::Translated(Some(0x9000))), MapAction::Done(Ok(())));
}

#[test]
fn mappable_pages() {
    assert!(is_mappable(None, 0x5000));
    assert!(is_mappable(Some(0x5000), 0x5000));
    assert!(!is_mappable(Some(0x6000), 0x5000));
}

#[test]
fn mapping_again_changes_nothing() {
    let mut t = Table::new(&[(0x5000, 0x7000)]);
    assert_eq!(map_page(&mut t, 0x20_0000, 0x50_0000), Ok(()));
    let after_first = t.map.clone();
    let (unmaps, maps) = (t.unmaps, t.maps);
    assert_eq!(map_page(&mut t, 0x20_0000, 0x50_0000), Ok(()));
    assert_eq!(t.map, after_first);
    assert_eq!((t.unmaps, t.maps), (unmaps, maps));
}
