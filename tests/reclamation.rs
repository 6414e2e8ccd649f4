use std::collections::BTreeMap;

use kernel::paging::{
    reclaim_operations, BootInfo, MemoryDescriptor, MemoryType, PageEntryFlags, PageOp, PAGE_SIZE,
    PHYS_OFFSET, PHYS_WINDOW_END,
};
use kernel::reclaim::{FrameAllocatorError, PagingError, ReclaimAction, Reclamation};

/// Page tables and frame allocator standing in for the hardware, with a count of calls.
struct Spy {
    table: BTreeMap<u64, (u64, PageEntryFlags)>,
    maps: usize,
    unmaps: usize,
    released: bool,
    fail_map_at: Option<usize>,
    release_error: Option<FrameAllocatorError>,
}

impl Spy {
    fn new() -> Spy {
        Spy {
            table: BTreeMap::new(),
            maps: 0,
            unmaps: 0,
            released: false,
            fail_map_at: None,
            release_error: None,
        }
    }

    fn identity_mapped(start: u64, pages: u64) -> Spy {
        let mut spy = Spy::new();
        let flags = PageEntryFlags { writable: true, no_execute: false };
        for i in 0..pages {
            let a = start + i * PAGE_SIZE;
            spy.table.insert(a, (a, flags));
        }
        spy
    }

    fn run(&mut self, boot: &BootInfo, ptm_initialized: bool) -> Result<(), PagingError> {
        let mut run = Reclamation::start(boot, ptm_initialized);
        loop {
            match run.action() {
                ReclaimAction::Finished(r) => return r,
                ReclaimAction::Page(PageOp::Unmap { virt }) => {
                    self.unmaps += 1;
                    self.table.remove(&virt);
                    run.complete(Ok(()));
                }
                ReclaimAction::Page(PageOp::MapTo { virt, phys, flags }) => {
                    let n = self.maps;
                    self.maps += 1;
                    if self.fail_map_at == Some(n) {
                        run.complete(Err(FrameAllocatorError::OutOfMemory));
                    } else {
                        self.table.insert(virt, (phys, flags));
                        run.complete(Ok(()));
                    }
                }
                ReclaimAction::ReleaseLoaderMemory => {
                    self.released = true;
                    match self.release_error {
                        Some(e) => run.complete(Err(e)),
                        None => run.complete(Ok(())),
                    }
                }
            }
        }
    }
}

fn loader(start: u64, pages: u64) -> MemoryDescriptor {
    MemoryDescriptor { phys_start: start, num_pages: pages, memory_type: MemoryType::Loader }
}

#[test]
fn end_to_end_single_loader_range() {
    let boot = BootInfo { mmap: vec![loader(0x100000, 4)], nx: true };
    let mut spy = Spy::identity_mapped(0x100000, 4);
    assert_eq!(spy.run(&boot, true), Ok(()));
    let nx = PageEntryFlags { writable: true, no_execute: true };
    assert_eq!(PHYS_OFFSET, 0xFFFF_8000_0000_0000);
    assert_eq!(spy.table.get(&0xFFFF_8000_0010_0000), Some(&(0x100000, nx)));
    assert_eq!(spy.table.get(&0xFFFF_8000_0010_3000), Some(&(0x103000, nx)));
    assert_eq!(spy.table.get(&0x100000), None);
    assert!(spy.table.range(0..PHYS_WINDOW_END).next().is_none());
    assert_eq!(spy.table.len(), 4);
    assert!(spy.released);
}

#[test]
fn flags_without_no_execute_are_writable_only() {
    let boot = BootInfo { mmap: vec![loader(0x2000, 1)], nx: false };
    let mut spy = Spy::new();
    assert_eq!(spy.run(&boot, true), Ok(()));
    let w = PageEntryFlags { writable: true, no_execute: false };
    assert_eq!(spy.table.get(&(PHYS_OFFSET + 0x2000)), Some(&(0x2000, w)));
    assert_eq!(PageEntryFlags::default_for(false), w);
}

#[test]
fn every_qualifying_page_moves_and_others_stay() {
    let boot = BootInfo {
        mmap: vec![
            MemoryDescriptor { phys_start: 0x1000, num_pages: 2, memory_type: MemoryType::Available },
            loader(0x10000, 3),
            MemoryDescriptor { phys_start: 0x20000, num_pages: 1, memory_type: MemoryType::Kernel },
            loader(0x40000, 2),
            MemoryDescriptor { phys_start: 0x50000, num_pages: 1, memory_type: MemoryType::Reserved },
        ],
        nx: true,
    };
    let mut spy = Spy::identity_mapped(0x1000, 0x60);
    assert_eq!(spy.run(&boot, true), Ok(()));
    for a in [0x10000u64, 0x11000, 0x12000, 0x40000, 0x41000] {
        assert_eq!(spy.table.get(&a), None);
        assert_eq!(spy.table.get(&(PHYS_OFFSET + a)).map(|m| m.0), Some(a));
    }
    for a in [0x1000u64, 0x2000, 0x20000, 0x50000, 0x13000, 0x42000] {
        assert_eq!(spy.table.get(&a).map(|m| m.0), Some(a));
        assert_eq!(spy.table.get(&(PHYS_OFFSET + a)), None);
    }
    assert_eq!(spy.maps, 5);
    assert_eq!(spy.unmaps, 5);
}

#[test]
fn range_at_window_bound_is_untouched() {
    let at_bound = loader(PHYS_WINDOW_END - 4 * PAGE_SIZE, 4);
    let below = loader(PHYS_WINDOW_END - 5 * PAGE_SIZE, 4);
    assert!(!at_bound.is_reclaimable());
    assert!(below.is_reclaimable());
    let boot = BootInfo { mmap: vec![at_bound], nx: true };
    let mut spy = Spy::identity_mapped(PHYS_WINDOW_END - 4 * PAGE_SIZE, 4);
    let before = spy.table.clone();
    assert_eq!(spy.run(&boot, true), Ok(()));
    assert_eq!(spy.table, before);
    assert_eq!(spy.maps + spy.unmaps, 0);
    assert!(reclaim_operations(&boot).is_empty());
    let beyond = loader(PHYS_WINDOW_END, 1);
    assert!(!beyond.is_reclaimable());
    let huge = loader(0, u64::MAX);
    assert!(!huge.is_reclaimable());
}

#[test]
fn uninitialized_manager_makes_no_change() {
    let boot = BootInfo { mmap: vec![loader(0x100000, 4)], nx: true };
    let mut spy = Spy::identity_mapped(0x100000, 4);
    let before = spy.table.clone();
    assert_eq!(spy.run(&boot, false), Err(PagingError::PtmUninitialized));
    assert_eq!(spy.table, before);
    assert_eq!(spy.maps + spy.unmaps, 0);
    assert!(!spy.released);
}

#[test]
fn exhaustion_on_third_page_aborts() {
    let boot = BootInfo { mmap: vec![loader(0x100000, 5), loader(0x200000, 1)], nx: true };
    let mut spy = Spy::identity_mapped(0x100000, 5);
    spy.fail_map_at = Some(2);
    assert_eq!(
        spy.run(&boot, true),
        Err(PagingError::FrameAllocator(FrameAllocatorError::OutOfMemory))
    );
    for i in 0..2u64 {
        let a = 0x100000 + i * PAGE_SIZE;
        assert_eq!(spy.table.get(&a), None);
        assert_eq!(spy.table.get(&(PHYS_OFFSET + a)).map(|m| m.0), Some(a));
    }
    // the third page lost its identity alias before its mapping failed
    assert_eq!(spy.table.get(&0x102000), None);
    assert_eq!(spy.table.get(&(PHYS_OFFSET + 0x102000)), None);
    for i in 3..5u64 {
        let a = 0x100000 + i * PAGE_SIZE;
        assert_eq!(spy.table.get(&a).map(|m| m.0), Some(a));
        assert_eq!(spy.table.get(&(PHYS_OFFSET + a)), None);
    }
    assert_eq!(spy.maps, 3);
    assert_eq!(spy.unmaps, 3);
    assert!(!spy.released);
}

#[test]
fn release_failure_is_reported() {
    let boot = BootInfo { mmap: vec![loader(0x3000, 1)], nx: false };
    let mut spy = Spy::new();
    spy.release_error = Some(FrameAllocatorError::UnsupportedFlags);
    assert_eq!(
        spy.run(&boot, true),
        Err(PagingError::FrameAllocator(FrameAllocatorError::UnsupportedFlags))
    );
    assert!(spy.released);
}

#[test]
fn second_run_changes_nothing() {
    let boot = BootInfo { mmap: vec![loader(0x100000, 3), loader(0x300000, 2)], nx: true };
    let mut spy = Spy::identity_mapped(0x100000, 0x300);
    assert_eq!(spy.run(&boot, true), Ok(()));
    let once = spy.table.clone();
    assert_eq!(spy.run(&boot, true), Ok(()));
    assert_eq!(spy.table, once);
}

#[test]
fn operations_alternate_unmap_then_map() {
    let boot = BootInfo { mmap: vec![loader(0x8000, 2)], nx: true };
    let f = PageEntryFlags { writable: true, no_execute: true };
    assert_eq!(
        reclaim_operations(&boot),
        vec![
            PageOp::Unmap { virt: 0x8000 },
            PageOp::MapTo { virt: PHYS_OFFSET + 0x8000, phys: 0x8000, flags: f },
            PageOp::Unmap { virt: 0x9000 },
            PageOp::MapTo { virt: PHYS_OFFSET + 0x9000, phys: 0x9000, flags: f },
        ]
    );
}

#[test]
fn empty_map_only_releases() {
    let boot = BootInfo { mmap: vec![], nx: true };
    let mut run = Reclamation::start(&boot, true);
    assert!(matches!(run.action(), ReclaimAction::ReleaseLoaderMemory));
    run.complete(Ok(()));
    assert!(matches!(run.action(), ReclaimAction::Finished(Ok(()))));
    assert_eq!(run.result(), Some(Ok(())));
}

#[test]
fn allocator_error_converts_into_paging_error() {
    let e: PagingError = FrameAllocatorError::OutOfMemory.into();
    assert_eq!(e, PagingError::FrameAllocator(FrameAllocatorError::OutOfMemory));
}
