use huge_global_alloc::mmap::{AllocLayout, MMap, MapStep, PageKind, HUGE_PAGE_SIZE};
use huge_global_alloc::mmapper::{HugeGlobalAllocatorStats, ReallocOutcome};
use huge_global_alloc::{HugeGlobalAllocator, ReallocRoute};

const DEFAULT_PAGE: usize = 4096;

/// Drives the allocator's decisions the way the global allocator does, with
/// the OS and the system allocator played by address counters.
struct Heap {
    state: HugeGlobalAllocator,
    huge_pages: bool,
    next_map: usize,
    next_sys: usize,
}

impl Heap {
    fn new(threshold: usize, huge_pages: bool) -> Heap {
        Heap {
            state: HugeGlobalAllocator::new(threshold),
            huge_pages,
            next_map: 0x7f00_0000_0000,
            next_sys: 0x1000,
        }
    }

    fn os_map(&mut self, layout: AllocLayout) -> MMap {
        let mut kind = MMap::first_attempt();
        loop {
            let size = MMap::map_size(layout, kind, DEFAULT_PAGE);
            let mapped = if kind == PageKind::Huge && !self.huge_pages {
                None
            } else {
                let ptr = self.next_map;
                self.next_map += size + HUGE_PAGE_SIZE;
                Some(ptr)
            };
            match MMap::after_attempt(layout, kind, DEFAULT_PAGE, mapped) {
                MapStep::Mapped(m) => return m,
                MapStep::Retry(next) => kind = next,
                MapStep::Failed => panic!("mapping failed"),
            }
        }
    }

    fn sys_alloc(&mut self, size: usize) -> usize {
        let ptr = self.next_sys;
        self.next_sys += size + 16;
        ptr
    }

    fn allocate(&mut self, size: usize) -> usize {
        let layout = AllocLayout { size, align: 8 };
        if self.state.wants_mapping(size) {
            let m = self.os_map(layout);
            assert!(self.state.fits(m.alloc_size()));
            assert!(!self.state.is_managed_ptr(m.as_ptr()));
            self.state.alloc_segment(m)
        } else {
            self.sys_alloc(size)
        }
    }

    fn dealloc(&mut self, ptr: usize) {
        let _ = self.state.dealloc(ptr);
    }

    fn realloc(&mut self, ptr: usize, old_size: usize, new_size: usize) -> usize {
        let layout = AllocLayout { size: new_size, align: 8 };
        match self.state.realloc_route(ptr, new_size) {
            ReallocRoute::Resize => {
                assert!(self.state.fits_resize(ptr, layout));
                let remapped = match self.state.remap_request(ptr, layout) {
                    None => None,
                    Some((_, new_mapped)) => {
                        let p = self.next_map;
                        self.next_map += new_mapped + HUGE_PAGE_SIZE;
                        Some(p)
                    }
                };
                match self.state.realloc(ptr, layout, remapped) {
                    ReallocOutcome::Remapped(p) => p,
                    ReallocOutcome::Failed(_) => self.allocate(new_size),
                }
            }
            ReallocRoute::ToSystem => {
                let p = self.sys_alloc(new_size);
                let _ = huge_global_alloc::copy_len(old_size, new_size);
                self.dealloc(ptr);
                p
            }
            ReallocRoute::ToMapper => {
                let p = self.allocate(new_size);
                let _ = huge_global_alloc::copy_len(old_size, new_size);
                p
            }
            ReallocRoute::System => self.sys_alloc(new_size),
        }
    }

    fn stats(&self) -> HugeGlobalAllocatorStats {
        self.state.stats()
    }
}

/// A `Vec<usize>` whose buffer lives in a `Heap`, grown and shrunk as std's
/// `Vec` does it.
struct SimVec {
    ptr: usize,
    len: usize,
    cap: usize,
}

impl SimVec {
    fn new() -> SimVec {
        SimVec { ptr: 0, len: 0, cap: 0 }
    }

    fn push(&mut self, heap: &mut Heap) {
        if self.len == self.cap {
            let new_cap = std::cmp::max(std::cmp::max(self.cap * 2, self.len + 1), 4);
            self.ptr = if self.cap == 0 {
                heap.allocate(new_cap * 8)
            } else {
                heap.realloc(self.ptr, self.cap * 8, new_cap * 8)
            };
            self.cap = new_cap;
        }
        self.len += 1;
    }

    fn pop(&mut self) -> Option<usize> {
        if self.len == 0 {
            None
        } else {
            self.len -= 1;
            Some(self.len)
        }
    }

    fn shrink_to_fit(&mut self, heap: &mut Heap) {
        if self.cap > self.len {
            if self.len == 0 {
                heap.dealloc(self.ptr);
            } else {
                self.ptr = heap.realloc(self.ptr, self.cap * 8, self.len * 8);
            }
            self.cap = self.len;
        }
    }
}

fn mb(mb: usize) -> usize {
    mb * 1024 * 1024
}

fn check_stats(heap: &Heap, desc: &str, expected_segs: usize, expected_mapped: usize) -> HugeGlobalAllocatorStats {
    let stats = heap.stats();

    println!("{}: {:?}", desc, stats);

    assert_eq!(expected_segs, stats.segments, "{} segments", desc);

    if heap.huge_pages {
        // Enough huge pages to satisfy
        assert_eq!(expected_mapped, stats.mapped, "{} mapped", desc);
        assert_eq!(expected_mapped, stats.huge_mapped, "{} huge mapped", desc);
        assert_eq!(0, stats.default_mapped, "{} default mapped", desc);
    } else if stats.huge_segments > 0 {
        assert_eq!(expected_mapped, stats.mapped, "{} mapped", desc);
    } else {
        assert!(stats.mapped >= stats.allocated, "{} mapped >= alloc", desc);
    }

    assert_eq!(stats.default_segments + stats.huge_segments, stats.segments, "{} segment sum", desc);
    assert_eq!(stats.default_mapped + stats.huge_mapped, stats.mapped, "{} mapped sum", desc);
    assert_eq!(stats.default_alloc + stats.huge_alloc, stats.allocated, "{} alloc sum", desc);

    stats
}

fn check_stats_eq(heap: &Heap, desc: &str, expected_alloc: usize, expected_segs: usize, expected_mapped: usize) {
    let stats = check_stats(heap, desc, expected_segs, expected_mapped);
    assert_eq!(expected_alloc, stats.allocated, "{} alloc", desc);
}

fn check_stats_gt(heap: &Heap, desc: &str, expected_alloc: usize, expected_segs: usize, expected_mapped: usize) {
    let stats = check_stats(heap, desc, expected_segs, expected_mapped);
    assert!(stats.allocated > expected_alloc, "{} alloc", desc);
}

fn check_stats_ge(heap: &Heap, desc: &str, expected_alloc: usize, expected_segs: usize, expected_mapped: usize) {
    let stats = check_stats(heap, desc, expected_segs, expected_mapped);
    assert!(stats.allocated >= expected_alloc, "{} alloc", desc);
}

fn check_stats_lt(heap: &Heap, desc: &str, expected_alloc: usize, expected_segs: usize, expected_mapped: usize) {
    let stats = check_stats(heap, desc, expected_segs, expected_mapped);
    assert!(stats.allocated < expected_alloc, "{} alloc", desc);
}

fn vec_mb(items: usize) -> Option<usize> {
    let bytes = items * 8;

    if bytes % mb(1) == 0 {
        Some(bytes / mb(1))
    } else {
        None
    }
}

fn run_huge_alloc(huge_pages: bool) {
    let mut heap = Heap::new(1024 * 1024, huge_pages);
    let mut vec = SimVec::new();

    // 512 * 1024 * 8 = 4mb
    let items = 512 * 1024;

    for i in 0..items {
        let on_mb = vec_mb(i);

        if let Some(cur) = on_mb {
            match cur {
                0 => check_stats_eq(&heap, "initial", 0, 0, 0),
                1 => check_stats_ge(&heap, ">= 1mb", mb(cur), 1, mb(2)),
                2 => check_stats_ge(&heap, ">= 2mb", mb(cur), 1, mb(2)),
                3 => check_stats_ge(&heap, ">= 3mb", mb(cur), 1, mb(4)),
                _ => panic!("mb boundary not handled"),
            }
        }

        vec.push(&mut heap);

        if let Some(cur) = on_mb {
            match cur {
                0 => check_stats_eq(&heap, "> 0", 0, 0, 0),
                1 => check_stats_gt(&heap, "> 1mb", mb(cur), 1, mb(2)),
                2 => check_stats_gt(&heap, "> 2mb", mb(cur), 1, mb(4)),
                3 => check_stats_gt(&heap, "> 3mb", mb(cur), 1, mb(4)),
                _ => panic!("mb boundary not handled"),
            }
        }
    }

    assert_eq!(vec.len, items, "vector entries incorrect");

    println!("Popping {} items ({} bytes)", items, items * 8);

    for i in (0..items).rev() {
        vec.pop().unwrap();

        assert_eq!(i, vec.len);

        if let Some(cur) = vec_mb(i + 1) {
            vec.shrink_to_fit(&mut heap);

            assert_eq!(i, vec.cap);

            match cur {
                0 => (),
                1 => check_stats_eq(&heap, "< 1mb", 0, 0, 0),
                2 => check_stats_lt(&heap, "< 2mb", mb(cur), 1, mb(2)),
                3 => check_stats_lt(&heap, "< 3mb", mb(cur), 1, mb(4)),
                4 => check_stats_lt(&heap, "< 4mb", mb(cur), 1, mb(4)),
                _ => panic!("mb boundary not handled"),
            }
        }
    }
}

#[test]
fn lib_huge_alloc() {
    run_huge_alloc(true);
}

#[test]
fn mod_huge_alloc() {
    run_huge_alloc(true);
}

#[test]
fn huge_alloc_without_huge_pages() {
    run_huge_alloc(false);
}

#[test]
fn two_mib_buffer_is_one_huge_segment() {
    let mut heap = Heap::new(mb(1), true);
    let p = heap.allocate(mb(2));
    let s = heap.stats();
    assert_eq!(s.segments, 1);
    assert_eq!(s.huge_segments, 1);
    assert_eq!(s.allocated, 2 * 1024 * 1024);
    assert_eq!(s.mapped, mb(2));
    assert_eq!(s.efficiency, 100);
    heap.dealloc(p);
    assert_eq!(heap.stats().segments, 0);
}

#[test]
fn half_mib_buffer_goes_to_system() {
    let mut heap = Heap::new(mb(1), true);
    heap.allocate(512 * 1024);
    assert_eq!(heap.stats().segments, 0);
    assert_eq!(heap.stats().allocated, 0);
}

#[test]
fn threshold_boundary_sizes() {
    let mut heap = Heap::new(mb(1), true);
    heap.allocate(mb(1) - 1);
    assert_eq!(heap.stats().segments, 0);
    heap.allocate(mb(1));
    assert_eq!(heap.stats().segments, 1);
}

#[test]
fn alloc_then_dealloc_restores_stats() {
    let mut heap = Heap::new(mb(1), false);
    let keep = heap.allocate(mb(3));
    let before = heap.stats();
    for size in [16, mb(1) - 1, mb(1), mb(5) + 3] {
        let p = heap.allocate(size);
        heap.dealloc(p);
        let after = heap.stats();
        assert_eq!(after.segments, before.segments);
        assert_eq!(after.allocated, before.allocated);
    }
    heap.dealloc(keep);
    assert_eq!(heap.stats().segments, 0);
}

#[test]
fn default_pages_count_missed_megabytes() {
    let mut heap = Heap::new(mb(1), false);
    heap.allocate(mb(3) + 5);
    let s = heap.stats();
    assert_eq!(s.segments, 1);
    assert_eq!(s.default_segments, 1);
    assert_eq!(s.huge_segments, 0);
    assert_eq!(s.missed_allocs, 1);
    assert_eq!(s.missed_mb, 3);
    assert_eq!(s.missed_bytes, 5);
    assert_eq!(s.mapped, mb(3) + 4096);
    assert_eq!(s.default_mapped, mb(3) + 4096);
    assert_eq!(s.efficiency, 99);
}

#[test]
fn exactly_one_missed_megabyte_folds() {
    let mut heap = Heap::new(mb(1), false);
    heap.allocate(mb(1));
    let s = heap.stats();
    assert_eq!(s.missed_allocs, 1);
    assert_eq!(s.missed_mb, 1);
    assert_eq!(s.missed_bytes, 0);
    heap.allocate(mb(1) + 7);
    let s = heap.stats();
    assert_eq!(s.missed_allocs, 2);
    assert_eq!(s.missed_mb, 2);
    assert_eq!(s.missed_bytes, 7);
}

#[test]
fn huge_segment_efficiency() {
    let mut heap = Heap::new(mb(1), true);
    heap.allocate(mb(3));
    let s = heap.stats();
    assert_eq!(s.mapped, mb(4));
    assert_eq!(s.allocated, mb(3));
    assert_eq!(s.efficiency, 75);
    assert_eq!(s.missed_allocs, 0);
}

#[test]
fn empty_registry_stats() {
    let heap = Heap::new(mb(1), true);
    let s = heap.stats();
    assert_eq!(s.segments, 0);
    assert_eq!(s.mapped, 0);
    assert_eq!(s.allocated, 0);
    assert_eq!(s.efficiency, 100);
    assert_eq!(s.remaps_failed, 0);
}

#[test]
fn failed_remap_counts_and_keeps_segment_count() {
    let mut heap = Heap::new(mb(1), true);
    let p = heap.allocate(mb(2));
    let layout = AllocLayout { size: mb(5), align: 8 };
    assert_eq!(heap.state.remap_request(p, layout), Some((mb(2), mb(6))));
    match heap.state.realloc(p, layout, None) {
        ReallocOutcome::Failed(old) => {
            assert_eq!(old.as_ptr(), p);
            assert_eq!(old.size(), mb(2));
            assert_eq!(old.alloc_size(), mb(2));
            assert!(!old.is_default_page_size());
        }
        ReallocOutcome::Remapped(_) => panic!("resize should have failed"),
    }
    assert_eq!(heap.stats().segments, 0);
    assert_eq!(heap.stats().remaps_failed, 1);
    let q = heap.allocate(mb(5));
    let s = heap.stats();
    assert_eq!(s.segments, 1);
    assert_eq!(s.allocated, mb(5));
    assert_eq!(s.mapped, mb(6));
    assert!(heap.state.is_managed_ptr(q));
    assert!(!heap.state.is_managed_ptr(p));
}

#[test]
fn remap_moves_segment() {
    let mut heap = Heap::new(mb(1), true);
    let p = heap.allocate(mb(2));
    let layout = AllocLayout { size: mb(4) + 1, align: 8 };
    let target = 0x6000_0000_0000;
    match heap.state.realloc(p, layout, Some(target)) {
        ReallocOutcome::Remapped(q) => assert_eq!(q, target),
        ReallocOutcome::Failed(_) => panic!("resize should have worked"),
    }
    let s = heap.stats();
    assert_eq!(s.segments, 1);
    assert_eq!(s.mapped, mb(6));
    assert_eq!(s.allocated, mb(4) + 1);
    assert_eq!(s.remaps_failed, 0);
    assert!(heap.state.is_managed_ptr(target));
    assert!(!heap.state.is_managed_ptr(p));
}

#[test]
fn resize_within_mapping_needs_no_os_call() {
    let mut heap = Heap::new(mb(1), true);
    let p = heap.allocate(mb(1) + 10);
    let layout = AllocLayout { size: mb(2), align: 8 };
    assert_eq!(heap.state.remap_request(p, layout), None);
    match heap.state.realloc(p, layout, None) {
        ReallocOutcome::Remapped(q) => assert_eq!(q, p),
        ReallocOutcome::Failed(_) => panic!("no resize was needed"),
    }
    assert_eq!(heap.stats().allocated, mb(2));
    assert_eq!(heap.stats().mapped, mb(2));
}

#[test]
fn growing_default_segment_counts_growth_as_missed() {
    let mut heap = Heap::new(mb(1), false);
    let p = heap.allocate(mb(1) + 1);
    let q = heap.realloc(p, mb(1) + 1, mb(3) + 1);
    let s = heap.stats();
    assert!(heap.state.is_managed_ptr(q));
    assert_eq!(s.segments, 1);
    assert_eq!(s.missed_allocs, 2);
    assert_eq!(s.missed_mb, 3);
    assert_eq!(s.missed_bytes, 1);
}

#[test]
fn shrink_below_threshold_moves_to_system() {
    let mut heap = Heap::new(mb(1), true);
    let p = heap.allocate(mb(2));
    assert_eq!(heap.state.realloc_route(p, 1000), ReallocRoute::ToSystem);
    let q = heap.realloc(p, mb(2), 1000);
    assert_eq!(heap.stats().segments, 0);
    assert!(!heap.state.is_managed_ptr(p));
    assert!(heap.state.dealloc(q).is_none());
    assert_eq!(heap.stats().segments, 0);
}

#[test]
fn realloc_routes() {
    let mut heap = Heap::new(mb(1), true);
    let p = heap.allocate(mb(2));
    let small = heap.allocate(100);
    assert_eq!(heap.state.realloc_route(p, mb(3)), ReallocRoute::Resize);
    assert_eq!(heap.state.realloc_route(p, mb(1) - 1), ReallocRoute::ToSystem);
    assert_eq!(heap.state.realloc_route(small, mb(1)), ReallocRoute::ToMapper);
    assert_eq!(heap.state.realloc_route(small, 200), ReallocRoute::System);
    let q = heap.realloc(small, 100, mb(1));
    assert!(heap.state.is_managed_ptr(q));
    assert_eq!(heap.stats().segments, 2);
}

#[test]
fn zero_threshold_maps_nothing() {
    let mut heap = Heap::new(mb(1), true);
    heap.state.set_threshold(0);
    assert_eq!(heap.state.threshold(), 0);
    for size in [0, 1, mb(1), mb(64), usize::MAX / 2] {
        assert!(!heap.state.wants_mapping(size));
    }
    heap.allocate(mb(8));
    heap.allocate(mb(1));
    assert_eq!(heap.stats().segments, 0);
}

#[test]
fn threshold_change_keeps_existing_segments() {
    let mut heap = Heap::new(mb(1), true);
    let p = heap.allocate(mb(2));
    heap.state.set_threshold(0);
    assert_eq!(heap.stats().segments, 1);
    assert_eq!(heap.state.realloc_route(p, mb(4)), ReallocRoute::ToSystem);
}

#[test]
fn page_rounding() {
    assert_eq!(MMap::calc_alloc_size(0, 4096), 0);
    assert_eq!(MMap::calc_alloc_size(1, 4096), 4096);
    assert_eq!(MMap::calc_alloc_size(4096, 4096), 4096);
    assert_eq!(MMap::calc_alloc_size(4097, 4096), 8192);
    assert_eq!(MMap::calc_alloc_size(mb(1), HUGE_PAGE_SIZE), mb(2));
    assert_eq!(MMap::calc_alloc_size(mb(2) + 1, HUGE_PAGE_SIZE), mb(4));
}

#[test]
fn segment_accessors_and_remap() {
    let layout = AllocLayout { size: 5000, align: 64 };
    let mut m = MMap::new(layout, 4096, false, 0x10000);
    assert_eq!(m.as_ptr(), 0x10000);
    assert_eq!(m.size(), 5000);
    assert_eq!(m.alloc_size(), 8192);
    assert_eq!(m.page_size(), 4096);
    assert_eq!(m.layout().align, 64);
    assert!(m.is_default_page_size());

    let bigger = AllocLayout { size: 9000, align: 64 };
    assert_eq!(m.remap_size(bigger), Some(12288));
    assert!(!m.remap(bigger, None));
    assert_eq!(m.size(), 5000);
    assert_eq!(m.alloc_size(), 8192);
    assert!(m.remap(bigger, Some(0x20000)));
    assert_eq!(m.as_ptr(), 0x20000);
    assert_eq!(m.size(), 9000);
    assert_eq!(m.alloc_size(), 12288);

    let same = AllocLayout { size: 12000, align: 64 };
    assert_eq!(m.remap_size(same), None);
    assert!(m.remap(same, None));
    assert_eq!(m.as_ptr(), 0x20000);
    assert_eq!(m.size(), 12000);
}

#[test]
fn copy_len_is_smaller_size() {
    assert_eq!(huge_global_alloc::copy_len(10, 20), 10);
    assert_eq!(huge_global_alloc::copy_len(20, 10), 10);
    assert_eq!(huge_global_alloc::copy_len(7, 7), 7);
    assert_eq!(huge_global_alloc::copy_len(0, 7), 0);
}

#[test]
fn fits_checks_room() {
    let heap = Heap::new(mb(1), true);
    assert!(heap.state.fits(mb(2)));
    assert!(heap.state.fits(usize::MAX));
}

#[test]
fn mapping_tries_huge_pages_then_default() {
    let layout = AllocLayout { size: mb(3), align: 8 };
    assert_eq!(MMap::first_attempt(), PageKind::Huge);
    assert_eq!(MMap::map_size(layout, PageKind::Huge, DEFAULT_PAGE), mb(4));
    assert_eq!(MMap::map_size(layout, PageKind::Default, DEFAULT_PAGE), mb(3));

    match MMap::after_attempt(layout, PageKind::Huge, DEFAULT_PAGE, Some(0x4000_0000)) {
        MapStep::Mapped(m) => {
            assert_eq!(m.as_ptr(), 0x4000_0000);
            assert_eq!(m.alloc_size(), mb(4));
            assert_eq!(m.page_size(), HUGE_PAGE_SIZE);
            assert!(!m.is_default_page_size());
        }
        _ => panic!("huge mapping should be taken"),
    }
    match MMap::after_attempt(layout, PageKind::Huge, DEFAULT_PAGE, None) {
        MapStep::Retry(kind) => assert_eq!(kind, PageKind::Default),
        _ => panic!("a refused huge mapping should be retried"),
    }
    match MMap::after_attempt(layout, PageKind::Default, DEFAULT_PAGE, Some(0x5000_0000)) {
        MapStep::Mapped(m) => {
            assert_eq!(m.as_ptr(), 0x5000_0000);
            assert_eq!(m.alloc_size(), mb(3));
            assert!(m.is_default_page_size());
        }
        _ => panic!("default mapping should be taken"),
    }
    assert!(matches!(
        MMap::after_attempt(layout, PageKind::Default, DEFAULT_PAGE, None),
        MapStep::Failed
    ));
}

#[test]
fn missed_halves_fold_into_one_megabyte() {
    let mut heap = Heap::new(4096, false);
    heap.allocate(512 * 1024);
    let s = heap.stats();
    assert_eq!(s.missed_mb, 0);
    assert_eq!(s.missed_bytes, 512 * 1024);
    heap.allocate(512 * 1024);
    let s = heap.stats();
    assert_eq!(s.missed_allocs, 2);
    assert_eq!(s.missed_mb, 1);
    assert_eq!(s.missed_bytes, 0);
}
