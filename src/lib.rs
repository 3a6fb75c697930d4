//! Bookkeeping of a global allocator that serves large requests from
//! huge-page-backed anonymous mappings and everything else from the system
//! allocator.
//!
//! The OS calls (map, resize, unmap) and the system allocator stay with the
//! caller: the functions here decide where each request goes and keep the
//! registry of mappings and its statistics, given what the OS did.

use vstd::prelude::*;

pub mod laws;
pub mod mmap;
pub mod mmapper;

use crate::mmap::{layout_ok, rounded_size, AllocLayout, MMap, SegmentView};
use crate::mmapper::{
    add_missed_spec, stats_of, without_ptr, HugeGlobalAllocatorStats, MMapper, MMapperStats,
    ReallocOutcome,
};

verus! {

/// Whether a request of `size` bytes goes to the mapper under `threshold`:
/// a zero threshold sends nothing there.
pub open spec fn wants_mapping(threshold: usize, size: usize) -> bool {
    threshold != 0 && size >= threshold
}

/// Where a reallocation goes.
#[derive(PartialEq, Eq, Structural, Debug, Clone, Copy)]
pub enum ReallocRoute {
    /// Mapped before and after: the mapper resizes the segment.
    Resize,
    /// Mapped before, too small now: allocate from the system allocator,
    /// copy, then drop the segment.
    ToSystem,
    /// From the system allocator before, large enough now: map a segment,
    /// copy, then free the old block to the system allocator.
    ToMapper,
    /// The system allocator's own reallocation.
    System,
}

/// The route of a reallocation, by whether the old block is mapped and
/// whether the new size wants a mapping.
pub open spec fn route_of(managed: bool, wants: bool) -> ReallocRoute {
    if managed {
        if wants {
            ReallocRoute::Resize
        } else {
            ReallocRoute::ToSystem
        }
    } else {
        if wants {
            ReallocRoute::ToMapper
        } else {
            ReallocRoute::System
        }
    }
}

/// Bytes to copy when a block moves: the smaller of the two sizes.
pub open spec fn copy_len_spec(old_size: usize, new_size: usize) -> usize {
    if old_size <= new_size {
        old_size
    } else {
        new_size
    }
}

/// Bytes to copy from a block of `old_size` bytes into one of `new_size`
/// bytes: no more than either holds.
pub fn copy_len(old_size: usize, new_size: usize) -> (r: usize)
    ensures
        r == copy_len_spec(old_size, new_size),
        r <= old_size,
        r <= new_size,
{
    if old_size <= new_size {
        old_size
    } else {
        new_size
    }
}

/// The global allocator's state: a threshold and the registry of mapped
/// segments.
pub struct HugeGlobalAllocator {
    mapper: MMapper,
    threshold: usize,
}

impl HugeGlobalAllocator {
    /// The registry.
    pub closed spec fn registry(&self) -> MMapper {
        self.mapper
    }

    /// The threshold in bytes.
    pub closed spec fn limit(&self) -> usize {
        self.threshold
    }

    /// The registry is well formed.
    pub open spec fn wf(&self) -> bool {
        self.registry().wf()
    }

    /// Creates a new allocator. The threshold is the minimum number of bytes
    /// of a request that is served by a mapping; 0 serves none that way.
    pub fn new(threshold: usize) -> (r: Self)
        ensures
            r.wf(),
            r.limit() == threshold,
            r.registry().segments() == Seq::<SegmentView>::empty(),
            r.registry().counters() == (MMapperStats {
                missed_allocs: 0,
                missed_bytes: 0,
                missed_mb: 0,
                remaps_failed: 0,
            }),
    {
        HugeGlobalAllocator { mapper: MMapper::new(), threshold }
    }

    /// The threshold in bytes.
    pub fn threshold(&self) -> (r: usize)
        ensures
            r == self.limit(),
    {
        self.threshold
    }

    /// Sets the threshold for the requests that follow; segments mapped
    /// already stay.
    pub fn set_threshold(&mut self, bytes: usize)
        ensures
            final(self).limit() == bytes,
            final(self).registry() == old(self).registry(),
    {
        self.threshold = bytes;
    }

    /// Whether a request of `size` bytes is served by a mapping.
    pub fn wants_mapping(&self, size: usize) -> (r: bool)
        ensures
            r == wants_mapping(self.limit(), size),
    {
        self.threshold != 0 && size >= self.threshold
    }

    /// Gets allocation statistics.
    pub fn stats(&self) -> (r: HugeGlobalAllocatorStats)
        requires
            self.wf(),
        ensures
            r == stats_of(self.registry().segments(), self.registry().counters()),
            r.segments == r.default_segments + r.huge_segments,
            r.mapped == r.default_mapped + r.huge_mapped,
            r.allocated == r.default_alloc + r.huge_alloc,
            r.allocated <= r.mapped,
            r.efficiency <= 100,
            r.mapped == 0 ==> r.efficiency == 100,
    {
        self.mapper.stats()
    }

    /// Whether the block at `ptr` is a registered segment.
    pub fn is_managed_ptr(&self, ptr: usize) -> (r: bool)
        requires
            self.wf(),
        ensures
            r == self.registry().contains(ptr),
    {
        self.mapper.is_managed_ptr(ptr)
    }

    /// Whether a segment of `mapped` more bytes fits the registry.
    pub fn fits(&self, mapped: usize) -> (r: bool)
        requires
            self.wf(),
        ensures
            r == self.registry().has_room(mapped as nat),
    {
        self.mapper.fits(mapped)
    }

    /// Registers the segment that the OS mapped for a request that wants a
    /// mapping, and returns its address.
    pub fn alloc_segment(&mut self, mmap: MMap) -> (r: usize)
        requires
            old(self).wf(),
            mmap.wf(),
            !old(self).registry().contains(mmap@.ptr as usize),
            old(self).registry().has_room(mmap@.mapped),
        ensures
            final(self).wf(),
            final(self).limit() == old(self).limit(),
            r == mmap@.ptr,
            final(self).registry().segments() == old(self).registry().segments().push(mmap@),
            final(self).registry().counters() == (if mmap@.huge {
                old(self).registry().counters()
            } else {
                add_missed_spec(old(self).registry().counters(), mmap@.size)
            }),
    {
        self.mapper.alloc_segment(mmap)
    }

    /// Frees the block at `ptr`: a registered segment leaves the registry and
    /// is handed back to be unmapped; `None` means the block belongs to the
    /// system allocator.
    pub fn dealloc(&mut self, ptr: usize) -> (r: Option<MMap>)
        requires
            old(self).wf(),
        ensures
            final(self).wf(),
            final(self).limit() == old(self).limit(),
            final(self).registry().segments() == without_ptr(
                old(self).registry().segments(),
                ptr as nat,
            ),
            final(self).registry().counters() == old(self).registry().counters(),
            r is Some == old(self).registry().contains(ptr),
            r is Some ==> r.unwrap()@ == old(self).registry().segment(ptr),
    {
        self.mapper.dealloc(ptr)
    }

    /// Where a reallocation of the block at `ptr` to `new_size` bytes goes.
    pub fn realloc_route(&self, ptr: usize, new_size: usize) -> (r: ReallocRoute)
        requires
            self.wf(),
        ensures
            r == route_of(self.registry().contains(ptr), wants_mapping(self.limit(), new_size)),
    {
        let managed = self.mapper.is_managed_ptr(ptr);
        let wants = self.wants_mapping(new_size);
        if managed {
            if wants {
                ReallocRoute::Resize
            } else {
                ReallocRoute::ToSystem
            }
        } else {
            if wants {
                ReallocRoute::ToMapper
            } else {
                ReallocRoute::System
            }
        }
    }

    /// The OS resize that the segment at `ptr` needs to hold `layout`, as its
    /// current and its new mapped size; `None` when its mapped size stays.
    pub fn remap_request(&self, ptr: usize, layout: AllocLayout) -> (r: Option<(usize, usize)>)
        requires
            self.wf(),
            self.registry().contains(ptr),
            layout_ok(layout),
        ensures
            r == (if rounded_size(layout.size as nat, self.registry().segment(ptr).page_size)
                == self.registry().segment(ptr).mapped {
                None
            } else {
                Some(
                    (
                        self.registry().segment(ptr).mapped as usize,
                        rounded_size(
                            layout.size as nat,
                            self.registry().segment(ptr).page_size,
                        ) as usize,
                    ),
                )
            }),
    {
        self.mapper.remap_request(ptr, layout)
    }

    /// Whether the segment at `ptr` can grow to hold `layout` within the
    /// registry's bounds.
    pub fn fits_resize(&self, ptr: usize, layout: AllocLayout) -> (r: bool)
        requires
            self.wf(),
            self.registry().contains(ptr),
            layout_ok(layout),
        ensures
            r == (self.registry().mapped_total() - self.registry().segment(ptr).mapped
                + rounded_size(layout.size as nat, self.registry().segment(ptr).page_size)
                <= usize::MAX),
    {
        self.mapper.fits_resize(ptr, layout)
    }

    /// Resizes the segment at `ptr` to `layout`, given the address at which
    /// the OS resized it (`None`: it could not), as `MMapper::realloc` does.
    pub fn realloc(&mut self, ptr: usize, layout: AllocLayout, remapped: Option<usize>) -> (r:
        ReallocOutcome)
        requires
            old(self).wf(),
            old(self).registry().contains(ptr),
            layout_ok(layout),
            remapped matches Some(p) ==> p == ptr || !old(self).registry().contains(p),
            old(self).registry().mapped_total() - old(self).registry().segment(ptr).mapped
                + rounded_size(layout.size as nat, old(self).registry().segment(ptr).page_size)
                <= usize::MAX,
        ensures
            final(self).wf(),
            final(self).limit() == old(self).limit(),
            ({
                let seg = old(self).registry().segment(ptr);
                let rest = without_ptr(old(self).registry().segments(), ptr as nat);
                let new_mapped = rounded_size(layout.size as nat, seg.page_size);
                let resized = new_mapped == seg.mapped || remapped is Some;
                let new_ptr = if new_mapped == seg.mapped {
                    ptr
                } else {
                    remapped.unwrap()
                };
                &&& resized ==> r == ReallocOutcome::Remapped(new_ptr)
                &&& resized ==> final(self).registry().segments() == rest.push(
                    SegmentView {
                        ptr: new_ptr as nat,
                        size: layout.size as nat,
                        align: layout.align as nat,
                        mapped: new_mapped,
                        page_size: seg.page_size,
                        huge: seg.huge,
                    },
                )
                &&& resized ==> final(self).registry().counters() == (if !seg.huge && layout.size
                    > seg.size {
                    add_missed_spec(old(self).registry().counters(), (layout.size - seg.size) as nat)
                } else {
                    old(self).registry().counters()
                })
                &&& !resized ==> (r matches ReallocOutcome::Failed(m) && m@ == seg && m.wf())
                &&& !resized ==> final(self).registry().segments() == rest
                &&& !resized ==> final(self).registry().counters() == (MMapperStats {
                    remaps_failed: mmapper::sat_add(
                        old(self).registry().counters().remaps_failed as int,
                        1,
                    ),
                    ..old(self).registry().counters()
                })
            }),
    {
        self.mapper.realloc(ptr, layout, remapped)
    }
}

} // verus!
