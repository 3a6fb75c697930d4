//! Laws that relate the allocator's operations to each other and to the
//! statistics.

use vstd::prelude::*;

use crate::mmap::SegmentView;
use crate::mmapper::{
    has_ptr, index_of, lemma_efficiency, lemma_index_of, lemma_index_of_push,
    lemma_segments_wf_remove, lemma_totals_classes, lemma_totals_count_le_len, lemma_totals_push,
    lemma_totals_remove,
    add_missed_spec, sat_add, segments_wf, stats_of, totals, without_ptr, MMapperStats, SegClass,
    MEGABYTE,
};
use crate::{copy_len_spec, route_of, wants_mapping, ReallocRoute};

verus! {

/// Registering a segment and then freeing its address gives back the
/// registry as it was, so the number of segments and the requested bytes are
/// as before. Freeing an address that is not registered (a block of the
/// system allocator) leaves the registry as it is.
pub proof fn alloc_then_dealloc_restores(
    s: Seq<SegmentView>,
    x: SegmentView,
    c: MMapperStats,
    p: nat,
)
    requires
        segments_wf(s),
        x.wf(),
        !has_ptr(s, x.ptr),
    ensures
        without_ptr(s.push(x), x.ptr) == s,
        stats_of(without_ptr(s.push(x), x.ptr), c).segments == stats_of(s, c).segments,
        stats_of(without_ptr(s.push(x), x.ptr), c).allocated == stats_of(s, c).allocated,
        !has_ptr(s, p) ==> without_ptr(s, p) == s,
{
    lemma_index_of_push(s, x);
}

/// A request one byte under a nonzero threshold is not mapped, one of
/// exactly the threshold is, and registering its segment adds exactly one
/// segment.
pub proof fn threshold_boundary(threshold: usize, s: Seq<SegmentView>, x: SegmentView, c: MMapperStats)
    requires
        threshold > 0,
        segments_wf(s),
        x.wf(),
        !has_ptr(s, x.ptr),
        s.len() < usize::MAX,
        totals(s, SegClass::All).mapped + x.mapped <= usize::MAX,
    ensures
        !wants_mapping(threshold, (threshold - 1) as usize),
        wants_mapping(threshold, threshold),
        stats_of(s.push(x), c).segments == stats_of(s, c).segments + 1,
{
    lemma_totals_push(s, x, SegClass::All);
    lemma_totals_count_le_len(s, SegClass::All);
}

/// In every well-formed registry the default-page and huge-page figures add
/// up to the overall ones.
pub proof fn stats_classes_add_up(s: Seq<SegmentView>, c: MMapperStats)
    requires
        segments_wf(s),
    ensures
        stats_of(s, c).default_segments + stats_of(s, c).huge_segments == stats_of(s, c).segments,
        stats_of(s, c).default_mapped + stats_of(s, c).huge_mapped == stats_of(s, c).mapped,
        stats_of(s, c).default_alloc + stats_of(s, c).huge_alloc == stats_of(s, c).allocated,
{
    lemma_totals_classes(s);
    lemma_totals_count_le_len(s, SegClass::All);
}

/// Page rounding never maps fewer bytes than are requested.
pub proof fn stats_mapped_covers_allocated(s: Seq<SegmentView>, c: MMapperStats)
    requires
        segments_wf(s),
    ensures
        stats_of(s, c).mapped >= stats_of(s, c).allocated,
{
    lemma_totals_classes(s);
}

/// The efficiency is a percentage, and is 100 when nothing is mapped.
pub proof fn efficiency_is_percentage(s: Seq<SegmentView>, c: MMapperStats)
    requires
        segments_wf(s),
    ensures
        0 <= stats_of(s, c).efficiency <= 100,
        stats_of(s, c).mapped == 0 ==> stats_of(s, c).efficiency == 100,
{
    lemma_totals_classes(s);
    lemma_efficiency(totals(s, SegClass::All).allocated, totals(s, SegClass::All).mapped);
}

/// Where some mapped bytes are not requested, or nothing is mapped, the
/// efficiency is 100 exactly when nothing is mapped.
pub proof fn efficiency_full_only_when_unmapped(s: Seq<SegmentView>, c: MMapperStats)
    requires
        segments_wf(s),
        totals(s, SegClass::All).allocated < totals(s, SegClass::All).mapped || totals(
            s,
            SegClass::All,
        ).mapped == 0,
    ensures
        (stats_of(s, c).efficiency == 100) == (stats_of(s, c).mapped == 0),
{
    let a = totals(s, SegClass::All).allocated;
    let m = totals(s, SegClass::All).mapped;
    lemma_totals_classes(s);
    lemma_efficiency(a, m);
    if m > 0 {
        assert((a * 100) / m < 100) by (nonlinear_arith)
            requires
                a < m,
                m > 0,
        ;
    }
}

/// Growing a registered block keeps the number of segments whichever way it
/// goes. A resize in place takes the segment out and puts its resized self
/// back with the counters as they were (but for missed bytes). A failed
/// resize takes the segment out, counts one more failure, and registers its
/// replacement.
pub proof fn resize_keeps_segment_count(
    s: Seq<SegmentView>,
    p: nat,
    resized: SegmentView,
    replacement: SegmentView,
    c: MMapperStats,
)
    requires
        segments_wf(s),
        has_ptr(s, p),
    ensures
        stats_of(without_ptr(s, p).push(resized), c).segments == stats_of(s, c).segments,
        stats_of(without_ptr(s, p).push(resized), c).remaps_failed == c.remaps_failed,
        ({
            let failed = MMapperStats { remaps_failed: sat_add(c.remaps_failed as int, 1), ..c };
            let after = without_ptr(s, p).push(replacement);
            &&& stats_of(after, failed).segments == stats_of(s, c).segments
            &&& stats_of(after, add_missed_spec(failed, replacement.size)).segments == stats_of(
                s,
                c,
            ).segments
            &&& stats_of(after, failed).remaps_failed == sat_add(c.remaps_failed as int, 1)
            &&& stats_of(after, add_missed_spec(failed, replacement.size)).remaps_failed
                == sat_add(c.remaps_failed as int, 1)
        }),
{
    lemma_index_of(s, p);
    let i = index_of(s, p);
    lemma_totals_remove(s, i, SegClass::All);
    lemma_totals_push(without_ptr(s, p), resized, SegClass::All);
    lemma_totals_push(without_ptr(s, p), replacement, SegClass::All);
}

/// Missed bytes are kept exactly: after a missed allocation of `bytes`
/// bytes the megabyte counter and the remainder together hold `bytes` more,
/// the remainder stays under one megabyte, and neither the megabytes nor the
/// number of missed allocations goes down.
pub proof fn missed_bytes_accumulate(c: MMapperStats, bytes: nat)
    requires
        c.wf(),
        c.missed_mb + (c.missed_bytes + bytes) / (MEGABYTE as int) <= usize::MAX,
    ensures
        add_missed_spec(c, bytes).missed_mb * MEGABYTE + add_missed_spec(c, bytes).missed_bytes
            == c.missed_mb * MEGABYTE + c.missed_bytes + bytes,
        add_missed_spec(c, bytes).wf(),
        add_missed_spec(c, bytes).missed_mb >= c.missed_mb,
        add_missed_spec(c, bytes).missed_allocs >= c.missed_allocs,
{
    let m = MEGABYTE as int;
    let t: int = c.missed_bytes + bytes;
    assert(t == (t / m) * m + t % m && 0 <= t % m < m && t / m >= 0) by (nonlinear_arith)
        requires
            m > 0,
            t >= 0,
    ;
    assert((c.missed_mb + t / m) * m == c.missed_mb * m + (t / m) * m) by (nonlinear_arith);
}

/// A block that moves, whether or not it grows, has exactly the bytes of the
/// smaller of its two sizes copied: the overlap of the old and new ranges.
pub proof fn copy_covers_overlap(old_size: usize, new_size: usize)
    ensures
        copy_len_spec(old_size, new_size) <= old_size,
        copy_len_spec(old_size, new_size) <= new_size,
        copy_len_spec(old_size, new_size) == old_size || copy_len_spec(old_size, new_size)
            == new_size,
{
}

/// A mapped block that shrinks under the threshold goes to the system
/// allocator and its segment leaves the registry: one segment fewer, its
/// address no longer registered, and a block of the system allocator freed
/// afterwards not found there.
pub proof fn shrink_below_threshold_unregisters(
    s: Seq<SegmentView>,
    threshold: usize,
    new_size: usize,
    p: nat,
    q: nat,
    c: MMapperStats,
)
    requires
        segments_wf(s),
        has_ptr(s, p),
        !has_ptr(s, q),
        new_size < threshold,
    ensures
        route_of(has_ptr(s, p), wants_mapping(threshold, new_size)) == ReallocRoute::ToSystem,
        stats_of(without_ptr(s, p), c).segments + 1 == stats_of(s, c).segments,
        !has_ptr(without_ptr(s, p), p),
        !has_ptr(without_ptr(s, p), q),
        without_ptr(without_ptr(s, p), q) == without_ptr(s, p),
{
    lemma_index_of(s, p);
    let i = index_of(s, p);
    lemma_totals_remove(s, i, SegClass::All);
    lemma_segments_wf_remove(s, i);
    lemma_totals_count_le_len(s, SegClass::All);
}

/// With a zero threshold no request is mapped and no reallocation moves a
/// block into a mapping or keeps one there.
pub proof fn zero_threshold_maps_nothing(size: usize, managed: bool)
    ensures
        !wants_mapping(0, size),
        route_of(managed, wants_mapping(0, size)) != ReallocRoute::Resize,
        route_of(managed, wants_mapping(0, size)) != ReallocRoute::ToMapper,
{
}

} // verus!
