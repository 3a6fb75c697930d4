//! The registry of live segments, keyed by base address, with the counters
//! kept beside it and the statistics derived from both.

use vstd::prelude::*;

use crate::mmap::{
    layout_ok, lemma_rounded_size, rounded_size, AllocLayout, MMap, SegmentView,
};

verus! {

/// One megabyte.
pub const MEGABYTE: usize = 1048576;

/// Which segments a total is taken over.
pub enum SegClass {
    All,
    Default,
    Huge,
}

/// Whether a segment belongs to a class.
pub open spec fn in_class(seg: SegmentView, cls: SegClass) -> bool {
    match cls {
        SegClass::All => true,
        SegClass::Default => !seg.huge,
        SegClass::Huge => seg.huge,
    }
}

/// Requested bytes, mapped bytes and number of segments of a class.
pub struct Totals {
    pub allocated: nat,
    pub mapped: nat,
    pub count: nat,
}

/// Totals of the segments of class `cls` in `s`.
pub open spec fn totals(s: Seq<SegmentView>, cls: SegClass) -> Totals
    decreases s.len(),
{
    if s.len() == 0 {
        Totals { allocated: 0, mapped: 0, count: 0 }
    } else {
        let t = totals(s.drop_last(), cls);
        let x = s.last();
        if in_class(x, cls) {
            Totals { allocated: t.allocated + x.size, mapped: t.mapped + x.mapped, count: t.count + 1 }
        } else {
            t
        }
    }
}

/// Position of the segment based at `ptr` in `s` (the last one, if several),
/// or -1.
pub open spec fn index_of(s: Seq<SegmentView>, ptr: nat) -> int
    decreases s.len(),
{
    if s.len() == 0 {
        -1
    } else if s.last().ptr == ptr {
        s.len() - 1
    } else {
        index_of(s.drop_last(), ptr)
    }
}

/// Whether a segment based at `ptr` is in `s`.
pub open spec fn has_ptr(s: Seq<SegmentView>, ptr: nat) -> bool {
    index_of(s, ptr) >= 0
}

/// `s` without the segment based at `ptr`, if there is one.
pub open spec fn without_ptr(s: Seq<SegmentView>, ptr: nat) -> Seq<SegmentView> {
    if has_ptr(s, ptr) {
        s.remove(index_of(s, ptr))
    } else {
        s
    }
}

/// Well-formed segments with distinct base addresses, whose mapped bytes
/// and number fit a `usize`.
pub open spec fn segments_wf(s: Seq<SegmentView>) -> bool {
    &&& forall|i: int| 0 <= i < s.len() ==> (#[trigger] s[i]).wf()
    &&& forall|i: int, j: int|
        0 <= i < s.len() && 0 <= j < s.len() && i != j ==> (#[trigger] s[i]).ptr != (#[trigger] s[j]).ptr
    &&& totals(s, SegClass::All).mapped <= usize::MAX
    &&& s.len() <= usize::MAX
}

/// Counters kept beside the segments.
#[derive(Clone, Copy, Debug)]
pub struct MMapperStats {
    /// Number of allocations that wanted huge pages and did not get them.
    pub missed_allocs: usize,
    /// Missed bytes below one megabyte.
    pub missed_bytes: usize,
    /// Whole missed megabytes.
    pub missed_mb: usize,
    /// Number of resizes that the OS could not do in place.
    pub remaps_failed: usize,
}

impl MMapperStats {
    /// All counters at zero.
    pub fn new() -> (r: Self)
        ensures
            r == (MMapperStats { missed_allocs: 0, missed_bytes: 0, missed_mb: 0, remaps_failed: 0 }),
    {
        MMapperStats { missed_allocs: 0, missed_bytes: 0, missed_mb: 0, remaps_failed: 0 }
    }

    /// The sub-megabyte part stays under one megabyte.
    pub open spec fn wf(&self) -> bool {
        self.missed_bytes < MEGABYTE
    }
}

/// `a + b`, or `usize::MAX` where the sum does not fit.
pub open spec fn sat_add(a: int, b: int) -> usize {
    if a + b > usize::MAX {
        usize::MAX
    } else {
        (a + b) as usize
    }
}

/// The counters after `bytes` more missed bytes in one more missed
/// allocation: the bytes join the sub-megabyte remainder, and every whole
/// megabyte of that sum moves to the megabyte counter.
pub open spec fn add_missed_spec(c: MMapperStats, bytes: nat) -> MMapperStats {
    let total: int = c.missed_bytes + bytes;
    MMapperStats {
        missed_allocs: sat_add(c.missed_allocs as int, 1),
        missed_bytes: (total % (MEGABYTE as int)) as usize,
        missed_mb: sat_add(c.missed_mb as int, total / (MEGABYTE as int)),
        remaps_failed: c.remaps_failed,
    }
}

/// Statistics of a registry.
#[derive(Clone, Copy, Debug)]
pub struct HugeGlobalAllocatorStats {
    /// Requested bytes over all segments.
    pub allocated: usize,
    /// Mapped bytes over all segments.
    pub mapped: usize,
    /// Number of segments.
    pub segments: usize,
    /// Requested bytes over default-page segments.
    pub default_alloc: usize,
    /// Mapped bytes over default-page segments.
    pub default_mapped: usize,
    /// Number of default-page segments.
    pub default_segments: usize,
    /// Requested bytes over huge-page segments.
    pub huge_alloc: usize,
    /// Mapped bytes over huge-page segments.
    pub huge_mapped: usize,
    /// Number of huge-page segments.
    pub huge_segments: usize,
    /// Number of allocations that wanted huge pages and did not get them.
    pub missed_allocs: usize,
    /// Whole missed megabytes.
    pub missed_mb: usize,
    /// Missed bytes below one megabyte.
    pub missed_bytes: usize,
    /// Number of resizes that the OS could not do in place.
    pub remaps_failed: usize,
    /// Requested bytes as a percentage of mapped bytes, rounded down; 100
    /// when nothing is mapped.
    pub efficiency: usize,
}

/// Requested bytes as a whole percentage of mapped bytes; 100 when nothing is
/// mapped.
pub open spec fn efficiency_of(allocated: nat, mapped: nat) -> nat {
    if mapped == 0 {
        100
    } else {
        (allocated * 100) / mapped
    }
}

/// The statistics of segments `s` with counters `c`.
pub open spec fn stats_of(s: Seq<SegmentView>, c: MMapperStats) -> HugeGlobalAllocatorStats {
    let all = totals(s, SegClass::All);
    let def = totals(s, SegClass::Default);
    let huge = totals(s, SegClass::Huge);
    HugeGlobalAllocatorStats {
        allocated: all.allocated as usize,
        mapped: all.mapped as usize,
        segments: all.count as usize,
        default_alloc: def.allocated as usize,
        default_mapped: def.mapped as usize,
        default_segments: def.count as usize,
        huge_alloc: huge.allocated as usize,
        huge_mapped: huge.mapped as usize,
        huge_segments: huge.count as usize,
        missed_allocs: c.missed_allocs,
        missed_mb: c.missed_mb,
        missed_bytes: c.missed_bytes,
        remaps_failed: c.remaps_failed,
        efficiency: efficiency_of(all.allocated, all.mapped) as usize,
    }
}

/// The totals of one segment added after `s`.
pub proof fn lemma_totals_push(s: Seq<SegmentView>, x: SegmentView, cls: SegClass)
    ensures
        totals(s.push(x), cls) == (if in_class(x, cls) {
            Totals {
                allocated: totals(s, cls).allocated + x.size,
                mapped: totals(s, cls).mapped + x.mapped,
                count: totals(s, cls).count + 1,
            }
        } else {
            totals(s, cls)
        }),
{
    assert(s.push(x).drop_last() =~= s);
}

/// Taking one segment out of `s` takes its share out of the totals.
pub proof fn lemma_totals_remove(s: Seq<SegmentView>, i: int, cls: SegClass)
    requires
        0 <= i < s.len(),
    ensures
        totals(s, cls) == (if in_class(s[i], cls) {
            Totals {
                allocated: totals(s.remove(i), cls).allocated + s[i].size,
                mapped: totals(s.remove(i), cls).mapped + s[i].mapped,
                count: totals(s.remove(i), cls).count + 1,
            }
        } else {
            totals(s.remove(i), cls)
        }),
    decreases s.len(),
{
    if i == s.len() - 1 {
        assert(s.remove(i) =~= s.drop_last());
    } else {
        let d = s.drop_last();
        lemma_totals_remove(d, i, cls);
        assert(s.remove(i) =~= d.remove(i).push(s.last()));
        lemma_totals_push(d.remove(i), s.last(), cls);
    }
}

/// The default-page and huge-page totals add up to the overall ones, each
/// is at most the overall one, and no class maps fewer bytes than it holds.
pub proof fn lemma_totals_classes(s: Seq<SegmentView>)
    requires
        forall|i: int| 0 <= i < s.len() ==> (#[trigger] s[i]).wf(),
    ensures
        totals(s, SegClass::All).allocated == totals(s, SegClass::Default).allocated + totals(
            s,
            SegClass::Huge,
        ).allocated,
        totals(s, SegClass::All).mapped == totals(s, SegClass::Default).mapped + totals(
            s,
            SegClass::Huge,
        ).mapped,
        totals(s, SegClass::All).count == totals(s, SegClass::Default).count + totals(
            s,
            SegClass::Huge,
        ).count,
        totals(s, SegClass::All).allocated <= totals(s, SegClass::All).mapped,
        totals(s, SegClass::Default).allocated <= totals(s, SegClass::Default).mapped,
        totals(s, SegClass::Huge).allocated <= totals(s, SegClass::Huge).mapped,
    decreases s.len(),
{
    if s.len() > 0 {
        let d = s.drop_last();
        assert forall|i: int| 0 <= i < d.len() implies (#[trigger] d[i]).wf() by {
            assert(d[i] == s[i]);
        }
        lemma_totals_classes(d);
        assert(s[s.len() - 1].wf());
        lemma_rounded_size(s.last().size, s.last().page_size);
    }
}

/// The totals of a prefix of `s` are at most those of `s`.
pub proof fn lemma_totals_prefix(s: Seq<SegmentView>, n: int, cls: SegClass)
    requires
        0 <= n <= s.len(),
    ensures
        totals(s.take(n), cls).allocated <= totals(s, cls).allocated,
        totals(s.take(n), cls).mapped <= totals(s, cls).mapped,
        totals(s.take(n), cls).count <= totals(s, cls).count,
    decreases s.len(),
{
    if n == s.len() {
        assert(s.take(n) =~= s);
    } else {
        let d = s.drop_last();
        assert(s.take(n) =~= d.take(n));
        lemma_totals_prefix(d, n, cls);
    }
}

/// What `index_of` finds.
pub proof fn lemma_index_of(s: Seq<SegmentView>, ptr: nat)
    ensures
        -1 <= index_of(s, ptr) < s.len(),
        index_of(s, ptr) >= 0 ==> s[index_of(s, ptr)].ptr == ptr,
        index_of(s, ptr) < 0 ==> forall|k: int| 0 <= k < s.len() ==> (#[trigger] s[k]).ptr != ptr,
    decreases s.len(),
{
    if s.len() > 0 && s.last().ptr != ptr {
        let d = s.drop_last();
        lemma_index_of(d, ptr);
        if index_of(s, ptr) < 0 {
            assert forall|k: int| 0 <= k < s.len() implies (#[trigger] s[k]).ptr != ptr by {
                if k < d.len() {
                    assert(s[k] == d[k]);
                }
            }
        }
    }
}

/// Among distinct base addresses, a segment based at `ptr` is the one that
/// `index_of` finds.
pub proof fn lemma_index_of_unique(s: Seq<SegmentView>, ptr: nat, k: int)
    requires
        segments_wf(s),
        0 <= k < s.len(),
        s[k].ptr == ptr,
    ensures
        index_of(s, ptr) == k,
{
    lemma_index_of(s, ptr);
    let i = index_of(s, ptr);
    if i != k {
        assert(s[i].ptr != s[k].ptr);
    }
}

/// A segment added after `s` at a fresh address is found at the end.
pub proof fn lemma_index_of_push(s: Seq<SegmentView>, x: SegmentView)
    ensures
        index_of(s.push(x), x.ptr) == s.len(),
        s.push(x).remove(s.len() as int) =~= s,
{
    assert(s.push(x).last() == x);
}

/// Removing a segment keeps the rest well formed.
pub proof fn lemma_segments_wf_remove(s: Seq<SegmentView>, i: int)
    requires
        segments_wf(s),
        0 <= i < s.len(),
    ensures
        segments_wf(s.remove(i)),
        totals(s.remove(i), SegClass::All).mapped + s[i].mapped == totals(s, SegClass::All).mapped,
        forall|p: nat| has_ptr(s.remove(i), p) == (has_ptr(s, p) && p != s[i].ptr),
{
    let r = s.remove(i);
    lemma_totals_remove(s, i, SegClass::All);
    assert forall|a: int| 0 <= a < r.len() implies (#[trigger] r[a]).wf() by {
        if a < i {
            assert(r[a] == s[a]);
        } else {
            assert(r[a] == s[a + 1]);
        }
    }
    assert forall|a: int, b: int|
        0 <= a < r.len() && 0 <= b < r.len() && a != b implies (#[trigger] r[a]).ptr != (
    #[trigger] r[b]).ptr by {
        let sa = if a < i { a } else { a + 1 };
        let sb = if b < i { b } else { b + 1 };
        assert(r[a] == s[sa]);
        assert(r[b] == s[sb]);
    }
    assert forall|p: nat| has_ptr(r, p) == (has_ptr(s, p) && p != s[i].ptr) by {
        lemma_index_of(r, p);
        lemma_index_of(s, p);
        if has_ptr(r, p) {
            let a = index_of(r, p);
            let sa = if a < i { a } else { a + 1 };
            assert(r[a] == s[sa]);
            assert(s[sa].ptr != s[i].ptr);
        }
        if has_ptr(s, p) && p != s[i].ptr {
            let k = index_of(s, p);
            let ra = if k < i { k } else { k - 1 };
            assert(r[ra] == s[k]);
        }
    }
}

/// Adding a well-formed segment at a fresh address keeps the registry well
/// formed while the mapped bytes fit.
pub proof fn lemma_segments_wf_push(s: Seq<SegmentView>, x: SegmentView)
    requires
        segments_wf(s),
        x.wf(),
        !has_ptr(s, x.ptr),
        totals(s, SegClass::All).mapped + x.mapped <= usize::MAX,
        s.len() < usize::MAX,
    ensures
        segments_wf(s.push(x)),
        forall|p: nat| has_ptr(s.push(x), p) == (has_ptr(s, p) || p == x.ptr),
{
    let t = s.push(x);
    lemma_totals_push(s, x, SegClass::All);
    lemma_index_of(s, x.ptr);
    assert forall|a: int| 0 <= a < t.len() implies (#[trigger] t[a]).wf() by {
        if a < s.len() {
            assert(t[a] == s[a]);
        }
    }
    assert forall|a: int, b: int|
        0 <= a < t.len() && 0 <= b < t.len() && a != b implies (#[trigger] t[a]).ptr != (
    #[trigger] t[b]).ptr by {
        if a < s.len() {
            assert(t[a] == s[a]);
        }
        if b < s.len() {
            assert(t[b] == s[b]);
        }
    }
    assert forall|p: nat| has_ptr(t, p) == (has_ptr(s, p) || p == x.ptr) by {
        lemma_index_of(t, p);
        lemma_index_of(s, p);
        if has_ptr(t, p) && p != x.ptr {
            assert(t.drop_last() =~= s);
        }
        if has_ptr(s, p) {
            let k = index_of(s, p);
            assert(t[k] == s[k]);
            lemma_index_of_unique(t, p, k);
        }
    }
}

/// What a resize in the registry came to.
pub enum ReallocOutcome {
    /// The segment was resized by the OS, or needed no resize, and is
    /// registered at this address.
    Remapped(usize),
    /// The OS could not resize the segment: it is out of the registry and
    /// handed back, to be copied from and unmapped once its replacement is
    /// allocated.
    Failed(MMap),
}

/// A collection of tracked memory mapped segments.
pub struct MMapper {
    segs: Vec<MMap>,
    stats: MMapperStats,
}

impl MMapper {
    /// The live segments, in registration order.
    pub closed spec fn segments(&self) -> Seq<SegmentView> {
        self.segs@.map_values(|m: MMap| m@)
    }

    /// The counters.
    pub closed spec fn counters(&self) -> MMapperStats {
        self.stats
    }

    /// Segments with distinct addresses, and counters in range.
    pub open spec fn wf(&self) -> bool {
        segments_wf(self.segments()) && self.counters().wf()
    }

    /// Whether a segment based at `ptr` is registered.
    pub open spec fn contains(&self, ptr: usize) -> bool {
        has_ptr(self.segments(), ptr as nat)
    }

    /// The segment based at `ptr`.
    pub open spec fn segment(&self, ptr: usize) -> SegmentView {
        self.segments()[index_of(self.segments(), ptr as nat)]
    }

    /// Mapped bytes over all segments.
    pub open spec fn mapped_total(&self) -> nat {
        totals(self.segments(), SegClass::All).mapped
    }

    /// One more segment of `mapped` bytes keeps the mapped bytes and the
    /// number of segments within `usize`.
    pub open spec fn has_room(&self, mapped: nat) -> bool {
        self.mapped_total() + mapped <= usize::MAX && self.segments().len() < usize::MAX
    }

    /// Create a new, empty memory mappings container.
    pub fn new() -> (r: Self)
        ensures
            r.wf(),
            r.segments() == Seq::<SegmentView>::empty(),
            r.counters() == (MMapperStats {
                missed_allocs: 0,
                missed_bytes: 0,
                missed_mb: 0,
                remaps_failed: 0,
            }),
    {
        let r = MMapper { segs: Vec::new(), stats: MMapperStats::new() };
        assert(r.segments() =~= Seq::<SegmentView>::empty());
        r
    }

    /// Position of the segment based at `ptr`, if any.
    fn find(&self, ptr: usize) -> (r: Option<usize>)
        requires
            self.wf(),
        ensures
            r == (if self.contains(ptr) {
                Some(index_of(self.segments(), ptr as nat) as usize)
            } else {
                None
            }),
            r matches Some(i) ==> i as int == index_of(self.segments(), ptr as nat) && i
                < self.segments().len(),
    {
        let ghost s = self.segments();
        let mut i: usize = 0;
        while i < self.segs.len()
            invariant
                s == self.segments(),
                self.wf(),
                i <= self.segs.len(),
                forall|k: int| 0 <= k < i ==> (#[trigger] s[k]).ptr != ptr as nat,
            decreases self.segs.len() - i,
        {
            assert(s[i as int] == self.segs[i as int]@);
            if self.segs[i].as_ptr() == ptr {
                proof {
                    lemma_index_of_unique(s, ptr as nat, i as int);
                }
                return Some(i);
            }
            i = i + 1;
        }
        proof {
            lemma_index_of(s, ptr as nat);
        }
        None
    }

    /// Returns true if a segment based at `ptr` is registered.
    pub fn is_managed_ptr(&self, ptr: usize) -> (r: bool)
        requires
            self.wf(),
        ensures
            r == self.contains(ptr),
    {
        self.find(ptr).is_some()
    }

    /// Mapped bytes over all segments.
    pub fn mapped_bytes(&self) -> (r: usize)
        requires
            self.wf(),
        ensures
            r == self.mapped_total(),
    {
        self.stats().mapped
    }

    /// Whether a segment of `mapped` more bytes can join the registry.
    pub fn fits(&self, mapped: usize) -> (r: bool)
        requires
            self.wf(),
        ensures
            r == self.has_room(mapped as nat),
    {
        mapped <= usize::MAX - self.mapped_bytes() && self.segs.len() < usize::MAX
    }

    /// The OS resize that the segment based at `ptr` needs to hold `layout`,
    /// as its current and its new mapped size; `None` when its mapped size
    /// stays.
    pub fn remap_request(&self, ptr: usize, layout: AllocLayout) -> (r: Option<(usize, usize)>)
        requires
            self.wf(),
            self.contains(ptr),
            layout_ok(layout),
        ensures
            r == (if rounded_size(layout.size as nat, self.segment(ptr).page_size)
                == self.segment(ptr).mapped {
                None
            } else {
                Some(
                    (
                        self.segment(ptr).mapped as usize,
                        rounded_size(layout.size as nat, self.segment(ptr).page_size) as usize,
                    ),
                )
            }),
    {
        let ghost s = self.segments();
        proof {
            lemma_index_of(s, ptr as nat);
        }
        let i = self.find(ptr).unwrap();
        let m = &self.segs[i];
        assert(m@ == self.segment(ptr));
        match m.remap_size(layout) {
            None => None,
            Some(new_size) => Some((m.alloc_size(), new_size)),
        }
    }

    /// Whether the segment based at `ptr` can be resized to hold `layout`
    /// without the registry's mapped bytes leaving `usize`.
    pub fn fits_resize(&self, ptr: usize, layout: AllocLayout) -> (r: bool)
        requires
            self.wf(),
            self.contains(ptr),
            layout_ok(layout),
        ensures
            r == (self.mapped_total() - self.segment(ptr).mapped + rounded_size(
                layout.size as nat,
                self.segment(ptr).page_size,
            ) <= usize::MAX),
    {
        let ghost s = self.segments();
        proof {
            lemma_index_of(s, ptr as nat);
            lemma_segments_wf_remove(s, index_of(s, ptr as nat));
        }
        let i = self.find(ptr).unwrap();
        let m = &self.segs[i];
        assert(m@ == self.segment(ptr));
        let new_size = MMap::calc_alloc_size(layout.size, m.page_size());
        let rest = self.mapped_bytes() - m.alloc_size();
        new_size <= usize::MAX - rest
    }

    /// Removes the segment based at `ptr`, if any, and hands it back.
    fn map_remove(&mut self, ptr: usize) -> (r: Option<MMap>)
        requires
            old(self).wf(),
        ensures
            final(self).wf(),
            final(self).segments() == without_ptr(old(self).segments(), ptr as nat),
            final(self).counters() == old(self).counters(),
            r is Some == old(self).contains(ptr),
            r is Some ==> r.unwrap()@ == old(self).segment(ptr) && r.unwrap().wf(),
            forall|p: usize| final(self).contains(p) == (old(self).contains(p) && p != ptr),
    {
        let ghost s = self.segments();
        match self.find(ptr) {
            Some(i) => {
                proof {
                    lemma_index_of(s, ptr as nat);
                    assert(s.len() == self.segs@.len());
                    assert(i as int == index_of(s, ptr as nat));
                    lemma_segments_wf_remove(s, i as int);
                }
                let m = self.segs.remove(i);
                assert(self.segments() =~= s.remove(i as int));
                assert(without_ptr(s, ptr as nat) == s.remove(i as int));
                Some(m)
            },
            None => {
                proof {
                    lemma_index_of(s, ptr as nat);
                }
                None
            },
        }
    }

    /// Registers a segment at a fresh address.
    fn map_add(&mut self, mmap: MMap)
        requires
            old(self).wf(),
            mmap.wf(),
            !old(self).contains(mmap@.ptr as usize),
            old(self).has_room(mmap@.mapped),
        ensures
            final(self).wf(),
            final(self).segments() == old(self).segments().push(mmap@),
            final(self).counters() == old(self).counters(),
            forall|p: usize| final(self).contains(p) == (old(self).contains(p) || p == mmap@.ptr),
    {
        proof {
            lemma_segments_wf_push(self.segments(), mmap@);
        }
        let ghost s = self.segments();
        self.segs.push(mmap);
        assert(self.segments() =~= s.push(mmap@));
    }

    /// Counts one more missed huge-page allocation of `bytes` bytes.
    fn add_missed(&mut self, bytes: usize)
        requires
            old(self).wf(),
        ensures
            final(self).wf(),
            final(self).segments() == old(self).segments(),
            final(self).counters() == add_missed_spec(old(self).counters(), bytes as nat),
    {
        let c = self.stats;
        let whole: usize = bytes / MEGABYTE;
        let part: usize = bytes % MEGABYTE;
        let carry: usize = c.missed_bytes + part;
        let total_mb: usize = whole + carry / MEGABYTE;
        proof {
            let b = bytes as int;
            let m = MEGABYTE as int;
            let w = whole as int;
            let p = part as int;
            let cr = carry as int;
            let t = c.missed_bytes as int + b;
            assert(b == w * m + p) by (nonlinear_arith)
                requires
                    w == b / m,
                    p == b % m,
                    m > 0,
            ;
            assert(t / m == w + cr / m && t % m == cr % m) by (nonlinear_arith)
                requires
                    t == w * m + cr,
                    m > 0,
                    cr >= 0,
                    w >= 0,
            ;
        }
        let missed_bytes: usize = carry % MEGABYTE;
        let missed_mb: usize = c.missed_mb.saturating_add(total_mb);
        self.stats = MMapperStats {
            missed_allocs: c.missed_allocs.saturating_add(1),
            missed_bytes,
            missed_mb,
            remaps_failed: c.remaps_failed,
        };
    }

    /// Registers a segment that the OS has just mapped and returns its
    /// address. A segment on default pages counts as a missed huge-page
    /// allocation of its requested size.
    pub fn alloc_segment(&mut self, mmap: MMap) -> (r: usize)
        requires
            old(self).wf(),
            mmap.wf(),
            !old(self).contains(mmap@.ptr as usize),
            old(self).has_room(mmap@.mapped),
        ensures
            final(self).wf(),
            r == mmap@.ptr,
            final(self).segments() == old(self).segments().push(mmap@),
            final(self).counters() == (if mmap@.huge {
                old(self).counters()
            } else {
                add_missed_spec(old(self).counters(), mmap@.size)
            }),
    {
        if mmap.is_default_page_size() {
            self.add_missed(mmap.size());
        }
        let ptr = mmap.as_ptr();
        self.map_add(mmap);
        ptr
    }

    /// Removes the segment based at `ptr` and hands it back to be unmapped;
    /// `None` if no segment is based there.
    pub fn dealloc(&mut self, ptr: usize) -> (r: Option<MMap>)
        requires
            old(self).wf(),
        ensures
            final(self).wf(),
            final(self).segments() == without_ptr(old(self).segments(), ptr as nat),
            final(self).counters() == old(self).counters(),
            r is Some == old(self).contains(ptr),
            r is Some ==> r.unwrap()@ == old(self).segment(ptr),
    {
        self.map_remove(ptr)
    }

    /// Resizes the segment based at `ptr` to `layout`. Where its mapped size
    /// has to change, `remapped` is the address at which the OS resized it,
    /// or `None` if it could not.
    ///
    /// On success the segment stays registered, under its new address, and a
    /// default-page segment that grew counts the growth as missed. On failure
    /// the failed-resize counter goes up by one and the segment leaves the
    /// registry unchanged, handed back to the caller.
    pub fn realloc(&mut self, ptr: usize, layout: AllocLayout, remapped: Option<usize>) -> (r:
        ReallocOutcome)
        requires
            old(self).wf(),
            old(self).contains(ptr),
            layout_ok(layout),
            remapped matches Some(p) ==> p == ptr || !old(self).contains(p),
            old(self).mapped_total() - old(self).segment(ptr).mapped + rounded_size(
                layout.size as nat,
                old(self).segment(ptr).page_size,
            ) <= usize::MAX,
        ensures
            final(self).wf(),
            ({
                let seg = old(self).segment(ptr);
                let rest = without_ptr(old(self).segments(), ptr as nat);
                let new_mapped = rounded_size(layout.size as nat, seg.page_size);
                let resized = new_mapped == seg.mapped || remapped is Some;
                let new_ptr = if new_mapped == seg.mapped {
                    ptr
                } else {
                    remapped.unwrap()
                };
                &&& resized ==> r == ReallocOutcome::Remapped(new_ptr)
                &&& resized ==> final(self).segments() == rest.push(
                    SegmentView {
                        ptr: new_ptr as nat,
                        size: layout.size as nat,
                        align: layout.align as nat,
                        mapped: new_mapped,
                        page_size: seg.page_size,
                        huge: seg.huge,
                    },
                )
                &&& resized ==> final(self).counters() == (if !seg.huge && layout.size > seg.size {
                    add_missed_spec(old(self).counters(), (layout.size - seg.size) as nat)
                } else {
                    old(self).counters()
                })
                &&& !resized ==> (r matches ReallocOutcome::Failed(m) && m@ == seg && m.wf())
                &&& !resized ==> final(self).segments() == rest
                &&& !resized ==> final(self).counters() == (MMapperStats {
                    remaps_failed: sat_add(old(self).counters().remaps_failed as int, 1),
                    ..old(self).counters()
                })
            }),
    {
        let ghost s0 = self.segments();
        let ghost seg = self.segment(ptr);
        let mut mmap = match self.map_remove(ptr) {
            Some(m) => m,
            None => {
                proof {
                    assert(false);
                }
                return ReallocOutcome::Remapped(ptr);
            },
        };
        proof {
            lemma_index_of(s0, ptr as nat);
            lemma_segments_wf_remove(s0, index_of(s0, ptr as nat));
            lemma_rounded_size(layout.size as nat, seg.page_size);
        }
        let was_default = mmap.is_default_page_size();
        let old_size = mmap.size();
        if mmap.remap(layout, remapped) {
            let new_ptr = mmap.as_ptr();
            if was_default && layout.size > old_size {
                self.add_missed(layout.size - old_size);
            }
            self.map_add(mmap);
            ReallocOutcome::Remapped(new_ptr)
        } else {
            let c = self.stats;
            self.stats = MMapperStats { remaps_failed: c.remaps_failed.saturating_add(1), ..c };
            ReallocOutcome::Failed(mmap)
        }
    }

    /// Statistics over the live segments and the counters.
    pub fn stats(&self) -> (r: HugeGlobalAllocatorStats)
        requires
            self.wf(),
        ensures
            r == stats_of(self.segments(), self.counters()),
            r.segments == r.default_segments + r.huge_segments,
            r.mapped == r.default_mapped + r.huge_mapped,
            r.allocated == r.default_alloc + r.huge_alloc,
            r.allocated <= r.mapped,
            r.efficiency <= 100,
            r.mapped == 0 ==> r.efficiency == 100,
    {
        let ghost s = self.segments();
        proof {
            lemma_totals_classes(s);
        }
        let mut allocated: usize = 0;
        let mut mapped: usize = 0;
        let mut segments: usize = 0;
        let mut default_alloc: usize = 0;
        let mut default_mapped: usize = 0;
        let mut default_segments: usize = 0;
        let mut huge_alloc: usize = 0;
        let mut huge_mapped: usize = 0;
        let mut huge_segments: usize = 0;
        let mut i: usize = 0;
        while i < self.segs.len()
            invariant
                s == self.segments(),
                self.wf(),
                i <= self.segs.len(),
                allocated == totals(s.take(i as int), SegClass::All).allocated,
                mapped == totals(s.take(i as int), SegClass::All).mapped,
                segments == totals(s.take(i as int), SegClass::All).count,
                default_alloc == totals(s.take(i as int), SegClass::Default).allocated,
                default_mapped == totals(s.take(i as int), SegClass::Default).mapped,
                default_segments == totals(s.take(i as int), SegClass::Default).count,
                huge_alloc == totals(s.take(i as int), SegClass::Huge).allocated,
                huge_mapped == totals(s.take(i as int), SegClass::Huge).mapped,
                huge_segments == totals(s.take(i as int), SegClass::Huge).count,
            decreases self.segs.len() - i,
        {
            let m = &self.segs[i];
            let ghost t = s.take(i as int);
            let ghost t1 = s.take(i + 1);
            proof {
                assert(t1 =~= t.push(s[i as int]));
                assert(s[i as int] == m@);
                lemma_totals_push(t, m@, SegClass::All);
                lemma_totals_push(t, m@, SegClass::Default);
                lemma_totals_push(t, m@, SegClass::Huge);
                assert forall|k: int| 0 <= k < t1.len() implies (#[trigger] t1[k]).wf() by {
                    assert(t1[k] == s[k]);
                }
                lemma_totals_classes(t1);
                lemma_totals_prefix(s, i + 1, SegClass::All);
                assert(s.len() == self.segs.len());
                assert(segments <= i) by {
                    lemma_totals_count_le_len(t, SegClass::All);
                }
            }
            allocated = allocated + m.size();
            mapped = mapped + m.alloc_size();
            segments = segments + 1;
            if m.is_default_page_size() {
                default_alloc = default_alloc + m.size();
                default_mapped = default_mapped + m.alloc_size();
                default_segments = default_segments + 1;
            } else {
                huge_alloc = huge_alloc + m.size();
                huge_mapped = huge_mapped + m.alloc_size();
                huge_segments = huge_segments + 1;
            }
            i = i + 1;
        }
        assert(s.take(s.len() as int) =~= s);
        let efficiency: usize = if mapped == 0 {
            100
        } else {
            proof {
                lemma_efficiency(allocated as nat, mapped as nat);
            }
            ((allocated as u128 * 100) / mapped as u128) as usize
        };
        proof {
            if mapped == 0 {
                lemma_efficiency(allocated as nat, mapped as nat);
            }
        }
        let c = self.stats;
        HugeGlobalAllocatorStats {
            allocated,
            mapped,
            segments,
            default_alloc,
            default_mapped,
            default_segments,
            huge_alloc,
            huge_mapped,
            huge_segments,
            missed_allocs: c.missed_allocs,
            missed_mb: c.missed_mb,
            missed_bytes: c.missed_bytes,
            remaps_failed: c.remaps_failed,
            efficiency,
        }
    }
}

/// A class holds at most as many segments as there are.
pub proof fn lemma_totals_count_le_len(s: Seq<SegmentView>, cls: SegClass)
    ensures
        totals(s, cls).count <= s.len(),
    decreases s.len(),
{
    if s.len() > 0 {
        lemma_totals_count_le_len(s.drop_last(), cls);
    }
}

/// The efficiency of at most as many requested bytes as mapped ones is a
/// percentage, and is 100 when nothing is mapped.
pub proof fn lemma_efficiency(allocated: nat, mapped: nat)
    requires
        allocated <= mapped,
    ensures
        efficiency_of(allocated, mapped) <= 100,
        mapped == 0 ==> efficiency_of(allocated, mapped) == 100,
{
    if mapped > 0 {
        assert((allocated * 100) / mapped <= 100) by (nonlinear_arith)
            requires
                allocated <= mapped,
                mapped > 0,
        ;
    }
}

} // verus!
