//! One anonymous memory mapping: its requested layout, its page size and the
//! page-rounded size that is actually mapped.

use vstd::prelude::*;

verus! {

/// Size of a huge page in bytes.
pub const HUGE_PAGE_SIZE: usize = 2097152;

/// Largest size a layout may request (`isize::MAX`).
pub const MAX_LAYOUT_SIZE: usize = usize::MAX / 2;

/// Rounds `size` up to a whole number of pages of `page_size` bytes.
pub open spec fn rounded_size(size: nat, page_size: nat) -> nat {
    if page_size == 0 {
        0
    } else {
        (((size + page_size - 1) as nat) / page_size) * page_size
    }
}

/// Size and alignment of a requested block of memory.
#[derive(Clone, Copy, Debug)]
pub struct AllocLayout {
    pub size: usize,
    pub align: usize,
}

/// A layout that a mapping can hold: its size fits `isize`.
pub open spec fn layout_ok(layout: AllocLayout) -> bool {
    layout.size <= MAX_LAYOUT_SIZE
}

/// A page size that a mapping can use.
pub open spec fn page_size_ok(page_size: nat) -> bool {
    0 < page_size <= HUGE_PAGE_SIZE
}

/// What a mapping is, as plain numbers.
pub struct SegmentView {
    /// Base address.
    pub ptr: nat,
    /// Requested size.
    pub size: nat,
    /// Requested alignment.
    pub align: nat,
    /// Bytes actually mapped.
    pub mapped: nat,
    /// Page size backing the mapping.
    pub page_size: nat,
    /// Whether huge pages back the mapping.
    pub huge: bool,
}

impl SegmentView {
    /// The mapped size is the requested size rounded up to whole pages.
    pub open spec fn wf(self) -> bool {
        &&& page_size_ok(self.page_size)
        &&& self.size <= MAX_LAYOUT_SIZE
        &&& self.ptr <= usize::MAX
        &&& self.align <= usize::MAX
        &&& self.mapped == rounded_size(self.size, self.page_size)
        &&& self.huge ==> self.page_size == HUGE_PAGE_SIZE
    }
}

/// Which page size an attempt to map a segment asks for.
#[derive(PartialEq, Eq, Structural, Debug, Clone, Copy)]
pub enum PageKind {
    /// Huge pages.
    Huge,
    /// The platform's default page size.
    Default,
}

/// The page size of an attempt, given the platform's default page size.
pub open spec fn page_of(kind: PageKind, default_page_size: usize) -> usize {
    match kind {
        PageKind::Huge => HUGE_PAGE_SIZE,
        PageKind::Default => default_page_size,
    }
}

/// What follows an attempt to map a segment.
pub enum MapStep {
    /// The OS mapped it: here is the segment.
    Mapped(MMap),
    /// The OS refused: try again with this page size.
    Retry(PageKind),
    /// Both page sizes were refused.
    Failed,
}

/// Descriptor of an anonymous memory mapped segment.
#[derive(Debug)]
pub struct MMap {
    ptr: usize,
    layout: AllocLayout,
    alloc_size: usize,
    page_size: usize,
    huge: bool,
}

impl View for MMap {
    type V = SegmentView;

    closed spec fn view(&self) -> SegmentView {
        SegmentView {
            ptr: self.ptr as nat,
            size: self.layout.size as nat,
            align: self.layout.align as nat,
            mapped: self.alloc_size as nat,
            page_size: self.page_size as nat,
            huge: self.huge,
        }
    }
}

/// Rounding a size that fits a layout never leaves `usize`, and never
/// under-maps.
pub proof fn lemma_rounded_size(size: nat, page_size: nat)
    requires
        page_size_ok(page_size),
    ensures
        size <= rounded_size(size, page_size),
        rounded_size(size, page_size) <= size + page_size - 1,
        rounded_size(size, page_size) % page_size == 0,
        size == 0 ==> rounded_size(size, page_size) == 0,
{
    let q = ((size + page_size - 1) as nat) / page_size;
    let r = ((size + page_size - 1) as nat) % page_size;
    assert((size + page_size - 1) as nat == q * page_size + r && 0 <= r < page_size)
        by (nonlinear_arith)
        requires
            page_size > 0,
            q == ((size + page_size - 1) as nat) / page_size,
            r == ((size + page_size - 1) as nat) % page_size,
    ;
    assert((q * page_size) % page_size == 0) by (nonlinear_arith)
        requires
            page_size > 0,
    ;
    if size == 0 {
        let pm = (page_size - 1) as nat;
        assert(pm / page_size == 0) by (nonlinear_arith)
            requires
                pm == page_size - 1,
                page_size > 0,
        ;
        assert((size + page_size - 1) as nat == pm);
        assert(q == 0);
        assert(q * page_size == 0) by (nonlinear_arith)
            requires
                q == 0,
        ;
    }
}

impl MMap {
    /// Rounds `size` up to a whole number of pages.
    pub fn calc_alloc_size(size: usize, page_size: usize) -> (r: usize)
        requires
            size <= MAX_LAYOUT_SIZE,
            page_size_ok(page_size as nat),
        ensures
            r == rounded_size(size as nat, page_size as nat),
    {
        proof {
            lemma_rounded_size(size as nat, page_size as nat);
        }
        if size == 0 {
            0
        } else {
            let pages: usize = (size - 1) / page_size + 1;
            proof {
                let s = size as int;
                let p = page_size as int;
                assert(pages * p <= s - 1 + p) by (nonlinear_arith)
                    requires
                        pages == (s - 1) / p + 1,
                        p > 0,
                        s >= 1,
                ;
                assert(((s + p - 1) as nat) / (p as nat) == (s - 1) / p + 1) by (nonlinear_arith)
                    requires
                        p > 0,
                        s >= 1,
                ;
            }
            pages * page_size
        }
    }

    /// Records a mapping that the OS made at `ptr` for `layout`: the requested
    /// size rounded up to whole pages of `page_size` bytes, huge ones if
    /// `huge`.
    pub fn new(layout: AllocLayout, page_size: usize, huge: bool, ptr: usize) -> (r: MMap)
        requires
            layout_ok(layout),
            page_size_ok(page_size as nat),
            huge ==> page_size == HUGE_PAGE_SIZE,
        ensures
            r.wf(),
            r@.ptr == ptr,
            r@.size == layout.size,
            r@.align == layout.align,
            r@.page_size == page_size,
            r@.huge == huge,
    {
        let alloc_size = Self::calc_alloc_size(layout.size, page_size);
        MMap { ptr, layout, alloc_size, page_size, huge }
    }

    /// The page size to try first.
    pub fn first_attempt() -> (r: PageKind)
        ensures
            r == PageKind::Huge,
    {
        PageKind::Huge
    }

    /// The number of bytes an attempt of `kind` asks the OS to map for
    /// `layout`: its size rounded up to whole pages of that kind.
    pub fn map_size(layout: AllocLayout, kind: PageKind, default_page_size: usize) -> (r: usize)
        requires
            layout_ok(layout),
            page_size_ok(default_page_size as nat),
        ensures
            r == rounded_size(layout.size as nat, page_of(kind, default_page_size) as nat),
    {
        let page_size = match kind {
            PageKind::Huge => HUGE_PAGE_SIZE,
            PageKind::Default => default_page_size,
        };
        Self::calc_alloc_size(layout.size, page_size)
    }

    /// The step after an attempt of `kind` to map `layout`, where `mapped` is
    /// the address the OS mapped it at, or `None` if it refused. A refused
    /// huge-page attempt is retried with the default page size; a refused
    /// default-page attempt fails.
    pub fn after_attempt(
        layout: AllocLayout,
        kind: PageKind,
        default_page_size: usize,
        mapped: Option<usize>,
    ) -> (r: MapStep)
        requires
            layout_ok(layout),
            page_size_ok(default_page_size as nat),
        ensures
            match mapped {
                Some(p) => r matches MapStep::Mapped(m) && m.wf() && m@ == (SegmentView {
                    ptr: p as nat,
                    size: layout.size as nat,
                    align: layout.align as nat,
                    mapped: rounded_size(
                        layout.size as nat,
                        page_of(kind, default_page_size) as nat,
                    ),
                    page_size: page_of(kind, default_page_size) as nat,
                    huge: kind == PageKind::Huge,
                }),
                None => r == (if kind == PageKind::Huge {
                    MapStep::Retry(PageKind::Default)
                } else {
                    MapStep::Failed
                }),
            },
    {
        match mapped {
            Some(ptr) => match kind {
                PageKind::Huge => MapStep::Mapped(MMap::new(layout, HUGE_PAGE_SIZE, true, ptr)),
                PageKind::Default => MapStep::Mapped(
                    MMap::new(layout, default_page_size, false, ptr),
                ),
            },
            None => match kind {
                PageKind::Huge => MapStep::Retry(PageKind::Default),
                PageKind::Default => MapStep::Failed,
            },
        }
    }

    /// The segment's fields agree with each other.
    pub open spec fn wf(&self) -> bool {
        self@.wf()
    }

    /// Returns the base address of the memory mapped segment.
    pub fn as_ptr(&self) -> (r: usize)
        ensures
            r == self@.ptr,
    {
        self.ptr
    }

    /// Returns the requested size of the segment.
    pub fn size(&self) -> (r: usize)
        ensures
            r == self@.size,
    {
        self.layout.size
    }

    /// Returns the requested layout of the segment.
    pub fn layout(&self) -> (r: AllocLayout)
        ensures
            r.size == self@.size,
            r.align == self@.align,
    {
        self.layout
    }

    /// Returns the total mapped size of the segment.
    pub fn alloc_size(&self) -> (r: usize)
        ensures
            r == self@.mapped,
    {
        self.alloc_size
    }

    /// Returns the page size backing the segment.
    pub fn page_size(&self) -> (r: usize)
        ensures
            r == self@.page_size,
    {
        self.page_size
    }

    /// Returns true if the mapping uses the default page size.
    pub fn is_default_page_size(&self) -> (r: bool)
        ensures
            r == !self@.huge,
    {
        !self.huge
    }

    /// The mapped size that the segment needs to hold `new_layout`, if that
    /// differs from what is mapped now and the OS has to resize the mapping;
    /// `None` when the current mapping already has the right size.
    pub fn remap_size(&self, new_layout: AllocLayout) -> (r: Option<usize>)
        requires
            self.wf(),
            layout_ok(new_layout),
        ensures
            r == (if rounded_size(new_layout.size as nat, self@.page_size) == self@.mapped {
                None
            } else {
                Some(rounded_size(new_layout.size as nat, self@.page_size) as usize)
            }),
            rounded_size(new_layout.size as nat, self@.page_size) <= usize::MAX,
    {
        let new_alloc_size = Self::calc_alloc_size(new_layout.size, self.page_size);
        if new_alloc_size == self.alloc_size {
            None
        } else {
            Some(new_alloc_size)
        }
    }

    /// Resizes the segment to hold `new_layout`. When the mapped size has to
    /// change, `remapped` is the address at which the OS resized the mapping,
    /// or `None` if it could not. Returns false, with the segment unchanged,
    /// when a needed resize failed.
    pub fn remap(&mut self, new_layout: AllocLayout, remapped: Option<usize>) -> (ok: bool)
        requires
            old(self).wf(),
            layout_ok(new_layout),
        ensures
            final(self).wf(),
            ok == (rounded_size(new_layout.size as nat, old(self)@.page_size) == old(self)@.mapped
                || remapped is Some),
            ok ==> final(self)@ == (SegmentView {
                ptr: if rounded_size(new_layout.size as nat, old(self)@.page_size)
                    == old(self)@.mapped {
                    old(self)@.ptr
                } else {
                    remapped.unwrap() as nat
                },
                size: new_layout.size as nat,
                align: new_layout.align as nat,
                mapped: rounded_size(new_layout.size as nat, old(self)@.page_size),
                page_size: old(self)@.page_size,
                huge: old(self)@.huge,
            }),
            !ok ==> *final(self) == *old(self),
    {
        let ok = match self.remap_size(new_layout) {
            None => true,
            Some(new_alloc_size) => match remapped {
                Some(ptr) => {
                    self.ptr = ptr;
                    self.alloc_size = new_alloc_size;
                    true
                },
                None => false,
            },
        };
        if ok {
            self.layout = new_layout;
        }
        ok
    }
}

} // verus!
