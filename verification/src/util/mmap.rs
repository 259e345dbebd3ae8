//! Regions of mapped memory, counted in pages.

use vstd::prelude::*;

verus! {

/// What may be done with mapped memory.
#[derive(Clone, Copy, Debug, PartialEq, Eq, Structural)]
pub enum Protection {
    Execute,
    Read,
    Write,
}

/// A set of protections.
#[derive(Clone, Copy, Debug, PartialEq, Eq, Structural)]
pub struct ProtectionSet {
    pub execute: bool,
    pub read: bool,
    pub write: bool,
}

/// Bit of the protection that lets memory be read.
pub const PROT_READ: i32 = 1;

/// Bit of the protection that lets memory be written.
pub const PROT_WRITE: i32 = 2;

/// Bit of the protection that lets memory be executed.
pub const PROT_EXEC: i32 = 4;

impl ProtectionSet {
    /// Whether `protection` is in the set.
    pub open spec fn spec_contains(self, protection: Protection) -> bool {
        match protection {
            Protection::Execute => self.execute,
            Protection::Read => self.read,
            Protection::Write => self.write,
        }
    }

    /// The bits of the set.
    pub open spec fn spec_bits(self) -> i32 {
        ((if self.execute {
            PROT_EXEC as int
        } else {
            0
        }) + (if self.read {
            PROT_READ as int
        } else {
            0
        }) + (if self.write {
            PROT_WRITE as int
        } else {
            0
        })) as i32
    }

    /// The set without any protection.
    pub fn empty() -> (set: ProtectionSet)
        ensures
            set == (ProtectionSet { execute: false, read: false, write: false }),
    {
        ProtectionSet { execute: false, read: false, write: false }
    }

    /// The set of the one protection.
    pub fn only(protection: Protection) -> (set: ProtectionSet)
        ensures
            forall|other: Protection| set.spec_contains(other) == (other == protection),
    {
        match protection {
            Protection::Execute => ProtectionSet { execute: true, read: false, write: false },
            Protection::Read => ProtectionSet { execute: false, read: true, write: false },
            Protection::Write => ProtectionSet { execute: false, read: false, write: true },
        }
    }

    /// Whether `protection` is in the set.
    pub fn contains(&self, protection: Protection) -> (yes: bool)
        ensures
            yes == self.spec_contains(protection),
    {
        match protection {
            Protection::Execute => self.execute,
            Protection::Read => self.read,
            Protection::Write => self.write,
        }
    }
}

/// The bits that stand for the set of protections.
pub fn into_mmap_flags(flags: ProtectionSet) -> (bits: i32)
    ensures
        bits == flags.spec_bits(),
{
    let mut bits: i32 = 0;
    if flags.contains(Protection::Execute) {
        bits = bits + PROT_EXEC;
    }
    if flags.contains(Protection::Read) {
        bits = bits + PROT_READ;
    }
    if flags.contains(Protection::Write) {
        bits = bits + PROT_WRITE;
    }
    bits
}

/// Where memory is wanted and how much.
#[derive(Clone, Copy, Debug, PartialEq, Eq, Structural)]
pub struct MemorySpan {
    /// The address, where it matters.
    pub addr: Option<usize>,
    /// Number of pages.
    pub nr_pages: usize,
}

/// How memory is to be mapped.
#[derive(Clone, Copy, Debug, PartialEq, Eq, Structural)]
pub struct MapFlags {
    /// The pages are brought in at once.
    pub populate: bool,
    /// No file stands behind the memory.
    pub anonymous: bool,
    /// The memory is to lie at the address given.
    pub fixed: bool,
    /// Changes are seen by others that map the same; where not, the
    /// mapping is private.
    pub shared: bool,
}

/// A request to map memory.
#[derive(Clone, Copy, Debug, PartialEq, Eq, Structural)]
pub struct MapRequest {
    /// The address wanted, zero for any.
    pub addr: usize,
    /// Number of bytes.
    pub length: usize,
    /// The bits of the protections.
    pub protection: i32,
    pub flags: MapFlags,
    /// Where in the file the memory begins.
    pub offset: i64,
}

/// Why memory could not be mapped.
#[derive(Clone, Copy, Debug, PartialEq, Eq, Structural)]
pub enum MmapError {
    /// The kernel refused with the error of this number.
    MmapError(i32),
    /// The pages asked for are more bytes than an address can count.
    TooLarge,
    /// The place in the file is beyond what can be asked for.
    OffsetTooLarge,
}

/// The request that asks for the pages of `span`, where a page has
/// `page_size` bytes.
pub open spec fn request_for(
    span: MemorySpan,
    flags: ProtectionSet,
    is_shared: bool,
    do_prefault: bool,
    file_offset: Option<usize>,
    page_size: usize,
) -> MapRequest {
    MapRequest {
        addr: match span.addr {
            Some(addr) => addr,
            None => 0,
        },
        length: (span.nr_pages * page_size) as usize,
        protection: flags.spec_bits(),
        flags: MapFlags {
            populate: do_prefault,
            anonymous: file_offset is None,
            fixed: span.addr is Some,
            shared: is_shared,
        },
        offset: match file_offset {
            Some(offset) => offset as i64,
            None => 0,
        },
    }
}

/// What asking for the pages of `span` comes to, where a page has
/// `page_size` bytes: the request, or the error where the pages are more
/// bytes than an address can count, or else the place in the file is
/// beyond what can be asked for.
pub open spec fn request_result(
    span: MemorySpan,
    flags: ProtectionSet,
    is_shared: bool,
    do_prefault: bool,
    file_offset: Option<usize>,
    page_size: usize,
) -> Result<MapRequest, MmapError> {
    if span.nr_pages * page_size > usize::MAX {
        Err(MmapError::TooLarge)
    } else if file_offset is Some && file_offset.unwrap() > i64::MAX {
        Err(MmapError::OffsetTooLarge)
    } else {
        Ok(request_for(span, flags, is_shared, do_prefault, file_offset, page_size))
    }
}

/// What asking for the pages of `span` comes to on a system whose pages
/// have `page_size` bytes: nothing where that is zero, else what
/// `request_result` says.
pub open spec fn request_on_system(
    span: MemorySpan,
    flags: ProtectionSet,
    is_shared: bool,
    do_prefault: bool,
    file_offset: Option<usize>,
    page_size: usize,
) -> Option<Result<MapRequest, MmapError>> {
    if page_size == 0 {
        None
    } else {
        Some(request_result(span, flags, is_shared, do_prefault, file_offset, page_size))
    }
}

/// A region of mapped memory: whole pages from a first page up to, and
/// not with, a last one.
#[derive(Clone, Copy, Debug, PartialEq, Eq, Structural)]
pub struct MmapRegion {
    base_addr: usize,
    start_page: usize,
    end_page: usize,
    page_size: usize,
}

/// `page_size::get`: the number of bytes of a page of memory on this
/// system. Nothing is claimed of the number.
#[verifier::external_body]
fn system_page_size() -> (size: usize) {
    page_size::get()
}

impl MmapRegion {
    /// Whether the region is whole pages that an address can count.
    pub closed spec fn wf(&self) -> bool {
        &&& self.page_size > 0
        &&& self.start_page <= self.end_page
        &&& self.end_page * self.page_size <= usize::MAX
        &&& self.base_addr == self.start_page * self.page_size
    }

    /// Number of the first page.
    pub closed spec fn spec_start_page(&self) -> usize {
        self.start_page
    }

    /// Number of the page behind the last.
    pub closed spec fn spec_end_page(&self) -> usize {
        self.end_page
    }

    /// Number of bytes of a page.
    pub closed spec fn spec_page_size(&self) -> usize {
        self.page_size
    }

    /// The request that asks for the pages of `span`, where a page has
    /// `page_size` bytes: an error where the pages are more bytes than an
    /// address can count or the place in the file is beyond what can be
    /// asked for.
    pub fn new_impl(
        span: MemorySpan,
        flags: ProtectionSet,
        is_shared: bool,
        do_prefault: bool,
        file_offset: Option<usize>,
        page_size: usize,
    ) -> (r: Result<MapRequest, MmapError>)
        ensures
            r == request_result(span, flags, is_shared, do_prefault, file_offset, page_size),
    {
        let length = match span.nr_pages.checked_mul(page_size) {
            Some(length) => length,
            None => {
                return Err(MmapError::TooLarge);
            },
        };
        let offset: i64 = match file_offset {
            Some(offset) => {
                if offset as u64 > 0x7fff_ffff_ffff_ffff {
                    return Err(MmapError::OffsetTooLarge);
                }
                offset as i64
            },
            None => 0,
        };
        Ok(
            MapRequest {
                addr: match span.addr {
                    Some(addr) => addr,
                    None => 0,
                },
                length,
                protection: into_mmap_flags(flags),
                flags: MapFlags {
                    populate: do_prefault,
                    anonymous: file_offset.is_none(),
                    fixed: span.addr.is_some(),
                    shared: is_shared,
                },
                offset,
            },
        )
    }

    /// The request for anonymous memory of the pages of `span`, with the
    /// page size of this system: what `request_on_system` says for the
    /// page size that the system reports, so `None` where that is zero,
    /// and else the request or the error that `request_result` gives.
    pub fn new(span: MemorySpan, flags: ProtectionSet, is_shared: bool) -> (r: Option<
        Result<MapRequest, MmapError>,
    >)
        ensures
            exists|page_size: usize|
                r == #[trigger] request_on_system(span, flags, is_shared, false, None, page_size),
    {
        let page_size = system_page_size();
        let r = if page_size == 0 {
            None
        } else {
            Some(Self::new_impl(span, flags, is_shared, false, None, page_size))
        };
        assert(r == request_on_system(span, flags, is_shared, false, None, page_size));
        r
    }

    /// The request for memory of the pages of `span` that a file stands
    /// behind, from `offset` in the file on, with the page size of this
    /// system: what `request_on_system` says for the page size that the
    /// system reports, so `None` where that is zero, and else the request
    /// or the error that `request_result` gives.
    pub fn new_map_from_fd(
        span: MemorySpan,
        flags: ProtectionSet,
        is_shared: bool,
        do_prefault: bool,
        offset: usize,
    ) -> (r: Option<Result<MapRequest, MmapError>>)
        ensures
            exists|page_size: usize|
                r == #[trigger] request_on_system(
                    span,
                    flags,
                    is_shared,
                    do_prefault,
                    Some(offset),
                    page_size,
                ),
    {
        let page_size = system_page_size();
        let r = if page_size == 0 {
            None
        } else {
            Some(Self::new_impl(span, flags, is_shared, do_prefault, Some(offset), page_size))
        };
        assert(r == request_on_system(
            span,
            flags,
            is_shared,
            do_prefault,
            Some(offset),
            page_size,
        ));
        r
    }

    /// The region of `nr_pages` pages of `page_size` bytes each that was
    /// mapped at the address `addr`: `None` where the address is not the
    /// start of a page, or the region ends beyond what an address can
    /// count.
    pub fn from_mapping(addr: usize, nr_pages: usize, page_size: usize) -> (r: Option<MmapRegion>)
        ensures
            match r {
                Some(region) => {
                    &&& region.wf()
                    &&& page_size > 0
                    &&& addr % page_size == 0
                    &&& region.spec_page_size() == page_size
                    &&& region.spec_start_page() == addr / page_size
                    &&& region.spec_end_page() == addr / page_size + nr_pages
                },
                None => page_size == 0 || addr % page_size != 0 || (addr / page_size + nr_pages)
                    * page_size > usize::MAX,
            },
    {
        if page_size == 0 || addr % page_size != 0 {
            return None;
        }
        let start_page = addr / page_size;
        let end_page = match start_page.checked_add(nr_pages) {
            Some(end_page) => end_page,
            None => {
                assert((start_page + nr_pages) * page_size > usize::MAX) by (nonlinear_arith)
                    requires
                        start_page + nr_pages > usize::MAX,
                        page_size >= 1,
                ;
                return None;
            },
        };
        if end_page.checked_mul(page_size).is_none() {
            return None;
        }
        assert(addr == start_page * page_size) by (nonlinear_arith)
            requires
                addr % page_size == 0,
                start_page == addr / page_size,
                page_size > 0,
        ;
        Some(MmapRegion { base_addr: addr, start_page, end_page, page_size })
    }

    /// The region of whole pages from the address `start` up to the
    /// address `end`: `None` where there is nothing between them, or one
    /// of them is not the start of a page.
    pub fn from_raw_ptr_range(start: usize, end: usize, page_size: usize) -> (r: Option<MmapRegion>)
        ensures
            match r {
                Some(region) => {
                    &&& region.wf()
                    &&& page_size > 0
                    &&& start < end
                    &&& start % page_size == 0
                    &&& end % page_size == 0
                    &&& region.spec_page_size() == page_size
                    &&& region.spec_start_page() == start / page_size
                    &&& region.spec_end_page() == end / page_size
                },
                None => page_size == 0 || start >= end || start % page_size != 0 || end
                    % page_size != 0,
            },
    {
        if page_size == 0 || start >= end || start % page_size != 0 || end % page_size != 0 {
            return None;
        }
        let start_page = start / page_size;
        let end_page = end / page_size;
        assert(start == start_page * page_size && end == end_page * page_size && start_page
            <= end_page) by (nonlinear_arith)
            requires
                start % page_size == 0,
                end % page_size == 0,
                start < end,
                start_page == start / page_size,
                end_page == end / page_size,
                page_size > 0,
        ;
        Some(MmapRegion { base_addr: start, start_page, end_page, page_size })
    }

    /// Number of pages of the region.
    pub fn get_pg_count(&self) -> (count: usize)
        requires
            self.wf(),
        ensures
            count == self.spec_end_page() - self.spec_start_page(),
    {
        self.end_page - self.start_page
    }

    /// Number of bytes of the region.
    pub fn get_bytes_size(&self) -> (size: usize)
        requires
            self.wf(),
        ensures
            size == (self.spec_end_page() - self.spec_start_page()) * self.spec_page_size(),
    {
        assert((self.end_page - self.start_page) * self.page_size <= self.end_page
            * self.page_size) by (nonlinear_arith)
            requires
                self.start_page <= self.end_page,
        ;
        (self.end_page - self.start_page) * self.page_size
    }

    /// The addresses of the first byte of the region and of the first
    /// byte behind it.
    pub fn get_range(&self) -> (range: (usize, usize))
        requires
            self.wf(),
        ensures
            range.0 == self.spec_start_page() * self.spec_page_size(),
            range.1 == self.spec_end_page() * self.spec_page_size(),
            range.0 <= range.1,
    {
        assert(self.start_page * self.page_size <= self.end_page * self.page_size)
            by (nonlinear_arith)
            requires
                self.start_page <= self.end_page,
        ;
        (self.start_page * self.page_size, self.end_page * self.page_size)
    }

    /// The addresses of the region, which is no longer looked after.
    pub fn leak(self) -> (range: (usize, usize))
        requires
            self.wf(),
        ensures
            range.0 == self.spec_start_page() * self.spec_page_size(),
            range.1 == self.spec_end_page() * self.spec_page_size(),
    {
        self.get_range()
    }
}

} // verus!
