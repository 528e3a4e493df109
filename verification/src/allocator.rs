//! Free-list page allocator over donated physical RAM regions.
//!
//! Regions are tracked in a fixed-capacity vector (capacity
//! [`NUM_REGIONS`], a hard limit of the design) and split into
//! page-aligned pages. Instead of threading a linked list through the raw
//! page memory, the free pool is an explicit list of page addresses and
//! every allocation hands out an owned, zero-filled [`Page`], so ownership
//! of page memory is tracked by the type system.

use vstd::prelude::*;

use crate::address::spec_align_up;
use crate::address::AddressVirtual;
use crate::address::RangePhysical;
use crate::address::HIGH_MEMORY_START;
use crate::address::KSTACK_GUARD_CPU0;
use crate::address::KSTACK_TOP_CPU0;
use crate::address::PAGE_SIZE;

verus! {

/// Hard limit on how many regions may ever be donated.
pub const NUM_REGIONS: usize = 2;

/// Resource exhaustion: the only recoverable error of this subsystem.
#[derive(Debug, PartialEq, Eq, Structural)]
pub enum AllocError {
    OutOfMemory,
}

/// A donated region was rejected; each case is a programmer/firmware-data
/// error that the caller must treat as fatal.
#[derive(Debug, PartialEq, Eq, Structural)]
pub enum RegionError {
    /// The region overlaps one that was donated earlier.
    Overlap,
    /// The fixed region table (capacity [`NUM_REGIONS`]) is full.
    TooManyRegions,
}

/// Declares heapless::Vec, the fixed-capacity vector the region table uses,
/// as an opaque outside type.
#[verifier::external_type_specification]
#[verifier::external_body]
#[verifier::reject_recursive_types(T)]
pub struct ExHeaplessVec<T, const N: usize>(heapless::Vec<T, N>);

/// The sequence a region vector holds. Relied upon as the abstract contents
/// of `heapless::Vec<RangePhysical, NUM_REGIONS>` in the trusted wrappers
/// below.
pub uninterp spec fn region_seq(v: heapless::Vec<RangePhysical, NUM_REGIONS>) -> Seq<
    RangePhysical,
>;

/// Relies on heapless::Vec::new: constructs an empty vector.
#[verifier::external_body]
fn region_vec_new() -> (v: heapless::Vec<RangePhysical, NUM_REGIONS>)
    ensures
        region_seq(v) == Seq::<RangePhysical>::empty(),
{
    heapless::Vec::new()
}

/// Relies on heapless::Vec's Deref to a slice of the first `len` elements;
/// the slice's length is the vector's.
#[verifier::external_body]
fn region_vec_len(v: &heapless::Vec<RangePhysical, NUM_REGIONS>) -> (n: usize)
    ensures
        n == region_seq(*v).len(),
        n <= NUM_REGIONS,
{
    v.len()
}

/// Relies on heapless::Vec's Deref to a slice of the first `len` elements,
/// indexed at `i`.
#[verifier::external_body]
fn region_vec_get(v: &heapless::Vec<RangePhysical, NUM_REGIONS>, i: usize) -> (r: RangePhysical)
    requires
        i < region_seq(*v).len(),
    ensures
        r == region_seq(*v)[i as int],
{
    v[i]
}

/// Relies on heapless::Vec::push: appends when below capacity `NUM_REGIONS`,
/// otherwise returns the item back unchanged.
#[verifier::external_body]
fn region_vec_push(v: &mut heapless::Vec<RangePhysical, NUM_REGIONS>, item: RangePhysical) -> (r:
    Result<(), RangePhysical>)
    ensures
        r == (if region_seq(*old(v)).len() < NUM_REGIONS {
            Ok::<(), RangePhysical>(())
        } else {
            Err::<(), RangePhysical>(item)
        }),
        region_seq(*final(v)) == (if region_seq(*old(v)).len() < NUM_REGIONS {
            region_seq(*old(v)).push(item)
        } else {
            region_seq(*old(v))
        }),
{
    v.push(item)
}

/// Relies on heapless::Vec's Clone: the copy holds the same elements.
#[verifier::external_body]
fn region_vec_clone(v: &heapless::Vec<RangePhysical, NUM_REGIONS>) -> (r: heapless::Vec<
    RangePhysical,
    NUM_REGIONS,
>)
    ensures
        region_seq(r) == region_seq(*v),
{
    v.clone()
}

/// An owned page of memory handed out by the allocator: its address in the
/// high virtual window together with its `PAGE_SIZE` bytes of storage.
pub struct Page {
    addr: AddressVirtual,
    bytes: Vec<u8>,
}

impl Page {
    /// Address of the page, in the high virtual window.
    pub closed spec fn spec_addr(&self) -> u64 {
        self.addr@
    }

    /// The page's bytes.
    pub closed spec fn spec_bytes(&self) -> Seq<u8> {
        self.bytes@
    }

    pub fn addr(&self) -> (r: AddressVirtual)
        ensures
            r@ == self.spec_addr(),
    {
        self.addr
    }

    pub fn bytes(&self) -> (r: &Vec<u8>)
        ensures
            r@ == self.spec_bytes(),
    {
        &self.bytes
    }
}

/// Whether `va` (an address in the high virtual window) is the base of a
/// whole page lying inside region `r`.
pub open spec fn page_in_region(r: RangePhysical, va: u64) -> bool {
    &&& va as int - HIGH_MEMORY_START >= r.first()
    &&& va as int - HIGH_MEMORY_START + PAGE_SIZE - 1 <= r.last()
}

/// Whether `va` is the base of a whole page inside one of `rs`.
pub open spec fn page_in_regions(rs: Seq<RangePhysical>, va: u64) -> bool {
    exists|i: int| 0 <= i < rs.len() && page_in_region(#[trigger] rs[i], va)
}

/// Number of whole pages the regions of `rs` contribute.
pub open spec fn total_pages(rs: Seq<RangePhysical>) -> nat
    decreases rs.len(),
{
    if rs.len() == 0 {
        0
    } else {
        total_pages(rs.drop_last()) + (rs.last().spec_size() / PAGE_SIZE) as nat
    }
}

/// The page allocator: the donated regions, the pool of free page
/// addresses (last in, first out) and, as ghost state, the set of pages
/// currently handed out.
pub struct PageAllocator {
    regions: heapless::Vec<RangePhysical, NUM_REGIONS>,
    free_list: Vec<u64>,
    allocated: Ghost<Set<u64>>,
}

impl PageAllocator {
    /// The donated regions, in donation order.
    pub closed spec fn regions_seq(&self) -> Seq<RangePhysical> {
        region_seq(self.regions)
    }

    /// Addresses of the free pages, in stack order.
    pub closed spec fn free_seq(&self) -> Seq<u64> {
        self.free_list@
    }

    /// Addresses of the pages currently handed out.
    pub closed spec fn allocated_set(&self) -> Set<u64> {
        self.allocated@
    }

    pub open spec fn free_count(&self) -> nat {
        self.free_seq().len()
    }

    /// The allocator's invariant: regions are valid, page-aligned and
    /// pairwise non-overlapping; every free or allocated page is a whole,
    /// aligned page of some donated region; no page is free twice, nor free
    /// and allocated at once; and no page is lost: free and allocated pages
    /// together account for every donated page.
    pub open spec fn wf(&self) -> bool {
        &&& self.regions_seq().len() <= NUM_REGIONS
        &&& forall|i: int|
            0 <= i < self.regions_seq().len() ==> (#[trigger] self.regions_seq()[i]).inv()
        &&& forall|i: int|
            0 <= i < self.regions_seq().len() ==> (#[trigger] self.regions_seq()[i]).first() % (
            PAGE_SIZE as int) == 0
        &&& forall|i: int, j: int|
            0 <= i < j < self.regions_seq().len() ==> !(#[trigger] self.regions_seq()[i].spec_overlaps(
                self.regions_seq()[j],
            ))
        &&& forall|k: int|
            0 <= k < self.free_seq().len() ==> (#[trigger] self.free_seq()[k]) % PAGE_SIZE == 0
        &&& forall|k: int|
            0 <= k < self.free_seq().len() ==> page_in_regions(
                self.regions_seq(),
                #[trigger] self.free_seq()[k],
            )
        &&& forall|k1: int, k2: int|
            0 <= k1 < k2 < self.free_seq().len() ==> #[trigger] self.free_seq()[k1]
                != #[trigger] self.free_seq()[k2]
        &&& self.allocated_set().finite()
        &&& forall|va: u64|
            self.allocated_set().contains(va) ==> va % PAGE_SIZE == 0 && page_in_regions(
                self.regions_seq(),
                va,
            )
        &&& forall|k: int|
            0 <= k < self.free_seq().len() ==> !self.allocated_set().contains(
                #[trigger] self.free_seq()[k],
            )
        &&& self.free_seq().len() + self.allocated_set().len() == total_pages(self.regions_seq())
    }

    pub fn new() -> (r: Self)
        ensures
            r.wf(),
            r.regions_seq() == Seq::<RangePhysical>::empty(),
            r.free_count() == 0,
            r.allocated_set() == Set::<u64>::empty(),
    {
        let r = PageAllocator {
            regions: region_vec_new(),
            free_list: Vec::new(),
            allocated: Ghost(Set::empty()),
        };
        r
    }

    /// Donate `region` to the allocator. The region must be physical memory
    /// owned by nobody else; the allocator itself rejects a region that
    /// overlaps an earlier donation or exceeds the fixed region capacity,
    /// and splits an accepted region into whole pages threaded onto the free
    /// pool (a trailing partial page is not used).
    #[verifier::loop_isolation(false)]
    pub fn add_region(&mut self, region: &RangePhysical) -> (r: Result<(), RegionError>)
        requires
            old(self).wf(),
            region.first() % (PAGE_SIZE as int) == 0,
        ensures
            final(self).wf(),
            (exists|i: int|
                0 <= i < old(self).regions_seq().len() && (#[trigger] old(
                    self,
                ).regions_seq()[i]).spec_overlaps(*region)) ==> r == Err::<(), RegionError>(
                RegionError::Overlap,
            ) && final(self).regions_seq() == old(self).regions_seq() && final(self).free_seq()
                == old(self).free_seq() && final(self).allocated_set() == old(
                self,
            ).allocated_set(),
            (forall|i: int|
                0 <= i < old(self).regions_seq().len() ==> !(#[trigger] old(
                    self,
                ).regions_seq()[i]).spec_overlaps(*region)) && old(self).regions_seq().len()
                >= NUM_REGIONS ==> r == Err::<(), RegionError>(RegionError::TooManyRegions)
                && final(self).regions_seq() == old(self).regions_seq() && final(self).free_seq()
                == old(self).free_seq() && final(self).allocated_set() == old(
                self,
            ).allocated_set(),
            (forall|i: int|
                0 <= i < old(self).regions_seq().len() ==> !(#[trigger] old(
                    self,
                ).regions_seq()[i]).spec_overlaps(*region)) && old(self).regions_seq().len()
                < NUM_REGIONS ==> r == Ok::<(), RegionError>(()) && final(self).regions_seq()
                == old(self).regions_seq().push(*region) && final(self).free_count() == old(
                self,
            ).free_count() + region.spec_size() / PAGE_SIZE && final(self).allocated_set() == old(
                self,
            ).allocated_set(),
    {
        proof {
            use_type_invariant(region);
            crate::address::lemma_range_bounds(*region);
        }
        let n = region_vec_len(&self.regions);
        let mut i: usize = 0;
        while i < n
            invariant
                i <= n,
                forall|j: int|
                    0 <= j < i ==> !(#[trigger] self.regions_seq()[j]).spec_overlaps(*region),
            decreases n - i,
        {
            let r_i = region_vec_get(&self.regions, i);
            if region.overlaps(&r_i) {
                proof {
                    crate::address::lemma_overlaps_symmetric(*region, r_i);
                }
                return Err(RegionError::Overlap);
            }
            proof {
                crate::address::lemma_overlaps_symmetric(*region, r_i);
            }
            i += 1;
        }

        match region_vec_push(&mut self.regions, *region) {
            Err(_) => {
                return Err(RegionError::TooManyRegions);
            },
            Ok(()) => {},
        }

        let ghost old_regions = old(self).regions_seq();
        let ghost old_free = old(self).free_seq();
        let base_va = region.base().as_virtual().as_u64();
        let total_size = region.size();
        let mut offset: u64 = 0;
        let ghost mut pages_added: int = 0;

        proof {
            assert(self.regions_seq().drop_last() =~= old_regions);
            assert(HIGH_MEMORY_START % PAGE_SIZE == 0);
        }

        while total_size - offset >= PAGE_SIZE
            invariant
                self.regions_seq() == old_regions.push(*region),
                self.allocated_set() == old(self).allocated_set(),
                base_va == region.first() + HIGH_MEMORY_START,
                offset <= total_size,
                total_size == region.spec_size(),
                offset == pages_added * (PAGE_SIZE as int),
                0 <= pages_added,
                self.free_seq().len() == old_free.len() + pages_added,
                forall|k: int| 0 <= k < old_free.len() ==> self.free_seq()[k] == old_free[k],
                forall|k: int|
                    old_free.len() <= k < self.free_seq().len() ==> base_va
                        <= #[trigger] self.free_seq()[k] && self.free_seq()[k] < base_va + offset,
                forall|k: int|
                    0 <= k < self.free_seq().len() ==> (#[trigger] self.free_seq()[k]) % PAGE_SIZE
                        == 0,
                forall|k: int|
                    0 <= k < self.free_seq().len() ==> page_in_regions(
                        self.regions_seq(),
                        #[trigger] self.free_seq()[k],
                    ),
                forall|k1: int, k2: int|
                    0 <= k1 < k2 < self.free_seq().len() ==> #[trigger] self.free_seq()[k1]
                        != #[trigger] self.free_seq()[k2],
                forall|k: int|
                    0 <= k < self.free_seq().len() ==> !self.allocated_set().contains(
                        #[trigger] self.free_seq()[k],
                    ),
            decreases total_size - offset,
        {
            let addr = base_va + offset;
            proof {
                let rs = self.regions_seq();
                assert(rs[rs.len() - 1] == *region);
                assert(page_in_region(*region, addr));
                // A page of the new region collides with nothing already in
                // the pool or handed out: those pages lie in the old
                // regions, which do not overlap the new one, except for the
                // pages this loop added, which lie strictly below `addr`.
                assert forall|k: int|
                    0 <= k < self.free_seq().len() implies #[trigger] self.free_seq()[k]
                    != addr by {
                    if k < old_free.len() {
                        let va = self.free_seq()[k];
                        assert(va == old_free[k]);
                        assert(page_in_regions(old_regions, va));
                        let j = choose|j: int|
                            0 <= j < old_regions.len() && page_in_region(
                                #[trigger] old_regions[j],
                                va,
                            );
                        if va == addr {
                            assert(old_regions[j].spec_overlaps(*region));
                            assert(false);
                        }
                    }
                }
                assert forall|va: u64| self.allocated_set().contains(va) implies va != addr by {
                    assert(page_in_regions(old_regions, va));
                    let j = choose|j: int|
                        0 <= j < old_regions.len() && page_in_region(#[trigger] old_regions[j], va);
                    if va == addr {
                        assert(old_regions[j].spec_overlaps(*region));
                        assert(false);
                    }
                }
            }
            self.free_list.push(addr);
            offset = offset + PAGE_SIZE;
            proof {
                let prev = pages_added;
                pages_added = pages_added + 1;
                assert(prev * (PAGE_SIZE as int) + PAGE_SIZE == (prev + 1) * (PAGE_SIZE as int))
                    by (nonlinear_arith);
            }
        }

        proof {
            assert(total_size as int / (PAGE_SIZE as int) == pages_added) by (nonlinear_arith)
                requires
                    offset == pages_added * (PAGE_SIZE as int),
                    0 <= pages_added,
                    offset <= total_size,
                    total_size - offset < PAGE_SIZE,
            ;
            assert(self.regions_seq().drop_last() =~= old_regions);
            assert(total_pages(self.regions_seq()) == total_pages(old_regions) + (
            region.spec_size() / PAGE_SIZE) as nat);
        }
        Ok(())
    }

    /// The donated regions, for diagnostics.
    pub fn get_regions(&self) -> (r: heapless::Vec<RangePhysical, NUM_REGIONS>)
        ensures
            region_seq(r) == self.regions_seq(),
    {
        region_vec_clone(&self.regions)
    }

    /// Pop a page from the free pool and hand it out zero-filled; fails with
    /// `OutOfMemory` exactly when the pool is empty.
    #[verifier::loop_isolation(false)]
    pub fn allocate_page(&mut self) -> (r: Result<Page, AllocError>)
        requires
            old(self).wf(),
        ensures
            final(self).wf(),
            final(self).regions_seq() == old(self).regions_seq(),
            old(self).free_count() == 0 ==> r == Err::<Page, AllocError>(AllocError::OutOfMemory)
                && *final(self) == *old(self),
            old(self).free_count() > 0 ==> match r {
                Ok(page) => {
                    &&& page.spec_addr() == old(self).free_seq().last()
                    &&& page.spec_bytes().len() == PAGE_SIZE
                    &&& forall|i: int| 0 <= i < PAGE_SIZE ==> page.spec_bytes()[i] == 0u8
                    &&& final(self).free_seq() == old(self).free_seq().drop_last()
                    &&& final(self).allocated_set() == old(self).allocated_set().insert(
                        page.spec_addr(),
                    )
                },
                Err(_) => false,
            },
    {
        if self.free_list.len() == 0 {
            return Err(AllocError::OutOfMemory);
        }

        proof {
            let last = old(self).free_seq()[old(self).free_seq().len() - 1];
            assert(page_in_regions(old(self).regions_seq(), last));
            let i = choose|i: int|
                0 <= i < old(self).regions_seq().len() && page_in_region(
                    #[trigger] old(self).regions_seq()[i],
                    last,
                );
            crate::address::lemma_range_bounds(old(self).regions_seq()[i]);
        }
        let addr_val = self.free_list.pop().unwrap();
        proof {
            self.allocated@ = self.allocated@.insert(addr_val);
            assert(old(self).free_seq().drop_last() =~= self.free_seq());
        }

        let mut bytes: Vec<u8> = Vec::new();
        let mut i: usize = 0;
        while i < PAGE_SIZE as usize
            invariant
                i <= PAGE_SIZE,
                bytes@.len() == i,
                forall|j: int| 0 <= j < i ==> bytes@[j] == 0u8,
            decreases PAGE_SIZE - i,
        {
            bytes.push(0u8);
            i += 1;
        }

        let addr = AddressVirtual::new(addr_val);
        Ok(Page { addr, bytes })
    }

    /// Return a page to the free pool. The page must have come from a prior
    /// `allocate_page` on this allocator and not have been freed since; the
    /// ownership of [`Page`] makes a double free impossible without
    /// re-acquiring the page.
    pub fn free_page(&mut self, page: Page)
        requires
            old(self).wf(),
            old(self).allocated_set().contains(page.spec_addr()),
        ensures
            final(self).wf(),
            final(self).regions_seq() == old(self).regions_seq(),
            final(self).free_seq() == old(self).free_seq().push(page.spec_addr()),
            final(self).allocated_set() == old(self).allocated_set().remove(page.spec_addr()),
    {
        let addr_val = page.addr.as_u64();
        self.free_list.push(addr_val);
        proof {
            self.allocated@ = self.allocated@.remove(addr_val);
        }
    }
}

/// No page is ever lost or duplicated: the free pages and the pages handed
/// out together account for exactly the donated pages, so the number of
/// simultaneously allocated pages can never exceed what was donated.
pub proof fn lemma_no_page_lost(a: PageAllocator)
    requires
        a.wf(),
    ensures
        a.free_count() + a.allocated_set().len() == total_pages(a.regions_seq()),
        a.allocated_set().len() <= total_pages(a.regions_seq()),
{
}

/// Physical offset of the first byte past the kernel image, rounded up to a
/// page boundary: the image is loaded at the physical alias of the stack
/// top and `binary_size` bytes long.
pub open spec fn spec_kernel_image_end(binary_size: int) -> int {
    spec_align_up(KSTACK_TOP_CPU0 + binary_size, PAGE_SIZE as int) - HIGH_MEMORY_START
}

/// Seed the allocator with the RAM the firmware reported, leaving out what
/// the kernel itself occupies: the image (loaded at the stack top), the
/// boot stack and its guard pages. What lies below the guard pages and what
/// lies above the image is donated; the slice in between is not.
pub fn allocator_init(
    alloc: &mut PageAllocator,
    ram_range: &RangePhysical,
    binary_size: usize,
) -> (r: Result<(), RegionError>)
    requires
        old(alloc).wf(),
        old(alloc).regions_seq().len() == 0,
        ram_range.inv(),
        ram_range.first() % (PAGE_SIZE as int) == 0,
        KSTACK_TOP_CPU0 + binary_size + PAGE_SIZE <= u64::MAX,
        ram_range.first() + ram_range.spec_size() > spec_kernel_image_end(binary_size as int),
        ram_range.first() <= KSTACK_GUARD_CPU0 - HIGH_MEMORY_START,
    ensures
        r == Ok::<(), RegionError>(()),
        final(alloc).wf(),
        final(alloc).free_count() == old(alloc).free_count() + (if ram_range.first()
            < KSTACK_GUARD_CPU0 - HIGH_MEMORY_START {
            ((KSTACK_GUARD_CPU0 - HIGH_MEMORY_START - ram_range.first()) as u64 / PAGE_SIZE) as int
        } else {
            0
        }) + (ram_range.first() + ram_range.spec_size() - spec_kernel_image_end(
            binary_size as int,
        )) as u64 / PAGE_SIZE,
        final(alloc).regions_seq().len() == (if ram_range.first() < KSTACK_GUARD_CPU0
            - HIGH_MEMORY_START {
            2int
        } else {
            1int
        }),
        final(alloc).regions_seq().last().first() == spec_kernel_image_end(binary_size as int),
        final(alloc).regions_seq().last().spec_size() == ram_range.first()
            + ram_range.spec_size() - spec_kernel_image_end(binary_size as int),
        ram_range.first() < KSTACK_GUARD_CPU0 - HIGH_MEMORY_START
            ==> final(alloc).regions_seq()[0].first() == ram_range.first()
            && final(alloc).regions_seq()[0].spec_size() == KSTACK_GUARD_CPU0 - HIGH_MEMORY_START
            - ram_range.first(),
{
    proof {
        crate::address::lemma_range_bounds(*ram_range);
        crate::address::lemma_align_up(KSTACK_TOP_CPU0 + binary_size, PAGE_SIZE as int);
        assert(HIGH_MEMORY_START % PAGE_SIZE == 0);
        assert(KSTACK_TOP_CPU0 % PAGE_SIZE == 0);
        assert(KSTACK_GUARD_CPU0 % PAGE_SIZE == 0);
    }
    let guard_pa = AddressVirtual::new(KSTACK_GUARD_CPU0).as_physical();
    let ram_base = ram_range.base();

    // The span from the start of RAM up to the stack guard pages.
    if ram_base.as_u64() < guard_pa.as_u64() {
        let size = guard_pa.as_u64() - ram_base.as_u64();
        let region = RangePhysical::new(ram_base, size);
        match alloc.add_region(&region) {
            Ok(()) => {},
            Err(_) => {
                return unreached();
            },
        }
    }

    // The span from the end of the kernel image (rounded up to a whole
    // page) to the end of RAM.
    let image_end = AddressVirtual::new(KSTACK_TOP_CPU0).add(binary_size as u64).align_up(
        PAGE_SIZE,
    );
    let start = image_end.as_physical();
    let end = ram_range.base().as_u64() + ram_range.size();
    let size = end - start.as_u64();
    let region = RangePhysical::new(start, size);
    match alloc.add_region(&region) {
        Ok(()) => Ok(()),
        Err(_) => unreached(),
    }
}

} // verus!
