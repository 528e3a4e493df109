use kernel_mm::address::AddressPhysical;
use kernel_mm::address::RangePhysical;
use kernel_mm::allocator::allocator_init;
use kernel_mm::allocator::AllocError;
use kernel_mm::allocator::PageAllocator;
use kernel_mm::allocator::RegionError;

const PAGE_SIZE: u64 = 4096;
const HIGH: u64 = 0xFFFF_FFFF_C000_0000;

fn region(base: u64, size: u64) -> RangePhysical {
    RangePhysical::new(AddressPhysical::new(base), size)
}

#[test]
fn donate_then_drain_exactly() {
    // After donating N pages, exactly N allocations succeed and the
    // (N+1)th fails with OutOfMemory.
    let n: u64 = 4;
    let mut alloc = PageAllocator::new();
    alloc.add_region(&region(0x10000, n * PAGE_SIZE)).unwrap();

    for _ in 0..n {
        let page = alloc.allocate_page().expect("a donated page must be available");
        let addr = page.addr().as_u64();
        assert_eq!(addr % PAGE_SIZE, 0);
        assert!(addr >= HIGH + 0x10000);
        assert!(addr + PAGE_SIZE <= HIGH + 0x10000 + n * PAGE_SIZE);
        assert_eq!(page.bytes().len(), PAGE_SIZE as usize);
        assert!(page.bytes().iter().all(|b| *b == 0));
    }
    assert!(matches!(alloc.allocate_page(), Err(AllocError::OutOfMemory)));
}

#[test]
fn free_and_reallocate_stays_zeroed() {
    let mut alloc = PageAllocator::new();
    alloc.add_region(&region(0x4000, 2 * PAGE_SIZE)).unwrap();

    let first = alloc.allocate_page().unwrap();
    let first_addr = first.addr().as_u64();
    let _second = alloc.allocate_page().unwrap();
    assert!(matches!(alloc.allocate_page(), Err(AllocError::OutOfMemory)));

    alloc.free_page(first);
    let again = alloc.allocate_page().unwrap();
    // The freed page comes back, owned by the same region, zero-filled.
    assert_eq!(again.addr().as_u64(), first_addr);
    assert!(again.bytes().iter().all(|b| *b == 0));
}

#[test]
fn overlapping_donation_is_rejected() {
    let mut alloc = PageAllocator::new();
    alloc.add_region(&region(0x1000, 4 * PAGE_SIZE)).unwrap();
    // Partial overlap, total overlap, and overlap in the other direction.
    assert_eq!(alloc.add_region(&region(0x4000, PAGE_SIZE)), Err(RegionError::Overlap));
    assert_eq!(alloc.add_region(&region(0x1000, 4 * PAGE_SIZE)), Err(RegionError::Overlap));
    assert_eq!(alloc.add_region(&region(0x0, 2 * PAGE_SIZE)), Err(RegionError::Overlap));
    // A disjoint region is still welcome.
    assert!(alloc.add_region(&region(0x10000, PAGE_SIZE)).is_ok());
}

#[test]
fn region_capacity_is_enforced() {
    // Donating more than the fixed maximum number of regions fails fast.
    let mut alloc = PageAllocator::new();
    alloc.add_region(&region(0x1000, PAGE_SIZE)).unwrap();
    alloc.add_region(&region(0x8000, PAGE_SIZE)).unwrap();
    assert_eq!(
        alloc.add_region(&region(0x20000, PAGE_SIZE)),
        Err(RegionError::TooManyRegions)
    );
}

#[test]
fn get_regions_reports_donations() {
    let mut alloc = PageAllocator::new();
    let a = region(0x1000, PAGE_SIZE);
    let b = region(0x8000, 2 * PAGE_SIZE);
    assert_eq!(alloc.get_regions().len(), 0);
    alloc.add_region(&a).unwrap();
    alloc.add_region(&b).unwrap();
    let regions = alloc.get_regions();
    assert_eq!(regions.len(), 2);
    assert_eq!(regions[0], a);
    assert_eq!(regions[1], b);
}

#[test]
fn end_to_end_sixteen_pages() {
    // Donate a 64 KiB region (16 pages at 4 KiB), drain it completely,
    // free three pages, allocate them again, and watch the concurrent
    // allocation count never exceed 16.
    let mut alloc = PageAllocator::new();
    alloc.add_region(&region(0x100000, 64 * 1024)).unwrap();

    let mut live = Vec::new();
    let mut max_live: usize = 0;
    for _ in 0..16 {
        live.push(alloc.allocate_page().unwrap());
        max_live = max_live.max(live.len());
    }
    assert!(matches!(alloc.allocate_page(), Err(AllocError::OutOfMemory)));

    for _ in 0..3 {
        let page = live.pop().unwrap();
        alloc.free_page(page);
    }
    for _ in 0..3 {
        let page = alloc.allocate_page().unwrap();
        assert!(page.bytes().iter().all(|b| *b == 0));
        live.push(page);
        max_live = max_live.max(live.len());
    }
    assert!(matches!(alloc.allocate_page(), Err(AllocError::OutOfMemory)));
    assert_eq!(live.len(), 16);
    assert_eq!(max_live, 16);
}

#[test]
fn unaligned_sizes_donate_whole_pages_only() {
    // A trailing partial page is not handed out.
    let mut alloc = PageAllocator::new();
    alloc.add_region(&region(0x3000, PAGE_SIZE + 123)).unwrap();
    assert!(alloc.allocate_page().is_ok());
    assert!(matches!(alloc.allocate_page(), Err(AllocError::OutOfMemory)));
}

#[test]
fn allocator_init_excludes_kernel_and_stack() {
    // RAM runs from 0 to 16 MiB; the kernel image is 64 KiB, loaded at the
    // physical alias of the stack top (0x8_0000). Donated: everything
    // below the stack guard pages, and everything above the image.
    let mut alloc = PageAllocator::new();
    let ram = region(0, 16 * 1024 * 1024);
    allocator_init(&mut alloc, &ram, 0x1_0000).unwrap();

    let regions = alloc.get_regions();
    assert_eq!(regions.len(), 2);
    // Below the guard pages: [0, 0x7E000).
    assert_eq!(regions[0].base().as_u64(), 0);
    assert_eq!(regions[0].size(), 0x8_0000 - 2 * PAGE_SIZE);
    // Above the image: [0x9_0000, 16 MiB).
    assert_eq!(regions[1].base().as_u64(), 0x9_0000);
    assert_eq!(regions[1].size(), 16 * 1024 * 1024 - 0x9_0000);

    // The pages of the guard, stack and image slice are never handed out.
    let mut pages = Vec::new();
    while let Ok(page) = alloc.allocate_page() {
        let pa = page.addr().as_u64() - HIGH;
        assert!(pa < 0x7_E000 || pa >= 0x9_0000);
        pages.push(page);
    }
    assert_eq!(pages.len() as u64, (0x7_E000 + 16 * 1024 * 1024 - 0x9_0000) / PAGE_SIZE);
}
