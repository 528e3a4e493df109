use kernel_mm::address::AddressPhysical;
use kernel_mm::address::AddressVirtual;
use kernel_mm::address::RangePhysical;
use kernel_mm::allocator::PageAllocator;
use kernel_mm::paging::device_memory_attributes;
use kernel_mm::paging::disable_low_translation_control;
use kernel_mm::paging::early_translation_control;
use kernel_mm::paging::l2_idx;
use kernel_mm::paging::l3_idx;
use kernel_mm::paging::normal_memory_attributes;
use kernel_mm::paging::runtime_translation_control;
use kernel_mm::paging::setup_early_boot_paging;
use kernel_mm::paging::setup_runtime_paging;
use kernel_mm::paging::tgran4_supported;
use kernel_mm::paging::tgran64_supported;
use kernel_mm::paging::ttbr_value;
use kernel_mm::paging::PagingPhase;
use kernel_mm::paging::PhaseToken;
use kernel_mm::paging::RuntimeTables;
use kernel_mm::paging::MAIR_VALUE;

const PAGE_SIZE: u64 = 4096;
const HIGH: u64 = 0xFFFF_FFFF_C000_0000;

// A feature-register value reporting both granules supported (fields
// zero) and a 40-bit physical range (low field 0b0010).
const MMFR0: u64 = 0x2;

#[test]
fn granule_support_fields() {
    assert!(tgran64_supported(MMFR0));
    assert!(tgran4_supported(MMFR0));
    // 0b1111 in the respective field means unsupported.
    assert!(!tgran64_supported(0x0F00_0000));
    assert!(!tgran4_supported(0xF000_0000));
    assert!(tgran64_supported(0xF000_0000));
    assert!(!tgran4_supported(0xF000_0002));
}

#[test]
fn early_boot_plan_exact_values() {
    let mut phase = PhaseToken::new();
    let plan = setup_early_boot_paging(&mut phase, MMFR0);
    assert_eq!(phase.phase(), PagingPhase::BootstrapActive);

    // Entry 0: 512 MiB block of normal memory at physical 0 -- valid,
    // block type, attribute index 0, inner shareable, accessed,
    // unprivileged-execute-never.
    assert_eq!(plan.table.entry(0), 0x0040_0000_0000_0701);
    // Entry 1: 512 MiB block of device memory at physical 512 MiB --
    // valid, block type, attribute index 1, outer shareable, accessed,
    // both execute-never bits.
    assert_eq!(plan.table.entry(1), 0x0060_0000_2000_0605);
    for i in 2..512usize {
        assert_eq!(plan.table.entry(i), 0);
    }

    assert_eq!(plan.mair, MAIR_VALUE);
    assert_eq!(plan.mair, 0x4FF);
    // 64 KiB granule and 30-bit regions for both regimes, write-back
    // cacheable inner-shareable walks, and the reported 40-bit physical
    // size in the IPS field.
    assert_eq!(plan.tcr, 0x2_F522_7522);
    assert_eq!(early_translation_control(0), 0xF522_7522);
}

#[test]
fn register_value_helpers() {
    assert_eq!(ttbr_value(AddressPhysical::new(0x8_0000)), 0x8_0001);
    // Switching the high regime's granule to 4 KiB rewrites only the TG1
    // field (bits 30 and 31).
    assert_eq!(runtime_translation_control(0xF522_7522), 0xB522_7522);
    // Disabling the low regime sets its walk-disable bit and clears the
    // region-size field.
    assert_eq!(disable_low_translation_control(0xB522_7522), 0xB522_7580);
}

#[test]
fn index_extraction() {
    let va = AddressVirtual::new(HIGH);
    assert_eq!(l2_idx(va), 0);
    assert_eq!(l3_idx(va), 0);
    let va = AddressVirtual::new(HIGH + 0x20_0000 * 3 + 0x1000 * 7);
    assert_eq!(l2_idx(va), 3);
    assert_eq!(l3_idx(va), 7);
    let va = AddressVirtual::new(0xFFFF_FFFF_FFFF_F000);
    assert_eq!(l2_idx(va), 511);
    assert_eq!(l3_idx(va), 511);
}

#[test]
fn map_page_installs_leaf_entry() {
    let mut alloc = PageAllocator::new();
    alloc
        .add_region(&RangePhysical::new(AddressPhysical::new(0x10_0000), 4 * PAGE_SIZE))
        .unwrap();
    let mut tables = RuntimeTables::new();

    let va = AddressVirtual::new(HIGH + 0x2000);
    let pa = AddressPhysical::new(0x2000);
    assert_eq!(tables.lookup(va), 0);
    tables.map_page(&mut alloc, va, pa, &normal_memory_attributes()).unwrap();

    // Valid page descriptor for physical 0x2000 with normal-memory
    // attributes.
    assert_eq!(tables.lookup(va), 0x0040_0000_0000_2703);
    // A second mapping in the same 2 MiB span reuses the table: only one
    // page was drawn from the allocator.
    let va2 = AddressVirtual::new(HIGH + 0x5000);
    tables.map_page(&mut alloc, va2, AddressPhysical::new(0x5000), &normal_memory_attributes())
        .unwrap();
    assert_eq!(tables.lookup(va2), 0x0040_0000_0000_5703);
    assert_eq!(tables.lookup(va), 0x0040_0000_0000_2703);

    // One allocator page went to the shared third-level table, so of the
    // four donated pages three are still free.
    let mut left: u64 = 0;
    while tables.map_page(
        &mut alloc,
        AddressVirtual::new(HIGH + 0x40_0000 + left * 0x20_0000),
        AddressPhysical::new(0x1000),
        &normal_memory_attributes(),
    ).is_ok() {
        left += 1;
    }
    assert_eq!(left, 3);
}

#[test]
fn map_range_maps_whole_pages() {
    let mut alloc = PageAllocator::new();
    alloc
        .add_region(&RangePhysical::new(AddressPhysical::new(0x10_0000), 4 * PAGE_SIZE))
        .unwrap();
    let mut tables = RuntimeTables::new();

    // Three pages, via a size that needs rounding up.
    let va = AddressVirtual::new(HIGH + 0x8000);
    let pa = AddressPhysical::new(0x8000);
    tables
        .map_range(&mut alloc, va, pa, 2 * PAGE_SIZE + 1, &normal_memory_attributes())
        .unwrap();

    assert_eq!(tables.lookup(va), 0x0040_0000_0000_8703);
    assert_eq!(tables.lookup(AddressVirtual::new(HIGH + 0x9000)), 0x0040_0000_0000_9703);
    assert_eq!(tables.lookup(AddressVirtual::new(HIGH + 0xA000)), 0x0040_0000_0000_A703);
    // The page after the rounded-up range is untouched.
    assert_eq!(tables.lookup(AddressVirtual::new(HIGH + 0xB000)), 0);
}

#[test]
fn runtime_paging_maps_ram_and_peripherals() {
    let mut alloc = PageAllocator::new();
    // Sixteen pages of RAM at physical 0.
    let ram = RangePhysical::new(AddressPhysical::new(0), 16 * PAGE_SIZE);
    alloc.add_region(&ram).unwrap();

    let mut phase = PhaseToken::new();
    let _plan = setup_early_boot_paging(&mut phase, MMFR0);

    let mut tables = RuntimeTables::new();
    setup_runtime_paging(&mut phase, &mut tables, &mut alloc, ram, MMFR0).unwrap();
    assert_eq!(phase.phase(), PagingPhase::RuntimeBuilt);

    // RAM is mapped as normal memory at its high alias.
    assert_eq!(tables.lookup(AddressVirtual::new(HIGH)), 0x0040_0000_0000_0703);
    assert_eq!(
        tables.lookup(AddressVirtual::new(HIGH + 0xF000)),
        0x0040_0000_0000_F703
    );

    // The peripheral window is mapped as device memory.
    assert_eq!(
        tables.lookup(AddressVirtual::new(HIGH + 0x3F00_0000)),
        0x0060_0000_3F00_0607
    );
    assert_eq!(
        tables.lookup(AddressVirtual::new(HIGH + 0x3FFF_F000)),
        0x0060_0000_3FFF_F607
    );

    // The root table's entry for the first 2 MiB span is a table
    // descriptor: valid, table type.
    let root_entry = tables.root().entry(0);
    assert_eq!(root_entry & 0x3, 0x3);

    phase.runtime_activated();
    assert_eq!(phase.phase(), PagingPhase::RuntimeActive);
}

#[test]
fn map_range_reports_exhaustion() {
    let mut alloc = PageAllocator::new();
    // One free page only: it goes to the first third-level table, and the
    // second 2 MiB span then finds the allocator empty.
    alloc
        .add_region(&RangePhysical::new(AddressPhysical::new(0x10_0000), PAGE_SIZE))
        .unwrap();
    let mut tables = RuntimeTables::new();
    let r = tables.map_range(
        &mut alloc,
        AddressVirtual::new(HIGH),
        AddressPhysical::new(0),
        2 * 0x20_0000,
        &normal_memory_attributes(),
    );
    assert!(r.is_err());
}

#[test]
fn attribute_constructors_differ() {
    let normal = normal_memory_attributes();
    let device = device_memory_attributes();
    assert_ne!(normal, device);
    assert_eq!(normal.attr_index, 0);
    assert_eq!(device.attr_index, 1);
    assert!(!normal.privileged_execute_never);
    assert!(device.privileged_execute_never);
}
