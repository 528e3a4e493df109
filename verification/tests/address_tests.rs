use kernel_mm::address::AddressBus;
use kernel_mm::address::AddressPhysical;
use kernel_mm::address::AddressVirtual;
use kernel_mm::address::RangePhysical;

#[test]
fn physical_virtual_round_trip() {
    let cases: Vec<u64> = vec![0, 1, 0x1000, 0x2000_0000, 0x3F00_0000, 0x3FFF_FFFF];
    for addr in cases {
        let p = AddressPhysical::new(addr);
        assert_eq!(p.as_virtual().as_physical(), p);
        assert_eq!(p.as_virtual().as_u64(), 0xFFFF_FFFF_C000_0000 + addr);
    }
}

#[test]
fn bus_mapping_ram_window() {
    // Below the peripheral boundary: RAM window, same relative offset.
    let p = AddressPhysical::new(0x0020_0000);
    assert_eq!(p.as_bus().as_u32(), 0xC000_0000 + 0x0020_0000);
    let zero = AddressPhysical::new(0);
    assert_eq!(zero.as_bus().as_u32(), 0xC000_0000);
}

#[test]
fn bus_mapping_peripherals_window() {
    // At or above the boundary: peripheral window, offset by the boundary.
    let p = AddressPhysical::new(0x3F00_0000);
    assert_eq!(p.as_bus().as_u32(), 0x7E00_0000);
    let mid = AddressPhysical::new(0x3F21_5000);
    assert_eq!(mid.as_bus().as_u32(), 0x7E21_5000);
    let top = AddressPhysical::new(0x3FFF_FFFF);
    assert_eq!(top.as_bus().as_u32(), 0x7EFF_FFFF);
}

#[test]
fn bus_address_new_accepts_both_windows() {
    assert_eq!(AddressBus::new(0xC000_0000).as_u32(), 0xC000_0000);
    assert_eq!(AddressBus::new(0x7E00_0000).as_u32(), 0x7E00_0000);
}

#[test]
fn virtual_add_subtract() {
    let v = AddressVirtual::new(0xFFFF_FFFF_C000_0000);
    let v2 = v.add(0x8_0000);
    assert_eq!(v2.as_u64(), 0xFFFF_FFFF_C008_0000);
    let v3 = v2.subtract(0x8_0000);
    assert_eq!(v3, v);
    assert_eq!(v2.as_physical().as_u64(), 0x8_0000);
}

#[test]
fn virtual_align_up() {
    let v = AddressVirtual::new(0xFFFF_FFFF_C000_0001);
    assert_eq!(v.align_up(4096).as_u64(), 0xFFFF_FFFF_C000_1000);
    let aligned = AddressVirtual::new(0xFFFF_FFFF_C000_1000);
    assert_eq!(aligned.align_up(4096), aligned);
}

#[test]
fn overlaps_is_symmetric() {
    let a = RangePhysical::new(AddressPhysical::new(0x1000), 0x3000);
    let b = RangePhysical::new(AddressPhysical::new(0x2000), 0x8000);
    assert!(a.overlaps(&b));
    assert!(b.overlaps(&a));

    // Containment in either direction.
    let inner = RangePhysical::new(AddressPhysical::new(0x3000), 0x1000);
    assert!(b.overlaps(&inner));
    assert!(inner.overlaps(&b));
}

#[test]
fn overlaps_boundary_byte() {
    // Sharing only a boundary byte counts as overlap.
    let a = RangePhysical::new(AddressPhysical::new(0x1000), 0x1000);
    let b = RangePhysical::new(AddressPhysical::new(0x1FFF), 0x1000);
    assert!(a.overlaps(&b));
    assert!(b.overlaps(&a));
}

#[test]
fn overlaps_disjoint() {
    let a = RangePhysical::new(AddressPhysical::new(0x1000), 0x1000);
    let b = RangePhysical::new(AddressPhysical::new(0x2000), 0x1000);
    assert!(!a.overlaps(&b));
    assert!(!b.overlaps(&a));
}

#[test]
fn range_accessors() {
    let r = RangePhysical::new(AddressPhysical::new(0x4000), 0x2000);
    assert_eq!(r.base().as_u64(), 0x4000);
    assert_eq!(r.size(), 0x2000);
}
