//! Typed wrappers for the three address spaces the kernel deals with --
//! physical, high-window virtual and device-bus -- plus a physical address
//! range. All conversions and bounds checks live here.

use vstd::prelude::*;

verus! {

#[allow(non_upper_case_globals)]
pub const MiB: u64 = 0x10_0000;
#[allow(non_upper_case_globals)]
pub const GiB: u64 = 0x4000_0000;

pub const PAGE_SIZE: u64 = 4096;

/// The board's physical address space is 1 GiB.
pub const ADDRESS_SPACE_SIZE: u64 = GiB;

/// The kernel virtual address range [0xffff_ffff_c000_0000, 0xffff_ffff_ffff_ffff]
/// maps to the physical address range [0, 0x3fff_ffff].
pub const HIGH_MEMORY_START: u64 = 0xFFFF_FFFF_C000_0000;

/// Start of the peripheral MMIO window in the physical address space; the top
/// 16 MiB of the 1 GiB space belong to devices.
pub const PERIPHERALS_BASE_PHYSICAL: u64 = 0x3F00_0000;
pub const PERIPHERALS_SIZE: u64 = 16 * MiB;

// The bus-address windows of the DMA-capable co-processor's own MMU: RAM is
// visible through [0xc000_0000, 0xfeff_ffff] and the peripherals through
// [0x7e00_0000, 0x7eff_ffff].
pub const VC_MMU_RAM_START: u32 = 0xC000_0000;
pub const VC_MMU_RAM_END: u32 = 0xFEFF_FFFF;
pub const VC_MMU_PERIPHERALS_START: u32 = 0x7E00_0000;
pub const VC_MMU_PERIPHERALS_END: u32 = 0x7EFF_FFFF;

/// Top of the boot core's kernel stack, in the high virtual window.
pub const KSTACK_TOP_CPU0: u64 = 0xFFFF_FFFF_C008_0000;
/// The two guard pages sit directly below the stack.
pub const KSTACK_GUARD_CPU0: u64 = KSTACK_TOP_CPU0 - 2 * PAGE_SIZE;

/// What `AddressPhysical::as_virtual` computes: the fixed high-window offset
/// is added to the physical offset.
pub open spec fn physical_to_virtual(pa: int) -> int {
    pa + HIGH_MEMORY_START
}

/// What `AddressVirtual::as_physical` computes: the inverse of
/// `physical_to_virtual`.
pub open spec fn virtual_to_physical(va: int) -> int {
    va - HIGH_MEMORY_START
}

/// What `AddressPhysical::as_bus` computes: physical RAM is remapped into the
/// co-processor's RAM window at the same relative offset, and the peripheral
/// span into its peripheral window.
pub open spec fn physical_to_bus(pa: int) -> int {
    if pa < PERIPHERALS_BASE_PHYSICAL {
        pa + VC_MMU_RAM_START
    } else {
        pa - PERIPHERALS_BASE_PHYSICAL + VC_MMU_PERIPHERALS_START
    }
}

pub open spec fn in_ram_bus_window(addr: int) -> bool {
    VC_MMU_RAM_START <= addr <= VC_MMU_RAM_END
}

pub open spec fn in_peripherals_bus_window(addr: int) -> bool {
    VC_MMU_PERIPHERALS_START <= addr <= VC_MMU_PERIPHERALS_END
}

/// A location in the board's 1 GiB physical address space.
#[derive(Clone, Copy, Debug, PartialEq, Eq, Structural)]
pub struct AddressPhysical {
    addr: u64,
}

impl View for AddressPhysical {
    type V = u64;

    closed spec fn view(&self) -> u64 {
        self.addr
    }
}

impl AddressPhysical {
    #[verifier::type_invariant]
    pub closed spec fn inv(self) -> bool {
        self.addr < ADDRESS_SPACE_SIZE
    }

    pub fn new(addr: u64) -> (r: Self)
        requires
            addr < ADDRESS_SPACE_SIZE,
        ensures
            r@ == addr,
    {
        Self { addr }
    }

    pub fn add(&self, offset: u64) -> (r: Self)
        requires
            self@ + offset < ADDRESS_SPACE_SIZE,
        ensures
            r@ == self@ + offset,
    {
        proof {
            use_type_invariant(self);
        }
        let addr = self.addr + offset;
        Self::new(addr)
    }

    /// The alias of this physical location in the kernel's high virtual window.
    /// Always valid by construction for a valid input.
    pub fn as_virtual(&self) -> (r: AddressVirtual)
        ensures
            r@ == physical_to_virtual(self@ as int),
    {
        proof {
            use_type_invariant(self);
        }
        AddressVirtual::new(HIGH_MEMORY_START + self.addr)
    }

    /// The address the DMA-capable co-processor uses for this location,
    /// through its fixed remap windows.
    pub fn as_bus(&self) -> (r: AddressBus)
        ensures
            r@ == physical_to_bus(self@ as int),
            self@ < PERIPHERALS_BASE_PHYSICAL ==> in_ram_bus_window(r@ as int),
            self@ >= PERIPHERALS_BASE_PHYSICAL ==> in_peripherals_bus_window(r@ as int),
    {
        proof {
            use_type_invariant(self);
        }
        proof {
            let a = self.addr;
            assert(a as u32 == a) by (bit_vector)
                requires
                    a < 0x4000_0000u64,
            ;
        }
        let addr = if self.addr < PERIPHERALS_BASE_PHYSICAL {
            self.addr as u32 + VC_MMU_RAM_START
        } else {
            self.addr as u32 - (PERIPHERALS_BASE_PHYSICAL as u32) + VC_MMU_PERIPHERALS_START
        };
        AddressBus::new(addr)
    }

    pub fn as_u64(&self) -> (r: u64)
        ensures
            r == self@,
            r < ADDRESS_SPACE_SIZE,
    {
        proof {
            use_type_invariant(self);
        }
        self.addr
    }
}

/// A location in the kernel's permanent high virtual window.
#[derive(Clone, Copy, Debug, PartialEq, Eq, Structural)]
pub struct AddressVirtual {
    addr: u64,
}

impl View for AddressVirtual {
    type V = u64;

    closed spec fn view(&self) -> u64 {
        self.addr
    }
}

impl AddressVirtual {
    #[verifier::type_invariant]
    pub closed spec fn inv(self) -> bool {
        self.addr >= HIGH_MEMORY_START
    }

    pub fn new(addr: u64) -> (r: Self)
        requires
            addr >= HIGH_MEMORY_START,
        ensures
            r@ == addr,
    {
        // The window's last byte, HIGH_MEMORY_START + ADDRESS_SPACE_SIZE - 1,
        // is the top of the 64-bit space, so the upper bound is implicit.
        assert(HIGH_MEMORY_START + ADDRESS_SPACE_SIZE - 1 == u64::MAX);
        Self { addr }
    }

    pub fn add(&self, offset: u64) -> (r: Self)
        requires
            self@ + offset <= u64::MAX,
        ensures
            r@ == self@ + offset,
    {
        proof {
            use_type_invariant(self);
        }
        let addr = self.addr + offset;
        Self::new(addr)
    }

    pub fn subtract(&self, offset: u64) -> (r: Self)
        requires
            self@ - offset >= HIGH_MEMORY_START,
        ensures
            r@ == self@ - offset,
    {
        proof {
            use_type_invariant(self);
        }
        let addr = self.addr - offset;
        Self::new(addr)
    }

    /// Round up to the next multiple of `align`. Only the lowest 30 bits of a
    /// high-window address can change, so the result stays in the window.
    pub fn align_up(&self, align: u64) -> (r: Self)
        requires
            align > 0,
            self@ + align - 1 <= u64::MAX,
        ensures
            r@ == spec_align_up(self@ as int, align as int),
    {
        proof {
            use_type_invariant(self);
        }
        let rem = self.addr % align;
        if rem == 0 {
            *self
        } else {
            Self::new(self.addr - rem + align)
        }
    }

    /// The physical location this high-window alias refers to. Always valid
    /// by construction for a valid input.
    pub fn as_physical(&self) -> (r: AddressPhysical)
        ensures
            r@ == virtual_to_physical(self@ as int),
    {
        proof {
            use_type_invariant(self);
        }
        let addr = self.addr - HIGH_MEMORY_START;
        AddressPhysical::new(addr)
    }

    pub fn as_bus(&self) -> (r: AddressBus)
        ensures
            r@ == physical_to_bus(virtual_to_physical(self@ as int)),
    {
        self.as_physical().as_bus()
    }

    pub fn as_u64(&self) -> (r: u64)
        ensures
            r == self@,
            r >= HIGH_MEMORY_START,
    {
        proof {
            use_type_invariant(self);
        }
        self.addr
    }
}

pub open spec fn spec_align_up(addr: int, align: int) -> int
    recommends
        align > 0,
{
    if addr % align == 0 {
        addr
    } else {
        addr - addr % align + align
    }
}

/// An address as seen by the DMA-capable co-processor. Must fall in exactly
/// one of its two disjoint remap windows.
#[derive(Clone, Copy, Debug, PartialEq, Eq, Structural)]
pub struct AddressBus {
    addr: u32,
}

impl View for AddressBus {
    type V = u32;

    closed spec fn view(&self) -> u32 {
        self.addr
    }
}

impl AddressBus {
    #[verifier::type_invariant]
    pub closed spec fn inv(self) -> bool {
        in_ram_bus_window(self.addr as int) || in_peripherals_bus_window(self.addr as int)
    }

    pub fn new(addr: u32) -> (r: Self)
        requires
            in_ram_bus_window(addr as int) || in_peripherals_bus_window(addr as int),
        ensures
            r@ == addr,
    {
        let in_ram_range = addr >= VC_MMU_RAM_START && addr <= VC_MMU_RAM_END;
        let in_peripherals_range = addr >= VC_MMU_PERIPHERALS_START
            && addr <= VC_MMU_PERIPHERALS_END;
        if !(in_ram_range || in_peripherals_range) {
            unreached()
        } else {
            Self { addr }
        }
    }

    pub fn as_u32(&self) -> (r: u32)
        ensures
            r == self@,
    {
        self.addr
    }
}

/// A span of physical memory: a base address and a positive size whose last
/// byte is itself a valid physical address.
#[derive(Clone, Copy, Debug, PartialEq, Eq, Structural)]
pub struct RangePhysical {
    base: AddressPhysical,
    size: u64,
}

impl RangePhysical {
    #[verifier::type_invariant]
    pub closed spec fn inv(self) -> bool {
        &&& self.size > 0
        &&& self.base@ + self.size <= ADDRESS_SPACE_SIZE
        &&& self.base.inv()
    }

    /// First byte of the range, as an offset in the physical space.
    pub closed spec fn first(self) -> int {
        self.base@ as int
    }

    /// Last byte of the range (the range is the closed interval
    /// [first, last]).
    pub closed spec fn last(self) -> int {
        self.base@ + self.size - 1
    }

    pub closed spec fn spec_size(self) -> u64 {
        self.size
    }

    /// Whether offset `x` of the physical space lies inside the range.
    pub open spec fn contains(self, x: int) -> bool {
        self.first() <= x <= self.last()
    }

    /// Two ranges overlap when some byte lies in both.
    pub open spec fn spec_overlaps(self, other: Self) -> bool {
        self.first() <= other.last() && other.first() <= self.last()
    }

    pub fn new(base: AddressPhysical, size: u64) -> (r: Self)
        requires
            size > 0,
            base@ + size <= ADDRESS_SPACE_SIZE,
        ensures
            r.first() == base@,
            r.spec_size() == size,
            r.last() == base@ + size - 1,
    {
        proof {
            use_type_invariant(&base);
        }
        // Check that the end address is valid.
        let _ = base.add(size - 1);
        Self { base, size }
    }

    pub fn base(&self) -> (r: AddressPhysical)
        ensures
            r@ == self.first(),
    {
        proof {
            use_type_invariant(self);
        }
        self.base
    }

    pub fn size(&self) -> (r: u64)
        ensures
            r == self.spec_size(),
            r > 0,
            self.first() + r <= ADDRESS_SPACE_SIZE,
    {
        proof {
            use_type_invariant(self);
        }
        self.size
    }

    /// Closed-interval intersection test: true for any partial or total
    /// overlap in either direction, including ranges that share only a
    /// boundary byte.
    pub fn overlaps(&self, other: &Self) -> (r: bool)
        ensures
            r == self.spec_overlaps(*other),
    {
        proof {
            use_type_invariant(self);
            use_type_invariant(other);
        }
        let this_start = self.base.as_u64();
        let this_end = this_start + self.size - 1;
        let other_start = other.base.as_u64();
        let other_end = other_start + other.size - 1;

        this_start <= other_end && other_start <= this_end
    }
}

/// Converting a physical address to its high virtual alias and back returns
/// the original address.
pub proof fn lemma_address_round_trip(p: AddressPhysical, v: AddressVirtual, q: AddressPhysical)
    requires
        v@ == physical_to_virtual(p@ as int),
        q@ == virtual_to_physical(v@ as int),
    ensures
        q == p,
{
}

/// Every valid physical address has a bus alias, and it lands in the RAM
/// window exactly when the address lies below the peripheral boundary, at the
/// matching relative offset; otherwise it lands in the peripheral window.
pub proof fn lemma_bus_mapping(pa: int)
    requires
        0 <= pa < ADDRESS_SPACE_SIZE,
    ensures
        pa < PERIPHERALS_BASE_PHYSICAL ==> in_ram_bus_window(physical_to_bus(pa))
            && physical_to_bus(pa) - VC_MMU_RAM_START == pa,
        pa >= PERIPHERALS_BASE_PHYSICAL ==> in_peripherals_bus_window(physical_to_bus(pa))
            && physical_to_bus(pa) - VC_MMU_PERIPHERALS_START == pa - PERIPHERALS_BASE_PHYSICAL,
        !(in_ram_bus_window(physical_to_bus(pa)) && in_peripherals_bus_window(physical_to_bus(pa))),
{
}

/// Rounding up to an alignment lands on the next boundary: at or above the
/// input, less than one alignment unit further, and aligned.
pub proof fn lemma_align_up(addr: int, align: int)
    requires
        align > 0,
    ensures
        addr <= spec_align_up(addr, align) < addr + align,
        spec_align_up(addr, align) % align == 0,
{
    assert(addr <= spec_align_up(addr, align) < addr + align && spec_align_up(addr, align) % align
        == 0) by (nonlinear_arith)
        requires
            align > 0,
            spec_align_up(addr, align) == (if addr % align == 0 {
                addr
            } else {
                addr - addr % align + align
            }),
    ;
}

/// Bounds of a valid range: it lies entirely inside the physical address
/// space and its last byte is determined by base and size.
pub proof fn lemma_range_bounds(r: RangePhysical)
    requires
        r.inv(),
    ensures
        0 <= r.first() <= r.last() < ADDRESS_SPACE_SIZE,
        r.last() == r.first() + r.spec_size() - 1,
        r.spec_size() > 0,
{
}

/// Overlap is symmetric.
pub proof fn lemma_overlaps_symmetric(a: RangePhysical, b: RangePhysical)
    ensures
        a.spec_overlaps(b) == b.spec_overlaps(a),
{
}

/// Two ranges overlap exactly when some byte lies in both; in particular
/// ranges sharing only a boundary byte overlap, and disjoint ranges do not.
pub proof fn lemma_overlaps_exact(a: RangePhysical, b: RangePhysical)
    requires
        a.inv(),
        b.inv(),
    ensures
        a.spec_overlaps(b) <==> exists|x: int| a.contains(x) && b.contains(x),
{
    if a.spec_overlaps(b) {
        let w = if a.first() >= b.first() {
            a.first()
        } else {
            b.first()
        };
        assert(a.contains(w) && b.contains(w));
    }
}

} // verus!
