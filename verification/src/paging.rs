//! Translation-table construction for the two-phase MMU bring-up.
//!
//! The bootstrap phase builds a single coarse second-level table whose two
//! block entries cover the whole 1 GiB physical space (512 MiB of normal
//! memory, 512 MiB of device memory) under a 64 KiB granule; it is installed
//! for both the low and the high translation regime so the same physical
//! memory stays reachable while execution moves to the high window. The
//! runtime phase builds fine-grained 4 KiB tables covering all donated RAM
//! and the peripheral window, drawing third-level tables from the page
//! allocator.
//!
//! Everything here computes table entries and register values as plain
//! data; writing them to the hardware -- and the live root-table switch,
//! which must run from a low address -- happens outside this crate.

use vstd::prelude::*;

use crate::address::AddressPhysical;
use crate::address::AddressVirtual;
use crate::address::RangePhysical;
use crate::address::ADDRESS_SPACE_SIZE;
use crate::address::HIGH_MEMORY_START;
use crate::address::PAGE_SIZE;
use crate::address::PERIPHERALS_BASE_PHYSICAL;
use crate::address::PERIPHERALS_SIZE;
use crate::allocator::AllocError;
use crate::allocator::PageAllocator;

verus! {

/// Entries per translation table (one page-aligned level).
pub const PAGE_TABLE_ENTRIES: usize = 512;

// Table/page-entry bit layout, fixed by the architecture. Each constant is
// the weight of the field's lowest bit, so a field's contribution to an
// entry is its value times the weight; the fields are disjoint, so the sum
// of the contributions equals their bitwise or.
pub const PTE_VALID: u64 = 0x1;
/// Descriptor-type bit: set for a table (at level 2) or page (at level 3)
/// descriptor, clear for a block descriptor.
pub const PTE_TYPE_TABLE_OR_PAGE: u64 = 0x2;
pub const PTE_ATTR_INDEX_WEIGHT: u64 = 0x4;
pub const PTE_SH_WEIGHT: u64 = 0x100;
pub const PTE_AF: u64 = 0x400;
pub const PTE_PXN: u64 = 0x20_0000_0000_0000;
pub const PTE_UXN: u64 = 0x40_0000_0000_0000;

/// Shareability field encodings.
pub const SH_OUTER_SHAREABLE: u64 = 0x2;
pub const SH_INNER_SHAREABLE: u64 = 0x3;

/// Index of the normal write-back cacheable entry of the memory-attribute
/// table, and of the device entry; the bootstrap and runtime tables and the
/// MAIR value below must all agree on these.
pub const MAIR_IDX_NORMAL: u8 = 0;
pub const MAIR_IDX_DEVICE: u8 = 1;

/// The memory-attribute table: attribute 0 is normal memory, inner and
/// outer write-back non-transient read/write-allocate cacheable (0xFF);
/// attribute 1 is device memory, non-gathering, non-reordering, with early
/// write acknowledge (0x04).
pub const MAIR_VALUE: u64 = 0x4FF;

#[derive(Clone, Copy, Debug, PartialEq, Eq, Structural)]
pub enum Shareability {
    OuterShareable,
    InnerShareable,
}

/// The attribute bits of a mapping: memory type (as an index into the
/// memory-attribute table), shareability, access flag and the two
/// execute-never bits.
#[derive(Clone, Copy, Debug, PartialEq, Eq, Structural)]
pub struct PteAttributes {
    pub attr_index: u8,
    pub shareability: Shareability,
    pub access_flag: bool,
    pub privileged_execute_never: bool,
    pub unprivileged_execute_never: bool,
}

impl PteAttributes {
    /// The attribute-index field is three bits wide.
    pub open spec fn wf(&self) -> bool {
        self.attr_index < 8
    }
}

pub open spec fn spec_shareability_bits(sh: Shareability) -> u64 {
    match sh {
        Shareability::OuterShareable => SH_OUTER_SHAREABLE,
        Shareability::InnerShareable => SH_INNER_SHAREABLE,
    }
}

/// The attribute fields of an entry, placed at their bit positions.
pub open spec fn spec_attribute_bits(a: PteAttributes) -> int {
    a.attr_index * PTE_ATTR_INDEX_WEIGHT + spec_shareability_bits(a.shareability) * PTE_SH_WEIGHT
        + (if a.access_flag {
        PTE_AF as int
    } else {
        0
    }) + (if a.privileged_execute_never {
        PTE_PXN as int
    } else {
        0
    }) + (if a.unprivileged_execute_never {
        PTE_UXN as int
    } else {
        0
    })
}

/// A block descriptor: maps a large span directly at a non-leaf level.
pub open spec fn spec_block_descriptor(pa: int, a: PteAttributes) -> int {
    pa + spec_attribute_bits(a) + PTE_VALID
}

/// A table descriptor: points the walk at a next-level table.
pub open spec fn spec_table_descriptor(pa: int) -> int {
    pa + PTE_TYPE_TABLE_OR_PAGE + PTE_VALID
}

/// A page descriptor: maps one page at the leaf level.
pub open spec fn spec_page_descriptor(pa: int, a: PteAttributes) -> int {
    pa + spec_attribute_bits(a) + PTE_TYPE_TABLE_OR_PAGE + PTE_VALID
}

/// Attributes for mapping RAM: normal cacheable memory, inner shareable,
/// accessed, not executable by unprivileged code.
pub fn normal_memory_attributes() -> (r: PteAttributes)
    ensures
        r == (PteAttributes {
            attr_index: MAIR_IDX_NORMAL,
            shareability: Shareability::InnerShareable,
            access_flag: true,
            privileged_execute_never: false,
            unprivileged_execute_never: true,
        }),
        r.wf(),
{
    PteAttributes {
        attr_index: MAIR_IDX_NORMAL,
        shareability: Shareability::InnerShareable,
        access_flag: true,
        privileged_execute_never: false,
        unprivileged_execute_never: true,
    }
}

/// Attributes for mapping the peripheral window: device memory, outer
/// shareable, accessed, not executable at all.
pub fn device_memory_attributes() -> (r: PteAttributes)
    ensures
        r == (PteAttributes {
            attr_index: MAIR_IDX_DEVICE,
            shareability: Shareability::OuterShareable,
            access_flag: true,
            privileged_execute_never: true,
            unprivileged_execute_never: true,
        }),
        r.wf(),
{
    PteAttributes {
        attr_index: MAIR_IDX_DEVICE,
        shareability: Shareability::OuterShareable,
        access_flag: true,
        privileged_execute_never: true,
        unprivileged_execute_never: true,
    }
}

fn attribute_bits(a: &PteAttributes) -> (r: u64)
    requires
        a.wf(),
    ensures
        r == spec_attribute_bits(*a),
{
    let sh: u64 = match a.shareability {
        Shareability::OuterShareable => SH_OUTER_SHAREABLE,
        Shareability::InnerShareable => SH_INNER_SHAREABLE,
    };
    let mut r: u64 = (a.attr_index as u64) * PTE_ATTR_INDEX_WEIGHT + sh * PTE_SH_WEIGHT;
    if a.access_flag {
        r = r + PTE_AF;
    }
    if a.privileged_execute_never {
        r = r + PTE_PXN;
    }
    if a.unprivileged_execute_never {
        r = r + PTE_UXN;
    }
    r
}

/// Build a block descriptor for physical address `pa` with attributes `a`.
pub fn block_descriptor(pa: AddressPhysical, a: &PteAttributes) -> (r: u64)
    requires
        a.wf(),
    ensures
        r == spec_block_descriptor(pa@ as int, *a),
{
    pa.as_u64() + attribute_bits(a) + PTE_VALID
}

/// Build a table descriptor pointing at the next-level table at `pa`.
pub fn table_descriptor(pa: AddressPhysical) -> (r: u64)
    ensures
        r == spec_table_descriptor(pa@ as int),
{
    pa.as_u64() + PTE_TYPE_TABLE_OR_PAGE + PTE_VALID
}

/// Build a page descriptor mapping the page at `pa` with attributes `a`.
pub fn page_descriptor(pa: AddressPhysical, a: &PteAttributes) -> (r: u64)
    requires
        a.wf(),
    ensures
        r == spec_page_descriptor(pa@ as int, *a),
{
    pa.as_u64() + attribute_bits(a) + PTE_TYPE_TABLE_OR_PAGE + PTE_VALID
}

/// One level of translation table: 512 entries of 8 bytes.
pub struct PageTable {
    entries: Vec<u64>,
}

impl PageTable {
    pub closed spec fn view(&self) -> Seq<u64> {
        self.entries@
    }

    pub open spec fn wf(&self) -> bool {
        self@.len() == PAGE_TABLE_ENTRIES
    }

    /// A fresh, all-invalid table.
    pub fn new() -> (r: Self)
        ensures
            r.wf(),
            forall|i: int| 0 <= i < PAGE_TABLE_ENTRIES ==> r@[i] == 0,
    {
        let mut entries: Vec<u64> = Vec::new();
        let mut i: usize = 0;
        while i < PAGE_TABLE_ENTRIES
            invariant
                i <= PAGE_TABLE_ENTRIES,
                entries@.len() == i,
                forall|j: int| 0 <= j < i ==> entries@[j] == 0,
            decreases PAGE_TABLE_ENTRIES - i,
        {
            entries.push(0);
            i += 1;
        }
        PageTable { entries }
    }

    pub fn entry(&self, i: usize) -> (r: u64)
        requires
            self.wf(),
            i < PAGE_TABLE_ENTRIES,
        ensures
            r == self@[i as int],
    {
        self.entries[i]
    }

    fn set_entry(&mut self, i: usize, value: u64)
        requires
            old(self).wf(),
            i < PAGE_TABLE_ENTRIES,
        ensures
            final(self)@ == old(self)@.update(i as int, value),
    {
        self.entries[i] = value;
    }
}

/// Second-level index of a high-window virtual address: bits 21 to 29.
pub open spec fn spec_l2_idx(va: u64) -> int {
    (va as int / 0x20_0000) % 512
}

/// Third-level index of a high-window virtual address: bits 12 to 20.
pub open spec fn spec_l3_idx(va: u64) -> int {
    (va as int / 0x1000) % 512
}

pub fn l2_idx(va: AddressVirtual) -> (r: usize)
    ensures
        r == spec_l2_idx(va@),
        r < PAGE_TABLE_ENTRIES,
{
    ((va.as_u64() / 0x20_0000) % 512) as usize
}

pub fn l3_idx(va: AddressVirtual) -> (r: usize)
    ensures
        r == spec_l3_idx(va@),
        r < PAGE_TABLE_ENTRIES,
{
    ((va.as_u64() / 0x1000) % 512) as usize
}

/// Two page-aligned addresses of the high window with the same second- and
/// third-level indices are the same address: within the 1 GiB window the
/// index pair determines the page.
pub proof fn lemma_page_indices_injective(va1: u64, va2: u64)
    requires
        va1 >= HIGH_MEMORY_START,
        va2 >= HIGH_MEMORY_START,
        va1 % PAGE_SIZE == 0,
        va2 % PAGE_SIZE == 0,
        spec_l2_idx(va1) == spec_l2_idx(va2),
        spec_l3_idx(va1) == spec_l3_idx(va2),
    ensures
        va1 == va2,
{
    assert(va1 == va2) by (bit_vector)
        requires
            va1 >= 0xFFFF_FFFF_C000_0000u64,
            va2 >= 0xFFFF_FFFF_C000_0000u64,
            va1 % 4096 == 0,
            va2 % 4096 == 0,
            (va1 / 0x20_0000) % 512 == (va2 / 0x20_0000) % 512,
            (va1 / 0x1000) % 512 == (va2 / 0x1000) % 512,
    ;
}

// Field weights of the translation control register for the high (TTBR1)
// and low (TTBR0) regimes.
pub const TCR_IPS_WEIGHT: u64 = 0x1_0000_0000;
pub const TCR_EPD0: u64 = 0x80;
pub const TCR_T0SZ_MASK: u64 = 0x3F;
pub const TCR_TG1_MASK: u64 = 0xC000_0000;
pub const TCR_TG1_KIB_4: u64 = 0x8000_0000;

/// The translation-control value of the bootstrap phase, without its
/// intermediate-physical-size field: for both regimes a 64 KiB granule,
/// inner-shareable write-back read/write-allocate cacheable walks, table
/// walks enabled, and a 30-bit (1 GiB) region size (T0SZ = T1SZ = 34).
pub const TCR_EARLY_BASE: u64 = 0xF522_7522;

/// Whether the feature register reports the 64 KiB translation granule as
/// supported (field at bits 24..27, zero when supported).
pub open spec fn spec_tgran64_supported(mmfr0: u64) -> bool {
    (mmfr0 / 0x100_0000) % 16 == 0
}

/// Whether the feature register reports the 4 KiB translation granule as
/// supported (field at bits 28..31, zero when supported).
pub open spec fn spec_tgran4_supported(mmfr0: u64) -> bool {
    (mmfr0 / 0x1000_0000) % 16 == 0
}

/// The supported physical-address-range field of the feature register
/// (bits 0..3), truncated to the three-bit field it is programmed into.
pub open spec fn spec_parange(mmfr0: u64) -> u64 {
    (mmfr0 % 16) % 8
}

pub fn tgran64_supported(mmfr0: u64) -> (r: bool)
    ensures
        r == spec_tgran64_supported(mmfr0),
{
    (mmfr0 / 0x100_0000) % 16 == 0
}

pub fn tgran4_supported(mmfr0: u64) -> (r: bool)
    ensures
        r == spec_tgran4_supported(mmfr0),
{
    (mmfr0 / 0x1000_0000) % 16 == 0
}

/// The translation-control value the bootstrap phase programs, for the
/// physical address range the hardware reports.
pub open spec fn spec_early_translation_control(mmfr0: u64) -> int {
    TCR_EARLY_BASE + spec_parange(mmfr0) * TCR_IPS_WEIGHT
}

pub fn early_translation_control(mmfr0: u64) -> (r: u64)
    ensures
        r == spec_early_translation_control(mmfr0),
{
    TCR_EARLY_BASE + ((mmfr0 % 16) % 8) * TCR_IPS_WEIGHT
}

/// The value written to a translation-table-base register to install the
/// table at `pa`: the table's address (which its alignment keeps clear of
/// bit 0) plus the common-not-private bit.
pub fn ttbr_value(pa: AddressPhysical) -> (r: u64)
    requires
        pa@ % PAGE_SIZE == 0,
    ensures
        r == pa@ + 1,
{
    pa.as_u64() + 1
}

/// Switch the high regime's granule field to 4 KiB, leaving every other
/// field as it is; programmed during the live table switch, which must run
/// through the low mapping.
pub fn runtime_translation_control(tcr: u64) -> (r: u64)
    ensures
        r == (tcr & !TCR_TG1_MASK) | TCR_TG1_KIB_4,
{
    (tcr & !TCR_TG1_MASK) | TCR_TG1_KIB_4
}

/// Permanently disable the low regime: set its table-walk-disable bit and
/// clear its region-size field (the hardware write of 64 truncates to the
/// six-bit field, leaving zero). After this value is programmed, low
/// addresses no longer translate.
pub fn disable_low_translation_control(tcr: u64) -> (r: u64)
    ensures
        r == (tcr | TCR_EPD0) & !TCR_T0SZ_MASK,
{
    (tcr | TCR_EPD0) & !TCR_T0SZ_MASK
}

/// The system-control bits the bootstrap phase sets to turn translation on:
/// MMU enable (bit 0), data cacheability (bit 2) and instruction
/// cacheability (bit 12).
pub const SCTLR_ENABLE_MMU_AND_CACHES: u64 = 0x1005;

/// The system-control value after enabling translation and caches.
pub fn enable_mmu_control(sctlr: u64) -> (r: u64)
    ensures
        r == sctlr | SCTLR_ENABLE_MMU_AND_CACHES,
{
    sctlr | SCTLR_ENABLE_MMU_AND_CACHES
}

/// The values the bootstrap phase programs: the coarse second-level table
/// with its two 512 MiB block entries, the memory-attribute table, and the
/// translation-control value. The caller installs the same table as the
/// root of both the low and the high regime, writes the registers, flushes
/// the TLB and enables translation.
pub struct EarlyBootPlan {
    pub table: PageTable,
    pub mair: u64,
    pub tcr: u64,
}

/// Build everything the bootstrap phase writes to the hardware. Entry 0
/// maps the low 512 MiB as normal memory and entry 1 the next 512 MiB as
/// device memory; requiring the 64 KiB granule to be reported as supported
/// models the fatal check the kernel makes first.
pub fn setup_early_boot_paging(phase: &mut PhaseToken, mmfr0: u64) -> (r: EarlyBootPlan)
    requires
        old(phase).spec_phase() == PagingPhase::Uninitialized,
        spec_tgran64_supported(mmfr0),
    ensures
        final(phase).spec_phase() == PagingPhase::BootstrapActive,
        r.table.wf(),
        r.table@[0] == spec_block_descriptor(
            0,
            (PteAttributes {
                attr_index: MAIR_IDX_NORMAL,
                shareability: Shareability::InnerShareable,
                access_flag: true,
                privileged_execute_never: false,
                unprivileged_execute_never: true,
            }),
        ),
        r.table@[1] == spec_block_descriptor(
            0x2000_0000,
            (PteAttributes {
                attr_index: MAIR_IDX_DEVICE,
                shareability: Shareability::OuterShareable,
                access_flag: true,
                privileged_execute_never: true,
                unprivileged_execute_never: true,
            }),
        ),
        forall|i: int| 2 <= i < PAGE_TABLE_ENTRIES ==> r.table@[i] == 0,
        r.mair == MAIR_VALUE,
        r.tcr == spec_early_translation_control(mmfr0),
{
    let mut table = PageTable::new();

    // The first entry maps a 512 MiB block of normal memory.
    let entry0 = block_descriptor(AddressPhysical::new(0), &normal_memory_attributes());
    table.set_entry(0, entry0);

    // The second entry maps a 512 MiB block of device memory.
    let entry1 = block_descriptor(
        AddressPhysical::new(0x2000_0000),
        &device_memory_attributes(),
    );
    table.set_entry(1, entry1);

    phase.bootstrap_enabled();

    EarlyBootPlan { table, mair: MAIR_VALUE, tcr: early_translation_control(mmfr0) }
}

/// The fine-grained runtime translation tables: the second-level root and
/// the third-level tables allocated on demand, each remembered together
/// with the physical address of the page that backs it.
pub struct RuntimeTables {
    l2: PageTable,
    l3_slots: Vec<Option<usize>>,
    l3_tables: Vec<PageTable>,
    l3_pages: Vec<u64>,
}

impl RuntimeTables {
    pub closed spec fn spec_l2(&self) -> Seq<u64> {
        self.l2@
    }

    pub closed spec fn spec_slots(&self) -> Seq<Option<usize>> {
        self.l3_slots@
    }

    pub closed spec fn spec_l3_tables(&self) -> Seq<PageTable> {
        self.l3_tables@
    }

    pub closed spec fn spec_l3_pages(&self) -> Seq<u64> {
        self.l3_pages@
    }

    /// The invariant: the root and the slot table have one entry per
    /// second-level index; a slot without a third-level table has an
    /// all-invalid root entry; a slot with one holds a valid table
    /// descriptor pointing at the page-aligned physical page that backs the
    /// table; and no two slots share a table.
    pub open spec fn wf(&self) -> bool {
        &&& self.spec_l2().len() == PAGE_TABLE_ENTRIES
        &&& self.spec_slots().len() == PAGE_TABLE_ENTRIES
        &&& self.spec_l3_tables().len() == self.spec_l3_pages().len()
        &&& forall|j: int|
            0 <= j < self.spec_l3_tables().len() ==> (#[trigger] self.spec_l3_tables()[j])@.len()
                == PAGE_TABLE_ENTRIES
        &&& forall|i: int|
            0 <= i < PAGE_TABLE_ENTRIES ==> match #[trigger] self.spec_slots()[i] {
                Option::None => self.spec_l2()[i] == 0,
                Option::Some(j) => 0 <= j < self.spec_l3_tables().len() && self.spec_l3_pages()[j as int] % PAGE_SIZE == 0 && self.spec_l3_pages()[j as int] < ADDRESS_SPACE_SIZE
                    && self.spec_l2()[i] == spec_table_descriptor(
                    self.spec_l3_pages()[j as int] as int,
                ),
            }
        &&& forall|i1: int, i2: int|
            0 <= i1 < PAGE_TABLE_ENTRIES && 0 <= i2 < PAGE_TABLE_ENTRIES && i1 != i2
                && (#[trigger] self.spec_slots()[i1]) is Some && (#[trigger] self.spec_slots()[i2]) is Some
                ==> self.spec_slots()[i1]->Some_0 != self.spec_slots()[i2]->Some_0
    }

    /// The third-level entry reached through second-level index `i` and
    /// third-level index `k`; zero (invalid) where no table exists yet.
    pub open spec fn entry_at(&self, i: int, k: int) -> u64 {
        match self.spec_slots()[i] {
            Option::None => 0,
            Option::Some(j) => self.spec_l3_tables()[j as int]@[k],
        }
    }

    /// Fresh runtime tables: nothing mapped, no third-level tables yet.
    pub fn new() -> (r: Self)
        ensures
            r.wf(),
            forall|i: int, k: int|
                0 <= i < PAGE_TABLE_ENTRIES && 0 <= k < PAGE_TABLE_ENTRIES ==> r.entry_at(i, k)
                    == 0,
            r.spec_l3_tables().len() == 0,
    {
        let l2 = PageTable::new();
        let mut l3_slots: Vec<Option<usize>> = Vec::new();
        let mut i: usize = 0;
        while i < PAGE_TABLE_ENTRIES
            invariant
                i <= PAGE_TABLE_ENTRIES,
                l3_slots@.len() == i,
                forall|j: int| 0 <= j < i ==> l3_slots@[j] is None,
            decreases PAGE_TABLE_ENTRIES - i,
        {
            l3_slots.push(None);
            i += 1;
        }
        RuntimeTables { l2, l3_slots, l3_tables: Vec::new(), l3_pages: Vec::new() }
    }

    /// The root table, to be installed as the high regime's translation
    /// base during the live switch.
    pub fn root(&self) -> (r: &PageTable)
        ensures
            r@ == self.spec_l2(),
    {
        &self.l2
    }

    /// Map the page at `va` to the physical page at `pa` with the given
    /// attributes. If the second-level entry is still invalid, a fresh page
    /// is drawn from the allocator to hold the new third-level table and a
    /// table descriptor for it is installed; otherwise the existing
    /// third-level table is reused. Fails exactly when a new table is
    /// needed and the allocator is exhausted.
    pub fn map_page(
        &mut self,
        alloc: &mut PageAllocator,
        va: AddressVirtual,
        pa: AddressPhysical,
        attrs: &PteAttributes,
    ) -> (r: Result<(), AllocError>)
        requires
            old(self).wf(),
            old(alloc).wf(),
            attrs.wf(),
            va@ % PAGE_SIZE == 0,
            pa@ % PAGE_SIZE == 0,
        ensures
            final(self).wf(),
            final(alloc).wf(),
            final(alloc).regions_seq() == old(alloc).regions_seq(),
            r is Err <==> old(self).spec_slots()[spec_l2_idx(va@)] is None
                && old(alloc).free_count() == 0,
            r is Err ==> r == Err::<(), AllocError>(AllocError::OutOfMemory) && *final(self)
                == *old(self) && *final(alloc) == *old(alloc),
            r is Ok ==> final(self).entry_at(spec_l2_idx(va@), spec_l3_idx(va@))
                == spec_page_descriptor(pa@ as int, *attrs),
            forall|i: int, k: int|
                0 <= i < PAGE_TABLE_ENTRIES && 0 <= k < PAGE_TABLE_ENTRIES && !(i == spec_l2_idx(
                    va@,
                ) && k == spec_l3_idx(va@)) ==> final(self).entry_at(i, k) == old(self).entry_at(
                    i,
                    k,
                ),
            old(self).spec_slots()[spec_l2_idx(va@)] is Some ==> *final(alloc) == *old(alloc),
            r is Ok && old(self).spec_slots()[spec_l2_idx(va@)] is None
                ==> old(alloc).free_count() > 0
                && final(alloc).free_seq() == old(alloc).free_seq().drop_last()
                && final(alloc).allocated_set() == old(alloc).allocated_set().insert(
                old(alloc).free_seq().last(),
            ),
    {
        let i = l2_idx(va);
        let k = l3_idx(va);
        let value = page_descriptor(pa, attrs);

        let slot = self.l3_slots[i];
        match slot {
            Some(j) => {
                // There already is a third-level table for this span.
                let table = &mut self.l3_tables[j];
                table.set_entry(k, value);
                Ok(())
            },
            None => {
                // Draw a fresh zero-filled page to hold the new
                // third-level table, and install a table descriptor for it
                // in the second-level entry.
                let page = match alloc.allocate_page() {
                    Ok(p) => p,
                    Err(e) => {
                        return Err(e);
                    },
                };
                proof {
                    assert(page.spec_addr() == old(alloc).free_seq()[old(alloc).free_seq().len() - 1]);
                    assert(HIGH_MEMORY_START % PAGE_SIZE == 0);
                }
                let table_pa = page.addr().as_physical();
                proof {
                    use_type_invariant(&table_pa);
                }

                let j_new = self.l3_tables.len();
                let mut t = PageTable::new();
                t.set_entry(k, value);
                self.l3_tables.push(t);
                self.l3_pages.push(table_pa.as_u64());
                self.l3_slots[i] = Some(j_new);
                self.l2.set_entry(i, table_descriptor(table_pa));
                Ok(())
            },
        }
    }

    /// Map `size` bytes, rounded up to whole pages, starting at `va` and
    /// `pa`, one page at a time.
    #[verifier::loop_isolation(false)]
    #[verifier::rlimit(100)]
    pub fn map_range(
        &mut self,
        alloc: &mut PageAllocator,
        va: AddressVirtual,
        pa: AddressPhysical,
        size: u64,
        attrs: &PteAttributes,
    ) -> (r: Result<(), AllocError>)
        requires
            old(self).wf(),
            old(alloc).wf(),
            attrs.wf(),
            va@ % PAGE_SIZE == 0,
            pa@ % PAGE_SIZE == 0,
            pa@ + spec_num_pages(size) * PAGE_SIZE <= ADDRESS_SPACE_SIZE,
            va@ + spec_num_pages(size) * PAGE_SIZE <= 0x1_0000_0000_0000_0000,
        ensures
            final(self).wf(),
            final(alloc).wf(),
            final(alloc).regions_seq() == old(alloc).regions_seq(),
            r is Err ==> r == Err::<(), AllocError>(AllocError::OutOfMemory)
                && final(alloc).free_count() == 0,
            r is Ok ==> forall|vx: int|
                va@ <= vx < va@ + spec_num_pages(size) * PAGE_SIZE && #[trigger] ((vx - va@) % (
                PAGE_SIZE as int)) == 0 ==> final(self).entry_at(
                    spec_l2_idx(vx as u64),
                    spec_l3_idx(vx as u64),
                ) == spec_page_descriptor(pa@ + (vx - va@), *attrs),
            forall|i: int, k: int|
                0 <= i < PAGE_TABLE_ENTRIES && 0 <= k < PAGE_TABLE_ENTRIES && !range_covers(
                    va@,
                    spec_num_pages(size) * PAGE_SIZE,
                    i,
                    k,
                ) ==> final(self).entry_at(i, k) == old(self).entry_at(i, k),
    {
        if size == 0 {
            return Ok(());
        }
        let ghost mut pages_done: int = 0;
        let mut offset: u64 = 0;

        proof {
            lemma_num_pages_bounds(size);
        }

        while offset < size
            invariant
                self.wf(),
                alloc.wf(),
                alloc.regions_seq() == old(alloc).regions_seq(),
                va@ % PAGE_SIZE == 0,
                pa@ % PAGE_SIZE == 0,
                offset == pages_done * (PAGE_SIZE as int),
                offset % PAGE_SIZE == 0,
                0 <= pages_done <= spec_num_pages(size),
                forall|vx: int|
                    va@ <= vx < va@ + offset && #[trigger] ((vx - va@) % (PAGE_SIZE as int)) == 0
                        ==> self.entry_at(spec_l2_idx(vx as u64), spec_l3_idx(vx as u64))
                        == spec_page_descriptor(pa@ + (vx - va@), *attrs),
                forall|i: int, k: int|
                    0 <= i < PAGE_TABLE_ENTRIES && 0 <= k < PAGE_TABLE_ENTRIES && !range_covers(
                        va@,
                        offset as int,
                        i,
                        k,
                    ) ==> self.entry_at(i, k) == old(self).entry_at(i, k),
            decreases size + PAGE_SIZE - offset,
        {
            proof {
                assert(pages_done < spec_num_pages(size)) by (nonlinear_arith)
                    requires
                        offset == pages_done * (PAGE_SIZE as int),
                        offset < size,
                        size <= spec_num_pages(size) * (PAGE_SIZE as int),
                ;
                assert((pages_done + 1) * (PAGE_SIZE as int) <= spec_num_pages(size) * (
                PAGE_SIZE as int)) by (nonlinear_arith)
                    requires
                        pages_done + 1 <= spec_num_pages(size),
                ;
            }
            let va_cur = va.add(offset);
            let pa_cur = pa.add(offset);
            let ghost prev = *self;
            match self.map_page(alloc, va_cur, pa_cur, attrs) {
                Ok(()) => {},
                Err(e) => {
                    return Err(e);
                },
            }
            proof {
                use_type_invariant(&va);
                assert(va_cur@ == va@ + offset);
                lemma_mod_sum_aligned(va@ as int, offset as int);
                assert forall|vx: int|
                    va@ <= vx < va@ + offset + PAGE_SIZE && #[trigger] ((vx - va@) % (
                    PAGE_SIZE as int)) == 0 implies self.entry_at(
                    spec_l2_idx(vx as u64),
                    spec_l3_idx(vx as u64),
                ) == spec_page_descriptor(pa@ + (vx - va@), *attrs) by {
                    lemma_mod_sum_aligned(va@ as int, vx - va@);
                    if vx < va@ + offset {
                        if spec_l2_idx(vx as u64) == spec_l2_idx(va_cur@) && spec_l3_idx(
                            vx as u64,
                        ) == spec_l3_idx(va_cur@) {
                            lemma_page_indices_injective(vx as u64, va_cur@);
                            assert(false);
                        }
                        assert(prev.entry_at(spec_l2_idx(vx as u64), spec_l3_idx(vx as u64))
                            == spec_page_descriptor(pa@ + (vx - va@), *attrs));
                    } else {
                        lemma_aligned_unique_in_page(vx, va@ + offset);
                        assert(vx == va_cur@);
                    }
                }
                assert forall|i: int, k: int|
                    0 <= i < PAGE_TABLE_ENTRIES && 0 <= k < PAGE_TABLE_ENTRIES && !range_covers(
                        va@,
                        offset + PAGE_SIZE,
                        i,
                        k,
                    ) implies self.entry_at(i, k) == old(self).entry_at(i, k) by {
                    if i == spec_l2_idx(va_cur@) && k == spec_l3_idx(va_cur@) {
                        assert(((va_cur@ - va@) % (PAGE_SIZE as int)) == 0);
                        assert(range_covers(va@, offset + PAGE_SIZE, i, k));
                        assert(false);
                    }
                    if range_covers(va@, offset as int, i, k) {
                        let wx = choose|wx: int|
                            va@ <= wx < va@ + offset && #[trigger] ((wx - va@) % (
                            PAGE_SIZE as int)) == 0 && i == spec_l2_idx(wx as u64) && k
                                == spec_l3_idx(wx as u64);
                        assert(range_covers(va@, offset + PAGE_SIZE, i, k));
                        assert(false);
                    }
                    assert(prev.entry_at(i, k) == old(self).entry_at(i, k));
                }
                pages_done = pages_done + 1;
                assert(offset + PAGE_SIZE == pages_done * (PAGE_SIZE as int)) by (nonlinear_arith)
                    requires
                        offset == (pages_done - 1) * (PAGE_SIZE as int),
                ;
            }
            offset = offset + PAGE_SIZE;
        }

        proof {
            assert(size <= offset);
            assert(spec_num_pages(size) == pages_done) by (nonlinear_arith)
                requires
                    offset == pages_done * (PAGE_SIZE as int),
                    0 <= pages_done,
                    size <= offset,
                    offset < size + PAGE_SIZE,
                    spec_num_pages(size) == (size + PAGE_SIZE - 1) as int / (PAGE_SIZE as int),
            ;
        }
        Ok(())
    }
}

/// Number of whole pages needed to cover `size` bytes.
pub open spec fn spec_num_pages(size: u64) -> int {
    (size + PAGE_SIZE - 1) as int / (PAGE_SIZE as int)
}

/// Whether some page of the `bytes`-byte span starting at `va` walks
/// through second-level index `i` and third-level index `k`.
pub open spec fn range_covers(va: u64, bytes: int, i: int, k: int) -> bool {
    exists|vx: int|
        va <= vx < va + bytes && #[trigger] ((vx - va) % (PAGE_SIZE as int)) == 0 && i
            == spec_l2_idx(vx as u64) && k == spec_l3_idx(vx as u64)
}

/// The sum of two page-aligned quantities is page-aligned.
proof fn lemma_mod_sum_aligned(a: int, b: int)
    requires
        a % (PAGE_SIZE as int) == 0,
        b % (PAGE_SIZE as int) == 0,
    ensures
        (a + b) % (PAGE_SIZE as int) == 0,
{
    assert((a + b) % 4096 == 0) by (nonlinear_arith)
        requires
            a % 4096 == 0,
            b % 4096 == 0,
    ;
}

/// The difference of two page-aligned quantities is page-aligned.
proof fn lemma_mod_diff_aligned(a: int, b: int)
    requires
        a % (PAGE_SIZE as int) == 0,
        b % (PAGE_SIZE as int) == 0,
    ensures
        (a - b) % (PAGE_SIZE as int) == 0,
{
    assert((a - b) % 4096 == 0) by (nonlinear_arith)
        requires
            a % 4096 == 0,
            b % 4096 == 0,
    ;
}

/// A page has exactly one page-aligned address.
proof fn lemma_aligned_unique_in_page(a: int, b: int)
    requires
        a % (PAGE_SIZE as int) == 0,
        b % (PAGE_SIZE as int) == 0,
        b <= a < b + PAGE_SIZE,
    ensures
        a == b,
{
    assert(a == b) by (nonlinear_arith)
        requires
            a % 4096 == 0,
            b % 4096 == 0,
            b <= a < b + 4096,
    ;
}

proof fn lemma_num_pages_bounds(size: u64)
    ensures
        size <= spec_num_pages(size) * (PAGE_SIZE as int),
        spec_num_pages(size) * (PAGE_SIZE as int) < size + PAGE_SIZE,
        0 <= spec_num_pages(size),
{
    let n = spec_num_pages(size);
    assert(size <= n * 4096 && n * 4096 < size + 4096 && 0 <= n) by (nonlinear_arith)
        requires
            n == (size + 4095) as int / 4096,
    ;
}

/// The one-way phase machine of the paging subsystem. Each transition is
/// taken exactly once during boot, in order; a verified caller cannot take
/// one out of order or twice.
#[derive(Clone, Copy, Debug, PartialEq, Eq, Structural)]
pub enum PagingPhase {
    /// Nothing set up; translation is off.
    Uninitialized,
    /// The coarse bootstrap tables are built and translation is on.
    BootstrapActive,
    /// The fine-grained runtime tables are fully built but not yet live.
    RuntimeBuilt,
    /// The runtime tables are live and the low-address regime is disabled
    /// for good.
    RuntimeActive,
}

/// Witness of the paging subsystem's current phase.
pub struct PhaseToken {
    phase: PagingPhase,
}

impl PhaseToken {
    pub closed spec fn spec_phase(&self) -> PagingPhase {
        self.phase
    }

    pub fn new() -> (r: Self)
        ensures
            r.spec_phase() == PagingPhase::Uninitialized,
    {
        PhaseToken { phase: PagingPhase::Uninitialized }
    }

    pub fn phase(&self) -> (r: PagingPhase)
        ensures
            r == self.spec_phase(),
    {
        self.phase
    }

    /// Taken by `setup_early_boot_paging` when the bootstrap tables are
    /// built and ready to be installed.
    pub fn bootstrap_enabled(&mut self)
        requires
            old(self).spec_phase() == PagingPhase::Uninitialized,
        ensures
            final(self).spec_phase() == PagingPhase::BootstrapActive,
    {
        self.phase = PagingPhase::BootstrapActive;
    }

    /// Taken by `setup_runtime_paging` when the runtime tables are built.
    pub fn runtime_built(&mut self)
        requires
            old(self).spec_phase() == PagingPhase::BootstrapActive,
        ensures
            final(self).spec_phase() == PagingPhase::RuntimeBuilt,
    {
        self.phase = PagingPhase::RuntimeBuilt;
    }

    /// Taken when the live table switch has been performed and the low
    /// regime disabled; irreversible, like the switch itself.
    pub fn runtime_activated(&mut self)
        requires
            old(self).spec_phase() == PagingPhase::RuntimeBuilt,
        ensures
            final(self).spec_phase() == PagingPhase::RuntimeActive,
    {
        self.phase = PagingPhase::RuntimeActive;
    }
}

/// Build the runtime tables: map all donated RAM as normal memory and the
/// fixed peripheral window as device memory, drawing third-level tables
/// from the allocator. Requiring the 4 KiB granule to be reported as
/// supported models the fatal check the kernel makes first. The caller then
/// performs the live switch of the high regime's root to `tables.root()`
/// and disables the low regime.
#[verifier::rlimit(60)]
pub fn setup_runtime_paging(
    phase: &mut PhaseToken,
    tables: &mut RuntimeTables,
    alloc: &mut PageAllocator,
    ram_range: RangePhysical,
    mmfr0: u64,
) -> (r: Result<(), AllocError>)
    requires
        old(phase).spec_phase() == PagingPhase::BootstrapActive,
        spec_tgran4_supported(mmfr0),
        old(tables).wf(),
        old(alloc).wf(),
        ram_range.inv(),
        ram_range.first() % (PAGE_SIZE as int) == 0,
        ram_range.spec_size() % PAGE_SIZE == 0,
        ram_range.last() < PERIPHERALS_BASE_PHYSICAL,
    ensures
        final(tables).wf(),
        final(alloc).wf(),
        final(alloc).regions_seq() == old(alloc).regions_seq(),
        r is Err ==> r == Err::<(), AllocError>(AllocError::OutOfMemory)
            && final(alloc).free_count() == 0
            && final(phase).spec_phase() == old(phase).spec_phase(),
        r is Ok ==> final(phase).spec_phase() == PagingPhase::RuntimeBuilt,
        r is Ok ==> forall|vx: int|
            HIGH_MEMORY_START + ram_range.first() <= vx < HIGH_MEMORY_START + ram_range.first()
                + ram_range.spec_size() && #[trigger] (vx % (PAGE_SIZE as int)) == 0
                ==> final(tables).entry_at(spec_l2_idx(vx as u64), spec_l3_idx(vx as u64)) == spec_page_descriptor(
                vx - HIGH_MEMORY_START,
                (PteAttributes {
                    attr_index: MAIR_IDX_NORMAL,
                    shareability: Shareability::InnerShareable,
                    access_flag: true,
                    privileged_execute_never: false,
                    unprivileged_execute_never: true,
                }),
            ),
        r is Ok ==> forall|vx: int|
            HIGH_MEMORY_START + PERIPHERALS_BASE_PHYSICAL <= vx < HIGH_MEMORY_START
                + PERIPHERALS_BASE_PHYSICAL + PERIPHERALS_SIZE && #[trigger] (vx % (
            PAGE_SIZE as int)) == 0 ==> final(tables).entry_at(
                spec_l2_idx(vx as u64),
                spec_l3_idx(vx as u64),
            ) == spec_page_descriptor(
                vx - HIGH_MEMORY_START,
                (PteAttributes {
                    attr_index: MAIR_IDX_DEVICE,
                    shareability: Shareability::OuterShareable,
                    access_flag: true,
                    privileged_execute_never: true,
                    unprivileged_execute_never: true,
                }),
            ),
{
    proof {
        crate::address::lemma_range_bounds(ram_range);
        lemma_num_pages_exact(ram_range.spec_size());
        lemma_num_pages_exact(PERIPHERALS_SIZE);
        assert(HIGH_MEMORY_START % PAGE_SIZE == 0);
    }

    // Map all RAM.
    let attributes = normal_memory_attributes();
    let ram_base = ram_range.base();
    let ram_va = ram_base.as_virtual();
    match tables.map_range(alloc, ram_va, ram_base, ram_range.size(), &attributes) {
        Ok(()) => {},
        Err(e) => {
            return Err(e);
        },
    }
    let ghost mid = *tables;

    // Map the peripherals space.
    let attributes = device_memory_attributes();
    let periph_base = AddressPhysical::new(PERIPHERALS_BASE_PHYSICAL);
    let periph_va = periph_base.as_virtual();
    match tables.map_range(alloc, periph_va, periph_base, PERIPHERALS_SIZE, &attributes) {
        Ok(()) => {},
        Err(e) => {
            return Err(e);
        },
    }

    proof {
        use_type_invariant(&ram_va);
        use_type_invariant(&periph_va);
        assert(ram_va@ == HIGH_MEMORY_START + ram_range.first());
        assert(periph_va@ == HIGH_MEMORY_START + PERIPHERALS_BASE_PHYSICAL);
        lemma_mod_sum_aligned(HIGH_MEMORY_START as int, ram_range.first());
        lemma_mod_sum_aligned(HIGH_MEMORY_START as int, PERIPHERALS_BASE_PHYSICAL as int);

        // The peripheral entries come straight from the second mapping.
        assert forall|vx: int|
            HIGH_MEMORY_START + PERIPHERALS_BASE_PHYSICAL <= vx < HIGH_MEMORY_START
                + PERIPHERALS_BASE_PHYSICAL + PERIPHERALS_SIZE && #[trigger] (vx % (
            PAGE_SIZE as int)) == 0 implies tables.entry_at(
            spec_l2_idx(vx as u64),
            spec_l3_idx(vx as u64),
        ) == spec_page_descriptor(
            vx - HIGH_MEMORY_START,
            (PteAttributes {
                attr_index: MAIR_IDX_DEVICE,
                shareability: Shareability::OuterShareable,
                access_flag: true,
                privileged_execute_never: true,
                unprivileged_execute_never: true,
            }),
        ) by {
            lemma_mod_diff_aligned(vx, periph_va@ as int);
            assert(((vx - periph_va@) % (PAGE_SIZE as int)) == 0);
        }

        // The peripheral window lies wholly above RAM, so mapping it
        // touched none of the RAM entries: a shared index pair would mean a
        // shared page address.
        assert forall|vx: int|
            HIGH_MEMORY_START + ram_range.first() <= vx < HIGH_MEMORY_START + ram_range.first()
                + ram_range.spec_size() && #[trigger] (vx % (PAGE_SIZE as int)) == 0 implies
            tables.entry_at(spec_l2_idx(vx as u64), spec_l3_idx(vx as u64))
            == spec_page_descriptor(
            vx - HIGH_MEMORY_START,
            (PteAttributes {
                attr_index: MAIR_IDX_NORMAL,
                shareability: Shareability::InnerShareable,
                access_flag: true,
                privileged_execute_never: false,
                unprivileged_execute_never: true,
            }),
        ) by {
            let i = spec_l2_idx(vx as u64);
            let k = spec_l3_idx(vx as u64);
            lemma_mod_diff_aligned(vx, ram_va@ as int);
            assert(((vx - ram_va@) % (PAGE_SIZE as int)) == 0);
            assert(mid.entry_at(i, k) == spec_page_descriptor(
                vx - HIGH_MEMORY_START,
                (PteAttributes {
                    attr_index: MAIR_IDX_NORMAL,
                    shareability: Shareability::InnerShareable,
                    access_flag: true,
                    privileged_execute_never: false,
                    unprivileged_execute_never: true,
                }),
            ));
            if range_covers(periph_va@, spec_num_pages(PERIPHERALS_SIZE) * PAGE_SIZE, i, k) {
                let wx = choose|wx: int|
                    periph_va@ <= wx < periph_va@ + spec_num_pages(PERIPHERALS_SIZE) * PAGE_SIZE
                        && #[trigger] ((wx - periph_va@) % (PAGE_SIZE as int)) == 0 && i
                        == spec_l2_idx(wx as u64) && k == spec_l3_idx(wx as u64);
                lemma_mod_sum_aligned(periph_va@ as int, wx - periph_va@);
                lemma_page_indices_injective(vx as u64, wx as u64);
                assert(false);
            }
        }
    }

    phase.runtime_built();
    Ok(())
}

/// For a page-multiple size the page count is exact.
proof fn lemma_num_pages_exact(size: u64)
    requires
        size % PAGE_SIZE == 0,
    ensures
        spec_num_pages(size) * (PAGE_SIZE as int) == size,
{
    let n = spec_num_pages(size);
    assert(n * 4096 == size) by (nonlinear_arith)
        requires
            n == (size + 4095) as int / 4096,
            size % 4096 == 0,
    ;
}

impl RuntimeTables {
    /// The third-level entry a translation of `va` would walk to; zero
    /// where nothing is mapped. Walks the same two levels the hardware
    /// does.
    pub fn lookup(&self, va: AddressVirtual) -> (r: u64)
        requires
            self.wf(),
        ensures
            r == self.entry_at(spec_l2_idx(va@), spec_l3_idx(va@)),
    {
        let i = l2_idx(va);
        let k = l3_idx(va);
        match self.l3_slots[i] {
            None => 0,
            Some(j) => self.l3_tables[j].entry(k),
        }
    }
}

} // verus!
