//! Memory-management core of a bare-metal AArch64 kernel for a Raspberry Pi 3
//! class board: the typed address-space model, the physical page allocator,
//! the two-phase MMU bring-up (coarse bootstrap tables, then fine-grained
//! runtime tables), and the lock primitives that guard them.
//!
//! Everything here is pure logic over plain values: the code that touches
//! system registers, raw memory and barriers lives outside this crate and
//! consumes the values computed and verified here.

pub mod address;
pub mod allocator;
pub mod irq;
pub mod locking;
pub mod paging;

pub use address::AddressBus;
pub use address::AddressPhysical;
pub use address::AddressVirtual;
pub use address::RangePhysical;
