//! Bounds-checked addressing of memory-mapped registers.
//!
//! A register block is a window of the address space owned by one
//! peripheral. A register in it is named by its offset and access width; an
//! offset that leaves the window, or is not aligned to the width, names no
//! register. The volatile access at the address is the caller's.
use vstd::prelude::*;

verus! {

/// Access width of a register.
#[derive(Clone, Copy, Debug, PartialEq, Eq, Structural)]
pub enum Width {
    Byte,
    HalfWord,
    Word,
}

/// Size in bytes of an access of width `w`.
pub open spec fn width_bytes(w: Width) -> nat {
    match w {
        Width::Byte => 1,
        Width::HalfWord => 2,
        Width::Word => 4,
    }
}

impl Width {
    /// Size in bytes of an access of this width.
    pub fn bytes(self) -> (r: u32)
        ensures
            r == width_bytes(self),
    {
        match self {
            Width::Byte => 1,
            Width::HalfWord => 2,
            Width::Word => 4,
        }
    }
}

/// Why a register block could not be described.
#[derive(Clone, Copy, Debug, PartialEq, Eq, Structural)]
pub enum RegisterError {
    /// The block runs past the end of the 32-bit address space.
    PastAddressSpace,
}

/// The window `base..base + size` of the address space owned by one
/// peripheral.
pub struct RegisterBlock {
    base: u32,
    size: u32,
}

impl RegisterBlock {
    /// First address of the block.
    pub closed spec fn base_addr(&self) -> nat {
        self.base as nat
    }

    /// Size of the block in bytes.
    pub closed spec fn size_bytes(&self) -> nat {
        self.size as nat
    }

    /// The block lies inside the 32-bit address space.
    pub closed spec fn inv(&self) -> bool {
        self.base + self.size <= 0x1_0000_0000
    }

    /// The address of the register at `offset` of width `w`, where there is one.
    pub open spec fn address_spec(&self, offset: nat, w: Width) -> Option<nat> {
        if offset + width_bytes(w) <= self.size_bytes() && offset % width_bytes(w) == 0 {
            Some(self.base_addr() + offset)
        } else {
            None
        }
    }

    /// Describes the block of `size` bytes at `base`.
    pub fn new(base: u32, size: u32) -> (r: Result<RegisterBlock, RegisterError>)
        ensures
            base + size > 0x1_0000_0000 ==> r == Err::<RegisterBlock, RegisterError>(
                RegisterError::PastAddressSpace,
            ),
            base + size <= 0x1_0000_0000 ==> (r matches Ok(b) && b.inv() && b.base_addr() == base
                && b.size_bytes() == size),
    {
        if size > u32::MAX - base && size - (u32::MAX - base) > 1 {
            Err(RegisterError::PastAddressSpace)
        } else {
            Ok(RegisterBlock { base, size })
        }
    }

    /// The address of the register at `offset` of width `w`, or `None` where
    /// the access would leave the block or is not aligned to its width.
    pub fn address(&self, offset: u32, w: Width) -> (r: Option<u32>)
        requires
            self.inv(),
        ensures
            r matches Some(a) ==> self.address_spec(offset as nat, w) == Some(a as nat),
            r is None ==> self.address_spec(offset as nat, w) is None,
    {
        let n = w.bytes();
        if offset > self.size || self.size - offset < n || offset % n != 0 {
            None
        } else {
            Some(self.base + offset)
        }
    }
}

} // verus!
