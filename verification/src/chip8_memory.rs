//! Memory layout of the machine: 4096 byte cells, addresses 0x000-0xFFF.
//! The low region 0x000-0x1FF is reserved for the interpreter font data;
//! programs are loaded from 0x200 on.

use vstd::prelude::*;

verus! {

/// Number of 8-bit memory cells.
pub const MEMORY_SIZE: usize = 4096;

/// First memory address.
pub const START_MEM: usize = 0x000;

/// Address where program loading begins.
pub const START_PRG: usize = 0x200;

/// Highest valid memory address.
pub const END_MEM: usize = 0xFFF;

} // verus!
