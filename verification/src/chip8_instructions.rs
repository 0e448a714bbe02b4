//! Instruction decoder and executor.
//!
//! `get_instruction_type` classifies a raw 16-bit instruction word into the
//! closed operation set by masked pattern match, most specific masks first;
//! every unmatched pattern is `NOOP`, so decoding is total. One handler per
//! operation performs the documented effect on the machine state and
//! advances the program counter (by 2, by 4 on a satisfied skip, or
//! absolutely for jumps, calls and returns).
//!
//! Conventions that the CHIP-8 folklore leaves open, fixed here:
//! - `SHR`/`SHL` use the historical variant: the source register is Vy,
//!   the shifted result lands in Vx, and VF receives the bit shifted out
//!   of Vy, captured before the shift.
//! - `CALL` stores the program counter at `stack[sp]` and then increments
//!   `sp` (post-increment push); the 16-slot bound is enforced with a
//!   fatal error, as are `RET` on an empty stack and memory accesses
//!   derived from the index register that would leave the 4096 bytes.
//! - When an instruction both writes a result register and defines a flag,
//!   the flag write wins if the instruction names VF as its destination.
//! - Program-counter arithmetic wraps at 16 bits.
//! - A skip on key state treats a register value of 16 or more as "that
//!   key is not pressed".

use crate::chip8::{Chip8, Chip8Error, Chip8ErrorKind, Chip8View, KEYBOARD_SIZE, STACK_SIZE};
use crate::chip8_display::{blank_display, px_index, spec_toggle, xor_px_at, PIXEL_COUNT};
use crate::chip8_memory::MEMORY_SIZE;
use crate::util::copy_slice_into;
use rand::Rng;
use vstd::prelude::*;

verus! {

/// The closed set of operations an instruction word can decode to.
#[allow(non_camel_case_types)]
#[derive(Debug, PartialEq, Eq, Structural)]
pub enum CH8_INSTRUCTION {
    SYS,
    CLS,
    RET,
    JP,
    CALL,
    SE,
    SNE,
    SEVxVy,
    LDVxbyte,
    ADDVxbyte,
    LDVxVy,
    OR,
    AND,
    XOR,
    ADDVxVy,
    SUBVxVy,
    SHR,
    SUBN,
    SHL,
    SNEVxVy,
    LDIaddr,
    JPV0addr,
    RND,
    DRW,
    SKPVx,
    SKNPVx,
    LDVxDT,
    LDVxK,
    LDDTVx,
    LDSTVx,
    ADDIVx,
    LDFVx,
    LDBVx,
    LDIVx,
    LDVxI,
    NOOP,
}

/// The x operand field: bits 8-11 of the instruction word.
pub open spec fn op_x(ins: u16) -> u16 {
    (ins & 0x0F00) >> 8u16
}

/// The y operand field: bits 4-7 of the instruction word.
pub open spec fn op_y(ins: u16) -> u16 {
    (ins & 0x00F0) >> 4u16
}

/// The n operand field: bits 0-3 of the instruction word.
pub open spec fn op_n(ins: u16) -> u16 {
    ins & 0x000F
}

/// The nn operand field: bits 0-7 of the instruction word.
pub open spec fn op_nn(ins: u16) -> u8 {
    (ins & 0x00FF) as u8
}

/// The nnn operand field: bits 0-11 of the instruction word.
pub open spec fn op_nnn(ins: u16) -> u16 {
    ins & 0x0FFF
}

/// The operand fields all sit within their architectural ranges.
pub proof fn lemma_op_bounds(ins: u16)
    ensures
        op_x(ins) < 16,
        op_y(ins) < 16,
        op_n(ins) < 16,
        op_nnn(ins) < 0x1000,
{
    assert((ins & 0x0F00) >> 8u16 < 16) by (bit_vector);
    assert((ins & 0x00F0) >> 4u16 < 16) by (bit_vector);
    assert(ins & 0x000F < 16) by (bit_vector);
    assert(ins & 0x0FFF < 0x1000) by (bit_vector);
}

fn ins_x(ins: u16) -> (r: usize)
    ensures
        r == op_x(ins),
        r < 16,
{
    proof {
        lemma_op_bounds(ins);
    }
    ((ins & 0x0F00) >> 8u16) as usize
}

fn ins_y(ins: u16) -> (r: usize)
    ensures
        r == op_y(ins),
        r < 16,
{
    proof {
        lemma_op_bounds(ins);
    }
    ((ins & 0x00F0) >> 4u16) as usize
}

fn ins_n(ins: u16) -> (r: usize)
    ensures
        r == op_n(ins),
        r < 16,
{
    proof {
        lemma_op_bounds(ins);
    }
    (ins & 0x000F) as usize
}

fn ins_nn(ins: u16) -> (r: u8)
    ensures
        r == op_nn(ins),
{
    (ins & 0x00FF) as u8
}

fn ins_nnn(ins: u16) -> (r: u16)
    ensures
        r == op_nnn(ins),
        r < 0x1000,
{
    proof {
        lemma_op_bounds(ins);
    }
    ins & 0x0FFF
}

/// 16-bit addition that wraps around, as the program counter and index
/// register do.
pub open spec fn wrap_add16(a: u16, b: u16) -> u16 {
    if a + b > 0xFFFF {
        (a + b - 0x10000) as u16
    } else {
        (a + b) as u16
    }
}

/// 8-bit register addition with wraparound (no saturation).
pub open spec fn byte_add(a: u8, b: u8) -> u8 {
    if a + b > 0xFF {
        (a + b - 0x100) as u8
    } else {
        (a + b) as u8
    }
}

/// 8-bit register subtraction with wraparound.
pub open spec fn byte_sub(a: u8, b: u8) -> u8 {
    if a - b < 0 {
        (a - b + 0x100) as u8
    } else {
        (a - b) as u8
    }
}

/// The operation that a raw instruction word denotes, by masked pattern
/// match: full-word matches first, then the sub-family masks, then the
/// single-nibble families; everything left over is `NOOP`.
pub open spec fn spec_decode(ins: u16) -> CH8_INSTRUCTION {
    if ins == 0x00E0 {
        CH8_INSTRUCTION::CLS
    } else if ins == 0x00EE {
        CH8_INSTRUCTION::RET
    } else if ins & 0xF000 == 0x0000 {
        CH8_INSTRUCTION::SYS
    } else if ins & 0xF000 == 0x1000 {
        CH8_INSTRUCTION::JP
    } else if ins & 0xF000 == 0x2000 {
        CH8_INSTRUCTION::CALL
    } else if ins & 0xF000 == 0x3000 {
        CH8_INSTRUCTION::SE
    } else if ins & 0xF000 == 0x4000 {
        CH8_INSTRUCTION::SNE
    } else if ins & 0xF000 == 0x5000 {
        CH8_INSTRUCTION::SEVxVy
    } else if ins & 0xF000 == 0x6000 {
        CH8_INSTRUCTION::LDVxbyte
    } else if ins & 0xF000 == 0x7000 {
        CH8_INSTRUCTION::ADDVxbyte
    } else if ins & 0xF00F == 0x8000 {
        CH8_INSTRUCTION::LDVxVy
    } else if ins & 0xF00F == 0x8001 {
        CH8_INSTRUCTION::OR
    } else if ins & 0xF00F == 0x8002 {
        CH8_INSTRUCTION::AND
    } else if ins & 0xF00F == 0x8003 {
        CH8_INSTRUCTION::XOR
    } else if ins & 0xF00F == 0x8004 {
        CH8_INSTRUCTION::ADDVxVy
    } else if ins & 0xF00F == 0x8005 {
        CH8_INSTRUCTION::SUBVxVy
    } else if ins & 0xF00F == 0x8006 {
        CH8_INSTRUCTION::SHR
    } else if ins & 0xF00F == 0x8007 {
        CH8_INSTRUCTION::SUBN
    } else if ins & 0xF00F == 0x800E {
        CH8_INSTRUCTION::SHL
    } else if ins & 0xF000 == 0x9000 {
        CH8_INSTRUCTION::SNEVxVy
    } else if ins & 0xF000 == 0xA000 {
        CH8_INSTRUCTION::LDIaddr
    } else if ins & 0xF000 == 0xB000 {
        CH8_INSTRUCTION::JPV0addr
    } else if ins & 0xF000 == 0xC000 {
        CH8_INSTRUCTION::RND
    } else if ins & 0xF000 == 0xD000 {
        CH8_INSTRUCTION::DRW
    } else if ins & 0xF0FF == 0xE09E {
        CH8_INSTRUCTION::SKPVx
    } else if ins & 0xF0FF == 0xE0A1 {
        CH8_INSTRUCTION::SKNPVx
    } else if ins & 0xF0FF == 0xF007 {
        CH8_INSTRUCTION::LDVxDT
    } else if ins & 0xF0FF == 0xF00A {
        CH8_INSTRUCTION::LDVxK
    } else if ins & 0xF0FF == 0xF015 {
        CH8_INSTRUCTION::LDDTVx
    } else if ins & 0xF0FF == 0xF018 {
        CH8_INSTRUCTION::LDSTVx
    } else if ins & 0xF0FF == 0xF01E {
        CH8_INSTRUCTION::ADDIVx
    } else if ins & 0xF0FF == 0xF029 {
        CH8_INSTRUCTION::LDFVx
    } else if ins & 0xF0FF == 0xF033 {
        CH8_INSTRUCTION::LDBVx
    } else if ins & 0xF0FF == 0xF055 {
        CH8_INSTRUCTION::LDIVx
    } else if ins & 0xF0FF == 0xF065 {
        CH8_INSTRUCTION::LDVxI
    } else {
        CH8_INSTRUCTION::NOOP
    }
}

/// Decode a raw instruction word. Total: every 16-bit value maps to a tag
/// of the closed operation set, with `NOOP` for unrecognized encodings.
pub fn get_instruction_type(ins: u16) -> (itype: CH8_INSTRUCTION)
    ensures
        itype == spec_decode(ins),
{
    if ins == 0x00E0 {
        CH8_INSTRUCTION::CLS
    } else if ins == 0x00EE {
        CH8_INSTRUCTION::RET
    } else if ins & 0xF000 == 0x0000 {
        CH8_INSTRUCTION::SYS
    } else if ins & 0xF000 == 0x1000 {
        CH8_INSTRUCTION::JP
    } else if ins & 0xF000 == 0x2000 {
        CH8_INSTRUCTION::CALL
    } else if ins & 0xF000 == 0x3000 {
        CH8_INSTRUCTION::SE
    } else if ins & 0xF000 == 0x4000 {
        CH8_INSTRUCTION::SNE
    } else if ins & 0xF000 == 0x5000 {
        CH8_INSTRUCTION::SEVxVy
    } else if ins & 0xF000 == 0x6000 {
        CH8_INSTRUCTION::LDVxbyte
    } else if ins & 0xF000 == 0x7000 {
        CH8_INSTRUCTION::ADDVxbyte
    } else if ins & 0xF00F == 0x8000 {
        CH8_INSTRUCTION::LDVxVy
    } else if ins & 0xF00F == 0x8001 {
        CH8_INSTRUCTION::OR
    } else if ins & 0xF00F == 0x8002 {
        CH8_INSTRUCTION::AND
    } else if ins & 0xF00F == 0x8003 {
        CH8_INSTRUCTION::XOR
    } else if ins & 0xF00F == 0x8004 {
        CH8_INSTRUCTION::ADDVxVy
    } else if ins & 0xF00F == 0x8005 {
        CH8_INSTRUCTION::SUBVxVy
    } else if ins & 0xF00F == 0x8006 {
        CH8_INSTRUCTION::SHR
    } else if ins & 0xF00F == 0x8007 {
        CH8_INSTRUCTION::SUBN
    } else if ins & 0xF00F == 0x800E {
        CH8_INSTRUCTION::SHL
    } else if ins & 0xF000 == 0x9000 {
        CH8_INSTRUCTION::SNEVxVy
    } else if ins & 0xF000 == 0xA000 {
        CH8_INSTRUCTION::LDIaddr
    } else if ins & 0xF000 == 0xB000 {
        CH8_INSTRUCTION::JPV0addr
    } else if ins & 0xF000 == 0xC000 {
        CH8_INSTRUCTION::RND
    } else if ins & 0xF000 == 0xD000 {
        CH8_INSTRUCTION::DRW
    } else if ins & 0xF0FF == 0xE09E {
        CH8_INSTRUCTION::SKPVx
    } else if ins & 0xF0FF == 0xE0A1 {
        CH8_INSTRUCTION::SKNPVx
    } else if ins & 0xF0FF == 0xF007 {
        CH8_INSTRUCTION::LDVxDT
    } else if ins & 0xF0FF == 0xF00A {
        CH8_INSTRUCTION::LDVxK
    } else if ins & 0xF0FF == 0xF015 {
        CH8_INSTRUCTION::LDDTVx
    } else if ins & 0xF0FF == 0xF018 {
        CH8_INSTRUCTION::LDSTVx
    } else if ins & 0xF0FF == 0xF01E {
        CH8_INSTRUCTION::ADDIVx
    } else if ins & 0xF0FF == 0xF029 {
        CH8_INSTRUCTION::LDFVx
    } else if ins & 0xF0FF == 0xF033 {
        CH8_INSTRUCTION::LDBVx
    } else if ins & 0xF0FF == 0xF055 {
        CH8_INSTRUCTION::LDIVx
    } else if ins & 0xF0FF == 0xF065 {
        CH8_INSTRUCTION::LDVxI
    } else {
        CH8_INSTRUCTION::NOOP
    }
}

/// Effect of an instruction with no architectural effect beyond the
/// program-counter advance (`SYS` and unrecognized encodings).
pub open spec fn spec_noop(s: Chip8View) -> Chip8View {
    Chip8View { pc: wrap_add16(s.pc, 2), ..s }
}

/// Effect of `CLS`: every pixel unset.
pub open spec fn spec_cls(s: Chip8View) -> Chip8View {
    Chip8View { display: blank_display(), pc: wrap_add16(s.pc, 2), ..s }
}

/// Effect of `JP nnn`.
pub open spec fn spec_jp(s: Chip8View, ins: u16) -> Chip8View {
    Chip8View { pc: op_nnn(ins), ..s }
}

/// Effect of `LD I, nnn`.
pub open spec fn spec_ldi(s: Chip8View, ins: u16) -> Chip8View {
    Chip8View { i: op_nnn(ins), pc: wrap_add16(s.pc, 2), ..s }
}

/// Effect of `JP V0, nnn`.
pub open spec fn spec_jpv0addr(s: Chip8View, ins: u16) -> Chip8View {
    Chip8View { pc: (op_nnn(ins) + s.vn[0]) as u16, ..s }
}

/// Effect of `SE Vx, nn`: skip the next instruction when Vx equals nn.
pub open spec fn spec_se(s: Chip8View, ins: u16) -> Chip8View {
    Chip8View {
        pc: wrap_add16(s.pc, if s.vn[op_x(ins) as int] == op_nn(ins) { 4 } else { 2 }),
        ..s
    }
}

/// Effect of `SNE Vx, nn`.
pub open spec fn spec_sne(s: Chip8View, ins: u16) -> Chip8View {
    Chip8View {
        pc: wrap_add16(s.pc, if s.vn[op_x(ins) as int] != op_nn(ins) { 4 } else { 2 }),
        ..s
    }
}

/// Effect of `SE Vx, Vy`.
pub open spec fn spec_sevxvy(s: Chip8View, ins: u16) -> Chip8View {
    Chip8View {
        pc: wrap_add16(
            s.pc,
            if s.vn[op_x(ins) as int] == s.vn[op_y(ins) as int] { 4 } else { 2 },
        ),
        ..s
    }
}

/// Effect of `SNE Vx, Vy`.
pub open spec fn spec_snevxvy(s: Chip8View, ins: u16) -> Chip8View {
    Chip8View {
        pc: wrap_add16(
            s.pc,
            if s.vn[op_x(ins) as int] != s.vn[op_y(ins) as int] { 4 } else { 2 },
        ),
        ..s
    }
}

/// Effect of `LD Vx, nn`.
pub open spec fn spec_ldvxb(s: Chip8View, ins: u16) -> Chip8View {
    Chip8View {
        vn: s.vn.update(op_x(ins) as int, op_nn(ins)),
        pc: wrap_add16(s.pc, 2),
        ..s
    }
}

/// Effect of `ADD Vx, nn`: wrapping add, no flag.
pub open spec fn spec_addvxb(s: Chip8View, ins: u16) -> Chip8View {
    Chip8View {
        vn: s.vn.update(op_x(ins) as int, byte_add(s.vn[op_x(ins) as int], op_nn(ins))),
        pc: wrap_add16(s.pc, 2),
        ..s
    }
}

/// Effect of `LD Vx, Vy`.
pub open spec fn spec_ldvxvy(s: Chip8View, ins: u16) -> Chip8View {
    Chip8View {
        vn: s.vn.update(op_x(ins) as int, s.vn[op_y(ins) as int]),
        pc: wrap_add16(s.pc, 2),
        ..s
    }
}

/// Effect of `OR Vx, Vy`.
pub open spec fn spec_or(s: Chip8View, ins: u16) -> Chip8View {
    Chip8View {
        vn: s.vn.update(op_x(ins) as int, s.vn[op_x(ins) as int] | s.vn[op_y(ins) as int]),
        pc: wrap_add16(s.pc, 2),
        ..s
    }
}

/// Effect of `AND Vx, Vy`.
pub open spec fn spec_and(s: Chip8View, ins: u16) -> Chip8View {
    Chip8View {
        vn: s.vn.update(op_x(ins) as int, s.vn[op_x(ins) as int] & s.vn[op_y(ins) as int]),
        pc: wrap_add16(s.pc, 2),
        ..s
    }
}

/// Effect of `XOR Vx, Vy`.
pub open spec fn spec_xor(s: Chip8View, ins: u16) -> Chip8View {
    Chip8View {
        vn: s.vn.update(op_x(ins) as int, s.vn[op_x(ins) as int] ^ s.vn[op_y(ins) as int]),
        pc: wrap_add16(s.pc, 2),
        ..s
    }
}

/// Effect of `ADD Vx, Vy`: VF is 1 exactly when the 9-bit sum exceeds 255;
/// the result wraps. The flag write wins when x is F.
pub open spec fn spec_addvxvy(s: Chip8View, ins: u16) -> Chip8View {
    Chip8View {
        vn: s.vn.update(
            op_x(ins) as int,
            byte_add(s.vn[op_x(ins) as int], s.vn[op_y(ins) as int]),
        ).update(
            15,
            if s.vn[op_x(ins) as int] + s.vn[op_y(ins) as int] > 0xFF { 1u8 } else { 0u8 },
        ),
        pc: wrap_add16(s.pc, 2),
        ..s
    }
}

/// Effect of `SUB Vx, Vy`: VF is 1 exactly when Vx > Vy before the
/// subtraction (no borrow); the result wraps.
pub open spec fn spec_subvxvy(s: Chip8View, ins: u16) -> Chip8View {
    Chip8View {
        vn: s.vn.update(
            op_x(ins) as int,
            byte_sub(s.vn[op_x(ins) as int], s.vn[op_y(ins) as int]),
        ).update(
            15,
            if s.vn[op_x(ins) as int] > s.vn[op_y(ins) as int] { 1u8 } else { 0u8 },
        ),
        pc: wrap_add16(s.pc, 2),
        ..s
    }
}

/// Effect of `SUBN Vx, Vy`: the mirror of `SUB` (Vy - Vx), same flag
/// convention.
pub open spec fn spec_subnvxvy(s: Chip8View, ins: u16) -> Chip8View {
    Chip8View {
        vn: s.vn.update(
            op_x(ins) as int,
            byte_sub(s.vn[op_y(ins) as int], s.vn[op_x(ins) as int]),
        ).update(
            15,
            if s.vn[op_y(ins) as int] > s.vn[op_x(ins) as int] { 1u8 } else { 0u8 },
        ),
        pc: wrap_add16(s.pc, 2),
        ..s
    }
}

/// Effect of `SHR Vx {, Vy}` (historical variant): Vx becomes Vy shifted
/// right one bit, VF the least significant bit of Vy before the shift.
pub open spec fn spec_shr(s: Chip8View, ins: u16) -> Chip8View {
    Chip8View {
        vn: s.vn.update(op_x(ins) as int, s.vn[op_y(ins) as int] >> 1u8).update(
            15,
            s.vn[op_y(ins) as int] & 1u8,
        ),
        pc: wrap_add16(s.pc, 2),
        ..s
    }
}

/// Effect of `SHL Vx {, Vy}` (historical variant): Vx becomes Vy shifted
/// left one bit, VF the most significant bit of Vy before the shift.
pub open spec fn spec_shl(s: Chip8View, ins: u16) -> Chip8View {
    Chip8View {
        vn: s.vn.update(op_x(ins) as int, s.vn[op_y(ins) as int] << 1u8).update(
            15,
            s.vn[op_y(ins) as int] >> 7u8,
        ),
        pc: wrap_add16(s.pc, 2),
        ..s
    }
}

/// Effect of `RND Vx, nn` given the random byte `rb` the generator
/// produced: Vx becomes `rb` masked with nn.
pub open spec fn spec_rnd(s: Chip8View, ins: u16, rb: u8) -> Chip8View {
    Chip8View {
        vn: s.vn.update(op_x(ins) as int, rb & op_nn(ins)),
        pc: wrap_add16(s.pc, 2),
        ..s
    }
}

/// Is the key named by Vx currently pressed? Register values outside the
/// 16 keys count as not pressed.
pub open spec fn spec_key_pressed(s: Chip8View, ins: u16) -> bool {
    s.vn[op_x(ins) as int] < KEYBOARD_SIZE && s.keyboard[s.vn[op_x(ins) as int] as int]
}

/// Effect of `SKP Vx`.
pub open spec fn spec_skpvx(s: Chip8View, ins: u16) -> Chip8View {
    Chip8View { pc: wrap_add16(s.pc, if spec_key_pressed(s, ins) { 4 } else { 2 }), ..s }
}

/// Effect of `SKNP Vx`.
pub open spec fn spec_sknpvx(s: Chip8View, ins: u16) -> Chip8View {
    Chip8View { pc: wrap_add16(s.pc, if spec_key_pressed(s, ins) { 2 } else { 4 }), ..s }
}

/// Effect of `LD Vx, DT`.
pub open spec fn spec_ldvxdt(s: Chip8View, ins: u16) -> Chip8View {
    Chip8View { vn: s.vn.update(op_x(ins) as int, s.dt), pc: wrap_add16(s.pc, 2), ..s }
}

/// Effect of `LD Vx, K`: with a key latched, store it and advance; with no
/// key latched, change nothing, so the next fetch re-executes this
/// instruction (busy wait).
pub open spec fn spec_ldvxk(s: Chip8View, ins: u16) -> Chip8View {
    if s.key < KEYBOARD_SIZE {
        Chip8View {
            vn: s.vn.update(op_x(ins) as int, s.key as u8),
            pc: wrap_add16(s.pc, 2),
            ..s
        }
    } else {
        s
    }
}

/// Effect of `LD DT, Vx`.
pub open spec fn spec_lddtvx(s: Chip8View, ins: u16) -> Chip8View {
    Chip8View { dt: s.vn[op_x(ins) as int], pc: wrap_add16(s.pc, 2), ..s }
}

/// Effect of `LD ST, Vx`.
pub open spec fn spec_ldstvx(s: Chip8View, ins: u16) -> Chip8View {
    Chip8View { st: s.vn[op_x(ins) as int], pc: wrap_add16(s.pc, 2), ..s }
}

/// Effect of `ADD I, Vx`: wrapping add into I, with VF set exactly when
/// the sum leaves the 12-bit address space.
pub open spec fn spec_addivx(s: Chip8View, ins: u16) -> Chip8View {
    Chip8View {
        vn: s.vn.update(15, if s.i + s.vn[op_x(ins) as int] > 0xFFF { 1u8 } else { 0u8 }),
        i: wrap_add16(s.i, s.vn[op_x(ins) as int] as u16),
        pc: wrap_add16(s.pc, 2),
        ..s
    }
}

/// Effect of `LD F, Vx`: point I at the 5-byte font sprite for digit Vx;
/// a register value above 15 names no digit and leaves I unchanged.
pub open spec fn spec_ldfvx(s: Chip8View, ins: u16) -> Chip8View {
    Chip8View {
        i: if s.vn[op_x(ins) as int] <= 15 { (5 * s.vn[op_x(ins) as int]) as u16 } else { s.i },
        pc: wrap_add16(s.pc, 2),
        ..s
    }
}

/// Effect of `RET`: pop the return address into the program counter and
/// perform the standard advance past the call site.
pub open spec fn spec_ret(s: Chip8View) -> Chip8View {
    Chip8View {
        sp: (s.sp - 1) as u8,
        pc: wrap_add16(s.stack[s.sp - 1], 2),
        ..s
    }
}

/// Effect of `CALL nnn`: push the current program counter at `stack[sp]`,
/// increment `sp`, and jump to nnn.
pub open spec fn spec_call(s: Chip8View, ins: u16) -> Chip8View {
    Chip8View {
        stack: s.stack.update(s.sp as int, s.pc),
        sp: (s.sp + 1) as u8,
        pc: op_nnn(ins),
        ..s
    }
}

/// Effect of `LD B, Vx`: the three decimal digits of Vx at I, I+1, I+2.
pub open spec fn spec_ldbvx(s: Chip8View, ins: u16) -> Chip8View {
    Chip8View {
        memory: s.memory.update(s.i as int, s.vn[op_x(ins) as int] / 100).update(
            s.i + 1,
            (s.vn[op_x(ins) as int] / 10) % 10,
        ).update(s.i + 2, s.vn[op_x(ins) as int] % 10),
        pc: wrap_add16(s.pc, 2),
        ..s
    }
}

/// Effect of `LD [I], Vx`: registers V0..Vx stored at I..I+x, then I
/// advanced past the block.
pub open spec fn spec_ldivx(s: Chip8View, ins: u16) -> Chip8View {
    Chip8View {
        memory: Seq::new(
            MEMORY_SIZE as nat,
            |a: int|
                if s.i <= a <= s.i + op_x(ins) {
                    s.vn[a - s.i]
                } else {
                    s.memory[a]
                },
        ),
        i: (s.i + op_x(ins) + 1) as u16,
        pc: wrap_add16(s.pc, 2),
        ..s
    }
}

/// Effect of `LD Vx, [I]`: registers V0..Vx loaded from I..I+x, then I
/// advanced past the block.
pub open spec fn spec_ldvxii(s: Chip8View, ins: u16) -> Chip8View {
    Chip8View {
        vn: Seq::new(
            16,
            |j: int|
                if j <= op_x(ins) {
                    s.memory[s.i + j]
                } else {
                    s.vn[j]
                },
        ),
        i: (s.i + op_x(ins) + 1) as u16,
        pc: wrap_add16(s.pc, 2),
        ..s
    }
}

/// Bit `k` of a sprite row byte, counting from the most significant bit:
/// bit 0 is the leftmost pixel of the row.
pub open spec fn sprite_bit(b: u8, k: u8) -> bool {
    b & (0x80u8 >> k) != 0
}

/// Result of toggling the set bits `k`..8 of sprite row `byte` at row
/// origin (x, y): the grid afterwards, and whether any toggle erased a
/// lit pixel.
pub open spec fn spec_draw_bits(grid: Seq<bool>, byte: u8, x: int, y: int, k: int) -> (Seq<
    bool,
>, bool)
    decreases 8 - k,
{
    if k < 0 || k >= 8 {
        (grid, false)
    } else {
        let hit = sprite_bit(byte, k as u8);
        let g1 = if hit {
            spec_toggle(grid, x + k, y)
        } else {
            grid
        };
        let e1 = hit && grid[px_index(x + k, y)];
        let rest = spec_draw_bits(g1, byte, x, y, k + 1);
        (rest.0, e1 || rest.1)
    }
}

/// Result of drawing sprite rows `j`..`n`, read from memory at I, at
/// origin (x, y): the grid afterwards, and whether any pixel was erased.
pub open spec fn spec_draw_rows(
    grid: Seq<bool>,
    mem: Seq<u8>,
    i: int,
    x: int,
    y: int,
    j: int,
    n: int,
) -> (Seq<bool>, bool)
    decreases n - j,
{
    if j < 0 || j >= n {
        (grid, false)
    } else {
        let row = spec_draw_bits(grid, mem[i + j], x, y + j, 0);
        let rest = spec_draw_rows(row.0, mem, i, x, y, j + 1, n);
        (rest.0, row.1 || rest.1)
    }
}

/// Effect of `DRW Vx, Vy, n`: XOR the n-byte sprite at I onto the display
/// at (Vx, Vy) with wraparound; VF becomes 1 exactly when some toggle
/// erased a lit pixel, and 0 otherwise (it is reset by the instruction,
/// not accumulated).
pub open spec fn spec_drw(s: Chip8View, ins: u16) -> Chip8View {
    let d = spec_draw_rows(
        s.display,
        s.memory,
        s.i as int,
        s.vn[op_x(ins) as int] as int,
        s.vn[op_y(ins) as int] as int,
        0,
        op_n(ins) as int,
    );
    Chip8View {
        display: d.0,
        vn: s.vn.update(15, if d.1 { 1u8 } else { 0u8 }),
        pc: wrap_add16(s.pc, 2),
        ..s
    }
}

/// Toggle the set bits of one sprite row byte at row origin (x, y),
/// reporting whether any toggle erased a lit pixel.
fn draw_row(display: &mut crate::chip8_display::Chip8Display, byte: u8, x: usize, y: usize) -> (erased: bool)
    requires
        old(display).wf(),
        x <= 0xFFFF,
        y <= 0xFFFF,
    ensures
        final(display).wf(),
        final(display)@ == spec_draw_bits(old(display)@, byte, x as int, y as int, 0).0,
        erased == spec_draw_bits(old(display)@, byte, x as int, y as int, 0).1,
{
    let mut erased = false;
    let mut b: usize = 0;
    while b < 8
        invariant
            b <= 8,
            x <= 0xFFFF,
            y <= 0xFFFF,
            display.wf(),
            spec_draw_bits(old(display)@, byte, x as int, y as int, 0).0 == spec_draw_bits(
                display@,
                byte,
                x as int,
                y as int,
                b as int,
            ).0,
            spec_draw_bits(old(display)@, byte, x as int, y as int, 0).1 == (erased
                || spec_draw_bits(display@, byte, x as int, y as int, b as int).1),
        decreases 8 - b,
    {
        let ghost pre = display@;
        let mask: u8 = 0x80u8 >> (b as u8);
        if byte & mask != 0 {
            let lit = xor_px_at(display, x + b, y);
            if lit {
                erased = true;
            }
        }
        proof {
            assert(sprite_bit(byte, b as u8) == (byte & (0x80u8 >> (b as u8)) != 0));
            assert(spec_draw_bits(pre, byte, x as int, y as int, b as int).0 == spec_draw_bits(
                display@,
                byte,
                x as int,
                y as int,
                b as int + 1,
            ).0);
        }
        b = b + 1;
    }
    erased
}

/// Draw the n-byte sprite stored at memory address `i` at origin (x, y),
/// reporting whether any pixel was erased.
fn draw_sprite(
    display: &mut crate::chip8_display::Chip8Display,
    memory: &Vec<u8>,
    i: usize,
    x: usize,
    y: usize,
    n: usize,
) -> (erased: bool)
    requires
        old(display).wf(),
        memory.len() == MEMORY_SIZE,
        x <= 255,
        y <= 255,
        n > 0 ==> i + n <= MEMORY_SIZE,
    ensures
        final(display).wf(),
        final(display)@ == spec_draw_rows(
            old(display)@,
            memory@,
            i as int,
            x as int,
            y as int,
            0,
            n as int,
        ).0,
        erased == spec_draw_rows(
            old(display)@,
            memory@,
            i as int,
            x as int,
            y as int,
            0,
            n as int,
        ).1,
{
    let mut erased = false;
    let mut j: usize = 0;
    while j < n
        invariant
            j <= n,
            x <= 255,
            y <= 255,
            n > 0 ==> i + n <= MEMORY_SIZE,
            memory.len() == MEMORY_SIZE,
            display.wf(),
            spec_draw_rows(old(display)@, memory@, i as int, x as int, y as int, 0, n as int).0
                == spec_draw_rows(
                display@,
                memory@,
                i as int,
                x as int,
                y as int,
                j as int,
                n as int,
            ).0,
            spec_draw_rows(old(display)@, memory@, i as int, x as int, y as int, 0, n as int).1 == (
            erased || spec_draw_rows(
                display@,
                memory@,
                i as int,
                x as int,
                y as int,
                j as int,
                n as int,
            ).1),
        decreases n - j,
    {
        let ghost pre = display@;
        let byte = memory[i + j];
        let e = draw_row(display, byte, x, y + j);
        if e {
            erased = true;
        }
        proof {
            assert(spec_draw_rows(pre, memory@, i as int, x as int, y as int, j as int, n as int).0
                == spec_draw_rows(
                display@,
                memory@,
                i as int,
                x as int,
                y as int,
                j as int + 1,
                n as int,
            ).0);
        }
        j = j + 1;
    }
    erased
}

/// Dxyn - DRW: draw the n-byte sprite at I at coordinates (Vx, Vy) by
/// XOR, wrapping at the display edges; VF reports whether any lit pixel
/// was erased (collision). A sprite read that would leave memory is a
/// fatal error.
pub fn drw(device: &mut Chip8, ins: u16) -> (r: Result<(), Chip8Error>)
    requires
        old(device)@.wf(),
    ensures
        final(device)@.wf(),
        r is Ok <==> (op_n(ins) == 0 || old(device)@.i + op_n(ins) <= MEMORY_SIZE),
        r is Ok ==> final(device)@ == spec_drw(old(device)@, ins),
        r is Err ==> final(device)@ == old(device)@,
        r matches Err(e) ==> e == (Chip8Error {
            pc: old(device).pc,
            ins: ins,
            kind: Chip8ErrorKind::MemoryOutOfBounds,
        }),
{
    let x = ins_x(ins);
    let y = ins_y(ins);
    let n = ins_n(ins);
    if n > 0 && (device.i as usize) + n > MEMORY_SIZE {
        return Err(Chip8Error { pc: device.pc, ins: ins, kind: Chip8ErrorKind::MemoryOutOfBounds });
    }
    let vx = device.vn[x] as usize;
    let vy = device.vn[y] as usize;
    let at = device.i as usize;
    let erased = draw_sprite(&mut device.display, &device.memory, at, vx, vy, n);
    device.vn[0xF] = if erased {
        1
    } else {
        0
    };
    device.pc = device.pc.wrapping_add(2);
    proof {
        assert(device@ =~= spec_drw(old(device)@, ins));
    }
    Ok(())
}

/// 00EE - RET: return from a subroutine. A return with an empty stack is
/// a fatal error and leaves the state untouched.
pub fn ret(device: &mut Chip8, ins: u16) -> (r: Result<(), Chip8Error>)
    requires
        old(device)@.wf(),
    ensures
        final(device)@.wf(),
        r is Ok <==> old(device)@.sp > 0,
        r is Ok ==> final(device)@ == spec_ret(old(device)@),
        r is Err ==> final(device)@ == old(device)@,
        r matches Err(e) ==> e == (Chip8Error {
            pc: old(device).pc,
            ins: ins,
            kind: Chip8ErrorKind::StackUnderflow,
        }),
{
    if device.sp == 0 {
        return Err(Chip8Error { pc: device.pc, ins: ins, kind: Chip8ErrorKind::StackUnderflow });
    }
    device.sp = device.sp - 1;
    device.pc = device.stack[device.sp as usize].wrapping_add(2);
    proof {
        assert(device@ =~= spec_ret(old(device)@));
    }
    Ok(())
}

/// 2nnn - CALL: call the subroutine at nnn. A call beyond 16 nested
/// levels is a fatal error and leaves the state untouched.
pub fn call(device: &mut Chip8, ins: u16) -> (r: Result<(), Chip8Error>)
    requires
        old(device)@.wf(),
    ensures
        final(device)@.wf(),
        r is Ok <==> old(device)@.sp < STACK_SIZE,
        r is Ok ==> final(device)@ == spec_call(old(device)@, ins),
        r is Err ==> final(device)@ == old(device)@,
        r matches Err(e) ==> e == (Chip8Error {
            pc: old(device).pc,
            ins: ins,
            kind: Chip8ErrorKind::StackOverflow,
        }),
{
    if device.sp as usize >= STACK_SIZE {
        return Err(Chip8Error { pc: device.pc, ins: ins, kind: Chip8ErrorKind::StackOverflow });
    }
    device.stack[device.sp as usize] = device.pc;
    device.sp = device.sp + 1;
    device.pc = ins_nnn(ins);
    proof {
        assert(device@ =~= spec_call(old(device)@, ins));
    }
    Ok(())
}

/// Fx33 - LD B, Vx: store the hundreds, tens and ones digits of Vx at
/// I, I+1 and I+2. A write that would leave memory is a fatal error.
pub fn ldbvx(device: &mut Chip8, ins: u16) -> (r: Result<(), Chip8Error>)
    requires
        old(device)@.wf(),
    ensures
        final(device)@.wf(),
        r is Ok <==> old(device)@.i + 2 < MEMORY_SIZE,
        r is Ok ==> final(device)@ == spec_ldbvx(old(device)@, ins),
        r is Err ==> final(device)@ == old(device)@,
        r matches Err(e) ==> e == (Chip8Error {
            pc: old(device).pc,
            ins: ins,
            kind: Chip8ErrorKind::MemoryOutOfBounds,
        }),
{
    if (device.i as usize) + 2 >= MEMORY_SIZE {
        return Err(Chip8Error { pc: device.pc, ins: ins, kind: Chip8ErrorKind::MemoryOutOfBounds });
    }
    let x = ins_x(ins);
    let at = device.i as usize;
    let number = device.vn[x];
    device.memory[at] = number / 100;
    device.memory[at + 1] = (number / 10) % 10;
    device.memory[at + 2] = number % 10;
    device.pc = device.pc.wrapping_add(2);
    proof {
        assert(device@ =~= spec_ldbvx(old(device)@, ins));
    }
    Ok(())
}

/// Fx55 - LD [I], Vx: store V0 through Vx in memory starting at I, then
/// advance I past the stored block. A write that would leave memory is a
/// fatal error.
pub fn ldivx(device: &mut Chip8, ins: u16) -> (r: Result<(), Chip8Error>)
    requires
        old(device)@.wf(),
    ensures
        final(device)@.wf(),
        r is Ok <==> old(device)@.i + op_x(ins) < MEMORY_SIZE,
        r is Ok ==> final(device)@ == spec_ldivx(old(device)@, ins),
        r is Err ==> final(device)@ == old(device)@,
        r matches Err(e) ==> e == (Chip8Error {
            pc: old(device).pc,
            ins: ins,
            kind: Chip8ErrorKind::MemoryOutOfBounds,
        }),
{
    let x = ins_x(ins);
    if (device.i as usize) + x >= MEMORY_SIZE {
        return Err(Chip8Error { pc: device.pc, ins: ins, kind: Chip8ErrorKind::MemoryOutOfBounds });
    }
    let at = device.i as usize;
    copy_slice_into(&mut device.memory, at, &device.vn, 0, x + 1);
    device.i = device.i + (x as u16) + 1;
    device.pc = device.pc.wrapping_add(2);
    proof {
        assert(device@.memory =~= spec_ldivx(old(device)@, ins).memory);
        assert(device@ =~= spec_ldivx(old(device)@, ins));
    }
    Ok(())
}

/// Fx65 - LD Vx, [I]: load V0 through Vx from memory starting at I, then
/// advance I past the read block. A read that would leave memory is a
/// fatal error.
pub fn ldvxii(device: &mut Chip8, ins: u16) -> (r: Result<(), Chip8Error>)
    requires
        old(device)@.wf(),
    ensures
        final(device)@.wf(),
        r is Ok <==> old(device)@.i + op_x(ins) < MEMORY_SIZE,
        r is Ok ==> final(device)@ == spec_ldvxii(old(device)@, ins),
        r is Err ==> final(device)@ == old(device)@,
        r matches Err(e) ==> e == (Chip8Error {
            pc: old(device).pc,
            ins: ins,
            kind: Chip8ErrorKind::MemoryOutOfBounds,
        }),
{
    let x = ins_x(ins);
    if (device.i as usize) + x >= MEMORY_SIZE {
        return Err(Chip8Error { pc: device.pc, ins: ins, kind: Chip8ErrorKind::MemoryOutOfBounds });
    }
    let at = device.i as usize;
    copy_slice_into(&mut device.vn, 0, &device.memory, at, x + 1);
    device.i = device.i + (x as u16) + 1;
    device.pc = device.pc.wrapping_add(2);
    proof {
        assert(device@.vn =~= spec_ldvxii(old(device)@, ins).vn);
        assert(device@ =~= spec_ldvxii(old(device)@, ins));
    }
    Ok(())
}

/// 00E0 - CLS: clear the display.
pub fn cls(device: &mut Chip8, _ins: u16)
    requires
        old(device)@.wf(),
    ensures
        final(device)@.wf(),
        final(device)@ == spec_cls(old(device)@),
{
    device.display.clear();
    device.pc = device.pc.wrapping_add(2);
    proof {
        assert(device@ =~= spec_cls(old(device)@));
    }
}

/// 1nnn - JP: jump to nnn.
pub fn jp(device: &mut Chip8, ins: u16)
    requires
        old(device)@.wf(),
    ensures
        final(device)@.wf(),
        final(device)@ == spec_jp(old(device)@, ins),
{
    device.pc = ins_nnn(ins);
    proof {
        assert(device@ =~= spec_jp(old(device)@, ins));
    }
}

/// Annn - LD I: set the index register to nnn.
pub fn ldi(device: &mut Chip8, ins: u16)
    requires
        old(device)@.wf(),
    ensures
        final(device)@.wf(),
        final(device)@ == spec_ldi(old(device)@, ins),
{
    device.i = ins_nnn(ins);
    device.pc = device.pc.wrapping_add(2);
    proof {
        assert(device@ =~= spec_ldi(old(device)@, ins));
    }
}

/// Bnnn - JP V0: jump to nnn plus V0.
pub fn jpv0addr(device: &mut Chip8, ins: u16)
    requires
        old(device)@.wf(),
    ensures
        final(device)@.wf(),
        final(device)@ == spec_jpv0addr(old(device)@, ins),
{
    device.pc = ins_nnn(ins) + (device.vn[0] as u16);
    proof {
        assert(device@ =~= spec_jpv0addr(old(device)@, ins));
    }
}

/// 3xnn - SE: skip the next instruction when Vx equals nn.
pub fn se(device: &mut Chip8, ins: u16)
    requires
        old(device)@.wf(),
    ensures
        final(device)@.wf(),
        final(device)@ == spec_se(old(device)@, ins),
{
    let x = ins_x(ins);
    let step: u16 = if device.vn[x] == ins_nn(ins) { 4 } else { 2 };
    device.pc = device.pc.wrapping_add(step);
    proof {
        assert(device@ =~= spec_se(old(device)@, ins));
    }
}

/// 4xnn - SNE: skip the next instruction when Vx differs from nn.
pub fn sne(device: &mut Chip8, ins: u16)
    requires
        old(device)@.wf(),
    ensures
        final(device)@.wf(),
        final(device)@ == spec_sne(old(device)@, ins),
{
    let x = ins_x(ins);
    let step: u16 = if device.vn[x] != ins_nn(ins) { 4 } else { 2 };
    device.pc = device.pc.wrapping_add(step);
    proof {
        assert(device@ =~= spec_sne(old(device)@, ins));
    }
}

/// 5xy0 - SE: skip the next instruction when Vx equals Vy.
pub fn sevxvy(device: &mut Chip8, ins: u16)
    requires
        old(device)@.wf(),
    ensures
        final(device)@.wf(),
        final(device)@ == spec_sevxvy(old(device)@, ins),
{
    let x = ins_x(ins);
    let y = ins_y(ins);
    let step: u16 = if device.vn[x] == device.vn[y] { 4 } else { 2 };
    device.pc = device.pc.wrapping_add(step);
    proof {
        assert(device@ =~= spec_sevxvy(old(device)@, ins));
    }
}

/// 9xy0 - SNE: skip the next instruction when Vx differs from Vy.
pub fn snevxvy(device: &mut Chip8, ins: u16)
    requires
        old(device)@.wf(),
    ensures
        final(device)@.wf(),
        final(device)@ == spec_snevxvy(old(device)@, ins),
{
    let x = ins_x(ins);
    let y = ins_y(ins);
    let step: u16 = if device.vn[x] != device.vn[y] { 4 } else { 2 };
    device.pc = device.pc.wrapping_add(step);
    proof {
        assert(device@ =~= spec_snevxvy(old(device)@, ins));
    }
}

/// 6xnn - LD: set Vx to nn.
pub fn ldvxb(device: &mut Chip8, ins: u16)
    requires
        old(device)@.wf(),
    ensures
        final(device)@.wf(),
        final(device)@ == spec_ldvxb(old(device)@, ins),
{
    let x = ins_x(ins);
    device.vn[x] = ins_nn(ins);
    device.pc = device.pc.wrapping_add(2);
    proof {
        assert(device@ =~= spec_ldvxb(old(device)@, ins));
    }
}

/// 7xnn - ADD: add nn to Vx with wraparound; no flag is touched.
pub fn addvxb(device: &mut Chip8, ins: u16)
    requires
        old(device)@.wf(),
    ensures
        final(device)@.wf(),
        final(device)@ == spec_addvxb(old(device)@, ins),
{
    let x = ins_x(ins);
    let vx = device.vn[x];
    device.vn[x] = vx.wrapping_add(ins_nn(ins));
    device.pc = device.pc.wrapping_add(2);
    proof {
        assert(device@ =~= spec_addvxb(old(device)@, ins));
    }
}

/// 8xy0 - LD: copy Vy into Vx.
pub fn ldvxvy(device: &mut Chip8, ins: u16)
    requires
        old(device)@.wf(),
    ensures
        final(device)@.wf(),
        final(device)@ == spec_ldvxvy(old(device)@, ins),
{
    let x = ins_x(ins);
    let y = ins_y(ins);
    device.vn[x] = device.vn[y];
    device.pc = device.pc.wrapping_add(2);
    proof {
        assert(device@ =~= spec_ldvxvy(old(device)@, ins));
    }
}

/// 8xy1 - OR: bitwise or of Vx and Vy into Vx.
pub fn or(device: &mut Chip8, ins: u16)
    requires
        old(device)@.wf(),
    ensures
        final(device)@.wf(),
        final(device)@ == spec_or(old(device)@, ins),
{
    let x = ins_x(ins);
    let y = ins_y(ins);
    device.vn[x] = device.vn[x] | device.vn[y];
    device.pc = device.pc.wrapping_add(2);
    proof {
        assert(device@ =~= spec_or(old(device)@, ins));
    }
}

/// 8xy2 - AND: bitwise and of Vx and Vy into Vx.
pub fn and(device: &mut Chip8, ins: u16)
    requires
        old(device)@.wf(),
    ensures
        final(device)@.wf(),
        final(device)@ == spec_and(old(device)@, ins),
{
    let x = ins_x(ins);
    let y = ins_y(ins);
    device.vn[x] = device.vn[x] & device.vn[y];
    device.pc = device.pc.wrapping_add(2);
    proof {
        assert(device@ =~= spec_and(old(device)@, ins));
    }
}

/// 8xy3 - XOR: bitwise exclusive or of Vx and Vy into Vx.
pub fn xor(device: &mut Chip8, ins: u16)
    requires
        old(device)@.wf(),
    ensures
        final(device)@.wf(),
        final(device)@ == spec_xor(old(device)@, ins),
{
    let x = ins_x(ins);
    let y = ins_y(ins);
    device.vn[x] = device.vn[x] ^ device.vn[y];
    device.pc = device.pc.wrapping_add(2);
    proof {
        assert(device@ =~= spec_xor(old(device)@, ins));
    }
}

/// 8xy4 - ADD: Vx = Vx + Vy with wraparound; VF = 1 exactly when the
/// 9-bit sum exceeds 255 (carry).
pub fn addvxvy(device: &mut Chip8, ins: u16)
    requires
        old(device)@.wf(),
    ensures
        final(device)@.wf(),
        final(device)@ == spec_addvxvy(old(device)@, ins),
{
    let x = ins_x(ins);
    let y = ins_y(ins);
    let vx = device.vn[x];
    let vy = device.vn[y];
    let sum: u16 = (vx as u16) + (vy as u16);
    device.vn[x] = vx.wrapping_add(vy);
    device.vn[0xF] = if sum > 0xFF { 1 } else { 0 };
    device.pc = device.pc.wrapping_add(2);
    proof {
        assert(device@ =~= spec_addvxvy(old(device)@, ins));
    }
}

/// 8xy5 - SUB: Vx = Vx - Vy with wraparound; VF = 1 exactly when Vx > Vy
/// before the subtraction (VF = 0 signals a borrow).
pub fn subvxvy(device: &mut Chip8, ins: u16)
    requires
        old(device)@.wf(),
    ensures
        final(device)@.wf(),
        final(device)@ == spec_subvxvy(old(device)@, ins),
{
    let x = ins_x(ins);
    let y = ins_y(ins);
    let vx = device.vn[x];
    let vy = device.vn[y];
    device.vn[x] = vx.wrapping_sub(vy);
    device.vn[0xF] = if vx > vy { 1 } else { 0 };
    device.pc = device.pc.wrapping_add(2);
    proof {
        assert(device@ =~= spec_subvxvy(old(device)@, ins));
    }
}

/// 8xy7 - SUBN: Vx = Vy - Vx with wraparound; VF = 1 exactly when
/// Vy > Vx before the subtraction.
pub fn subnvxvy(device: &mut Chip8, ins: u16)
    requires
        old(device)@.wf(),
    ensures
        final(device)@.wf(),
        final(device)@ == spec_subnvxvy(old(device)@, ins),
{
    let x = ins_x(ins);
    let y = ins_y(ins);
    let vx = device.vn[x];
    let vy = device.vn[y];
    device.vn[x] = vy.wrapping_sub(vx);
    device.vn[0xF] = if vy > vx { 1 } else { 0 };
    device.pc = device.pc.wrapping_add(2);
    proof {
        assert(device@ =~= spec_subnvxvy(old(device)@, ins));
    }
}

/// 8xy6 - SHR (historical variant): Vx = Vy >> 1; VF = the least
/// significant bit of Vy before the shift.
pub fn shr(device: &mut Chip8, ins: u16)
    requires
        old(device)@.wf(),
    ensures
        final(device)@.wf(),
        final(device)@ == spec_shr(old(device)@, ins),
{
    let x = ins_x(ins);
    let y = ins_y(ins);
    let src = device.vn[y];
    device.vn[x] = src >> 1u8;
    device.vn[0xF] = src & 1u8;
    device.pc = device.pc.wrapping_add(2);
    proof {
        assert(device@ =~= spec_shr(old(device)@, ins));
    }
}

/// 8xyE - SHL (historical variant): Vx = Vy << 1 truncated to 8 bits;
/// VF = the most significant bit of Vy before the shift.
pub fn shl(device: &mut Chip8, ins: u16)
    requires
        old(device)@.wf(),
    ensures
        final(device)@.wf(),
        final(device)@ == spec_shl(old(device)@, ins),
{
    let x = ins_x(ins);
    let y = ins_y(ins);
    let src = device.vn[y];
    device.vn[x] = src << 1u8;
    device.vn[0xF] = src >> 7u8;
    device.pc = device.pc.wrapping_add(2);
    proof {
        assert(device@ =~= spec_shl(old(device)@, ins));
    }
}

/// Cxnn - RND: Vx = `rb` AND nn, where `rb` is the byte the host random
/// number generator produced for this instruction.
pub fn rnd(device: &mut Chip8, ins: u16, rb: u8)
    requires
        old(device)@.wf(),
    ensures
        final(device)@.wf(),
        final(device)@ == spec_rnd(old(device)@, ins, rb),
{
    let x = ins_x(ins);
    device.vn[x] = rb & ins_nn(ins);
    device.pc = device.pc.wrapping_add(2);
    proof {
        assert(device@ =~= spec_rnd(old(device)@, ins, rb));
    }
}

/// Ex9E - SKP: skip the next instruction when the key named by Vx is
/// pressed; a register value of 16 or more names no key.
pub fn skpvx(device: &mut Chip8, ins: u16)
    requires
        old(device)@.wf(),
    ensures
        final(device)@.wf(),
        final(device)@ == spec_skpvx(old(device)@, ins),
{
    let x = ins_x(ins);
    let k = device.vn[x] as usize;
    let pressed = k < KEYBOARD_SIZE && device.keyboard[k];
    let step: u16 = if pressed { 4 } else { 2 };
    device.pc = device.pc.wrapping_add(step);
    proof {
        assert(device@ =~= spec_skpvx(old(device)@, ins));
    }
}

/// ExA1 - SKNP: skip the next instruction when the key named by Vx is not
/// pressed.
pub fn sknpvx(device: &mut Chip8, ins: u16)
    requires
        old(device)@.wf(),
    ensures
        final(device)@.wf(),
        final(device)@ == spec_sknpvx(old(device)@, ins),
{
    let x = ins_x(ins);
    let k = device.vn[x] as usize;
    let pressed = k < KEYBOARD_SIZE && device.keyboard[k];
    let step: u16 = if pressed { 2 } else { 4 };
    device.pc = device.pc.wrapping_add(step);
    proof {
        assert(device@ =~= spec_sknpvx(old(device)@, ins));
    }
}

/// Fx07 - LD: copy the delay timer into Vx.
pub fn ldvxdt(device: &mut Chip8, ins: u16)
    requires
        old(device)@.wf(),
    ensures
        final(device)@.wf(),
        final(device)@ == spec_ldvxdt(old(device)@, ins),
{
    let x = ins_x(ins);
    device.vn[x] = device.dt;
    device.pc = device.pc.wrapping_add(2);
    proof {
        assert(device@ =~= spec_ldvxdt(old(device)@, ins));
    }
}

/// Fx0A - LD Vx, K: with a key latched, store its index in Vx and
/// advance; otherwise change nothing, so the cycle driver re-executes this
/// instruction every cycle until a key arrives (busy wait).
pub fn ldvxk(device: &mut Chip8, ins: u16)
    requires
        old(device)@.wf(),
    ensures
        final(device)@.wf(),
        final(device)@ == spec_ldvxk(old(device)@, ins),
{
    let x = ins_x(ins);
    if device.key < KEYBOARD_SIZE {
        device.vn[x] = device.key as u8;
        device.pc = device.pc.wrapping_add(2);
    }
    proof {
        assert(device@ =~= spec_ldvxk(old(device)@, ins));
    }
}

/// Fx15 - LD: set the delay timer from Vx.
pub fn lddtvx(device: &mut Chip8, ins: u16)
    requires
        old(device)@.wf(),
    ensures
        final(device)@.wf(),
        final(device)@ == spec_lddtvx(old(device)@, ins),
{
    let x = ins_x(ins);
    device.dt = device.vn[x];
    device.pc = device.pc.wrapping_add(2);
    proof {
        assert(device@ =~= spec_lddtvx(old(device)@, ins));
    }
}

/// Fx18 - LD: set the sound timer from Vx.
pub fn ldstvx(device: &mut Chip8, ins: u16)
    requires
        old(device)@.wf(),
    ensures
        final(device)@.wf(),
        final(device)@ == spec_ldstvx(old(device)@, ins),
{
    let x = ins_x(ins);
    device.st = device.vn[x];
    device.pc = device.pc.wrapping_add(2);
    proof {
        assert(device@ =~= spec_ldstvx(old(device)@, ins));
    }
}

/// Fx1E - ADD I, Vx: wrapping add into I; VF = 1 exactly when the sum
/// leaves the 12-bit address space.
pub fn addivx(device: &mut Chip8, ins: u16)
    requires
        old(device)@.wf(),
    ensures
        final(device)@.wf(),
        final(device)@ == spec_addivx(old(device)@, ins),
{
    let x = ins_x(ins);
    let v = device.vn[x];
    let over = (device.i as u32) + (v as u32) > 0xFFF;
    device.vn[0xF] = if over { 1 } else { 0 };
    device.i = device.i.wrapping_add(v as u16);
    device.pc = device.pc.wrapping_add(2);
    proof {
        assert(device@ =~= spec_addivx(old(device)@, ins));
    }
}

/// Fx29 - LD F, Vx: point I at the font sprite for digit Vx (5 bytes per
/// digit, starting at address 0); values above 15 leave I unchanged.
pub fn ldfvx(device: &mut Chip8, ins: u16)
    requires
        old(device)@.wf(),
    ensures
        final(device)@.wf(),
        final(device)@ == spec_ldfvx(old(device)@, ins),
{
    let x = ins_x(ins);
    let v = device.vn[x];
    if v <= 15 {
        device.i = 5 * (v as u16);
    }
    device.pc = device.pc.wrapping_add(2);
    proof {
        assert(device@ =~= spec_ldfvx(old(device)@, ins));
    }
}

/// Relies on rand: `thread_rng().gen::<u8>()` draws a uniformly
/// distributed random byte in [0, 255]. Nothing is promised of its value.
#[verifier::external_body]
fn random_byte() -> u8 {
    rand::thread_rng().gen::<u8>()
}

/// Can the instruction complete on this state, or does it hit a fatal
/// error (stack underflow or overflow, or a memory access derived from
/// the index register that would leave the 4096 bytes)?
pub open spec fn spec_exec_ok(s: Chip8View, ins: u16) -> bool {
    match spec_decode(ins) {
        CH8_INSTRUCTION::RET => s.sp > 0,
        CH8_INSTRUCTION::CALL => s.sp < STACK_SIZE,
        CH8_INSTRUCTION::DRW => op_n(ins) == 0 || s.i + op_n(ins) <= MEMORY_SIZE,
        CH8_INSTRUCTION::LDBVx => s.i + 2 < MEMORY_SIZE,
        CH8_INSTRUCTION::LDIVx => s.i + op_x(ins) < MEMORY_SIZE,
        CH8_INSTRUCTION::LDVxI => s.i + op_x(ins) < MEMORY_SIZE,
        _ => true,
    }
}

/// Which fatal error the instruction reports when it cannot complete.
pub open spec fn spec_exec_err_kind(s: Chip8View, ins: u16) -> Chip8ErrorKind {
    match spec_decode(ins) {
        CH8_INSTRUCTION::RET => Chip8ErrorKind::StackUnderflow,
        CH8_INSTRUCTION::CALL => Chip8ErrorKind::StackOverflow,
        _ => Chip8ErrorKind::MemoryOutOfBounds,
    }
}

/// The machine state after executing instruction word `ins`, given the
/// random byte `rb` that a `RND` instruction would consume; meaningful
/// when `spec_exec_ok` holds. Only `RND` depends on `rb`.
pub open spec fn spec_exec(s: Chip8View, ins: u16, rb: u8) -> Chip8View {
    match spec_decode(ins) {
        CH8_INSTRUCTION::SYS => spec_noop(s),
        CH8_INSTRUCTION::CLS => spec_cls(s),
        CH8_INSTRUCTION::RET => spec_ret(s),
        CH8_INSTRUCTION::JP => spec_jp(s, ins),
        CH8_INSTRUCTION::CALL => spec_call(s, ins),
        CH8_INSTRUCTION::SE => spec_se(s, ins),
        CH8_INSTRUCTION::SNE => spec_sne(s, ins),
        CH8_INSTRUCTION::SEVxVy => spec_sevxvy(s, ins),
        CH8_INSTRUCTION::LDVxbyte => spec_ldvxb(s, ins),
        CH8_INSTRUCTION::ADDVxbyte => spec_addvxb(s, ins),
        CH8_INSTRUCTION::LDVxVy => spec_ldvxvy(s, ins),
        CH8_INSTRUCTION::OR => spec_or(s, ins),
        CH8_INSTRUCTION::AND => spec_and(s, ins),
        CH8_INSTRUCTION::XOR => spec_xor(s, ins),
        CH8_INSTRUCTION::ADDVxVy => spec_addvxvy(s, ins),
        CH8_INSTRUCTION::SUBVxVy => spec_subvxvy(s, ins),
        CH8_INSTRUCTION::SHR => spec_shr(s, ins),
        CH8_INSTRUCTION::SUBN => spec_subnvxvy(s, ins),
        CH8_INSTRUCTION::SHL => spec_shl(s, ins),
        CH8_INSTRUCTION::SNEVxVy => spec_snevxvy(s, ins),
        CH8_INSTRUCTION::LDIaddr => spec_ldi(s, ins),
        CH8_INSTRUCTION::JPV0addr => spec_jpv0addr(s, ins),
        CH8_INSTRUCTION::RND => spec_rnd(s, ins, rb),
        CH8_INSTRUCTION::DRW => spec_drw(s, ins),
        CH8_INSTRUCTION::SKPVx => spec_skpvx(s, ins),
        CH8_INSTRUCTION::SKNPVx => spec_sknpvx(s, ins),
        CH8_INSTRUCTION::LDVxDT => spec_ldvxdt(s, ins),
        CH8_INSTRUCTION::LDVxK => spec_ldvxk(s, ins),
        CH8_INSTRUCTION::LDDTVx => spec_lddtvx(s, ins),
        CH8_INSTRUCTION::LDSTVx => spec_ldstvx(s, ins),
        CH8_INSTRUCTION::ADDIVx => spec_addivx(s, ins),
        CH8_INSTRUCTION::LDFVx => spec_ldfvx(s, ins),
        CH8_INSTRUCTION::LDBVx => spec_ldbvx(s, ins),
        CH8_INSTRUCTION::LDIVx => spec_ldivx(s, ins),
        CH8_INSTRUCTION::LDVxI => spec_ldvxii(s, ins),
        CH8_INSTRUCTION::NOOP => spec_noop(s),
    }
}

/// Decode and execute one instruction word against the machine state.
///
/// Succeeds exactly when `spec_exec_ok` allows it; on success the state
/// becomes `spec_exec` of the old state for some random byte (and for
/// every instruction but `RND` the byte is irrelevant). On a fatal error
/// the state is untouched and the error reports the offending program
/// counter and instruction word.
pub fn exec(ins: u16, device: &mut Chip8) -> (r: Result<(), Chip8Error>)
    requires
        old(device)@.wf(),
    ensures
        final(device)@.wf(),
        r is Ok <==> spec_exec_ok(old(device)@, ins),
        r is Ok ==> exists|rb: u8| final(device)@ == spec_exec(old(device)@, ins, rb),
        r is Ok && spec_decode(ins) != CH8_INSTRUCTION::RND ==> final(device)@ == spec_exec(
            old(device)@,
            ins,
            0,
        ),
        r is Err ==> final(device)@ == old(device)@,
        r matches Err(e) ==> e == (Chip8Error {
            pc: old(device).pc,
            ins: ins,
            kind: spec_exec_err_kind(old(device)@, ins),
        }),
{
    let itype = get_instruction_type(ins);
    let r = match itype {
        CH8_INSTRUCTION::SYS => {
            device.pc = device.pc.wrapping_add(2);
            proof {
                assert(device@ =~= spec_noop(old(device)@));
            }
            Ok(())
        },
        CH8_INSTRUCTION::CLS => {
            cls(device, ins);
            Ok(())
        },
        CH8_INSTRUCTION::RET => ret(device, ins),
        CH8_INSTRUCTION::JP => {
            jp(device, ins);
            Ok(())
        },
        CH8_INSTRUCTION::CALL => call(device, ins),
        CH8_INSTRUCTION::SE => {
            se(device, ins);
            Ok(())
        },
        CH8_INSTRUCTION::SNE => {
            sne(device, ins);
            Ok(())
        },
        CH8_INSTRUCTION::SEVxVy => {
            sevxvy(device, ins);
            Ok(())
        },
        CH8_INSTRUCTION::LDVxbyte => {
            ldvxb(device, ins);
            Ok(())
        },
        CH8_INSTRUCTION::ADDVxbyte => {
            addvxb(device, ins);
            Ok(())
        },
        CH8_INSTRUCTION::LDVxVy => {
            ldvxvy(device, ins);
            Ok(())
        },
        CH8_INSTRUCTION::OR => {
            or(device, ins);
            Ok(())
        },
        CH8_INSTRUCTION::AND => {
            and(device, ins);
            Ok(())
        },
        CH8_INSTRUCTION::XOR => {
            xor(device, ins);
            Ok(())
        },
        CH8_INSTRUCTION::ADDVxVy => {
            addvxvy(device, ins);
            Ok(())
        },
        CH8_INSTRUCTION::SUBVxVy => {
            subvxvy(device, ins);
            Ok(())
        },
        CH8_INSTRUCTION::SHR => {
            shr(device, ins);
            Ok(())
        },
        CH8_INSTRUCTION::SUBN => {
            subnvxvy(device, ins);
            Ok(())
        },
        CH8_INSTRUCTION::SHL => {
            shl(device, ins);
            Ok(())
        },
        CH8_INSTRUCTION::SNEVxVy => {
            snevxvy(device, ins);
            Ok(())
        },
        CH8_INSTRUCTION::LDIaddr => {
            ldi(device, ins);
            Ok(())
        },
        CH8_INSTRUCTION::JPV0addr => {
            jpv0addr(device, ins);
            Ok(())
        },
        CH8_INSTRUCTION::RND => {
            let rb = random_byte();
            rnd(device, ins, rb);
            proof {
                assert(device@ == spec_exec(old(device)@, ins, rb));
            }
            Ok(())
        },
        CH8_INSTRUCTION::DRW => drw(device, ins),
        CH8_INSTRUCTION::SKPVx => {
            skpvx(device, ins);
            Ok(())
        },
        CH8_INSTRUCTION::SKNPVx => {
            sknpvx(device, ins);
            Ok(())
        },
        CH8_INSTRUCTION::LDVxDT => {
            ldvxdt(device, ins);
            Ok(())
        },
        CH8_INSTRUCTION::LDVxK => {
            ldvxk(device, ins);
            Ok(())
        },
        CH8_INSTRUCTION::LDDTVx => {
            lddtvx(device, ins);
            Ok(())
        },
        CH8_INSTRUCTION::LDSTVx => {
            ldstvx(device, ins);
            Ok(())
        },
        CH8_INSTRUCTION::ADDIVx => {
            addivx(device, ins);
            Ok(())
        },
        CH8_INSTRUCTION::LDFVx => {
            ldfvx(device, ins);
            Ok(())
        },
        CH8_INSTRUCTION::LDBVx => ldbvx(device, ins),
        CH8_INSTRUCTION::LDIVx => ldivx(device, ins),
        CH8_INSTRUCTION::LDVxI => ldvxii(device, ins),
        CH8_INSTRUCTION::NOOP => {
            device.pc = device.pc.wrapping_add(2);
            proof {
                assert(device@ =~= spec_noop(old(device)@));
            }
            Ok(())
        },
    };
    proof {
        if r is Ok && spec_decode(ins) != CH8_INSTRUCTION::RND {
            assert(device@ == spec_exec(old(device)@, ins, 0));
        }
    }
    r
}

/// After a clear-screen instruction every pixel reads unset, whatever the
/// machine state before it (in particular after any draw).
pub proof fn lemma_cls_clears_display(s: Chip8View, ins: u16, rb: u8)
    requires
        spec_decode(ins) == CH8_INSTRUCTION::CLS,
    ensures
        forall|p: int| 0 <= p < PIXEL_COUNT ==> !spec_exec(s, ins, rb).display[p],
{
}

/// A subroutine call followed immediately by a return resumes execution
/// at the instruction after the call, with the stack depth it had before
/// the call.
pub proof fn lemma_call_ret_round_trip(s: Chip8View, call_ins: u16, ret_ins: u16, rb1: u8, rb2: u8)
    requires
        s.wf(),
        s.sp < STACK_SIZE,
        spec_decode(call_ins) == CH8_INSTRUCTION::CALL,
        spec_decode(ret_ins) == CH8_INSTRUCTION::RET,
    ensures
        spec_exec_ok(s, call_ins),
        spec_exec_ok(spec_exec(s, call_ins, rb1), ret_ins),
        spec_exec(spec_exec(s, call_ins, rb1), ret_ins, rb2).pc == wrap_add16(s.pc, 2),
        spec_exec(spec_exec(s, call_ins, rb1), ret_ins, rb2).sp == s.sp,
{
    let s1 = spec_exec(s, call_ins, rb1);
    assert(s1.stack[s.sp as int] == s.pc);
}

/// While no key is latched, the key-wait instruction makes no progress at
/// all: the machine state is unchanged, so the next fetch re-executes the
/// same instruction. Once a key below 16 is latched, executing it stores
/// that key in Vx and advances the program counter past itself.
pub proof fn lemma_key_wait_busy_waits(s: Chip8View, ins: u16, rb: u8)
    requires
        s.wf(),
        spec_decode(ins) == CH8_INSTRUCTION::LDVxK,
    ensures
        s.key >= KEYBOARD_SIZE ==> spec_exec(s, ins, rb) == s,
        s.key < KEYBOARD_SIZE ==> spec_exec(s, ins, rb).pc == wrap_add16(s.pc, 2)
            && spec_exec(s, ins, rb).vn[op_x(ins) as int] == s.key as u8,
{
    lemma_op_bounds(ins);
    if s.key >= KEYBOARD_SIZE {
        assert(spec_exec(s, ins, rb) =~= s);
    }
}

} // verus!
