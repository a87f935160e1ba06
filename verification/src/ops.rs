//! Instruction words and their decoding.
//!
//! A CHIP-8 instruction is one big-endian 16-bit word.  Its fields follow the
//! standard mnemonic layout: `X` is bits 11-8 (a register index), `Y` is bits
//! 7-4 (a register index), `N` bits 3-0, `NN` bits 7-0, `NNN` bits 11-0.

#![allow(non_snake_case)]

use vstd::prelude::*;

verus! {

/// High nibble of an instruction word: the instruction family.
pub open spec fn nib_hi(i: u16) -> int {
    i as int / 0x1000
}

/// The `X` field: bits 11-8, a register index.
pub open spec fn nib_x(i: u16) -> int {
    (i as int / 0x100) % 0x10
}

/// The `Y` field: bits 7-4, a register index.
pub open spec fn nib_y(i: u16) -> int {
    (i as int / 0x10) % 0x10
}

/// The `N` field: bits 3-0, a 4-bit immediate.
pub open spec fn imm_n(i: u16) -> int {
    i as int % 0x10
}

/// The `NN` field: bits 7-0, an 8-bit immediate.
pub open spec fn imm_nn(i: u16) -> int {
    i as int % 0x100
}

/// The `NNN` field: bits 11-0, a 12-bit address.
pub open spec fn addr_nnn(i: u16) -> int {
    i as int % 0x1000
}

/// The mask-and-shift field extractions agree with the arithmetic ones used
/// by the specification functions above.
proof fn lemma_instr_fields(i: u16)
    by (bit_vector)
    ensures
        (i & 0xf000) >> 12u16 == i / 0x1000,
        (i & 0x0f00) >> 8u16 == (i / 0x100) % 0x10,
        (i & 0x00f0) >> 4u16 == (i / 0x10) % 0x10,
        i & 0x000f == i % 0x10,
        i & 0x00ff == i % 0x100,
        i & 0x0fff == i % 0x1000,
{
}

/// Index of the register named by the `X` field.
pub fn get_X(instr: u16) -> (x: usize)
    ensures
        x == nib_x(instr),
        x < 16,
{
    proof {
        lemma_instr_fields(instr);
    }
    ((instr & 0x0f00) >> 8u16) as usize
}

/// Index of the register named by the `Y` field.
pub fn get_Y(instr: u16) -> (y: usize)
    ensures
        y == nib_y(instr),
        y < 16,
{
    proof {
        lemma_instr_fields(instr);
    }
    ((instr & 0x00f0) >> 4u16) as usize
}

/// Narrows a `usize` to `u16`; the value must fit.
pub fn u16_from_usize(val: usize) -> (r: u16)
    requires
        val <= 0xffff,
    ensures
        r == val,
{
    val as u16
}

/// Widens a `u8` to `u16`.
pub fn u16_from_u8(val: u8) -> (r: u16)
    ensures
        r == val,
{
    val as u16
}

/// Narrows a `u16` to `u8`; the value must fit.
pub fn u8_from_u16(value: u16) -> (r: u8)
    requires
        value <= 0xff,
    ensures
        r == value,
{
    value as u8
}

/// Widens a `u16` to `usize`.
pub fn usize_from_u16(val: u16) -> (r: usize)
    ensures
        r == val,
{
    val as usize
}

/// A decoded instruction.  Register operands are indices below 16; `Unknown`
/// keeps the whole word so that an unrecognized opcode can be reported.
pub enum Op {
    /// `00E0`: clear the framebuffer.
    ClearScreen,
    /// `00EE`: pop the stack into the program counter.
    Ret,
    /// `1NNN`: jump.
    Jump(u16),
    /// `2NNN`: push the program counter, then jump.
    Call(u16),
    /// `3XNN`: skip the next instruction if `VX == NN`.
    SkipEqImm(usize, u8),
    /// `4XNN`: skip the next instruction if `VX != NN`.
    SkipNeImm(usize, u8),
    /// `5XY0`: skip the next instruction if `VX == VY`.
    SkipEqReg(usize, usize),
    /// `9XY0`: skip the next instruction if `VX != VY`.
    SkipNeReg(usize, usize),
    /// `6XNN`: `VX <- NN`.
    SetImm(usize, u8),
    /// `7XNN`: `VX <- (VX + NN) mod 256`; no flag is touched.
    AddImm(usize, u8),
    /// `8XY0`: `VX <- VY`.
    Copy(usize, usize),
    /// `8XY1`: `VX <- VX | VY`.
    OrReg(usize, usize),
    /// `8XY2`: `VX <- VX & VY`.
    AndReg(usize, usize),
    /// `8XY3`: `VX <- VX ^ VY`.
    XorReg(usize, usize),
    /// `8XY4`: `VX <- (VX + VY) mod 256`; `VF` gets the carry.
    AddReg(usize, usize),
    /// `8XY5`: `VX <- (VX - VY) mod 256`; `VF = 1` means no borrow.
    SubReg(usize, usize),
    /// `8XY7`: `VX <- (VY - VX) mod 256`; `VF = 1` means no borrow.
    SubFrom(usize, usize),
    /// `8XY6`: shift right by one; quirk-sensitive source register.
    ShiftRight(usize, usize),
    /// `8XYE`: shift left by one; quirk-sensitive source register.
    ShiftLeft(usize, usize),
    /// `ANNN`: `I <- NNN`.
    SetIndex(u16),
    /// `BNNN`: jump to `NNN + V0`.
    JumpOffset(u16),
    /// `CXNN`: `VX <- random byte & NN`.
    Rand(usize, u8),
    /// `DXYN`: draw an `N`-row sprite at `(VX, VY)`; `VF` gets the collision flag.
    Draw(usize, usize, u8),
    /// `EX9E`: skip the next instruction if key `VX` is down.
    SkipKeyDown(usize),
    /// `EXA1`: skip the next instruction if key `VX` is up.
    SkipKeyUp(usize),
    /// `FX07`: `VX <- delay timer`.
    ReadDelay(usize),
    /// `FX15`: `delay timer <- VX`.
    SetDelay(usize),
    /// `FX18`: `sound timer <- VX`.
    SetSound(usize),
    /// `FX1E`: `I <- (I + VX) mod 65536`.
    AddIndex(usize),
    /// `FX33`: store the decimal digits of `VX` at `I`, `I+1`, `I+2`.
    StoreBcd(usize),
    /// `FX55`: `memory[I..=I+X] <- V0..=VX`.
    StoreRegs(usize),
    /// `FX65`: `V0..=VX <- memory[I..=I+X]`.
    LoadRegs(usize),
    /// Anything else: reported, then skipped.
    Unknown(u16),
}

/// What a 16-bit instruction word means.
///
/// Dispatch is on the high nibble, with sub-dispatch on the low byte or low
/// nibble for the `0`, `8`, `E` and `F` families.  The `5` and `9` families
/// ignore their low nibble.
pub open spec fn decode_op(i: u16) -> Op {
    let x = nib_x(i) as usize;
    let y = nib_y(i) as usize;
    let n = imm_n(i) as u8;
    let nn = imm_nn(i) as u8;
    let nnn = addr_nnn(i) as u16;
    if nib_hi(i) == 0x0 {
        if addr_nnn(i) == 0x0e0 {
            Op::ClearScreen
        } else if addr_nnn(i) == 0x0ee {
            Op::Ret
        } else {
            Op::Unknown(i)
        }
    } else if nib_hi(i) == 0x1 {
        Op::Jump(nnn)
    } else if nib_hi(i) == 0x2 {
        Op::Call(nnn)
    } else if nib_hi(i) == 0x3 {
        Op::SkipEqImm(x, nn)
    } else if nib_hi(i) == 0x4 {
        Op::SkipNeImm(x, nn)
    } else if nib_hi(i) == 0x5 {
        Op::SkipEqReg(x, y)
    } else if nib_hi(i) == 0x6 {
        Op::SetImm(x, nn)
    } else if nib_hi(i) == 0x7 {
        Op::AddImm(x, nn)
    } else if nib_hi(i) == 0x8 {
        if imm_n(i) == 0x0 {
            Op::Copy(x, y)
        } else if imm_n(i) == 0x1 {
            Op::OrReg(x, y)
        } else if imm_n(i) == 0x2 {
            Op::AndReg(x, y)
        } else if imm_n(i) == 0x3 {
            Op::XorReg(x, y)
        } else if imm_n(i) == 0x4 {
            Op::AddReg(x, y)
        } else if imm_n(i) == 0x5 {
            Op::SubReg(x, y)
        } else if imm_n(i) == 0x6 {
            Op::ShiftRight(x, y)
        } else if imm_n(i) == 0x7 {
            Op::SubFrom(x, y)
        } else if imm_n(i) == 0xe {
            Op::ShiftLeft(x, y)
        } else {
            Op::Unknown(i)
        }
    } else if nib_hi(i) == 0x9 {
        Op::SkipNeReg(x, y)
    } else if nib_hi(i) == 0xa {
        Op::SetIndex(nnn)
    } else if nib_hi(i) == 0xb {
        Op::JumpOffset(nnn)
    } else if nib_hi(i) == 0xc {
        Op::Rand(x, nn)
    } else if nib_hi(i) == 0xd {
        Op::Draw(x, y, n)
    } else if nib_hi(i) == 0xe {
        if imm_nn(i) == 0x9e {
            Op::SkipKeyDown(x)
        } else if imm_nn(i) == 0xa1 {
            Op::SkipKeyUp(x)
        } else {
            Op::Unknown(i)
        }
    } else {
        if imm_nn(i) == 0x07 {
            Op::ReadDelay(x)
        } else if imm_nn(i) == 0x15 {
            Op::SetDelay(x)
        } else if imm_nn(i) == 0x18 {
            Op::SetSound(x)
        } else if imm_nn(i) == 0x1e {
            Op::AddIndex(x)
        } else if imm_nn(i) == 0x33 {
            Op::StoreBcd(x)
        } else if imm_nn(i) == 0x55 {
            Op::StoreRegs(x)
        } else if imm_nn(i) == 0x65 {
            Op::LoadRegs(x)
        } else {
            Op::Unknown(i)
        }
    }
}

/// Bounds that every decoded instruction's operands satisfy: register
/// indices and sprite heights below 16, addresses below 0x1000.
pub open spec fn op_wf(op: Op) -> bool {
    match op {
        Op::ClearScreen => true,
        Op::Ret => true,
        Op::Jump(nnn) => nnn < 0x1000,
        Op::Call(nnn) => nnn < 0x1000,
        Op::SkipEqImm(x, _) => x < 16,
        Op::SkipNeImm(x, _) => x < 16,
        Op::SkipEqReg(x, y) => x < 16 && y < 16,
        Op::SkipNeReg(x, y) => x < 16 && y < 16,
        Op::SetImm(x, _) => x < 16,
        Op::AddImm(x, _) => x < 16,
        Op::Copy(x, y) => x < 16 && y < 16,
        Op::OrReg(x, y) => x < 16 && y < 16,
        Op::AndReg(x, y) => x < 16 && y < 16,
        Op::XorReg(x, y) => x < 16 && y < 16,
        Op::AddReg(x, y) => x < 16 && y < 16,
        Op::SubReg(x, y) => x < 16 && y < 16,
        Op::SubFrom(x, y) => x < 16 && y < 16,
        Op::ShiftRight(x, y) => x < 16 && y < 16,
        Op::ShiftLeft(x, y) => x < 16 && y < 16,
        Op::SetIndex(nnn) => nnn < 0x1000,
        Op::JumpOffset(nnn) => nnn < 0x1000,
        Op::Rand(x, _) => x < 16,
        Op::Draw(x, y, n) => x < 16 && y < 16 && n < 16,
        Op::SkipKeyDown(x) => x < 16,
        Op::SkipKeyUp(x) => x < 16,
        Op::ReadDelay(x) => x < 16,
        Op::SetDelay(x) => x < 16,
        Op::SetSound(x) => x < 16,
        Op::AddIndex(x) => x < 16,
        Op::StoreBcd(x) => x < 16,
        Op::StoreRegs(x) => x < 16,
        Op::LoadRegs(x) => x < 16,
        Op::Unknown(_) => true,
    }
}

/// Decodes one instruction word.
pub fn decode_instr(instr: u16) -> (op: Op)
    ensures
        op == decode_op(instr),
        op_wf(op),
{
    proof {
        lemma_instr_fields(instr);
    }
    let hi = (instr & 0xf000) >> 12u16;
    let x = get_X(instr);
    let y = get_Y(instr);
    let n = (instr & 0x000f) as u8;
    let nn = (instr & 0x00ff) as u8;
    let nnn = instr & 0x0fff;
    match hi {
        0x0 => {
            if nnn == 0x0e0 {
                Op::ClearScreen
            } else if nnn == 0x0ee {
                Op::Ret
            } else {
                Op::Unknown(instr)
            }
        },
        0x1 => Op::Jump(nnn),
        0x2 => Op::Call(nnn),
        0x3 => Op::SkipEqImm(x, nn),
        0x4 => Op::SkipNeImm(x, nn),
        0x5 => Op::SkipEqReg(x, y),
        0x6 => Op::SetImm(x, nn),
        0x7 => Op::AddImm(x, nn),
        0x8 => {
            match n {
                0x0 => Op::Copy(x, y),
                0x1 => Op::OrReg(x, y),
                0x2 => Op::AndReg(x, y),
                0x3 => Op::XorReg(x, y),
                0x4 => Op::AddReg(x, y),
                0x5 => Op::SubReg(x, y),
                0x6 => Op::ShiftRight(x, y),
                0x7 => Op::SubFrom(x, y),
                0xe => Op::ShiftLeft(x, y),
                _ => Op::Unknown(instr),
            }
        },
        0x9 => Op::SkipNeReg(x, y),
        0xa => Op::SetIndex(nnn),
        0xb => Op::JumpOffset(nnn),
        0xc => Op::Rand(x, nn),
        0xd => Op::Draw(x, y, n),
        0xe => {
            if nn == 0x9e {
                Op::SkipKeyDown(x)
            } else if nn == 0xa1 {
                Op::SkipKeyUp(x)
            } else {
                Op::Unknown(instr)
            }
        },
        _ => {
            match nn {
                0x07 => Op::ReadDelay(x),
                0x15 => Op::SetDelay(x),
                0x18 => Op::SetSound(x),
                0x1e => Op::AddIndex(x),
                0x33 => Op::StoreBcd(x),
                0x55 => Op::StoreRegs(x),
                0x65 => Op::LoadRegs(x),
                _ => Op::Unknown(instr),
            }
        },
    }
}

} // verus!
