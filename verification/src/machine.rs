//! The abstract machine: what one instruction does to the interpreter state.
//!
//! `Machine` is the mathematical model of the interpreter; `exec_op` is the
//! transition it makes for one decoded instruction and `spec_cycle` adds the
//! fetch in front.  The executable interpreter in `chip` is proved to follow
//! these functions step by step.

use vstd::prelude::*;

use crate::ops::Op;
use crate::ops::decode_op;
use crate::screen::draw_sprite;
use crate::screen::sprite_collides;

verus! {

/// Bytes in the emulated address space.
pub const MEMORY_SIZE: usize = 4096;

/// Offset at which a program image is loaded.
pub const ROM_OFFSET: usize = 0x200;

/// Number of general-purpose registers.
pub const NUM_REGISTERS: usize = 16;

/// Number of key lines on the pad.
pub const NUM_KEYS: usize = 16;

/// A fatal condition: the machine must not run past it.
#[derive(Clone, Copy, Debug, PartialEq, Eq)]
pub enum Fault {
    /// A fetch or an index-register-relative access left the address space.
    MemoryOutOfBounds,
    /// A return was executed with no call frame on the stack.
    StackUnderflow,
}

/// The points on which historical interpreters disagree, chosen per machine
/// rather than hard-coded.  All flags `false` picks the baseline
/// interpretation: shifts read `VY`, register save/load leaves `I` alone,
/// logical ops leave `VF` alone.
#[derive(Clone, Copy, Debug, PartialEq, Eq)]
pub struct Quirks {
    /// `8XY6`/`8XYE` shift `VX` in place instead of reading `VY`.
    pub shift_in_place: bool,
    /// `FX55`/`FX65` leave `I` just past the copied range.
    pub save_load_increments_index: bool,
    /// `8XY1`/`8XY2`/`8XY3` reset `VF` to zero.
    pub reset_flag_on_logic: bool,
}

impl Quirks {
    /// The baseline interpretation: shifts read `VY`, register save/load
    /// leaves `I` alone, logical ops leave `VF` alone.
    pub fn baseline() -> (q: Quirks)
        ensures
            q == (Quirks {
                shift_in_place: false,
                save_load_increments_index: false,
                reset_flag_on_logic: false,
            }),
    {
        Quirks { shift_in_place: false, save_load_increments_index: false, reset_flag_on_logic: false }
    }
}

/// The interpreter state, as mathematics.
#[verifier::ext_equal]
pub ghost struct Machine {
    /// The 4096-byte address space; the program image sits at `ROM_OFFSET`.
    pub mem: Seq<u8>,
    /// The 16 general-purpose registers `V0`-`VF`.
    pub regs: Seq<u8>,
    /// The program counter: address of the next instruction to fetch.
    pub ip: int,
    /// The index register `I`.
    pub index: int,
    /// Return addresses, most recent last.
    pub stack: Seq<u16>,
    /// The delay timer.
    pub delay: u8,
    /// The sound timer.
    pub sound: u8,
    /// The 64 x 32 framebuffer, row after row.
    pub fb: Seq<bool>,
    /// The 16 key lines; `true` is down.
    pub keys: Seq<bool>,
    /// The quirk configuration.
    pub quirks: Quirks,
    /// How many unrecognized opcodes were reported.
    pub unknown_count: int,
}

impl Machine {
    /// Shapes and bounds every reachable state satisfies.
    pub open spec fn wf(self) -> bool {
        &&& self.mem.len() == MEMORY_SIZE
        &&& self.regs.len() == NUM_REGISTERS
        &&& self.fb.len() == 2048
        &&& self.keys.len() == NUM_KEYS
        &&& 0 <= self.ip < 0x10000
        &&& 0 <= self.index < 0x10000
        &&& 0 <= self.unknown_count <= u64::MAX
    }
}

/// The instruction word at the program counter: two bytes, big-endian.
pub open spec fn fetch_word(m: Machine) -> u16 {
    (m.mem[m.ip] * 256 + m.mem[m.ip + 1]) as u16
}

/// The program counter after a conditional skip.
pub open spec fn skip_ip(ip: int, cond: bool) -> int {
    if cond {
        ip + 2
    } else {
        ip
    }
}

/// The registers after a logical operation, honouring the flag-reset quirk.
pub open spec fn logic_regs(pre: Machine, x: usize, v: u8) -> Seq<u8> {
    let base = pre.regs.update(x as int, v);
    if pre.quirks.reset_flag_on_logic {
        base.update(15, 0u8)
    } else {
        base
    }
}

/// What one decoded instruction does to the machine.
///
/// `rnd` is the byte drawn for `CXNN` and is ignored by every other
/// instruction.  A fault leaves no partial state: the machine either moves to
/// the returned state or stops where it was.
pub open spec fn exec_op(pre: Machine, op: Op, rnd: u8) -> Result<Machine, Fault> {
    match op {
        Op::ClearScreen => Ok(Machine { fb: Seq::new(2048, |p: int| false), ..pre }),
        Op::Ret => {
            if pre.stack.len() == 0 {
                Err(Fault::StackUnderflow)
            } else {
                Ok(Machine { ip: pre.stack.last() as int, stack: pre.stack.drop_last(), ..pre })
            }
        },
        Op::Jump(nnn) => Ok(Machine { ip: nnn as int, ..pre }),
        Op::Call(nnn) => Ok(
            Machine { stack: pre.stack.push(pre.ip as u16), ip: nnn as int, ..pre },
        ),
        Op::SkipEqImm(x, nn) => Ok(
            Machine { ip: skip_ip(pre.ip, pre.regs[x as int] == nn), ..pre },
        ),
        Op::SkipNeImm(x, nn) => Ok(
            Machine { ip: skip_ip(pre.ip, pre.regs[x as int] != nn), ..pre },
        ),
        Op::SkipEqReg(x, y) => Ok(
            Machine { ip: skip_ip(pre.ip, pre.regs[x as int] == pre.regs[y as int]), ..pre },
        ),
        Op::SkipNeReg(x, y) => Ok(
            Machine { ip: skip_ip(pre.ip, pre.regs[x as int] != pre.regs[y as int]), ..pre },
        ),
        Op::SetImm(x, nn) => Ok(Machine { regs: pre.regs.update(x as int, nn), ..pre }),
        Op::AddImm(x, nn) => Ok(
            Machine {
                regs: pre.regs.update(x as int, ((pre.regs[x as int] + nn) % 256) as u8),
                ..pre
            },
        ),
        Op::Copy(x, y) => Ok(
            Machine { regs: pre.regs.update(x as int, pre.regs[y as int]), ..pre },
        ),
        Op::OrReg(x, y) => Ok(
            Machine { regs: logic_regs(pre, x, pre.regs[x as int] | pre.regs[y as int]), ..pre },
        ),
        Op::AndReg(x, y) => Ok(
            Machine { regs: logic_regs(pre, x, pre.regs[x as int] & pre.regs[y as int]), ..pre },
        ),
        Op::XorReg(x, y) => Ok(
            Machine { regs: logic_regs(pre, x, pre.regs[x as int] ^ pre.regs[y as int]), ..pre },
        ),
        Op::AddReg(x, y) => {
            let sum = pre.regs[x as int] + pre.regs[y as int];
            Ok(
                Machine {
                    regs: pre.regs.update(x as int, (sum % 256) as u8).update(
                        15,
                        if sum > 255 {
                            1u8
                        } else {
                            0u8
                        },
                    ),
                    ..pre
                },
            )
        },
        Op::SubReg(x, y) => {
            let a = pre.regs[x as int];
            let b = pre.regs[y as int];
            Ok(
                Machine {
                    regs: pre.regs.update(
                        x as int,
                        if a >= b {
                            (a - b) as u8
                        } else {
                            (a - b + 256) as u8
                        },
                    ).update(
                        15,
                        if a >= b {
                            1u8
                        } else {
                            0u8
                        },
                    ),
                    ..pre
                },
            )
        },
        Op::SubFrom(x, y) => {
            let a = pre.regs[x as int];
            let b = pre.regs[y as int];
            Ok(
                Machine {
                    regs: pre.regs.update(
                        x as int,
                        if b >= a {
                            (b - a) as u8
                        } else {
                            (b - a + 256) as u8
                        },
                    ).update(
                        15,
                        if b >= a {
                            1u8
                        } else {
                            0u8
                        },
                    ),
                    ..pre
                },
            )
        },
        Op::ShiftRight(x, y) => {
            let src = if pre.quirks.shift_in_place {
                pre.regs[x as int]
            } else {
                pre.regs[y as int]
            };
            Ok(
                Machine {
                    regs: pre.regs.update(x as int, src / 2).update(15, src % 2),
                    ..pre
                },
            )
        },
        Op::ShiftLeft(x, y) => {
            let src = if pre.quirks.shift_in_place {
                pre.regs[x as int]
            } else {
                pre.regs[y as int]
            };
            Ok(
                Machine {
                    regs: pre.regs.update(x as int, ((src * 2) % 256) as u8).update(15, src / 128),
                    ..pre
                },
            )
        },
        Op::SetIndex(nnn) => Ok(Machine { index: nnn as int, ..pre }),
        Op::JumpOffset(nnn) => Ok(Machine { ip: nnn + pre.regs[0], ..pre }),
        Op::Rand(x, nn) => Ok(Machine { regs: pre.regs.update(x as int, rnd & nn), ..pre }),
        Op::Draw(x, y, n) => {
            let sx = pre.regs[x as int] % 64;
            let sy = pre.regs[y as int] % 32;
            if pre.index + n > MEMORY_SIZE {
                Err(Fault::MemoryOutOfBounds)
            } else {
                Ok(
                    Machine {
                        fb: draw_sprite(pre.fb, pre.mem, pre.index, sx as int, sy as int, n as nat),
                        regs: pre.regs.update(
                            15,
                            if sprite_collides(
                                pre.fb,
                                pre.mem,
                                pre.index,
                                sx as int,
                                sy as int,
                                n as int,
                            ) {
                                1u8
                            } else {
                                0u8
                            },
                        ),
                        ..pre
                    },
                )
            }
        },
        Op::SkipKeyDown(x) => Ok(
            Machine {
                ip: skip_ip(pre.ip, pre.keys[pre.regs[x as int] as int % 16]),
                ..pre
            },
        ),
        Op::SkipKeyUp(x) => Ok(
            Machine {
                ip: skip_ip(pre.ip, !pre.keys[pre.regs[x as int] as int % 16]),
                ..pre
            },
        ),
        Op::ReadDelay(x) => Ok(Machine { regs: pre.regs.update(x as int, pre.delay), ..pre }),
        Op::SetDelay(x) => Ok(Machine { delay: pre.regs[x as int], ..pre }),
        Op::SetSound(x) => Ok(Machine { sound: pre.regs[x as int], ..pre }),
        Op::AddIndex(x) => Ok(
            Machine { index: (pre.index + pre.regs[x as int]) % 0x10000, ..pre },
        ),
        Op::StoreBcd(x) => {
            let v = pre.regs[x as int];
            if pre.index + 2 >= MEMORY_SIZE {
                Err(Fault::MemoryOutOfBounds)
            } else {
                Ok(
                    Machine {
                        mem: pre.mem.update(pre.index, v / 100).update(
                            pre.index + 1,
                            (v / 10) % 10,
                        ).update(pre.index + 2, v % 10),
                        ..pre
                    },
                )
            }
        },
        Op::StoreRegs(x) => {
            if pre.index + x >= MEMORY_SIZE {
                Err(Fault::MemoryOutOfBounds)
            } else {
                Ok(
                    Machine {
                        mem: Seq::new(
                            MEMORY_SIZE as nat,
                            |p: int|
                                if pre.index <= p <= pre.index + x {
                                    pre.regs[p - pre.index]
                                } else {
                                    pre.mem[p]
                                },
                        ),
                        index: if pre.quirks.save_load_increments_index {
                            pre.index + x + 1
                        } else {
                            pre.index
                        },
                        ..pre
                    },
                )
            }
        },
        Op::LoadRegs(x) => {
            if pre.index + x >= MEMORY_SIZE {
                Err(Fault::MemoryOutOfBounds)
            } else {
                Ok(
                    Machine {
                        regs: Seq::new(
                            NUM_REGISTERS as nat,
                            |k: int|
                                if k <= x {
                                    pre.mem[pre.index + k]
                                } else {
                                    pre.regs[k]
                                },
                        ),
                        index: if pre.quirks.save_load_increments_index {
                            pre.index + x + 1
                        } else {
                            pre.index
                        },
                        ..pre
                    },
                )
            }
        },
        Op::Unknown(w) => Ok(
            Machine {
                unknown_count: if pre.unknown_count < u64::MAX {
                    pre.unknown_count + 1
                } else {
                    pre.unknown_count
                },
                ..pre
            },
        ),
    }
}

/// Only `CXNN` looks at the drawn byte: every other instruction steps the
/// same way whatever was drawn.
pub proof fn lemma_exec_op_rnd_irrelevant(pre: Machine, op: Op, rnd: u8)
    requires
        !(op matches Op::Rand(_, _)),
    ensures
        exec_op(pre, op, rnd) == exec_op(pre, op, 0),
{
}

/// One full fetch-decode-execute cycle from `pre`, drawing `rnd` for `CXNN`.
pub open spec fn spec_cycle(pre: Machine, rnd: u8) -> Result<Machine, Fault> {
    if pre.ip + 1 >= MEMORY_SIZE {
        Err(Fault::MemoryOutOfBounds)
    } else {
        exec_op(Machine { ip: pre.ip + 2, ..pre }, decode_op(fetch_word(pre)), rnd)
    }
}

} // verus!
