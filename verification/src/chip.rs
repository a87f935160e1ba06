//! The interpreter core: the machine state and its instruction cycle.

#![allow(non_snake_case)]

use vstd::prelude::*;
use vstd::pervasive::VecAdditionalExecFns;

use crate::machine::Fault;
use crate::machine::MEMORY_SIZE;
use crate::machine::Machine;
use crate::machine::NUM_KEYS;
use crate::machine::NUM_REGISTERS;
use crate::machine::Quirks;
use crate::machine::ROM_OFFSET;
use crate::machine::exec_op;
use crate::machine::fetch_word;
use crate::machine::lemma_exec_op_rnd_irrelevant;
use crate::machine::logic_regs;
use crate::machine::skip_ip;
use crate::machine::spec_cycle;
use crate::ops::Op;
use crate::ops::decode_instr;
use crate::ops::decode_op;
use crate::ops::op_wf;
use crate::screen::FB_LEN;
use crate::screen::bit_of;
use crate::screen::byte_collides;
use crate::screen::draw_byte;
use crate::screen::draw_sprite;
use crate::screen::fb_index;
use crate::screen::lemma_draw_byte_points;
use crate::screen::lemma_draw_sprite_points;
use crate::screen::lemma_sprite_collides_step;
use crate::screen::sprite_collides;

verus! {

/// The interpreter: registers, memory, stack, timers, framebuffer and key
/// state, constructed once per run from a program image.
pub struct Chip8 {
    stack: Vec<u16>,
    delay_timer: u8,
    sound_timer: u8,
    registers: Vec<u8>,
    ip: usize,
    ireg: u16,
    memory: Vec<u8>,
    framebuffer: Vec<bool>,
    key_pad: Vec<bool>,
    quirks: Quirks,
    unknown_count: u64,
}

impl View for Chip8 {
    type V = Machine;

    closed spec fn view(&self) -> Machine {
        Machine {
            mem: self.memory@,
            regs: self.registers@,
            ip: self.ip as int,
            index: self.ireg as int,
            stack: self.stack@,
            delay: self.delay_timer,
            sound: self.sound_timer,
            fb: self.framebuffer@,
            keys: self.key_pad@,
            quirks: self.quirks,
            unknown_count: self.unknown_count as int,
        }
    }
}

/// A vector of `n` zero bytes.
fn zero_bytes(n: usize) -> (v: Vec<u8>)
    ensures
        v@ == Seq::new(n as nat, |p: int| 0u8),
{
    let mut v: Vec<u8> = Vec::new();
    let mut i: usize = 0;
    while i < n
        invariant
            i <= n,
            v@.len() == i,
            forall|p: int| 0 <= p < i ==> v@[p] == 0u8,
        decreases n - i,
    {
        v.push(0);
        i += 1;
    }
    assert(v@ =~= Seq::new(n as nat, |p: int| 0u8));
    v
}

/// A vector of `n` cleared flags.
fn false_flags(n: usize) -> (v: Vec<bool>)
    ensures
        v@ == Seq::new(n as nat, |p: int| false),
{
    let mut v: Vec<bool> = Vec::new();
    let mut i: usize = 0;
    while i < n
        invariant
            i <= n,
            v@.len() == i,
            forall|p: int| 0 <= p < i ==> v@[p] == false,
        decreases n - i,
    {
        v.push(false);
        i += 1;
    }
    assert(v@ =~= Seq::new(n as nat, |p: int| false));
    v
}

/// The memory image holding `rom` at `ROM_OFFSET` and zero elsewhere.
pub open spec fn loaded_memory(rom: Seq<u8>) -> Seq<u8> {
    Seq::new(
        MEMORY_SIZE as nat,
        |p: int|
            if ROM_OFFSET <= p < ROM_OFFSET + rom.len() {
                rom[p - ROM_OFFSET]
            } else {
                0u8
            },
    )
}

/// The state a machine starts in: the image loaded, everything else cleared,
/// the program counter at the start of the image, baseline quirks.
pub open spec fn initial_machine(rom: Seq<u8>) -> Machine {
    Machine {
        mem: loaded_memory(rom),
        regs: Seq::new(NUM_REGISTERS as nat, |k: int| 0u8),
        ip: ROM_OFFSET as int,
        index: 0,
        stack: Seq::<u16>::empty(),
        delay: 0,
        sound: 0,
        fb: Seq::new(FB_LEN as nat, |p: int| false),
        keys: Seq::new(NUM_KEYS as nat, |k: int| false),
        quirks: Quirks {
            shift_in_place: false,
            save_load_increments_index: false,
            reset_flag_on_logic: false,
        },
        unknown_count: 0,
    }
}

impl Chip8 {
    /// Builds a machine from a program image, loaded verbatim at
    /// `ROM_OFFSET`.  The image must fit in the address space.
    pub fn new_by_bytes(rom_bytes: Vec<u8>) -> (c: Chip8)
        requires
            rom_bytes@.len() <= MEMORY_SIZE - ROM_OFFSET,
        ensures
            c@ == initial_machine(rom_bytes@),
            c@.wf(),
    {
        let mut memory = zero_bytes(ROM_OFFSET);
        let mut j: usize = 0;
        while j < rom_bytes.len()
            invariant
                j <= rom_bytes@.len(),
                rom_bytes@.len() <= MEMORY_SIZE - ROM_OFFSET,
                memory@.len() == ROM_OFFSET + j,
                forall|p: int| 0 <= p < ROM_OFFSET ==> memory@[p] == 0u8,
                forall|p: int|
                    ROM_OFFSET <= p < ROM_OFFSET + j ==> memory@[p] == rom_bytes@[p - ROM_OFFSET],
            decreases rom_bytes@.len() - j,
        {
            memory.push(rom_bytes[j]);
            j += 1;
        }
        while memory.len() < MEMORY_SIZE
            invariant
                rom_bytes@.len() <= MEMORY_SIZE - ROM_OFFSET,
                ROM_OFFSET + rom_bytes@.len() <= memory@.len() <= MEMORY_SIZE,
                forall|p: int| 0 <= p < ROM_OFFSET ==> memory@[p] == 0u8,
                forall|p: int|
                    ROM_OFFSET <= p < ROM_OFFSET + rom_bytes@.len() ==> memory@[p] == rom_bytes@[p
                        - ROM_OFFSET],
                forall|p: int|
                    ROM_OFFSET + rom_bytes@.len() <= p < memory@.len() ==> memory@[p] == 0u8,
            decreases MEMORY_SIZE - memory@.len(),
        {
            memory.push(0);
        }
        assert(memory@ =~= loaded_memory(rom_bytes@));
        let c = Chip8 {
            stack: Vec::new(),
            delay_timer: 0,
            sound_timer: 0,
            registers: zero_bytes(NUM_REGISTERS),
            ip: ROM_OFFSET,
            ireg: 0,
            memory,
            framebuffer: false_flags(FB_LEN),
            key_pad: false_flags(NUM_KEYS),
            quirks: Quirks::baseline(),
            unknown_count: 0,
        };
        assert(c@ =~= initial_machine(rom_bytes@));
        c
    }

    /// Whether the state satisfies the machine invariant.  Holds for every
    /// machine this library hands out.
    pub fn well_formed(&self) -> (r: bool)
        ensures
            r == self@.wf(),
    {
        self.memory.len() == MEMORY_SIZE && self.registers.len() == NUM_REGISTERS
            && self.framebuffer.len() == FB_LEN && self.key_pad.len() == NUM_KEYS && self.ip
            < 0x10000
    }

    /// Replaces the quirk configuration.
    pub fn set_quirks(&mut self, quirks: Quirks)
        ensures
            final(self)@ == (Machine { quirks, ..old(self)@ }),
    {
        self.quirks = quirks;
    }

    /// The current quirk configuration.
    pub fn get_quirks(&self) -> (q: Quirks)
        ensures
            q == self@.quirks,
    {
        self.quirks
    }

    /// The program counter.
    pub fn get_ip(&self) -> (r: usize)
        ensures
            r == self@.ip,
    {
        self.ip
    }

    /// The index register `I`.
    pub fn get_ireg(&self) -> (r: u16)
        ensures
            r == self@.index,
    {
        self.ireg
    }

    /// The delay timer.
    pub fn get_delay_timer(&self) -> (r: u8)
        ensures
            r == self@.delay,
    {
        self.delay_timer
    }

    /// The sound timer.
    pub fn get_sound_timer(&self) -> (r: u8)
        ensures
            r == self@.sound,
    {
        self.sound_timer
    }

    /// How many call frames are on the stack.
    pub fn get_stack_len(&self) -> (r: usize)
        ensures
            r == self@.stack.len(),
    {
        self.stack.len()
    }

    /// How many unrecognized opcodes were reported so far.
    pub fn get_unknown_count(&self) -> (r: u64)
        ensures
            r == self@.unknown_count,
    {
        self.unknown_count
    }

    /// The byte at `addr`.
    pub fn get_memory_byte(&self, addr: usize) -> (r: u8)
        requires
            self@.wf(),
            addr < MEMORY_SIZE,
        ensures
            r == self@.mem[addr as int],
    {
        self.memory[addr]
    }

    /// The pixel in column `x`, row `y`; `true` is on.
    pub fn get_pixel(&self, x: usize, y: usize) -> (r: bool)
        requires
            self@.wf(),
            x < 64,
            y < 32,
        ensures
            r == self@.fb[fb_index(x as int, y as int)],
    {
        self.framebuffer[y * 64 + x]
    }

    /// Whether key `key` is down.
    pub fn get_key(&self, key: usize) -> (r: bool)
        requires
            self@.wf(),
            key < NUM_KEYS,
        ensures
            r == self@.keys[key as int],
    {
        self.key_pad[key]
    }

    /// Sets one key line; the core itself only reads them.
    pub fn set_key(&mut self, key: usize, down: bool)
        requires
            old(self)@.wf(),
            key < NUM_KEYS,
        ensures
            final(self)@ == (Machine { keys: old(self)@.keys.update(key as int, down), ..old(
                self,
            )@ }),
    {
        self.key_pad.set(key, down);
    }

    /// The value of register `ireg`, widened.
    pub fn get_register_value(&self, ireg: usize) -> (r: u16)
        requires
            self@.wf(),
            ireg < NUM_REGISTERS,
        ensures
            r == self@.regs[ireg as int],
    {
        self.registers[ireg] as u16
    }

    /// Stores the low byte of `value` in register `ireg`.
    pub fn set_register_value(&mut self, ireg: usize, value: u16)
        requires
            old(self)@.wf(),
            ireg < NUM_REGISTERS,
        ensures
            final(self)@ == (Machine {
                regs: old(self)@.regs.update(ireg as int, (value % 256) as u8),
                ..old(self)@
            }),
    {
        self.registers.set(ireg, (value & 0xff) as u8);
        proof {
            assert(value & 0xff == value % 256) by (bit_vector);
        }
    }

    /// Whether register `ireg` holds exactly `val`.
    pub fn register_equal(&self, ireg: usize, val: u16) -> (r: bool)
        requires
            self@.wf(),
            ireg < NUM_REGISTERS,
            val <= 0xff,
        ensures
            r == (self@.regs[ireg as int] == val),
    {
        self.registers[ireg] == val as u8
    }

    /// Pushes a return address.
    fn push_stack(&mut self, val: u16)
        ensures
            final(self)@ == (Machine { stack: old(self)@.stack.push(val), ..old(self)@ }),
    {
        self.stack.push(val);
    }

    /// Pops the most recent return address.
    fn pop_stack(&mut self) -> (r: u16)
        requires
            old(self)@.stack.len() > 0,
        ensures
            r == old(self)@.stack.last(),
            final(self)@ == (Machine { stack: old(self)@.stack.drop_last(), ..old(self)@ }),
    {
        let r = self.stack.pop().unwrap();
        r
    }

    /// Moves the program counter past `num_instr` instructions.
    fn skip_instructions(&mut self, num_instr: u16)
        requires
            old(self)@.wf(),
            old(self)@.ip + 2 * num_instr < 0x10000,
        ensures
            final(self)@ == (Machine { ip: old(self)@.ip + 2 * num_instr, ..old(self)@ }),
    {
        self.ip += crate::ops::usize_from_u16(num_instr * 2);
    }

    /// Counts down both timers, to be called at the fixed 60 Hz cadence,
    /// never below zero.
    pub fn decrement_timers(&mut self)
        ensures
            final(self)@ == (Machine {
                delay: if old(self)@.delay > 0 {
                    (old(self)@.delay - 1) as u8
                } else {
                    0u8
                },
                sound: if old(self)@.sound > 0 {
                    (old(self)@.sound - 1) as u8
                } else {
                    0u8
                },
                ..old(self)@
            }),
    {
        if self.delay_timer > 0 {
            self.delay_timer -= 1;
        }
        if self.sound_timer > 0 {
            self.sound_timer -= 1;
        }
    }

    /// The instruction word at the program counter, assembled big-endian.
    fn get_instruction(&self) -> (w: u16)
        requires
            self@.wf(),
            self@.ip + 1 < MEMORY_SIZE,
        ensures
            w == fetch_word(self@),
    {
        let hi = self.memory[self.ip];
        let lo = self.memory[self.ip + 1];
        proof {
            assert(((hi as u16) << 8u16) == hi as u16 * 256) by (bit_vector);
        }
        ((hi as u16) << 8u16) + (lo as u16)
    }

    /// Reads the instruction word at the program counter and advances past
    /// it.  Fails, changing nothing, when the fetch would leave memory.
    pub fn fetch(&mut self) -> (r: Result<u16, Fault>)
        requires
            old(self)@.wf(),
        ensures
            final(self)@.wf(),
            match r {
                Ok(w) => {
                    &&& old(self)@.ip + 1 < MEMORY_SIZE
                    &&& w == fetch_word(old(self)@)
                    &&& final(self)@ == (Machine { ip: old(self)@.ip + 2, ..old(self)@ })
                },
                Err(f) => {
                    &&& old(self)@.ip + 1 >= MEMORY_SIZE
                    &&& f == Fault::MemoryOutOfBounds
                    &&& final(self)@ == old(self)@
                },
            },
    {
        if self.ip >= MEMORY_SIZE - 1 {
            return Err(Fault::MemoryOutOfBounds);
        }
        let bytes = self.get_instruction();
        self.ip += 2;
        Ok(bytes)
    }

    /// Draws an `n`-row sprite read from memory at `I`, its top-left pixel at
    /// `(sx, sy)`, XORing each set bit into the framebuffer.  Returns whether
    /// some pixel was turned off.
    fn draw_op(&mut self, sx: usize, sy: usize, n: usize) -> (col: bool)
        requires
            old(self)@.wf(),
            sx < 64,
            sy < 32,
            n <= 15,
            old(self)@.index + n <= MEMORY_SIZE,
        ensures
            final(self)@.wf(),
            final(self)@ == (Machine {
                fb: draw_sprite(
                    old(self)@.fb,
                    old(self)@.mem,
                    old(self)@.index,
                    sx as int,
                    sy as int,
                    n as nat,
                ),
                ..old(self)@
            }),
            col == sprite_collides(
                old(self)@.fb,
                old(self)@.mem,
                old(self)@.index,
                sx as int,
                sy as int,
                n as int,
            ),
    {
        let ghost pre = self@;
        let mut collided = false;
        let mut r: usize = 0;
        while r < n
            invariant
                pre.wf(),
                sx < 64,
                sy < 32,
                n <= 15,
                pre.index + n <= MEMORY_SIZE,
                r <= n,
                self@ == (Machine { fb: self@.fb, ..pre }),
                self@.fb.len() == 2048,
                self@.fb == draw_sprite(pre.fb, pre.mem, pre.index, sx as int, sy as int, r as nat),
                collided == sprite_collides(
                    pre.fb,
                    pre.mem,
                    pre.index,
                    sx as int,
                    sy as int,
                    r as int,
                ),
            decreases n - r,
        {
            let byte = self.memory[self.ireg as usize + r];
            let yy = sy + r;
            if yy < 32 {
                let ghost fb_r = self@.fb;
                let mut c: usize = 0;
                while c < 8
                    invariant
                        pre.wf(),
                        sx < 64,
                        sy < 32,
                        n <= 15,
                        pre.index + n <= MEMORY_SIZE,
                        r < n,
                        yy == sy + r,
                        yy < 32,
                        c <= 8,
                        byte == pre.mem[pre.index + r],
                        fb_r == draw_sprite(
                            pre.fb,
                            pre.mem,
                            pre.index,
                            sx as int,
                            sy as int,
                            r as nat,
                        ),
                        fb_r.len() == 2048,
                        self@ == (Machine { fb: self@.fb, ..pre }),
                        self@.fb.len() == 2048,
                        self@.fb == draw_byte(fb_r, byte, sx as int, yy as int, c as nat),
                        collided == (sprite_collides(
                            pre.fb,
                            pre.mem,
                            pre.index,
                            sx as int,
                            sy as int,
                            r as int,
                        ) || (exists|cc: int|
                            0 <= cc < c && sx + cc < 64 && #[trigger] bit_of(byte, cc)
                                && pre.fb[fb_index(sx + cc, yy as int)])),
                    decreases 8 - c,
                {
                    let x = sx + c;
                    if x < 64 {
                        let sh: u8 = (7 - c) as u8;
                        if (byte >> sh) & 1 == 1 {
                            proof {
                                assert(bit_of(byte, c as int));
                                lemma_draw_byte_points(fb_r, byte, sx as int, yy as int, c as nat);
                                lemma_draw_sprite_points(
                                    pre.fb,
                                    pre.mem,
                                    pre.index,
                                    sx as int,
                                    sy as int,
                                    r as nat,
                                );
                            }
                            let idx = yy * 64 + x;
                            let p = self.framebuffer[idx];
                            proof {
                                assert(idx == fb_index(x as int, yy as int));
                                assert(draw_byte(fb_r, byte, sx as int, yy as int, c as nat)[
                                    fb_index(x as int, yy as int)] == fb_r[fb_index(
                                    x as int,
                                    yy as int,
                                )]);
                                assert(draw_sprite(
                                    pre.fb,
                                    pre.mem,
                                    pre.index,
                                    sx as int,
                                    sy as int,
                                    r as nat,
                                )[fb_index(x as int, yy as int)] == pre.fb[fb_index(
                                    x as int,
                                    yy as int,
                                )]);
                                assert(p == pre.fb[fb_index(x as int, yy as int)]);
                            }
                            if p {
                                collided = true;
                            }
                            self.framebuffer.set(idx, !p);
                            proof {
                                assert(self@.fb =~= draw_byte(
                                    fb_r,
                                    byte,
                                    sx as int,
                                    yy as int,
                                    (c + 1) as nat,
                                ));
                                if p {
                                    assert(0 <= c < c + 1 && sx + c < 64 && bit_of(byte, c as int)
                                        && pre.fb[fb_index(sx + c as int, yy as int)]);
                                }
                            }
                        } else {
                            proof {
                                assert(!bit_of(byte, c as int));
                                assert(draw_byte(fb_r, byte, sx as int, yy as int, (c + 1) as nat)
                                    == draw_byte(fb_r, byte, sx as int, yy as int, c as nat));
                            }
                        }
                    } else {
                        proof {
                            assert(draw_byte(fb_r, byte, sx as int, yy as int, (c + 1) as nat)
                                == draw_byte(fb_r, byte, sx as int, yy as int, c as nat));
                        }
                    }
                    c += 1;
                }
                proof {
                    lemma_sprite_collides_step(
                        pre.fb,
                        pre.mem,
                        pre.index,
                        sx as int,
                        sy as int,
                        r as int,
                    );
                    assert(draw_sprite(
                        pre.fb,
                        pre.mem,
                        pre.index,
                        sx as int,
                        sy as int,
                        (r + 1) as nat,
                    ) == draw_byte(fb_r, byte, sx as int, yy as int, 8));
                    assert((exists|cc: int|
                        0 <= cc < 8 && sx + cc < 64 && #[trigger] bit_of(byte, cc)
                            && pre.fb[fb_index(sx + cc, yy as int)]) == byte_collides(
                        pre.fb,
                        byte,
                        sx as int,
                        yy as int,
                    ));
                }
            } else {
                proof {
                    lemma_sprite_collides_step(
                        pre.fb,
                        pre.mem,
                        pre.index,
                        sx as int,
                        sy as int,
                        r as int,
                    );
                    assert(draw_sprite(
                        pre.fb,
                        pre.mem,
                        pre.index,
                        sx as int,
                        sy as int,
                        (r + 1) as nat,
                    ) == draw_sprite(pre.fb, pre.mem, pre.index, sx as int, sy as int, r as nat));
                }
            }
            r += 1;
        }
        proof {
            assert(self@ =~= (Machine {
                fb: draw_sprite(pre.fb, pre.mem, pre.index, sx as int, sy as int, n as nat),
                ..pre
            }));
        }
        collided
    }

    /// One already-decoded control-flow or bookkeeping instruction.
    fn exec_flow(&mut self, op: Op) -> (r: Result<(), Fault>)
        requires
            old(self)@.wf(),
            old(self)@.ip + 2 < 0x10000,
            op_wf(op),
            op matches Op::ClearScreen || op matches Op::Ret || op matches Op::Jump(_)
                || op matches Op::Call(_) || op matches Op::SkipEqImm(_, _)
                || op matches Op::SkipNeImm(_, _) || op matches Op::SkipEqReg(_, _)
                || op matches Op::SkipNeReg(_, _) || op matches Op::SkipKeyDown(_)
                || op matches Op::SkipKeyUp(_) || op matches Op::JumpOffset(_)
                || op matches Op::Unknown(_),
        ensures
            final(self)@.wf(),
            exec_op(old(self)@, op, 0) == (match r {
                Ok(()) => Ok::<Machine, Fault>(final(self)@),
                Err(f) => Err::<Machine, Fault>(f),
            }),
            r matches Err(_) ==> final(self)@ == old(self)@,
    {
        let ghost pre = self@;
        match op {
            Op::ClearScreen => {
                self.framebuffer = false_flags(FB_LEN);
                proof {
                    assert(self@ =~= (Machine { fb: Seq::new(2048, |p: int| false), ..pre }));
                }
                Ok(())
            },
            Op::Ret => {
                if self.stack.len() == 0 {
                    return Err(Fault::StackUnderflow);
                }
                let ret_addr = self.pop_stack();
                self.ip = crate::ops::usize_from_u16(ret_addr);
                proof {
                    assert(self@ =~= (Machine {
                        ip: pre.stack.last() as int,
                        stack: pre.stack.drop_last(),
                        ..pre
                    }));
                }
                Ok(())
            },
            Op::Jump(nnn) => {
                self.ip = crate::ops::usize_from_u16(nnn);
                proof {
                    assert(self@ =~= (Machine { ip: nnn as int, ..pre }));
                }
                Ok(())
            },
            Op::Call(nnn) => {
                let here = crate::ops::u16_from_usize(self.ip);
                self.push_stack(here);
                self.ip = crate::ops::usize_from_u16(nnn);
                proof {
                    assert(self@ =~= (Machine {
                        stack: pre.stack.push(pre.ip as u16),
                        ip: nnn as int,
                        ..pre
                    }));
                }
                Ok(())
            },
            Op::SkipEqImm(x, nn) => {
                if self.register_equal(x, nn as u16) {
                    self.skip_instructions(1);
                }
                proof {
                    assert(self@ =~= (Machine {
                        ip: skip_ip(pre.ip, pre.regs[x as int] == nn),
                        ..pre
                    }));
                }
                Ok(())
            },
            Op::SkipNeImm(x, nn) => {
                if !self.register_equal(x, nn as u16) {
                    self.skip_instructions(1);
                }
                proof {
                    assert(self@ =~= (Machine {
                        ip: skip_ip(pre.ip, pre.regs[x as int] != nn),
                        ..pre
                    }));
                }
                Ok(())
            },
            Op::SkipEqReg(x, y) => {
                if self.registers[x] == self.registers[y] {
                    self.skip_instructions(1);
                }
                proof {
                    assert(self@ =~= (Machine {
                        ip: skip_ip(pre.ip, pre.regs[x as int] == pre.regs[y as int]),
                        ..pre
                    }));
                }
                Ok(())
            },
            Op::SkipNeReg(x, y) => {
                if self.registers[x] != self.registers[y] {
                    self.skip_instructions(1);
                }
                proof {
                    assert(self@ =~= (Machine {
                        ip: skip_ip(pre.ip, pre.regs[x as int] != pre.regs[y as int]),
                        ..pre
                    }));
                }
                Ok(())
            },
            Op::SkipKeyDown(x) => {
                let vx = self.registers[x];
                let k = (vx % 16) as usize;
                if self.key_pad[k] {
                    self.skip_instructions(1);
                }
                proof {
                    assert(self@ =~= (Machine {
                        ip: skip_ip(pre.ip, pre.keys[pre.regs[x as int] as int % 16]),
                        ..pre
                    }));
                }
                Ok(())
            },
            Op::SkipKeyUp(x) => {
                let vx = self.registers[x];
                let k = (vx % 16) as usize;
                if !self.key_pad[k] {
                    self.skip_instructions(1);
                }
                proof {
                    assert(self@ =~= (Machine {
                        ip: skip_ip(pre.ip, !pre.keys[pre.regs[x as int] as int % 16]),
                        ..pre
                    }));
                }
                Ok(())
            },
            Op::JumpOffset(nnn) => {
                let target = crate::ops::usize_from_u16(nnn) + self.registers[0] as usize;
                self.ip = target;
                proof {
                    assert(self@ =~= (Machine { ip: nnn + pre.regs[0], ..pre }));
                }
                Ok(())
            },
            Op::Unknown(_) => {
                if self.unknown_count < u64::MAX {
                    self.unknown_count = self.unknown_count + 1;
                }
                proof {
                    assert(self@ =~= (Machine {
                        unknown_count: if pre.unknown_count < u64::MAX {
                            pre.unknown_count + 1
                        } else {
                            pre.unknown_count
                        },
                        ..pre
                    }));
                }
                Ok(())
            },
            _ => {
                proof {
                    assert(false);
                }
                Err(Fault::MemoryOutOfBounds)
            },
        }
    }

    /// One already-decoded register-arithmetic or timer instruction.
    fn exec_alu(&mut self, op: Op) -> (r: Result<(), Fault>)
        requires
            old(self)@.wf(),
            op_wf(op),
            op matches Op::SetImm(_, _) || op matches Op::AddImm(_, _) || op matches Op::Copy(_, _)
                || op matches Op::OrReg(_, _) || op matches Op::AndReg(_, _)
                || op matches Op::XorReg(_, _) || op matches Op::AddReg(_, _)
                || op matches Op::SubReg(_, _) || op matches Op::SubFrom(_, _)
                || op matches Op::ShiftRight(_, _) || op matches Op::ShiftLeft(_, _)
                || op matches Op::ReadDelay(_) || op matches Op::SetDelay(_)
                || op matches Op::SetSound(_),
        ensures
            final(self)@.wf(),
            exec_op(old(self)@, op, 0) == (match r {
                Ok(()) => Ok::<Machine, Fault>(final(self)@),
                Err(f) => Err::<Machine, Fault>(f),
            }),
            r matches Err(_) ==> final(self)@ == old(self)@,
    {
        let ghost pre = self@;
        match op {
            Op::SetImm(x, nn) => {
                self.set_register_value(x, nn as u16);
                proof {
                    assert(self@ =~= (Machine { regs: pre.regs.update(x as int, nn), ..pre }));
                }
                Ok(())
            },
            Op::AddImm(x, nn) => {
                let vx = self.registers[x];
                let sum: u16 = vx as u16 + nn as u16;
                self.registers.set(x, (sum % 256) as u8);
                proof {
                    assert(self@ =~= (Machine {
                        regs: pre.regs.update(x as int, ((pre.regs[x as int] + nn) % 256) as u8),
                        ..pre
                    }));
                }
                Ok(())
            },
            Op::Copy(x, y) => {
                let vy = self.registers[y];
                self.registers.set(x, vy);
                proof {
                    assert(self@ =~= (Machine {
                        regs: pre.regs.update(x as int, pre.regs[y as int]),
                        ..pre
                    }));
                }
                Ok(())
            },
            Op::OrReg(x, y) => {
                let v = self.registers[x] | self.registers[y];
                self.registers.set(x, v);
                if self.quirks.reset_flag_on_logic {
                    self.registers.set(15, 0);
                }
                proof {
                    assert(self@ =~= (Machine {
                        regs: logic_regs(pre, x, pre.regs[x as int] | pre.regs[y as int]),
                        ..pre
                    }));
                }
                Ok(())
            },
            Op::AndReg(x, y) => {
                let v = self.registers[x] & self.registers[y];
                self.registers.set(x, v);
                if self.quirks.reset_flag_on_logic {
                    self.registers.set(15, 0);
                }
                proof {
                    assert(self@ =~= (Machine {
                        regs: logic_regs(pre, x, pre.regs[x as int] & pre.regs[y as int]),
                        ..pre
                    }));
                }
                Ok(())
            },
            Op::XorReg(x, y) => {
                let v = self.registers[x] ^ self.registers[y];
                self.registers.set(x, v);
                if self.quirks.reset_flag_on_logic {
                    self.registers.set(15, 0);
                }
                proof {
                    assert(self@ =~= (Machine {
                        regs: logic_regs(pre, x, pre.regs[x as int] ^ pre.regs[y as int]),
                        ..pre
                    }));
                }
                Ok(())
            },
            Op::AddReg(x, y) => {
                let a = self.registers[x];
                let b = self.registers[y];
                let sum: u16 = a as u16 + b as u16;
                self.registers.set(x, (sum % 256) as u8);
                self.registers.set(15, if sum > 255 { 1 } else { 0 });
                proof {
                    let s = pre.regs[x as int] + pre.regs[y as int];
                    assert(self@ =~= (Machine {
                        regs: pre.regs.update(x as int, (s % 256) as u8).update(
                            15,
                            if s > 255 { 1u8 } else { 0u8 },
                        ),
                        ..pre
                    }));
                }
                Ok(())
            },
            Op::SubReg(x, y) => {
                let a = self.registers[x];
                let b = self.registers[y];
                let diff: u8 = if a >= b {
                    a - b
                } else {
                    ((a as u16 + 256) - b as u16) as u8
                };
                self.registers.set(x, diff);
                self.registers.set(15, if a >= b { 1 } else { 0 });
                proof {
                    let av = pre.regs[x as int];
                    let bv = pre.regs[y as int];
                    assert(self@ =~= (Machine {
                        regs: pre.regs.update(
                            x as int,
                            if av >= bv {
                                (av - bv) as u8
                            } else {
                                (av - bv + 256) as u8
                            },
                        ).update(15, if av >= bv { 1u8 } else { 0u8 }),
                        ..pre
                    }));
                }
                Ok(())
            },
            Op::SubFrom(x, y) => {
                let a = self.registers[x];
                let b = self.registers[y];
                let diff: u8 = if b >= a {
                    b - a
                } else {
                    ((b as u16 + 256) - a as u16) as u8
                };
                self.registers.set(x, diff);
                self.registers.set(15, if b >= a { 1 } else { 0 });
                proof {
                    let av = pre.regs[x as int];
                    let bv = pre.regs[y as int];
                    assert(self@ =~= (Machine {
                        regs: pre.regs.update(
                            x as int,
                            if bv >= av {
                                (bv - av) as u8
                            } else {
                                (bv - av + 256) as u8
                            },
                        ).update(15, if bv >= av { 1u8 } else { 0u8 }),
                        ..pre
                    }));
                }
                Ok(())
            },
            Op::ShiftRight(x, y) => {
                let src = if self.quirks.shift_in_place {
                    self.registers[x]
                } else {
                    self.registers[y]
                };
                self.registers.set(x, src >> 1u8);
                self.registers.set(15, src & 1);
                proof {
                    assert(src >> 1u8 == src / 2) by (bit_vector);
                    assert(src & 1 == src % 2) by (bit_vector);
                    let sv = if pre.quirks.shift_in_place {
                        pre.regs[x as int]
                    } else {
                        pre.regs[y as int]
                    };
                    assert(self@ =~= (Machine {
                        regs: pre.regs.update(x as int, sv / 2).update(15, sv % 2),
                        ..pre
                    }));
                }
                Ok(())
            },
            Op::ShiftLeft(x, y) => {
                let src = if self.quirks.shift_in_place {
                    self.registers[x]
                } else {
                    self.registers[y]
                };
                self.registers.set(x, src << 1u8);
                self.registers.set(15, src >> 7u8);
                proof {
                    assert(src << 1u8 == (src * 2) % 256) by (bit_vector);
                    assert(src >> 7u8 == src / 128) by (bit_vector);
                    let sv = if pre.quirks.shift_in_place {
                        pre.regs[x as int]
                    } else {
                        pre.regs[y as int]
                    };
                    assert(self@ =~= (Machine {
                        regs: pre.regs.update(x as int, ((sv * 2) % 256) as u8).update(
                            15,
                            sv / 128,
                        ),
                        ..pre
                    }));
                }
                Ok(())
            },
            Op::ReadDelay(x) => {
                let d = self.delay_timer;
                self.registers.set(x, d);
                proof {
                    assert(self@ =~= (Machine {
                        regs: pre.regs.update(x as int, pre.delay),
                        ..pre
                    }));
                }
                Ok(())
            },
            Op::SetDelay(x) => {
                self.delay_timer = self.registers[x];
                proof {
                    assert(self@ =~= (Machine { delay: pre.regs[x as int], ..pre }));
                }
                Ok(())
            },
            Op::SetSound(x) => {
                self.sound_timer = self.registers[x];
                proof {
                    assert(self@ =~= (Machine { sound: pre.regs[x as int], ..pre }));
                }
                Ok(())
            },
            _ => {
                proof {
                    assert(false);
                }
                Err(Fault::MemoryOutOfBounds)
            },
        }
    }

    /// One already-decoded instruction that works through the index register.
    fn exec_mem(&mut self, op: Op) -> (r: Result<(), Fault>)
        requires
            old(self)@.wf(),
            op_wf(op),
            op matches Op::SetIndex(_) || op matches Op::AddIndex(_) || op matches Op::StoreBcd(_)
                || op matches Op::StoreRegs(_) || op matches Op::LoadRegs(_)
                || op matches Op::Draw(_, _, _),
        ensures
            final(self)@.wf(),
            exec_op(old(self)@, op, 0) == (match r {
                Ok(()) => Ok::<Machine, Fault>(final(self)@),
                Err(f) => Err::<Machine, Fault>(f),
            }),
            r matches Err(_) ==> final(self)@ == old(self)@,
    {
        let ghost pre = self@;
        match op {
            Op::SetIndex(nnn) => {
                self.ireg = nnn;
                proof {
                    assert(self@ =~= (Machine { index: nnn as int, ..pre }));
                }
                Ok(())
            },
            Op::AddIndex(x) => {
                let sum: u32 = self.ireg as u32 + self.registers[x] as u32;
                self.ireg = (sum % 0x10000) as u16;
                proof {
                    assert(self@ =~= (Machine {
                        index: (pre.index + pre.regs[x as int]) % 0x10000,
                        ..pre
                    }));
                }
                Ok(())
            },
            Op::StoreBcd(x) => {
                let v = self.registers[x];
                if self.ireg as usize + 2 >= MEMORY_SIZE {
                    return Err(Fault::MemoryOutOfBounds);
                }
                let base = self.ireg as usize;
                self.memory.set(base, v / 100);
                self.memory.set(base + 1, (v / 10) % 10);
                self.memory.set(base + 2, v % 10);
                proof {
                    let vv = pre.regs[x as int];
                    assert(self@ =~= (Machine {
                        mem: pre.mem.update(pre.index, vv / 100).update(
                            pre.index + 1,
                            (vv / 10) % 10,
                        ).update(pre.index + 2, vv % 10),
                        ..pre
                    }));
                }
                Ok(())
            },
            Op::StoreRegs(x) => {
                if self.ireg as usize + x >= MEMORY_SIZE {
                    return Err(Fault::MemoryOutOfBounds);
                }
                let base = self.ireg as usize;
                let mut k: usize = 0;
                while k < x + 1
                    invariant
                        pre.wf(),
                        x < 16,
                        k <= x + 1,
                        base == pre.index,
                        base + x < MEMORY_SIZE,
                        self@ == (Machine { mem: self@.mem, ..pre }),
                        self@.mem.len() == MEMORY_SIZE,
                        forall|p: int|
                            0 <= p < MEMORY_SIZE && !(base <= p < base + k) ==> self@.mem[p]
                                == pre.mem[p],
                        forall|p: int| base <= p < base + k ==> self@.mem[p] == pre.regs[p - base],
                    decreases x + 1 - k,
                {
                    let vk = self.registers[k];
                    self.memory.set(base + k, vk);
                    k += 1;
                }
                if self.quirks.save_load_increments_index {
                    self.ireg = self.ireg + x as u16 + 1;
                }
                proof {
                    assert(self@.mem =~= Seq::new(
                        MEMORY_SIZE as nat,
                        |p: int|
                            if pre.index <= p <= pre.index + x {
                                pre.regs[p - pre.index]
                            } else {
                                pre.mem[p]
                            },
                    ));
                    assert(self@ =~= (Machine {
                        mem: Seq::new(
                            MEMORY_SIZE as nat,
                            |p: int|
                                if pre.index <= p <= pre.index + x {
                                    pre.regs[p - pre.index]
                                } else {
                                    pre.mem[p]
                                },
                        ),
                        index: if pre.quirks.save_load_increments_index {
                            pre.index + x + 1
                        } else {
                            pre.index
                        },
                        ..pre
                    }));
                }
                Ok(())
            },
            Op::LoadRegs(x) => {
                if self.ireg as usize + x >= MEMORY_SIZE {
                    return Err(Fault::MemoryOutOfBounds);
                }
                let base = self.ireg as usize;
                let mut k: usize = 0;
                while k < x + 1
                    invariant
                        pre.wf(),
                        x < 16,
                        k <= x + 1,
                        base == pre.index,
                        base + x < MEMORY_SIZE,
                        self@ == (Machine { regs: self@.regs, ..pre }),
                        self@.regs.len() == NUM_REGISTERS,
                        forall|j: int| k <= j < NUM_REGISTERS ==> self@.regs[j] == pre.regs[j],
                        forall|j: int| 0 <= j < k ==> self@.regs[j] == pre.mem[base + j],
                    decreases x + 1 - k,
                {
                    let mk = self.memory[base + k];
                    self.registers.set(k, mk);
                    k += 1;
                }
                if self.quirks.save_load_increments_index {
                    self.ireg = self.ireg + x as u16 + 1;
                }
                proof {
                    assert(self@.regs =~= Seq::new(
                        NUM_REGISTERS as nat,
                        |j: int|
                            if j <= x {
                                pre.mem[pre.index + j]
                            } else {
                                pre.regs[j]
                            },
                    ));
                    assert(self@ =~= (Machine {
                        regs: Seq::new(
                            NUM_REGISTERS as nat,
                            |j: int|
                                if j <= x {
                                    pre.mem[pre.index + j]
                                } else {
                                    pre.regs[j]
                                },
                        ),
                        index: if pre.quirks.save_load_increments_index {
                            pre.index + x + 1
                        } else {
                            pre.index
                        },
                        ..pre
                    }));
                }
                Ok(())
            },
            Op::Draw(x, y, n) => {
                let vx = self.registers[x];
                let vy = self.registers[y];
                let sxu = (vx % 64) as usize;
                let syu = (vy % 32) as usize;
                let nu = n as usize;
                if self.ireg as usize + nu > MEMORY_SIZE {
                    return Err(Fault::MemoryOutOfBounds);
                }
                let col = self.draw_op(sxu, syu, nu);
                self.registers.set(15, if col { 1 } else { 0 });
                proof {
                    let sx = pre.regs[x as int] % 64;
                    let sy = pre.regs[y as int] % 32;
                    assert(self@ =~= (Machine {
                        fb: draw_sprite(pre.fb, pre.mem, pre.index, sx as int, sy as int, n as nat),
                        regs: pre.regs.update(
                            15,
                            if sprite_collides(
                                pre.fb,
                                pre.mem,
                                pre.index,
                                sx as int,
                                sy as int,
                                n as int,
                            ) {
                                1u8
                            } else {
                                0u8
                            },
                        ),
                        ..pre
                    }));
                }
                Ok(())
            },
            _ => {
                proof {
                    assert(false);
                }
                Err(Fault::MemoryOutOfBounds)
            },
        }
    }

    /// `CXNN`: draws a byte from the process-wide source and masks it into
    /// `VX`.  The contract only says that some byte was drawn.
    fn exec_rand(&mut self, x: usize, nn: u8)
        requires
            old(self)@.wf(),
            x < 16,
        ensures
            final(self)@.wf(),
            exists|b: u8|
                Ok::<Machine, Fault>(final(self)@) == #[trigger] exec_op(
                    old(self)@,
                    Op::Rand(x, nn),
                    b,
                ),
    {
        let ghost pre = self@;
        let rb = crate::entropy::random_u16();
        let v = ((rb & 0xff) as u8) & nn;
        self.registers.set(x, v);
        proof {
            let b: u8 = (rb & 0xff) as u8;
            assert(self@ =~= (Machine { regs: pre.regs.update(x as int, b & nn), ..pre }));
            assert(Ok::<Machine, Fault>(self@) == exec_op(pre, Op::Rand(x, nn), b));
        }
    }

    /// Executes one already-fetched instruction word.
    ///
    /// The machine moves exactly as `exec_op` says, with some byte standing
    /// in for the `CXNN` draw; on a fault nothing changes.  An unrecognized
    /// opcode is counted, not executed; the program counter must have room
    /// for a skip.
    pub fn decode(&mut self, instr: u16) -> (r: Result<(), Fault>)
        requires
            old(self)@.wf(),
            old(self)@.ip + 2 < 0x10000,
        ensures
            final(self)@.wf(),
            (match decode_op(instr) {
                Op::Rand(_, _) => r matches Ok(()) && (exists|b: u8|
                    Ok::<Machine, Fault>(final(self)@) == #[trigger] exec_op(
                        old(self)@,
                        decode_op(instr),
                        b,
                    )),
                _ => exec_op(old(self)@, decode_op(instr), 0) == (match r {
                    Ok(()) => Ok::<Machine, Fault>(final(self)@),
                    Err(f) => Err::<Machine, Fault>(f),
                }),
            }),
            r matches Err(_) ==> final(self)@ == old(self)@,
    {
        let op = decode_instr(instr);
        match op {
            Op::ClearScreen | Op::Ret | Op::Jump(_) | Op::Call(_) | Op::SkipEqImm(_, _)
                | Op::SkipNeImm(_, _) | Op::SkipEqReg(_, _) | Op::SkipNeReg(_, _)
                | Op::SkipKeyDown(_) | Op::SkipKeyUp(_) | Op::JumpOffset(_)
                | Op::Unknown(_) => self.exec_flow(op),
            Op::SetImm(_, _) | Op::AddImm(_, _) | Op::Copy(_, _) | Op::OrReg(_, _)
                | Op::AndReg(_, _) | Op::XorReg(_, _) | Op::AddReg(_, _) | Op::SubReg(_, _)
                | Op::SubFrom(_, _) | Op::ShiftRight(_, _) | Op::ShiftLeft(_, _)
                | Op::ReadDelay(_) | Op::SetDelay(_) | Op::SetSound(_) => self.exec_alu(op),
            Op::SetIndex(_) | Op::AddIndex(_) | Op::StoreBcd(_) | Op::StoreRegs(_)
                | Op::LoadRegs(_) | Op::Draw(_, _, _) => self.exec_mem(op),
            Op::Rand(x, nn) => {
                self.exec_rand(x, nn);
                Ok(())
            },
        }
    }

    /// One full machine cycle: fetches the word at the program counter, then
    /// executes it.  On a fault the machine stops where it was.
    pub fn step(&mut self) -> (r: Result<(), Fault>)
        requires
            old(self)@.wf(),
        ensures
            final(self)@.wf(),
            (match r {
                Ok(()) => exists|b: u8|
                    #[trigger] spec_cycle(old(self)@, b) == Ok::<Machine, Fault>(final(self)@),
                Err(f) => forall|b: u8|
                    #[trigger] spec_cycle(old(self)@, b) == Err::<Machine, Fault>(f),
            }),
            (match decode_op(fetch_word(old(self)@)) {
                Op::Rand(_, _) => true,
                _ => spec_cycle(old(self)@, 0) == (match r {
                    Ok(()) => Ok::<Machine, Fault>(final(self)@),
                    Err(f) => Err::<Machine, Fault>(f),
                }),
            }),
            r matches Err(_) ==> final(self)@ == old(self)@,
    {
        let ghost m0 = self@;
        let instr = match self.fetch() {
            Ok(w) => w,
            Err(f) => {
                return Err(f);
            },
        };
        let ghost m1 = self@;
        proof {
            assert(m1 =~= (Machine { ip: m0.ip + 2, ..m0 }));
        }
        match self.decode(instr) {
            Ok(()) => {
                proof {
                    if decode_op(instr) matches Op::Rand(_, _) {
                        let b = choose|b: u8|
                            Ok::<Machine, Fault>(self@) == #[trigger] exec_op(
                                m1,
                                decode_op(instr),
                                b,
                            );
                        assert(spec_cycle(m0, b) == Ok::<Machine, Fault>(self@));
                    } else {
                        assert(spec_cycle(m0, 0) == Ok::<Machine, Fault>(self@));
                    }
                }
                Ok(())
            },
            Err(f) => {
                self.ip = self.ip - 2;
                proof {
                    assert(self@ =~= m0);
                    assert forall|b: u8| #[trigger] spec_cycle(m0, b) == Err::<Machine, Fault>(
                        f,
                    ) by {
                        lemma_exec_op_rnd_irrelevant(m1, decode_op(instr), b);
                    }
                }
                Err(f)
            },
        }
    }
}

} // verus!
