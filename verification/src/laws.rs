//! The opcode semantics stated on their own, proved from the machine model.

use vstd::prelude::*;

use crate::machine::MEMORY_SIZE;
use crate::machine::Machine;
use crate::machine::exec_op;
use crate::machine::fetch_word;
use crate::machine::spec_cycle;
use crate::ops::Op;
use crate::ops::addr_nnn;
use crate::ops::imm_n;
use crate::ops::imm_nn;
use crate::ops::nib_hi;
use crate::ops::nib_x;
use crate::ops::nib_y;
use crate::screen::fb_index;
use crate::screen::lemma_draw_twice_restores;
use crate::screen::lemma_second_draw_collides;
use crate::screen::sprite_covers;

verus! {

/// How an instruction word assembled from its fields reads back, field by
/// field: the high nibble, the `X` nibble, and the low byte land where the
/// decoder looks for them.
pub proof fn lemma_word_fields(hi: u16, x: u16, nn: u16)
    requires
        hi < 16,
        x < 16,
        nn < 256,
    ensures
        nib_hi((hi * 0x1000 + x * 0x100 + nn) as u16) == hi,
        nib_x((hi * 0x1000 + x * 0x100 + nn) as u16) == x,
        imm_nn((hi * 0x1000 + x * 0x100 + nn) as u16) == nn,
        addr_nnn((hi * 0x1000 + x * 0x100 + nn) as u16) == x * 0x100 + nn,
        nib_y((hi * 0x1000 + x * 0x100 + nn) as u16) == nn / 0x10,
        imm_n((hi * 0x1000 + x * 0x100 + nn) as u16) == nn % 0x10,
{
    let w = (hi * 0x1000 + x * 0x100 + nn) as u16;
    assert(w == hi * 0x1000 + x * 0x100 + nn) by (bit_vector)
        requires
            hi < 16,
            x < 16,
            nn < 256,
            w == (hi * 0x1000 + x * 0x100 + nn) as u16,
    ;
    assert(w / 0x1000 == hi && (w / 0x100) % 0x10 == x && w % 0x100 == nn && w % 0x1000 == x
        * 0x100 + nn && (w / 0x10) % 0x10 == nn / 0x10 && w % 0x10 == nn % 0x10) by (bit_vector)
        requires
            hi < 16,
            x < 16,
            nn < 256,
            w == (hi * 0x1000 + x * 0x100 + nn) as u16,
    ;
}

/// Executing `6XNN` loads exactly `NN` into `VX`, with no masking artifact:
/// reading `VX` afterwards yields `NN` itself.
pub proof fn lemma_set_imm_loads(pre: Machine, x: usize, nn: u8)
    requires
        pre.wf(),
        x < 16,
    ensures
        exec_op(pre, Op::SetImm(x, nn), 0) matches Ok(m) && m.regs[x as int] == nn && m == (Machine {
            regs: pre.regs.update(x as int, nn),
            ..pre
        }),
{
}

/// `8XY4` adds modulo 256; `VF` reports the carry out of the true sum, so it
/// is set exactly when the sum tops 255.
pub proof fn lemma_add_reg_carry(pre: Machine, x: usize, y: usize)
    requires
        pre.wf(),
        x < 16,
        y < 16,
    ensures
        exec_op(pre, Op::AddReg(x, y), 0) matches Ok(m) && ({
            let a = pre.regs[x as int];
            let b = pre.regs[y as int];
            &&& m.regs[15] == (if a + b > 255 {
                1u8
            } else {
                0u8
            })
            &&& x != 15 ==> m.regs[x as int] == ((a + b) % 256) as u8
        }),
{
}

/// `8XY5` subtracts modulo 256; `VF = 1` says no borrow occurred, that is,
/// the minuend was at least the subtrahend.
pub proof fn lemma_sub_reg_borrow(pre: Machine, x: usize, y: usize)
    requires
        pre.wf(),
        x < 16,
        y < 16,
    ensures
        exec_op(pre, Op::SubReg(x, y), 0) matches Ok(m) && ({
            let a = pre.regs[x as int];
            let b = pre.regs[y as int];
            &&& m.regs[15] == (if a >= b {
                1u8
            } else {
                0u8
            })
            &&& x != 15 && a >= b ==> m.regs[x as int] == (a - b) as u8
            &&& x != 15 && a < b ==> m.regs[x as int] == (a - b + 256) as u8
        }),
{
}

/// `00EE` after `2NNN` is a round trip: the call pushed the address of the
/// instruction after itself, and the return pops it, restoring the whole
/// machine.
pub proof fn lemma_call_then_ret(pre: Machine, nnn: u16)
    requires
        pre.wf(),
        nnn < 0x1000,
    ensures
        exec_op(pre, Op::Call(nnn), 0) matches Ok(m1) && exec_op(m1, Op::Ret, 0) matches Ok(m2)
            && m1.ip == nnn && m2 == pre,
{
    let m1 = exec_op(pre, Op::Call(nnn), 0)->Ok_0;
    assert(pre.stack.push(pre.ip as u16).drop_last() =~= pre.stack);
    let m2 = exec_op(m1, Op::Ret, 0)->Ok_0;
    assert(m2 =~= pre);
}

/// A satisfied `3XNN` skip leaves the program counter four bytes past the
/// skip instruction (fetch plus skip); an unsatisfied one two (fetch alone).
pub proof fn lemma_skip_eq_imm_advance(pre: Machine, x: u16, nn: u8)
    requires
        pre.wf(),
        x < 16,
        pre.ip + 1 < MEMORY_SIZE,
        pre.mem[pre.ip] == 0x30 + x,
        pre.mem[pre.ip + 1] == nn,
    ensures
        spec_cycle(pre, 0) matches Ok(m) && m.ip == pre.ip + (if pre.regs[x as int] == nn {
            4int
        } else {
            2int
        }),
{
    lemma_word_fields(3, x, nn as u16);
    assert(fetch_word(pre) == (3 * 0x1000 + x * 0x100 + nn) as u16);
}

/// A satisfied `4XNN` skip leaves the program counter four bytes past the
/// skip instruction; an unsatisfied one two.
pub proof fn lemma_skip_ne_imm_advance(pre: Machine, x: u16, nn: u8)
    requires
        pre.wf(),
        x < 16,
        pre.ip + 1 < MEMORY_SIZE,
        pre.mem[pre.ip] == 0x40 + x,
        pre.mem[pre.ip + 1] == nn,
    ensures
        spec_cycle(pre, 0) matches Ok(m) && m.ip == pre.ip + (if pre.regs[x as int] != nn {
            4int
        } else {
            2int
        }),
{
    lemma_word_fields(4, x, nn as u16);
    assert(fetch_word(pre) == (4 * 0x1000 + x * 0x100 + nn) as u16);
}

/// A satisfied `5XY0` skip leaves the program counter four bytes past the
/// skip instruction; an unsatisfied one two.
pub proof fn lemma_skip_eq_reg_advance(pre: Machine, x: u16, y: u16)
    requires
        pre.wf(),
        x < 16,
        y < 16,
        pre.ip + 1 < MEMORY_SIZE,
        pre.mem[pre.ip] == 0x50 + x,
        pre.mem[pre.ip + 1] == y * 0x10,
    ensures
        spec_cycle(pre, 0) matches Ok(m) && m.ip == pre.ip + (if pre.regs[x as int]
            == pre.regs[y as int] {
            4int
        } else {
            2int
        }),
{
    lemma_word_fields(5, x, (y * 0x10) as u16);
    assert(fetch_word(pre) == (5 * 0x1000 + x * 0x100 + y * 0x10) as u16);
}

/// A satisfied `9XY0` skip leaves the program counter four bytes past the
/// skip instruction; an unsatisfied one two.
pub proof fn lemma_skip_ne_reg_advance(pre: Machine, x: u16, y: u16)
    requires
        pre.wf(),
        x < 16,
        y < 16,
        pre.ip + 1 < MEMORY_SIZE,
        pre.mem[pre.ip] == 0x90 + x,
        pre.mem[pre.ip + 1] == y * 0x10,
    ensures
        spec_cycle(pre, 0) matches Ok(m) && m.ip == pre.ip + (if pre.regs[x as int]
            != pre.regs[y as int] {
            4int
        } else {
            2int
        }),
{
    lemma_word_fields(9, x, (y * 0x10) as u16);
    assert(fetch_word(pre) == (9 * 0x1000 + x * 0x100 + y * 0x10) as u16);
}

/// Drawing the same sprite twice at the same spot clears every pixel the
/// first draw set, restoring the framebuffer; and the second draw reports a
/// collision in `VF` whenever the first draw turned some pixel on.  The
/// coordinate registers must not be `VF` itself, which the first draw
/// overwrites.
pub proof fn lemma_draw_twice(pre: Machine, x: usize, y: usize, n: u8)
    requires
        pre.wf(),
        x < 15,
        y < 15,
        n < 16,
        pre.index + n <= MEMORY_SIZE,
    ensures
        exec_op(pre, Op::Draw(x, y, n), 0) matches Ok(m1) && exec_op(m1, Op::Draw(x, y, n), 0)
            matches Ok(m2) && m2.fb == pre.fb && ((exists|px: int, py: int|
            0 <= px < 64 && 0 <= py < 32 && #[trigger] sprite_covers(
                pre.mem,
                pre.index,
                pre.regs[x as int] as int % 64,
                pre.regs[y as int] as int % 32,
                n as int,
                px,
                py,
            ) && !pre.fb[fb_index(px, py)]) ==> m2.regs[15] == 1),
{
    let sx = pre.regs[x as int] as int % 64;
    let sy = pre.regs[y as int] as int % 32;
    let m1 = exec_op(pre, Op::Draw(x, y, n), 0)->Ok_0;
    lemma_draw_twice_restores(pre.fb, pre.mem, pre.index, sx, sy, n as nat);
    let m2 = exec_op(m1, Op::Draw(x, y, n), 0)->Ok_0;
    assert(m2.fb == pre.fb);
    if exists|px: int, py: int|
        0 <= px < 64 && 0 <= py < 32 && #[trigger] sprite_covers(
            pre.mem,
            pre.index,
            sx,
            sy,
            n as int,
            px,
            py,
        ) && !pre.fb[fb_index(px, py)] {
        lemma_second_draw_collides(pre.fb, pre.mem, pre.index, sx, sy, n as nat);
    }
}

} // verus!
