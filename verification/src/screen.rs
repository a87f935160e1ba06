//! The logical 64 x 32 monochrome framebuffer and sprite drawing.
//!
//! A sprite is 8 pixels wide and up to 15 rows tall.  Each set bit is XORed
//! into the framebuffer; a draw collides when some XOR turns an on pixel off.
//! The start position is taken modulo the grid size and rows or columns that
//! run past the edge are clipped.

use vstd::prelude::*;

verus! {

/// Width of the logical pixel grid.
pub const FB_WIDTH: usize = 64;

/// Height of the logical pixel grid.
pub const FB_HEIGHT: usize = 32;

/// Number of cells in the framebuffer.
pub const FB_LEN: usize = 2048;

/// Cell of the pixel at column `x`, row `y`, rows stored one after another.
pub open spec fn fb_index(x: int, y: int) -> int {
    y * 64 + x
}

/// Bit `c` of a sprite row byte, counted from the left (most significant).
pub open spec fn bit_of(byte: u8, c: int) -> bool {
    (byte >> ((7 - c) as u8)) & 1 == 1
}

/// The framebuffer after XORing the leftmost `c` bits of one sprite row into
/// row `yy`, the first bit at column `sx`; columns past the right edge are
/// clipped.
pub open spec fn draw_byte(fb: Seq<bool>, byte: u8, sx: int, yy: int, c: nat) -> Seq<bool>
    decreases c,
{
    if c == 0 {
        fb
    } else {
        let prev = draw_byte(fb, byte, sx, yy, (c - 1) as nat);
        let x = sx + c - 1;
        if x < 64 && bit_of(byte, c - 1) {
            prev.update(fb_index(x, yy), !prev[fb_index(x, yy)])
        } else {
            prev
        }
    }
}

/// The framebuffer after drawing the first `r` rows of a sprite read from
/// `mem` at `i`, the top-left pixel at `(sx, sy)`; rows past the bottom edge
/// are clipped.
pub open spec fn draw_sprite(fb: Seq<bool>, mem: Seq<u8>, i: int, sx: int, sy: int, r: nat) -> Seq<
    bool,
>
    decreases r,
{
    if r == 0 {
        fb
    } else {
        let prev = draw_sprite(fb, mem, i, sx, sy, (r - 1) as nat);
        let yy = sy + r - 1;
        if yy < 32 {
            draw_byte(prev, mem[i + r - 1], sx, yy, 8)
        } else {
            prev
        }
    }
}

/// Whether XORing one sprite row into row `yy` of `fb` turns some pixel off.
pub open spec fn byte_collides(fb: Seq<bool>, byte: u8, sx: int, yy: int) -> bool {
    exists|c: int| 0 <= c < 8 && sx + c < 64 && #[trigger] bit_of(byte, c) && fb[fb_index(sx + c, yy)]
}

/// Whether drawing `n` sprite rows turns some pixel off.  Every pixel is
/// touched at most once, so this can be read off the framebuffer as it was
/// before the draw.
pub open spec fn sprite_collides(fb: Seq<bool>, mem: Seq<u8>, i: int, sx: int, sy: int, n: int) -> bool {
    exists|r: int| 0 <= r < n && sy + r < 32 && #[trigger] byte_collides(fb, mem[i + r], sx, sy + r)
}

/// Whether column `x` is hit by a sprite row whose first bit lands at `sx`.
pub open spec fn row_covers(sx: int, byte: u8, x: int) -> bool {
    sx <= x < sx + 8 && x < 64 && bit_of(byte, x - sx)
}

/// Whether the pixel at `(x, y)` is hit by some row of the sprite.
pub open spec fn sprite_covers(
    mem: Seq<u8>,
    i: int,
    sx: int,
    sy: int,
    n: int,
    x: int,
    y: int,
) -> bool {
    sy <= y < sy + n && y < 32 && row_covers(sx, mem[i + (y - sy)], x)
}

/// Pixel by pixel, drawing one sprite row inverts exactly the cells under its
/// set bits and leaves every other cell alone.
pub proof fn lemma_draw_byte_points(fb: Seq<bool>, byte: u8, sx: int, yy: int, c: nat)
    requires
        fb.len() == 2048,
        0 <= sx < 64,
        0 <= yy < 32,
        c <= 8,
    ensures
        draw_byte(fb, byte, sx, yy, c).len() == 2048,
        forall|x: int, y: int|
            0 <= x < 64 && 0 <= y < 32 ==> #[trigger] draw_byte(fb, byte, sx, yy, c)[fb_index(
                x,
                y,
            )] == (if y == yy && sx <= x < sx + c && bit_of(byte, x - sx) {
                !fb[fb_index(x, y)]
            } else {
                fb[fb_index(x, y)]
            }),
    decreases c,
{
    if c > 0 {
        lemma_draw_byte_points(fb, byte, sx, yy, (c - 1) as nat);
        let prev = draw_byte(fb, byte, sx, yy, (c - 1) as nat);
        let cur = draw_byte(fb, byte, sx, yy, c);
        let xx = sx + c - 1;
        assert forall|x: int, y: int| 0 <= x < 64 && 0 <= y < 32 implies #[trigger] cur[fb_index(
            x,
            y,
        )] == (if y == yy && sx <= x < sx + c && bit_of(byte, x - sx) {
            !fb[fb_index(x, y)]
        } else {
            fb[fb_index(x, y)]
        }) by {
            assert(0 <= fb_index(x, y) < 2048);
            if xx < 64 && bit_of(byte, c - 1) {
                assert(0 <= fb_index(xx, yy) < 2048);
                if fb_index(x, y) == fb_index(xx, yy) {
                    assert(x == xx && y == yy);
                }
            }
        }
    }
}

/// Pixel by pixel, drawing a sprite inverts exactly the cells it covers and
/// leaves every other cell alone.
pub proof fn lemma_draw_sprite_points(
    fb: Seq<bool>,
    mem: Seq<u8>,
    i: int,
    sx: int,
    sy: int,
    r: nat,
)
    requires
        fb.len() == 2048,
        mem.len() == 4096,
        0 <= sx < 64,
        0 <= sy < 32,
        0 <= i,
        i + r <= 4096,
        r <= 15,
    ensures
        draw_sprite(fb, mem, i, sx, sy, r).len() == 2048,
        forall|x: int, y: int|
            0 <= x < 64 && 0 <= y < 32 ==> #[trigger] draw_sprite(fb, mem, i, sx, sy, r)[fb_index(
                x,
                y,
            )] == (if sprite_covers(mem, i, sx, sy, r as int, x, y) {
                !fb[fb_index(x, y)]
            } else {
                fb[fb_index(x, y)]
            }),
    decreases r,
{
    if r > 0 {
        lemma_draw_sprite_points(fb, mem, i, sx, sy, (r - 1) as nat);
        let prev = draw_sprite(fb, mem, i, sx, sy, (r - 1) as nat);
        let cur = draw_sprite(fb, mem, i, sx, sy, r);
        let yy = sy + r - 1;
        if yy < 32 {
            lemma_draw_byte_points(prev, mem[i + r - 1], sx, yy, 8);
        }
        assert forall|x: int, y: int| 0 <= x < 64 && 0 <= y < 32 implies #[trigger] cur[fb_index(
            x,
            y,
        )] == (if sprite_covers(mem, i, sx, sy, r as int, x, y) {
            !fb[fb_index(x, y)]
        } else {
            fb[fb_index(x, y)]
        }) by {
            assert(sprite_covers(mem, i, sx, sy, r as int, x, y) == (sprite_covers(
                mem,
                i,
                sx,
                sy,
                r - 1,
                x,
                y,
            ) || (y == yy && y < 32 && row_covers(sx, mem[i + r - 1], x))));
        }
    }
}

/// Extending a sprite by one row adds exactly that row's collision.
pub proof fn lemma_sprite_collides_step(
    fb: Seq<bool>,
    mem: Seq<u8>,
    i: int,
    sx: int,
    sy: int,
    r: int,
)
    requires
        0 <= r,
    ensures
        sprite_collides(fb, mem, i, sx, sy, r + 1) == (sprite_collides(fb, mem, i, sx, sy, r) || (
        sy + r < 32 && byte_collides(fb, mem[i + r], sx, sy + r))),
{
    if sprite_collides(fb, mem, i, sx, sy, r) {
        let rr = choose|rr: int|
            0 <= rr < r && sy + rr < 32 && #[trigger] byte_collides(fb, mem[i + rr], sx, sy + rr);
        assert(0 <= rr < r + 1 && sy + rr < 32 && byte_collides(fb, mem[i + rr], sx, sy + rr));
    }
    if sy + r < 32 && byte_collides(fb, mem[i + r], sx, sy + r) {
        assert(0 <= r < r + 1 && sy + r < 32 && byte_collides(fb, mem[i + r], sx, sy + r));
    }
    if sprite_collides(fb, mem, i, sx, sy, r + 1) {
        let rr = choose|rr: int|
            0 <= rr < r + 1 && sy + rr < 32 && #[trigger] byte_collides(
                fb,
                mem[i + rr],
                sx,
                sy + rr,
            );
        if rr < r {
            assert(0 <= rr < r && sy + rr < 32 && byte_collides(fb, mem[i + rr], sx, sy + rr));
        }
    }
}

/// Splits a cell number into its column and row.
pub proof fn lemma_fb_index_decomp(p: int)
    requires
        0 <= p < 2048,
    ensures
        0 <= p % 64 < 64,
        0 <= p / 64 < 32,
        fb_index(p % 64, p / 64) == p,
{
    vstd::arithmetic::div_mod::lemma_fundamental_div_mod(p, 64);
}

/// Drawing the same sprite twice in the same place restores the framebuffer:
/// every pixel the first draw set, the second clears again.
pub proof fn lemma_draw_twice_restores(
    fb: Seq<bool>,
    mem: Seq<u8>,
    i: int,
    sx: int,
    sy: int,
    n: nat,
)
    requires
        fb.len() == 2048,
        mem.len() == 4096,
        0 <= sx < 64,
        0 <= sy < 32,
        0 <= i,
        i + n <= 4096,
        n <= 15,
    ensures
        draw_sprite(draw_sprite(fb, mem, i, sx, sy, n), mem, i, sx, sy, n) == fb,
{
    let fb1 = draw_sprite(fb, mem, i, sx, sy, n);
    lemma_draw_sprite_points(fb, mem, i, sx, sy, n);
    lemma_draw_sprite_points(fb1, mem, i, sx, sy, n);
    let fb2 = draw_sprite(fb1, mem, i, sx, sy, n);
    assert forall|p: int| 0 <= p < 2048 implies fb2[p] == fb[p] by {
        lemma_fb_index_decomp(p);
        let x = p % 64;
        let y = p / 64;
        assert(fb2[fb_index(x, y)] == fb[fb_index(x, y)]);
    }
    assert(fb2 =~= fb);
}

/// A second draw of the same sprite in the same place collides as soon as
/// the first draw turned some pixel on.
pub proof fn lemma_second_draw_collides(
    fb: Seq<bool>,
    mem: Seq<u8>,
    i: int,
    sx: int,
    sy: int,
    n: nat,
)
    requires
        fb.len() == 2048,
        mem.len() == 4096,
        0 <= sx < 64,
        0 <= sy < 32,
        0 <= i,
        i + n <= 4096,
        n <= 15,
        exists|x: int, y: int|
            0 <= x < 64 && 0 <= y < 32 && #[trigger] sprite_covers(mem, i, sx, sy, n as int, x, y)
                && !fb[fb_index(x, y)],
    ensures
        sprite_collides(draw_sprite(fb, mem, i, sx, sy, n), mem, i, sx, sy, n as int),
{
    let (x, y) = choose|x: int, y: int|
        0 <= x < 64 && 0 <= y < 32 && #[trigger] sprite_covers(mem, i, sx, sy, n as int, x, y)
            && !fb[fb_index(x, y)];
    lemma_draw_sprite_points(fb, mem, i, sx, sy, n);
    let fb1 = draw_sprite(fb, mem, i, sx, sy, n);
    assert(fb1[fb_index(x, y)]);
    let r = y - sy;
    let c = x - sx;
    assert(0 <= c < 8 && sx + c < 64 && bit_of(mem[i + r], c) && fb1[fb_index(sx + c, sy + r)]);
    assert(byte_collides(fb1, mem[i + r], sx, sy + r));
    assert(0 <= r < n && sy + r < 32 && byte_collides(fb1, mem[i + r], sx, sy + r));
}

} // verus!
