//! The 64×32 monochrome framebuffer and the sprite blit.
//!
//! The framebuffer is held as 32 rows of 64 bits; bit `c` of a row is the
//! pixel in column `c`, column 0 being the left edge.

use vstd::prelude::*;

verus! {

/// Number of pixel rows on the screen.
pub const SCREEN_HEIGHT: usize = 32;

/// Number of pixel columns on the screen.
pub const SCREEN_WIDTH: u64 = 64;

/// Whether the pixel in column `c` of a framebuffer row is on.
pub open spec fn pixel(row: u64, c: int) -> bool {
    (row >> (c as u64)) & 1u64 == 1u64
}

/// The screen that a framebuffer shows: 32 rows of 64 pixels.
pub open spec fn screen_of(canvas: Seq<u64>) -> Seq<Seq<bool>> {
    Seq::new(32, |r: int| Seq::new(64, |c: int| pixel(canvas[r], c)))
}

/// Whether pixel `k` (0 the leftmost, 7 the rightmost) of a sprite row byte
/// is set; the most significant bit is the leftmost pixel.
pub open spec fn sprite_bit(b: u8, k: int) -> bool {
    0 <= k < 8 && (b >> ((7 - k) as u8)) & 1u8 == 1u8
}

/// Whether a sprite row byte drawn at column `x` covers screen column `c`,
/// wrapping round the right edge.
pub open spec fn row_hit(b: u8, x: u8, c: int) -> bool {
    sprite_bit(b, (c - x) % 64)
}

/// The sprite row that lands on screen row `r` when the sprite's top is at
/// row `y`, wrapping round the bottom edge.
pub open spec fn sprite_row(y: u8, r: int) -> int {
    (r - y) % 32
}

/// Whether the sprite `sprite` (one byte per row) drawn at `(x, y)` covers
/// the pixel at row `r`, column `c`.
pub open spec fn covers(sprite: Seq<u8>, x: u8, y: u8, r: int, c: int) -> bool {
    sprite_row(y, r) < sprite.len() && row_hit(sprite[sprite_row(y, r)], x, c)
}

/// The screen after drawing `sprite` at `(x, y)`: every covered pixel flips.
pub open spec fn drawn(screen: Seq<Seq<bool>>, sprite: Seq<u8>, x: u8, y: u8) -> Seq<Seq<bool>> {
    Seq::new(32, |r: int| Seq::new(64, |c: int| screen[r][c] != covers(sprite, x, y, r, c)))
}

/// Whether drawing `sprite` at `(x, y)` turns off a pixel that was on.
pub open spec fn collides(screen: Seq<Seq<bool>>, sprite: Seq<u8>, x: u8, y: u8) -> bool {
    exists|r: int, c: int| 0 <= r < 32 && 0 <= c < 64 && screen[r][c] && covers(sprite, x, y, r, c)
}

/// A screen of 32 rows of 64 pixels.
pub open spec fn screen_well_formed(screen: Seq<Seq<bool>>) -> bool {
    screen.len() == 32 && forall|r: int| 0 <= r < 32 ==> (#[trigger] screen[r]).len() == 64
}

/// Drawing a sprite is its own inverse: drawing the same sprite at the same
/// place twice gives back the screen it started from.
pub proof fn lemma_draw_twice_restores(screen: Seq<Seq<bool>>, sprite: Seq<u8>, x: u8, y: u8)
    requires
        screen_well_formed(screen),
    ensures
        drawn(drawn(screen, sprite, x, y), sprite, x, y) == screen,
{
    assert(drawn(drawn(screen, sprite, x, y), sprite, x, y) =~~= screen);
}

/// The second of two draws of the same sprite at the same place reports a
/// collision whenever the sprite covers a pixel that was off before the
/// first: the first draw turned that pixel on, the second turns it off.
/// (Where every covered pixel was already on, the first draw turns them all
/// off and the second reports none.)
pub proof fn lemma_second_draw_collides(screen: Seq<Seq<bool>>, sprite: Seq<u8>, x: u8, y: u8, r: int, c: int)
    requires
        screen_well_formed(screen),
        0 <= r < 32,
        0 <= c < 64,
        covers(sprite, x, y, r, c),
        !screen[r][c],
    ensures
        collides(drawn(screen, sprite, x, y), sprite, x, y),
{
    assert(drawn(screen, sprite, x, y)[r][c]);
}

/// Drawing at a blank screen reports no collision.
pub proof fn lemma_blank_no_collision(screen: Seq<Seq<bool>>, sprite: Seq<u8>, x: u8, y: u8)
    requires
        screen_well_formed(screen),
        forall|r: int, c: int| 0 <= r < 32 && 0 <= c < 64 ==> !screen[r][c],
    ensures
        !collides(screen, sprite, x, y),
{
}

/// Pixel `k` of sprite row `d` lands on column `(x + k) mod 64` of row
/// `(y + d) mod 32`: both axes wrap, and drawing flips that pixel.
pub proof fn lemma_sprite_wraps(screen: Seq<Seq<bool>>, sprite: Seq<u8>, x: u8, y: u8, d: int, k: int)
    requires
        screen_well_formed(screen),
        sprite.len() <= 32,
        0 <= d < sprite.len(),
        sprite_bit(sprite[d], k),
    ensures
        covers(sprite, x, y, (y + d) % 32, (x + k) % 64),
        drawn(screen, sprite, x, y)[(y + d) % 32][(x + k) % 64] == !screen[(y + d) % 32][(x + k) % 64],
{
    lemma_row_offset(y, d, (y + d) % 32);
    lemma_column_offset(x, k, (x + k) % 64);
}

proof fn lemma_toggle_bit(a: u64, col: u64, c: u64)
    by (bit_vector)
    requires
        col < 64,
        c < 64,
    ensures
        (((a ^ (1u64 << col)) >> c) & 1u64 == 1u64) == (((a >> c) & 1u64 == 1u64) != (c == col)),
{
}

proof fn lemma_column_offset(x: u8, k: int, c: int)
    requires
        0 <= k < 64,
        0 <= c < 64,
    ensures
        ((c - x) % 64 == k) == (c == (x + k) % 64),
{
}

proof fn lemma_row_offset(y: u8, d: int, r: int)
    requires
        0 <= d < 32,
        0 <= r < 32,
    ensures
        ((r - y) % 32 == d) == (r == (y + d) % 32),
{
}

/// Draws one sprite row byte `b` at column `x` into the framebuffer row
/// `row`, flipping each covered pixel. Returns the new row and whether a
/// pixel that was on was turned off.
pub fn blit_row(row: u64, b: u8, x: u8) -> (r: (u64, bool))
    ensures
        forall|c: int| 0 <= c < 64 ==> pixel(r.0, c) == (pixel(row, c) != row_hit(b, x, c)),
        r.1 == exists|c: int| 0 <= c < 64 && pixel(row, c) && row_hit(b, x, c),
{
    let mut acc = row;
    let mut hit = false;
    let mut k: u64 = 0;
    while k < 8
        invariant
            k <= 8,
            forall|c: int|
                0 <= c < 64 ==> pixel(acc, c) == (pixel(row, c) != ((c - x) % 64 < k && sprite_bit(
                    b,
                    (c - x) % 64,
                ))),
            hit == exists|c: int|
                0 <= c < 64 && pixel(row, c) && (c - x) % 64 < k && sprite_bit(b, (c - x) % 64),
        decreases 8 - k,
    {
        let ghost prev = acc;
        let ghost prev_hit = hit;
        if (b >> ((7 - k) as u8)) & 1 == 1 {
            let col: u64 = (x as u64 + k) % 64;
            assert(sprite_bit(b, k as int));
            proof {
                lemma_column_offset(x, k as int, col as int);
            }
            if (acc >> col) & 1 == 1 {
                assert(pixel(row, col as int) && (col - x) % 64 < k + 1 && sprite_bit(b, (col - x) % 64));
                hit = true;
            }
            acc = acc ^ (1u64 << col);
            proof {
                assert forall|c: int| 0 <= c < 64 implies pixel(acc, c) == (pixel(row, c) != ((c - x) % 64
                    < k + 1 && sprite_bit(b, (c - x) % 64))) by {
                    lemma_toggle_bit(prev, col, c as u64);
                    lemma_column_offset(x, k as int, c);
                }
                assert(hit == exists|c: int|
                    0 <= c < 64 && pixel(row, c) && (c - x) % 64 < k + 1 && sprite_bit(b, (c - x) % 64)) by {
                    if !hit {
                        assert forall|c: int| 0 <= c < 64 && #[trigger] pixel(row, c) && (c - x) % 64 < k + 1
                            implies !sprite_bit(b, (c - x) % 64) by {
                            lemma_column_offset(x, k as int, c);
                        }
                    }
                }
            }
        } else {
            assert(!sprite_bit(b, k as int));
        }
        k += 1;
    }
    (acc, hit)
}

/// Draws the sprite held in `memory[start .. start + height]` with its top
/// left corner at `(x, y)`, flipping every covered pixel, with both axes
/// wrapping. Returns whether a pixel that was on was turned off.
pub fn draw_sprite(canvas: &mut [u64; 32], memory: &[u8; 4096], start: usize, height: usize, x: u8, y: u8) -> (collision: bool)
    requires
        height < 16,
        start + height <= 4096,
    ensures
        screen_of(final(canvas)@) == drawn(screen_of(old(canvas)@), memory@.subrange(start as int, start + height), x, y),
        collision == collides(screen_of(old(canvas)@), memory@.subrange(start as int, start + height), x, y),
{
    let ghost before = canvas@;
    let ghost sprite = memory@.subrange(start as int, start + height);
    let mut collision = false;
    let mut d: usize = 0;
    while d < height
        invariant
            d <= height,
            height < 16,
            start + height <= 4096,
            sprite == memory@.subrange(start as int, start + height),
            before.len() == 32,
            forall|r: int, c: int|
                0 <= r < 32 && 0 <= c < 64 ==> #[trigger] pixel(canvas@[r], c) == (pixel(before[r], c) != (
                sprite_row(y, r) < d && row_hit(sprite[sprite_row(y, r)], x, c))),
            collision == exists|r: int, c: int|
                0 <= r < 32 && 0 <= c < 64 && sprite_row(y, r) < d && pixel(before[r], c) && row_hit(
                    sprite[sprite_row(y, r)],
                    x,
                    c,
                ),
        decreases height - d,
    {
        let ghost prev = canvas@;
        let b = memory[start + d];
        let rr: usize = (y as usize + d) % 32;
        proof {
            lemma_row_offset(y, d as int, rr as int);
            assert(sprite[d as int] == b);
        }
        let (row, hit) = blit_row(canvas[rr], b, x);
        canvas[rr] = row;
        proof {
            assert forall|r: int, c: int|
                0 <= r < 32 && 0 <= c < 64 implies #[trigger] pixel(canvas@[r], c) == (pixel(before[r], c) != (
                sprite_row(y, r) < d + 1 && row_hit(sprite[sprite_row(y, r)], x, c))) by {
                lemma_row_offset(y, d as int, r);
                if r != rr {
                    assert(canvas@[r] == prev[r]);
                } else {
                    assert(pixel(prev[r], c) == pixel(before[r], c));
                    assert(sprite[sprite_row(y, r)] == b);
                }
            }
        }
        collision = collision || hit;
        proof {
            let new_hit = exists|r: int, c: int|
                0 <= r < 32 && 0 <= c < 64 && sprite_row(y, r) < d + 1 && pixel(before[r], c) && row_hit(
                    sprite[sprite_row(y, r)],
                    x,
                    c,
                );
            if collision {
                if hit {
                    let c = choose|c: int| 0 <= c < 64 && pixel(prev[rr as int], c) && row_hit(b, x, c);
                    assert(pixel(prev[rr as int], c) == pixel(before[rr as int], c));
                    assert(sprite_row(y, rr as int) < d + 1 && pixel(before[rr as int], c));
                }
                assert(new_hit);
            } else {
                assert forall|r: int, c: int|
                    0 <= r < 32 && 0 <= c < 64 && sprite_row(y, r) < d + 1 && #[trigger] pixel(before[r], c)
                    implies !row_hit(sprite[sprite_row(y, r)], x, c) by {
                    lemma_row_offset(y, d as int, r);
                    if r == rr {
                        assert(pixel(prev[rr as int], c) == pixel(before[rr as int], c));
                    }
                }
                assert(!new_hit);
            }
        }
        d += 1;
    }
    proof {
        let s0 = screen_of(before);
        assert(screen_of(canvas@) =~~= drawn(s0, sprite, x, y));
        let done = exists|r: int, c: int|
            0 <= r < 32 && 0 <= c < 64 && sprite_row(y, r) < d && pixel(before[r], c) && row_hit(
                sprite[sprite_row(y, r)],
                x,
                c,
            );
        if collision {
            let (r, c) = choose|r: int, c: int|
                0 <= r < 32 && 0 <= c < 64 && sprite_row(y, r) < d && pixel(before[r], c) && row_hit(
                    sprite[sprite_row(y, r)],
                    x,
                    c,
                );
            assert(s0[r][c] && covers(sprite, x, y, r, c));
        } else {
            assert forall|r: int, c: int| 0 <= r < 32 && 0 <= c < 64 && #[trigger] s0[r][c] implies !covers(
                sprite,
                x,
                y,
                r,
                c,
            ) by {
                assert(pixel(before[r], c));
            }
        }
    }
    collision
}

} // verus!
