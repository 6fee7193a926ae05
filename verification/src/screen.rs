//! Rendering abstraction: the peripheral capability a host device must
//! provide (stripe reads and writes, a button), the pixel-level adapter
//! built on the stripe primitives, and the sprite blitter.
//!
//! The screen is 128 columns by 64 rows. Each column is addressed as 8
//! vertical stripes; bit `b` of stripe `s` is the pixel in row `s * 8 + b`.

use vstd::prelude::*;
use crate::codec::u8_bit;
use crate::{SCREEN_HEIGHT, SCREEN_WIDTH};

verus! {

/// `(x, s)` addresses a stripe of the visible screen.
pub open spec fn in_screen(x: int, s: int) -> bool {
    &&& 0 <= x < 128
    &&& 0 <= s < 8
}

/// `(x, y)` addresses a pixel of the visible screen.
pub open spec fn in_screen_px(x: int, y: int) -> bool {
    &&& 0 <= x < 128
    &&& 0 <= y < 64
}

/// Byte `b` with bit `i` set to `v` and every other bit unchanged, `i < 8`.
pub open spec fn with_bit(b: u8, i: u8, v: bool) -> u8 {
    if v {
        b | (1u8 << i)
    } else {
        b & !(1u8 << i)
    }
}

/// `with_bit` changes exactly the addressed bit.
pub proof fn lemma_with_bit(b: u8, i: u8, v: bool)
    requires
        i < 8,
    ensures
        u8_bit(with_bit(b, i, v), i) == v,
        forall|j: u8| j < 8 && j != i ==> #[trigger] u8_bit(with_bit(b, i, v), j) == u8_bit(b, j),
{
    assert(((if v { b | (1u8 << i) } else { b & !(1u8 << i) }) >> i) & 1 == (if v { 1u8 } else { 0u8 })) by (bit_vector)
        requires
            i < 8,
    ;
    assert(forall|j: u8| j < 8 && j != i ==>
        ((if v { b | (1u8 << i) } else { b & !(1u8 << i) }) >> j) & 1 == (b >> j) & 1) by (bit_vector)
        requires
            i < 8,
    ;
}

/// The contract the core requires from the host device: read or write one
/// 8-pixel stripe at a column, and sample one digital button. The abstract
/// stripe view ties the two primitives to one underlying framebuffer.
pub trait Peripherals: Sized {
    /// Abstract content of the framebuffer: the stripe byte at column `x`,
    /// stripe row `s`.
    spec fn stripe_at(&self, x: int, s: int) -> u8;

    /// Reads the stripe byte at column `x`, stripe row `stripe`.
    fn get_stripe(&self, x: u8, stripe: u8) -> (r: u8)
        requires
            x < 128,
            stripe < 8,
        ensures
            r == self.stripe_at(x as int, stripe as int),
    ;

    /// Writes the stripe byte at column `x`, stripe row `stripe`; no other
    /// stripe is affected.
    fn set_stripe(&mut self, x: u8, stripe: u8, val: u8)
        requires
            x < 128,
            stripe < 8,
        ensures
            forall|i: int, s: int| #![auto]
                final(self).stripe_at(i, s)
                    == if i == x as int && s == stripe as int { val } else { old(self).stripe_at(i, s) },
    ;

    /// Samples the single input button; the value read is up to the device.
    fn get_button(&self) -> bool;

    /// Sets or clears one pixel, by one stripe read and one stripe write;
    /// no other bit of the screen changes.
    fn set_pixel(&mut self, x: u8, y: u8, val: bool)
        requires
            x < 128,
            y < 64,
        ensures
            final(self).stripe_at(x as int, y as int / 8)
                == with_bit(old(self).stripe_at(x as int, y as int / 8), y % 8, val),
            forall|i: int, s: int| #![auto] !(i == x as int && s == y as int / 8)
                ==> final(self).stripe_at(i, s) == old(self).stripe_at(i, s),
            u8_bit(final(self).stripe_at(x as int, y as int / 8), y % 8) == val,
            forall|i: int, j: int| in_screen_px(i, j) && !(i == x as int && j == y as int)
                ==> #[trigger] u8_bit(final(self).stripe_at(i, j / 8), (j % 8) as u8)
                    == u8_bit(old(self).stripe_at(i, j / 8), (j % 8) as u8),
    {
        let stripe = y / 8;
        let offset = y - stripe * 8;
        let old_byte = self.get_stripe(x, stripe);
        let mask = 1u8 << offset;
        let new_byte = if val { old_byte | mask } else { old_byte & !mask };
        proof {
            assert(offset == y % 8);
            lemma_with_bit(old_byte, offset, val);
        }
        self.set_stripe(x, stripe, new_byte);
        proof {
            assert forall|i: int, j: int|
                in_screen_px(i, j) && !(i == x as int && j == y as int)
                implies #[trigger] u8_bit(final(self).stripe_at(i, j / 8), (j % 8) as u8)
                    == u8_bit(old(self).stripe_at(i, j / 8), (j % 8) as u8) by {
                if i == x as int && j / 8 == y as int / 8 {
                    assert(0 <= j % 8 < 8);
                    assert(j % 8 != y as int % 8);
                    lemma_with_bit(old_byte, offset, val);
                }
            }
        }
    }
}

/// The pixel at `(x, y)`: bit `y % 8` of the stripe at `(x, y / 8)`.
pub open spec fn pixel_at<P: Peripherals>(p: P, x: int, y: int) -> bool {
    u8_bit(p.stripe_at(x, y / 8), (y % 8) as u8)
}

/// `post` is `pre` with the 8-pixel-tall sprite `sprite` blitted at
/// `(x0, y0)`: every pixel of the covered region holds the sprite's bit,
/// and nothing outside the region changes.
pub open spec fn sprite_drawn<P: Peripherals>(pre: P, post: P, sprite: Seq<u8>, x0: int, y0: int) -> bool {
    &&& forall|i: int, s: int| !(x0 <= i < x0 + sprite.len())
        ==> #[trigger] post.stripe_at(i, s) == pre.stripe_at(i, s)
    &&& forall|i: int, s: int| !(0 <= s < 8)
        ==> #[trigger] post.stripe_at(i, s) == pre.stripe_at(i, s)
    &&& forall|x: int, y: int| x0 <= x < x0 + sprite.len() && 0 <= y < 64 && !(y0 <= y < y0 + 8)
        ==> #[trigger] pixel_at(post, x, y) == pixel_at(pre, x, y)
    &&& forall|x: int, y: int| x0 <= x < x0 + sprite.len() && y0 <= y < y0 + 8
        ==> #[trigger] pixel_at(post, x, y) == u8_bit(sprite[x - x0], (y - y0) as u8)
}

/// Draws a sprite of `sprite.len()` columns and 8 rows with its top-left
/// corner at `pos`, one byte per column, bit 0 the topmost pixel. Bits that
/// are clear in the sprite clear the covered pixels.
pub fn draw_sprite<P: Peripherals>(p: &mut P, sprite: &Vec<u8>, pos: (u8, u8))
    requires
        pos.0 as int + sprite@.len() <= 128,
        pos.1 <= 56,
    ensures
        sprite_drawn(*old(p), *final(p), sprite@, pos.0 as int, pos.1 as int),
{
    let (x0, y0) = pos;
    let ghost p0 = *p;
    let mut i: usize = 0;
    while i < sprite.len()
        invariant
            i <= sprite@.len(),
            x0 as int + sprite@.len() <= 128,
            y0 <= 56,
            forall|a: int, s: int| !(x0 as int <= a < x0 as int + i)
                ==> #[trigger] p.stripe_at(a, s) == p0.stripe_at(a, s),
            forall|a: int, s: int| !(0 <= s < 8)
                ==> #[trigger] p.stripe_at(a, s) == p0.stripe_at(a, s),
            forall|a: int, y: int| x0 as int <= a < x0 as int + i && 0 <= y < 64
                && !(y0 as int <= y < y0 as int + 8)
                ==> #[trigger] pixel_at(*p, a, y) == pixel_at(p0, a, y),
            forall|a: int, y: int| x0 as int <= a < x0 as int + i && y0 as int <= y < y0 as int + 8
                ==> #[trigger] pixel_at(*p, a, y) == u8_bit(sprite@[a - x0 as int], (y - y0 as int) as u8),
        decreases sprite@.len() - i,
    {
        let dx = i as u8;
        let mut col = sprite[i];
        let mut dy: u8 = 0;
        let ghost p1 = *p;
        proof {
            assert(col == col >> 0u8) by (bit_vector);
        }
        while dy < 8
            invariant
                dy <= 8,
                i < sprite@.len(),
                dx == i as u8,
                x0 as int + sprite@.len() <= 128,
                y0 <= 56,
                col == sprite@[i as int] >> dy,
                forall|a: int, s: int| a != x0 as int + dx as int
                    ==> #[trigger] p.stripe_at(a, s) == p1.stripe_at(a, s),
                forall|a: int, s: int| !(0 <= s < 8)
                    ==> #[trigger] p.stripe_at(a, s) == p1.stripe_at(a, s),
                forall|a: int, y: int| a == x0 as int + dx as int
                    && y0 as int <= y < y0 as int + dy as int
                    ==> #[trigger] pixel_at(*p, a, y) == u8_bit(sprite@[i as int], (y - y0 as int) as u8),
                forall|a: int, y: int| a == x0 as int + dx as int && 0 <= y < 64
                    && !(y0 as int <= y < y0 as int + dy as int)
                    ==> #[trigger] pixel_at(*p, a, y) == pixel_at(p1, a, y),
            decreases 8 - dy,
        {
            let ghost col_in = col;
            let ghost dy_in = dy;
            let ghost p_pre = *p;
            proof {
                let spr = sprite@[i as int];
                assert((col_in & 1 != 0) == u8_bit(spr, dy_in)) by (bit_vector)
                    requires
                        col_in == spr >> dy_in,
                        dy_in < 8,
                ;
                assert(col_in >> 1 == spr >> ((dy_in + 1) as u8)) by (bit_vector)
                    requires
                        col_in == spr >> dy_in,
                        dy_in < 8,
                ;
            }
            p.set_pixel(x0 + dx, y0 + dy, col & 1 != 0);
            col >>= 1;
            dy += 1;
            proof {
                let a0 = x0 as int + dx as int;
                let yd = y0 as int + dy_in as int;
                assert(pixel_at(*p, a0, yd) == u8_bit(sprite@[i as int], dy_in));
                assert forall|a: int, y: int|
                    a == a0 && y0 as int <= y < y0 as int + dy as int
                    implies #[trigger] pixel_at(*p, a, y)
                        == u8_bit(sprite@[i as int], (y - y0 as int) as u8) by {
                    if y != yd {
                        assert(in_screen_px(a, y));
                        assert(pixel_at(*p, a, y) == pixel_at(p_pre, a, y));
                    }
                }
                assert forall|a: int, y: int|
                    a == a0 && 0 <= y < 64 && !(y0 as int <= y < y0 as int + dy as int)
                    implies #[trigger] pixel_at(*p, a, y) == pixel_at(p1, a, y) by {
                    assert(in_screen_px(a, y));
                    assert(pixel_at(*p, a, y) == pixel_at(p_pre, a, y));
                    assert(pixel_at(p_pre, a, y) == pixel_at(p1, a, y));
                }
            }
        }
        proof {
            assert forall|a: int, y: int|
                x0 as int <= a < x0 as int + i + 1 && 0 <= y < 64
                && !(y0 as int <= y < y0 as int + 8)
                implies #[trigger] pixel_at(*p, a, y) == pixel_at(p0, a, y) by {
                if a < x0 as int + i {
                    assert(pixel_at(*p, a, y) == pixel_at(p1, a, y));
                    assert(pixel_at(p1, a, y) == pixel_at(p0, a, y));
                }
            }
            assert forall|a: int, y: int|
                x0 as int <= a < x0 as int + i + 1 && y0 as int <= y < y0 as int + 8
                implies #[trigger] pixel_at(*p, a, y)
                    == u8_bit(sprite@[a - x0 as int], (y - y0 as int) as u8) by {
                if a < x0 as int + i {
                    assert(pixel_at(*p, a, y) == pixel_at(p1, a, y));
                }
            }
        }
        i += 1;
    }
}

/// Writes `value` into every stripe of the screen.
pub fn fill_screen<P: Peripherals>(p: &mut P, value: u8)
    ensures
        forall|i: int, s: int| in_screen(i, s) ==> #[trigger] final(p).stripe_at(i, s) == value,
        forall|i: int, s: int| !in_screen(i, s)
            ==> #[trigger] final(p).stripe_at(i, s) == old(p).stripe_at(i, s),
{
    let ghost p0 = *p;
    let mut x: u8 = 0;
    while x < SCREEN_WIDTH
        invariant
            x <= 128,
            forall|i: int, s: int| in_screen(i, s) && i < x as int
                ==> #[trigger] p.stripe_at(i, s) == value,
            forall|i: int, s: int| !(in_screen(i, s) && i < x as int)
                ==> #[trigger] p.stripe_at(i, s) == p0.stripe_at(i, s),
        decreases 128 - x,
    {
        let mut stripe: u8 = 0;
        while stripe < SCREEN_HEIGHT / 8
            invariant
                x < 128,
                stripe <= 8,
                forall|i: int, s: int| in_screen(i, s) && i < x as int
                    ==> #[trigger] p.stripe_at(i, s) == value,
                forall|s: int| 0 <= s < stripe as int ==> #[trigger] p.stripe_at(x as int, s) == value,
                forall|i: int, s: int| !(in_screen(i, s) && i < x as int)
                    && !(i == x as int && 0 <= s < stripe as int)
                    ==> #[trigger] p.stripe_at(i, s) == p0.stripe_at(i, s),
            decreases 8 - stripe,
        {
            p.set_stripe(x, stripe, value);
            stripe += 1;
        }
        x += 1;
    }
}

/// Writes zero into every stripe of the screen.
pub fn clear_screen<P: Peripherals>(p: &mut P)
    ensures
        forall|i: int, s: int| in_screen(i, s) ==> #[trigger] final(p).stripe_at(i, s) == 0,
        forall|i: int, s: int| !in_screen(i, s)
            ==> #[trigger] final(p).stripe_at(i, s) == old(p).stripe_at(i, s),
{
    fill_screen(p, 0x00)
}

/// A vector of 1024 zero bytes: one stripe byte for each of the 128
/// columns times 8 stripe rows.
fn zero_bytes() -> (r: Vec<u8>)
    ensures
        r@.len() == 1024,
        forall|k: int| 0 <= k < 1024 ==> r@[k] == 0,
{
    let mut v: Vec<u8> = Vec::new();
    let mut k: usize = 0;
    while k < 1024
        invariant
            k <= 1024,
            v@.len() == k,
            forall|j: int| 0 <= j < k as int ==> v@[j] == 0,
        decreases 1024 - k,
    {
        v.push(0);
        k += 1;
    }
    v
}

/// A peripheral backed by plain memory: the whole framebuffer as one byte
/// vector, with no physical device behind it and a button that always reads
/// released.
pub struct ScreenBuffer {
    bytes: Vec<u8>,
}

impl ScreenBuffer {
    /// A screen buffer with every stripe clear.
    pub fn new() -> (r: ScreenBuffer)
        ensures
            forall|i: int, s: int| #[trigger] r.stripe_at(i, s) == 0,
    {
        ScreenBuffer { bytes: zero_bytes() }
    }
}

impl Peripherals for ScreenBuffer {
    /// Stripe `s` of column `x` lives at byte `8 * x + s`.
    closed spec fn stripe_at(&self, x: int, s: int) -> u8 {
        if 0 <= x < 128 && 0 <= s < 8 && self.bytes.len() == 1024 {
            self.bytes[8 * x + s]
        } else {
            0
        }
    }

    fn get_stripe(&self, x: u8, stripe: u8) -> (r: u8) {
        if self.bytes.len() == 1024 {
            self.bytes[8 * (x as usize) + stripe as usize]
        } else {
            0
        }
    }

    fn set_stripe(&mut self, x: u8, stripe: u8, val: u8) {
        // The constructor always builds the full-sized buffer; restoring it
        // here keeps the write total over every value of the type.
        if self.bytes.len() != 1024 {
            self.bytes = zero_bytes();
        }
        let idx = 8 * (x as usize) + stripe as usize;
        self.bytes[idx] = val;
    }

    fn get_button(&self) -> bool {
        false
    }
}

} // verus!
