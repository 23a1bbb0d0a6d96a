//! Framebuffer surface: a packed 1-bit-per-pixel drawable raster.
//!
//! A pure data structure with no hardware knowledge; its buffer feeds the
//! same packing and drawing path as a dithered image. A clear bit is an
//! inked (black) pixel, a set bit a white one.

use vstd::prelude::*;

use crate::pack::bit_at;
use crate::panel::filled;

verus! {

/// Setting or clearing one addressed bit changes exactly that pixel of its
/// byte and leaves the other seven alone.
proof fn lemma_mask_bits(b: u8, k: u8, j: u8)
    requires
        k < 8,
        j < 8,
    ensures
        bit_at(b | (0x80u8 >> k), j as int) == (j == k || bit_at(b, j as int)),
        bit_at(b & !(0x80u8 >> k), j as int) == (j != k && bit_at(b, j as int)),
{
    assert((((b | (0x80u8 >> k)) >> ((7 - j) as u8)) & 1 == 1) == ((j == k) || ((b >> ((7 - j)
        as u8)) & 1 == 1)) && (((b & !(0x80u8 >> k)) >> ((7 - j) as u8)) & 1 == 1) == ((j != k)
        && ((b >> ((7 - j) as u8)) & 1 == 1))) by (bit_vector)
        requires
            k < 8,
            j < 8,
    ;
}

/// The byte position of an in-range pixel lies inside the buffer, and its
/// byte column inside the row.
proof fn lemma_byte_index_in_range(s: Surface, x: int, y: int)
    requires
        s.wf(),
        0 <= x < s.width,
        0 <= y < s.height,
    ensures
        0 <= s.byte_index(x, y) < s.buffer@.len(),
        0 <= x / 8 < s.width as int / 8,
{
    let m = s.width as int / 8;
    let h = s.height as int;
    vstd::arithmetic::div_mod::lemma_fundamental_div_mod(s.width as int, 8);
    assert(s.width == 8 * m);
    assert(m >= 1);
    vstd::arithmetic::div_mod::lemma_div_is_ordered(x, 8 * m - 1, 8);
    vstd::arithmetic::div_mod::lemma_fundamental_div_mod_converse(8 * m - 1, 8, m - 1, 7);
    vstd::arithmetic::div_mod::lemma_div_pos_is_pos(x, 8);
    assert(0 <= x / 8 <= m - 1);
    assert(m - 1 + m * y < m * h) by (nonlinear_arith)
        requires y < h, y >= 0, m >= 1,
    ;
    assert(m * y >= 0) by (nonlinear_arith)
        requires y >= 0, m >= 0,
    ;
    assert(s.width * s.height == 8 * (m * h)) by (nonlinear_arith)
        requires s.width == 8 * m, h == s.height,
    ;
    vstd::arithmetic::div_mod::lemma_fundamental_div_mod_converse(8 * (m * h), 8, m * h, 0);
    assert(s.width * s.height / 8 == m * h);
}

/// A `width` x `height` raster backed by a packed byte buffer of
/// `width * height / 8` bytes; the pixel at `(x, y)` lives at bit
/// `0x80 >> (x % 8)` of byte `x / 8 + (width / 8) * y`.
pub struct Surface {
    /// The packed pixels.
    pub buffer: Vec<u8>,
    /// Pixel columns; always a multiple of eight.
    pub width: u32,
    /// Pixel rows.
    pub height: u32,
}

impl Surface {
    /// Shape invariant: the buffer holds exactly one bit per pixel.
    pub open spec fn wf(&self) -> bool {
        &&& self.width % 8 == 0
        &&& self.width * self.height <= u32::MAX
        &&& self.buffer@.len() == self.width * self.height / 8
    }

    /// The byte that holds pixel `(x, y)`.
    pub open spec fn byte_index(&self, x: int, y: int) -> int {
        x / 8 + (self.width as int / 8) * y
    }

    /// The mask of pixel `x`'s bit inside its byte.
    pub open spec fn bit_mask(x: int) -> u8 {
        0x80u8 >> ((x % 8) as u8)
    }

    /// Is the pixel at `(x, y)` white, that is, is its bit set?
    pub open spec fn pixel_white(&self, x: int, y: int) -> bool {
        bit_at(self.buffer@[self.byte_index(x, y)], x % 8)
    }

    /// An all-white surface (every byte zero) of the given size.
    pub fn new(width: u32, height: u32) -> (s: Surface)
        requires
            width % 8 == 0,
            width * height <= u32::MAX,
        ensures
            s.wf(),
            s.width == width,
            s.height == height,
            forall|i: int| 0 <= i < s.buffer@.len() ==> s.buffer@[i] == 0,
    {
        let len: usize = ((width * height) / 8) as usize;
        let buffer = filled(len, 0x00);
        Surface { buffer, width, height }
    }

    /// The packed buffer, ready to hand to a packing or drawing call.
    pub fn buffer(&self) -> (r: &Vec<u8>)
        ensures
            r@ == self.buffer@,
    {
        &self.buffer
    }

    /// The surface dimensions as (columns, rows).
    pub fn size(&self) -> (r: (u32, u32))
        ensures
            r.0 == self.width,
            r.1 == self.height,
    {
        (self.width, self.height)
    }

    /// Resolves a point to its byte position and bit mask. A point with a
    /// negative coordinate resolves to byte 0 with an empty mask, so that
    /// writing through it changes nothing.
    fn find_position(&self, x: i32, y: i32) -> (r: (usize, u8))
        requires
            self.wf(),
            x >= 0 && y >= 0 ==> x < self.width && y < self.height,
        ensures
            x < 0 || y < 0 ==> r == (0usize, 0u8),
            x >= 0 && y >= 0 ==> r.0 == self.byte_index(x as int, y as int) && r.1
                == Surface::bit_mask(x as int) && r.0 < self.buffer@.len(),
    {
        if x < 0 || y < 0 {
            return (0, 0);
        }
        let xu: u32 = x as u32;
        let yu: u32 = y as u32;
        proof {
            lemma_byte_index_in_range(*self, xu as int, yu as int);
            assert((self.width as int / 8) * yu >= 0) by (nonlinear_arith)
                requires self.width as int / 8 >= 0, yu >= 0,
            ;
        }
        let index: usize = (xu / 8 + (self.width / 8) * yu) as usize;
        let mask: u8 = 0x80u8 >> ((xu % 8) as u8);
        (index, mask)
    }

    /// Sets (`on == true`, ink) or clears (`on == false`, white) the pixel
    /// at `(x, y)`: the addressed bit is cleared for ink and set for white.
    /// Points with a negative coordinate are silently ignored.
    pub fn draw_pixel(&mut self, x: i32, y: i32, on: bool)
        requires
            old(self).wf(),
            x >= 0 && y >= 0 ==> x < old(self).width && y < old(self).height,
        ensures
            final(self).wf(),
            final(self).width == old(self).width,
            final(self).height == old(self).height,
            x < 0 || y < 0 ==> final(self).buffer@ == old(self).buffer@,
            x >= 0 && y >= 0 ==> {
                let i = old(self).byte_index(x as int, y as int);
                let mask = Surface::bit_mask(x as int);
                &&& final(self).buffer@.len() == old(self).buffer@.len()
                &&& forall|j: int|
                    0 <= j < old(self).buffer@.len() && j != i ==> final(self).buffer@[j] == old(
                        self,
                    ).buffer@[j]
                &&& final(self).buffer@[i] == (if on {
                    old(self).buffer@[i] & !mask
                } else {
                    old(self).buffer@[i] | mask
                })
                &&& final(self).pixel_white(x as int, y as int) == !on
                &&& forall|x2: int, y2: int|
                    0 <= x2 < old(self).width && 0 <= y2 < old(self).height && (x2 != x || y2
                        != y) ==> #[trigger] final(self).pixel_white(x2, y2) == old(
                        self,
                    ).pixel_white(x2, y2)
            },
    {
        if x < 0 || y < 0 {
            return ;
        }
        let (index, mask) = self.find_position(x, y);
        let b: u8 = self.buffer[index];
        if on {
            self.buffer[index] = b & !mask;
        } else {
            self.buffer[index] = b | mask;
        }
        proof {
            let m = self.width as int / 8;
            vstd::arithmetic::div_mod::lemma_fundamental_div_mod(self.width as int, 8);
            let i = old(self).byte_index(x as int, y as int);
            vstd::arithmetic::div_mod::lemma_fundamental_div_mod(x as int, 8);
            lemma_mask_bits(old(self).buffer@[i], (x as int % 8) as u8, (x as int % 8) as u8);
            assert(final(self).pixel_white(x as int, y as int) == !on);
            assert forall|x2: int, y2: int|
                0 <= x2 < old(self).width && 0 <= y2 < old(self).height && (x2 != x || y2 != y)
                implies #[trigger] final(self).pixel_white(x2, y2) == old(self).pixel_white(
                x2, y2,
            ) by {
                let i2 = old(self).byte_index(x2, y2);
                vstd::arithmetic::div_mod::lemma_fundamental_div_mod(x2, 8);
                lemma_byte_index_in_range(*old(self), x2, y2);
                lemma_byte_index_in_range(*old(self), x as int, y as int);
                if i2 == i {
                    // Same byte: the quotient-remainder decomposition of the
                    // byte index forces the same row and byte column, so the
                    // two pixels differ only in their bit.
                    vstd::arithmetic::div_mod::lemma_fundamental_div_mod_converse(
                        i, m, y as int, x as int / 8,
                    );
                    vstd::arithmetic::div_mod::lemma_fundamental_div_mod_converse(
                        i2, m, y2, x2 / 8,
                    );
                    assert(y2 == y && x2 / 8 == x as int / 8);
                    assert(x2 % 8 != x as int % 8);
                    lemma_mask_bits(
                        old(self).buffer@[i], (x as int % 8) as u8, (x2 % 8) as u8,
                    );
                } else {
                    assert(final(self).buffer@[i2] == old(self).buffer@[i2]);
                }
            }
        }
    }
}

} // verus!
