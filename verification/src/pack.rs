//! Bitplane packing: turning 1-bit rasters into the device wire format.
//!
//! A raster row is packed eight pixels per byte, most-significant bit first;
//! a set bit encodes a white pixel, a clear bit a black one. The bichromatic
//! format widens this to two bits per pixel, combining a black plane and a
//! color plane into one nibble-coded stream.

use vstd::prelude::*;

use crate::error::EpdError;

verus! {

/// Pixel `k` of a packed byte, counting from the most significant bit
/// (`k == 0` is the leftmost pixel of the group of eight).
pub open spec fn bit_at(byte: u8, k: int) -> bool {
    (byte >> ((7 - k) as u8)) & 1 == 1
}

/// Bytes needed for one packed row of `width` pixels.
pub open spec fn row_bytes(width: int) -> int {
    (width + 7) / 8
}

/// `width` rounded up to the next multiple of eight: the number of pixel
/// columns, padding included, that packing consumes per row.
pub open spec fn padded_width(width: int) -> int {
    row_bytes(width) * 8
}

/// The byte holding eight pixels, most significant bit first.
pub open spec fn byte_of_bits(
    b0: bool, b1: bool, b2: bool, b3: bool,
    b4: bool, b5: bool, b6: bool, b7: bool,
) -> u8 {
    (if b0 { 0x80u8 } else { 0u8 }) | (if b1 { 0x40u8 } else { 0u8 })
        | (if b2 { 0x20u8 } else { 0u8 }) | (if b3 { 0x10u8 } else { 0u8 })
        | (if b4 { 0x08u8 } else { 0u8 }) | (if b5 { 0x04u8 } else { 0u8 })
        | (if b6 { 0x02u8 } else { 0u8 }) | (if b7 { 0x01u8 } else { 0u8 })
}

/// Reading a packed byte gives back exactly the eight bits it was built from.
pub proof fn lemma_byte_of_bits_at(
    b0: bool, b1: bool, b2: bool, b3: bool,
    b4: bool, b5: bool, b6: bool, b7: bool,
)
    ensures
        bit_at(byte_of_bits(b0, b1, b2, b3, b4, b5, b6, b7), 0) == b0,
        bit_at(byte_of_bits(b0, b1, b2, b3, b4, b5, b6, b7), 1) == b1,
        bit_at(byte_of_bits(b0, b1, b2, b3, b4, b5, b6, b7), 2) == b2,
        bit_at(byte_of_bits(b0, b1, b2, b3, b4, b5, b6, b7), 3) == b3,
        bit_at(byte_of_bits(b0, b1, b2, b3, b4, b5, b6, b7), 4) == b4,
        bit_at(byte_of_bits(b0, b1, b2, b3, b4, b5, b6, b7), 5) == b5,
        bit_at(byte_of_bits(b0, b1, b2, b3, b4, b5, b6, b7), 6) == b6,
        bit_at(byte_of_bits(b0, b1, b2, b3, b4, b5, b6, b7), 7) == b7,
{
    let v = byte_of_bits(b0, b1, b2, b3, b4, b5, b6, b7);
    assert((v >> 7u8) & 1 == (if b0 { 1u8 } else { 0u8 })
        && (v >> 6u8) & 1 == (if b1 { 1u8 } else { 0u8 })
        && (v >> 5u8) & 1 == (if b2 { 1u8 } else { 0u8 })
        && (v >> 4u8) & 1 == (if b3 { 1u8 } else { 0u8 })
        && (v >> 3u8) & 1 == (if b4 { 1u8 } else { 0u8 })
        && (v >> 2u8) & 1 == (if b5 { 1u8 } else { 0u8 })
        && (v >> 1u8) & 1 == (if b6 { 1u8 } else { 0u8 })
        && (v >> 0u8) & 1 == (if b7 { 1u8 } else { 0u8 })) by (bit_vector)
        requires
            v == (if b0 { 0x80u8 } else { 0u8 }) | (if b1 { 0x40u8 } else { 0u8 })
                | (if b2 { 0x20u8 } else { 0u8 }) | (if b3 { 0x10u8 } else { 0u8 })
                | (if b4 { 0x08u8 } else { 0u8 }) | (if b5 { 0x04u8 } else { 0u8 })
                | (if b6 { 0x02u8 } else { 0u8 }) | (if b7 { 0x01u8 } else { 0u8 }),
    ;
}

/// Output byte `j` of the monochrome packing of `px`: a set bit marks a
/// pixel whose dithered value is non-zero (white).
pub open spec fn mono_byte(px: Seq<u8>, width: int, j: int) -> u8 {
    let base = (j / row_bytes(width)) * padded_width(width) + (j % row_bytes(width)) * 8;
    byte_of_bits(
        px[base + 0] != 0, px[base + 1] != 0, px[base + 2] != 0, px[base + 3] != 0,
        px[base + 4] != 0, px[base + 5] != 0, px[base + 6] != 0, px[base + 7] != 0,
    )
}

/// The whole monochrome wire buffer for a raster of `width * height` pixels
/// (already padded to `padded_width(width)` columns per row).
pub open spec fn pack_mono_spec(px: Seq<u8>, width: int, height: int) -> Seq<u8> {
    Seq::new((row_bytes(width) * height) as nat, |j: int| mono_byte(px, width, j))
}

/// A byte of zeroes has no bit set, wherever one looks.
pub proof fn lemma_zero_byte_clear(k: int)
    ensures
        !bit_at(0u8, k),
{
    let s = (7 - k) as u8;
    assert((0u8 >> s) & 1 != 1) by (bit_vector);
}

/// Reads pixel `k` (most significant bit first) out of a packed byte.
fn bit_of(byte: u8, k: usize) -> (b: bool)
    requires
        k < 8,
    ensures
        b == bit_at(byte, k as int),
{
    ((byte >> ((7 - k) as u8)) & 1) == 1
}

/// Packs eight consecutive pixels, most significant bit first.
fn pack_eight(pixels: &Vec<u8>, base: usize) -> (b: u8)
    requires
        base + 8 <= pixels@.len(),
    ensures
        b == byte_of_bits(
            pixels@[base as int] != 0, pixels@[base + 1] != 0,
            pixels@[base + 2] != 0, pixels@[base + 3] != 0,
            pixels@[base + 4] != 0, pixels@[base + 5] != 0,
            pixels@[base + 6] != 0, pixels@[base + 7] != 0,
        ),
{
    let n: usize = pixels.len();
    assert(base + 8 <= n);
    let byte: u8 = (if pixels[base] != 0 { 0x80u8 } else { 0u8 })
        | (if pixels[base + 1] != 0 { 0x40u8 } else { 0u8 })
        | (if pixels[base + 2] != 0 { 0x20u8 } else { 0u8 })
        | (if pixels[base + 3] != 0 { 0x10u8 } else { 0u8 })
        | (if pixels[base + 4] != 0 { 0x08u8 } else { 0u8 })
        | (if pixels[base + 5] != 0 { 0x04u8 } else { 0u8 })
        | (if pixels[base + 6] != 0 { 0x02u8 } else { 0u8 })
        | (if pixels[base + 7] != 0 { 0x01u8 } else { 0u8 });
    byte
}

/// Packs a dithered raster into the monochrome wire format.
///
/// The raster must already carry the padding columns that round the width up
/// to a multiple of eight; a raster of any other size is rejected before any
/// byte is produced.
#[verifier::rlimit(60)]
pub fn pack_monochrome(pixels: &Vec<u8>, width: usize, height: usize) -> (r: Result<
    Vec<u8>,
    EpdError,
>)
    requires
        width + 7 <= usize::MAX,
        padded_width(width as int) * height <= usize::MAX,
    ensures
        r is Ok <==> pixels@.len() == padded_width(width as int) * height,
        r is Err ==> r->Err_0 == EpdError::InvalidBufferSize,
        r is Ok ==> r->Ok_0@ == pack_mono_spec(pixels@, width as int, height as int),
{
    let rb: usize = (width + 7) / 8;
    let pw: usize = rb * 8;
    assert(pw == padded_width(width as int));
    if pixels.len() != pw * height {
        return Err(EpdError::InvalidBufferSize);
    }
    proof {
        assert(rb * height <= pw * height) by (nonlinear_arith)
            requires rb <= pw, height >= 0,
        ;
    }
    let total: usize = rb * height;
    let mut out: Vec<u8> = Vec::new();
    let mut j: usize = 0;
    while j < total
        invariant
            total == row_bytes(width as int) * height,
            rb == row_bytes(width as int),
            pw == padded_width(width as int),
            pixels@.len() == pw * height,
            width + 7 <= usize::MAX,
            pw * height <= usize::MAX,
            j <= total,
            out@.len() == j,
            forall|i: int| 0 <= i < j ==> out@[i] == mono_byte(pixels@, width as int, i),
        decreases total - j,
    {
        let y: usize = j / rb;
        let xb: usize = j % rb;
        assert(y < height && xb < rb) by (nonlinear_arith)
            requires
                j < total, total == rb * height, rb > 0,
                y == j / rb, xb == j % rb,
        ;
        proof {
            assert(y * pw + xb * 8 + 8 <= pw * height) by (nonlinear_arith)
                requires y < height, xb < rb, pw == rb * 8, rb > 0,
            ;
        }
        let base: usize = y * pw + xb * 8;
        let byte: u8 = pack_eight(pixels, base);
        assert(byte == mono_byte(pixels@, width as int, j as int));
        out.push(byte);
        j = j + 1;
    }
    assert(out@ =~= pack_mono_spec(pixels@, width as int, height as int));
    Ok(out)
}

/// Pixel `i` (row-major over the padded raster) read back out of a packed
/// monochrome buffer: 255 where the bit is set (white), 0 where it is clear.
pub open spec fn unpack_pixel(buf: Seq<u8>, width: int, i: int) -> u8 {
    let y = i / padded_width(width);
    let x = i % padded_width(width);
    if bit_at(buf[y * row_bytes(width) + x / 8], x % 8) {
        255u8
    } else {
        0u8
    }
}

/// The raster encoded by a monochrome wire buffer, padding columns included.
pub open spec fn unpack_mono_spec(buf: Seq<u8>, width: int, height: int) -> Seq<u8> {
    Seq::new((padded_width(width) * height) as nat, |i: int| unpack_pixel(buf, width, i))
}

/// Expands a monochrome wire buffer back into one pixel byte per pixel.
///
/// A buffer whose size is not exactly one packed row per raster row is
/// rejected.
pub fn unpack_monochrome(buffer: &Vec<u8>, width: usize, height: usize) -> (r: Result<
    Vec<u8>,
    EpdError,
>)
    requires
        width + 7 <= usize::MAX,
        padded_width(width as int) * height <= usize::MAX,
    ensures
        r is Ok <==> buffer@.len() == row_bytes(width as int) * height,
        r is Err ==> r->Err_0 == EpdError::InvalidBufferSize,
        r is Ok ==> r->Ok_0@ == unpack_mono_spec(buffer@, width as int, height as int),
{
    let rb: usize = (width + 7) / 8;
    let pw: usize = rb * 8;
    proof {
        assert(rb * height <= pw * height) by (nonlinear_arith)
            requires rb <= pw, height >= 0,
        ;
    }
    if buffer.len() != rb * height {
        return Err(EpdError::InvalidBufferSize);
    }
    let total: usize = pw * height;
    let mut out: Vec<u8> = Vec::new();
    let mut i: usize = 0;
    while i < total
        invariant
            rb == row_bytes(width as int),
            pw == padded_width(width as int),
            total == pw * height,
            buffer@.len() == rb * height,
            rb * height <= usize::MAX,
            i <= total,
            out@.len() == i,
            forall|t: int| 0 <= t < i ==> out@[t] == unpack_pixel(buffer@, width as int, t),
        decreases total - i,
    {
        let y: usize = i / pw;
        let x: usize = i % pw;
        assert(y < height && x < pw) by (nonlinear_arith)
            requires i < total, total == pw * height, pw > 0, y == i / pw, x == i % pw,
        ;
        assert(y * rb + x / 8 < rb * height) by (nonlinear_arith)
            requires y < height, x < pw, pw == rb * 8, rb > 0,
        ;
        let byte: u8 = buffer[y * rb + x / 8];
        let white: bool = bit_of(byte, x % 8);
        out.push(if white { 255 } else { 0 });
        i = i + 1;
    }
    assert(out@ =~= unpack_mono_spec(buffer@, width as int, height as int));
    Ok(out)
}

/// Packing a 1-bit raster (every pixel 0 or 255) and unpacking the result
/// gives back every pixel exactly, for any size whose width is a multiple of
/// eight.
pub proof fn lemma_pack_unpack_round_trip(px: Seq<u8>, width: int, height: int)
    requires
        width >= 0,
        height >= 0,
        width % 8 == 0,
        px.len() == width * height,
        forall|i: int| 0 <= i < px.len() ==> px[i] == 0 || px[i] == 255,
    ensures
        unpack_mono_spec(pack_mono_spec(px, width, height), width, height) == px,
{
    let rb = row_bytes(width);
    let pw = padded_width(width);
    vstd::arithmetic::div_mod::lemma_fundamental_div_mod(width, 8);
    vstd::arithmetic::div_mod::lemma_fundamental_div_mod_converse(
        width + 7, 8, width / 8, 7,
    );
    assert(rb == width / 8 && pw == width);
    let packed = pack_mono_spec(px, width, height);
    let unpacked = unpack_mono_spec(packed, width, height);
    assert(unpacked.len() == px.len());
    assert forall|i: int| 0 <= i < px.len() implies unpacked[i] == px[i] by {
        assert(pw > 0) by (nonlinear_arith)
            requires px.len() == pw * height, 0 <= i < px.len(), pw >= 0,
        ;
        let y = i / pw;
        let x = i % pw;
        vstd::arithmetic::div_mod::lemma_fundamental_div_mod(i, pw);
        assert(0 <= y && y < height) by (nonlinear_arith)
            requires i == pw * y + x, 0 <= x < pw, 0 <= i < pw * height,
        ;
        vstd::arithmetic::div_mod::lemma_fundamental_div_mod(x, 8);
        vstd::arithmetic::div_mod::lemma_div_is_ordered(x, pw - 1, 8);
        vstd::arithmetic::div_mod::lemma_fundamental_div_mod_converse(
            pw - 1, 8, rb - 1, 7,
        );
        let j = y * rb + x / 8;
        let k = x % 8;
        assert(0 <= j && j < rb * height) by (nonlinear_arith)
            requires 0 <= y < height, 0 <= x / 8 < rb, j == y * rb + x / 8, rb > 0,
        ;
        assert(packed[j] == mono_byte(px, width, j));
        vstd::arithmetic::div_mod::lemma_fundamental_div_mod_converse(j, rb, y, x / 8);
        let base = y * pw + (x / 8) * 8;
        assert(base + k == i);
        lemma_byte_of_bits_at(
            px[base + 0] != 0, px[base + 1] != 0, px[base + 2] != 0, px[base + 3] != 0,
            px[base + 4] != 0, px[base + 5] != 0, px[base + 6] != 0, px[base + 7] != 0,
        );
        assert(bit_at(packed[j], k) == (px[i] != 0));
        assert(unpacked[i] == unpack_pixel(packed, width, i));
        assert(unpacked[i] == px[i]);
    };
    assert(unpacked =~= px);
}

/// A uniform raster packs to a uniform buffer: all-black (every pixel zero)
/// to zero bits throughout, any other uniform value to set bits throughout.
pub proof fn lemma_uniform_pack(px: Seq<u8>, width: int, height: int, v: u8)
    requires
        width >= 0,
        height >= 0,
        px.len() == padded_width(width) * height,
        forall|i: int| 0 <= i < px.len() ==> px[i] == v,
    ensures
        forall|j: int| 0 <= j < row_bytes(width) * height ==> #[trigger] pack_mono_spec(
            px, width, height,
        )[j] == (if v == 0 {
            0x00u8
        } else {
            0xFFu8
        }),
{
    let rb = row_bytes(width);
    let pw = padded_width(width);
    assert forall|j: int| 0 <= j < rb * height implies #[trigger] pack_mono_spec(
        px, width, height,
    )[j] == (if v == 0 {
        0x00u8
    } else {
        0xFFu8
    }) by {
        let y = j / rb;
        let xb = j % rb;
        assert(rb > 0) by (nonlinear_arith)
            requires 0 <= j < rb * height, rb == (width + 7) / 8, width >= 0,
        ;
        vstd::arithmetic::div_mod::lemma_fundamental_div_mod(j, rb);
        assert(0 <= y && y < height && 0 <= xb && xb < rb) by (nonlinear_arith)
            requires j == rb * y + xb, 0 <= xb < rb, 0 <= j < rb * height, rb > 0,
        ;
        let base = y * pw + xb * 8;
        assert(0 <= base && base + 8 <= pw * height) by (nonlinear_arith)
            requires 0 <= y < height, 0 <= xb < rb, pw == rb * 8, rb > 0, base == y * pw + xb * 8,
        ;
        let bit = v != 0;
        assert(pack_mono_spec(px, width, height)[j] == byte_of_bits(
            bit, bit, bit, bit, bit, bit, bit, bit,
        ));
        assert(byte_of_bits(false, false, false, false, false, false, false, false) == 0x00u8
            && byte_of_bits(true, true, true, true, true, true, true, true) == 0xFFu8) by {
            assert((0u8 | 0u8 | 0u8 | 0u8 | 0u8 | 0u8 | 0u8 | 0u8) == 0x00u8 && (0x80u8 | 0x40u8
                | 0x20u8 | 0x10u8 | 0x08u8 | 0x04u8 | 0x02u8 | 0x01u8) == 0xFFu8)
                by (bit_vector);
        }
    }
}

/// The two-bit code of one pixel on a bichromatic panel: color wins over
/// black, black wins over white.
pub open spec fn nibble_code(black: bool, color: bool) -> u8 {
    if color {
        0x4u8
    } else if black {
        0x0u8
    } else {
        0x3u8
    }
}

/// Output byte `j` of the bichromatic packing: two pixels per byte, the left
/// pixel in the high nibble.
pub open spec fn bichrome_byte(bk: Seq<u8>, cl: Seq<u8>, j: int) -> u8 {
    let sb = j / 4;
    let k = 2 * (j % 4);
    (nibble_code(bit_at(bk[sb], k), bit_at(cl[sb], k)) << 4u8) | nibble_code(
        bit_at(bk[sb], k + 1),
        bit_at(cl[sb], k + 1),
    )
}

/// The whole bichromatic wire buffer: each source byte of eight pixels
/// becomes four nibble-coded bytes.
pub open spec fn pack_bichrome_spec(bk: Seq<u8>, cl: Seq<u8>) -> Seq<u8> {
    Seq::new((bk.len() * 4) as nat, |j: int| bichrome_byte(bk, cl, j))
}

/// The two-bit code of one pixel, computed from its packed planes.
fn nibble_of(bk: u8, cl: u8, k: usize) -> (c: u8)
    requires
        k < 8,
    ensures
        c == nibble_code(bit_at(bk, k as int), bit_at(cl, k as int)),
{
    if bit_of(cl, k) {
        0x4
    } else if bit_of(bk, k) {
        0x0
    } else {
        0x3
    }
}

/// Combines a black plane and a color plane into the bichromatic wire
/// format.
///
/// Both planes must hold exactly one packed row of `width` pixels per raster
/// row; planes of any other (or mismatched) size are rejected before any
/// byte is produced.
pub fn pack_bichromatic(black: &Vec<u8>, color: &Vec<u8>, width: usize, height: usize) -> (r:
    Result<Vec<u8>, EpdError>)
    requires
        width + 7 <= usize::MAX,
        row_bytes(width as int) * height * 4 <= usize::MAX,
    ensures
        r is Ok <==> black@.len() == row_bytes(width as int) * height && color@.len()
            == black@.len(),
        r is Err ==> r->Err_0 == EpdError::InvalidBufferSize,
        r is Ok ==> r->Ok_0@ == pack_bichrome_spec(black@, color@),
{
    let rb: usize = (width + 7) / 8;
    proof {
        assert(rb * height <= rb * height * 4) by (nonlinear_arith)
            requires rb >= 0, height >= 0,
        ;
    }
    let plane: usize = rb * height;
    if black.len() != plane || color.len() != plane {
        return Err(EpdError::InvalidBufferSize);
    }
    let total: usize = plane * 4;
    let mut out: Vec<u8> = Vec::new();
    let mut sb: usize = 0;
    while sb < plane
        invariant
            black@.len() == plane,
            color@.len() == plane,
            total == plane * 4,
            total <= usize::MAX,
            sb <= plane,
            out@.len() == sb * 4,
            forall|j: int| 0 <= j < sb * 4 ==> out@[j] == bichrome_byte(black@, color@, j),
        decreases plane - sb,
    {
        let bk: u8 = black[sb];
        let cl: u8 = color[sb];
        let mut p: usize = 0;
        while p < 4
            invariant
                black@.len() == plane,
                color@.len() == plane,
                total == plane * 4,
                total <= usize::MAX,
                sb < plane,
                bk == black@[sb as int],
                cl == color@[sb as int],
                p <= 4,
                out@.len() == sb * 4 + p,
                forall|j: int| 0 <= j < sb * 4 + p ==> out@[j] == bichrome_byte(
                    black@, color@, j,
                ),
            decreases 4 - p,
        {
            let k: usize = 2 * p;
            let left: u8 = nibble_of(bk, cl, k);
            let right: u8 = nibble_of(bk, cl, k + 1);
            let byte: u8 = (left << 4u8) | right;
            proof {
                let j = sb * 4 + p;
                vstd::arithmetic::div_mod::lemma_fundamental_div_mod_converse(
                    j as int, 4, sb as int, p as int,
                );
                assert(byte == bichrome_byte(black@, color@, j as int));
            }
            out.push(byte);
            p = p + 1;
        }
        sb = sb + 1;
    }
    assert(out@ =~= pack_bichrome_spec(black@, color@));
    Ok(out)
}

/// With an all-zero color plane the packing never produces the color code:
/// every nibble of every output byte is black (0x0) or white (0x3), never
/// color (0x4), whatever the black plane holds.
pub proof fn lemma_zero_color_plane(bk: Seq<u8>, cl: Seq<u8>)
    requires
        cl.len() == bk.len(),
        forall|i: int| 0 <= i < cl.len() ==> cl[i] == 0,
    ensures
        forall|j: int| 0 <= j < pack_bichrome_spec(bk, cl).len() ==> {
            let b = #[trigger] pack_bichrome_spec(bk, cl)[j];
            ((b >> 4u8) == 0x0 || (b >> 4u8) == 0x3) && ((b & 0x0Fu8) == 0x0 || (b & 0x0Fu8)
                == 0x3)
        },
{
    assert forall|j: int| 0 <= j < pack_bichrome_spec(bk, cl).len() implies {
        let b = #[trigger] pack_bichrome_spec(bk, cl)[j];
        ((b >> 4u8) == 0x0 || (b >> 4u8) == 0x3) && ((b & 0x0Fu8) == 0x0 || (b & 0x0Fu8) == 0x3)
    } by {
        let sb = j / 4;
        let k = 2 * (j % 4);
        assert(0 <= sb && sb < bk.len()) by (nonlinear_arith)
            requires 0 <= j < bk.len() * 4, sb == j / 4,
        ;
        lemma_zero_byte_clear(k);
        lemma_zero_byte_clear(k + 1);
        let l = nibble_code(bit_at(bk[sb], k), false);
        let r = nibble_code(bit_at(bk[sb], k + 1), false);
        let b = pack_bichrome_spec(bk, cl)[j];
        assert(b == (l << 4u8) | r);
        assert(((l == 0x0 || l == 0x3) && (r == 0x0 || r == 0x3)) ==> ((((l << 4u8) | r) >> 4u8)
            == l && (((l << 4u8) | r) & 0x0Fu8) == r)) by (bit_vector);
    }
}

} // verus!
