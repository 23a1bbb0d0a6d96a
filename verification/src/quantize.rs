//! The integer ends of the image quantization pipeline.
//!
//! A decoded four-channel raster is reduced to one intensity per pixel
//! (`min(R, G, B)`, a deliberate bias toward preserving dark detail) before
//! error-diffusion dithering, and rows are padded to a multiple of eight
//! columns so that packing never reads outside the raster. The
//! error-diffusion kernel itself works in floating point and lives outside
//! the core; [`crate::pack::pack_monochrome`] consumes its output.

use vstd::prelude::*;

use crate::error::EpdError;
use crate::pack::{padded_width, row_bytes};

verus! {

/// The smaller of two bytes.
pub open spec fn min2(a: u8, b: u8) -> u8 {
    if a <= b {
        a
    } else {
        b
    }
}

/// The intensity of a pixel: the smallest of its three color channels.
pub open spec fn min3(r: u8, g: u8, b: u8) -> u8 {
    min2(min2(r, g), b)
}

/// Reduces a decoded four-channel (RGBA) raster to one intensity byte per
/// pixel, the smallest of the three color channels; the fourth channel is
/// ignored. A raster of any other size is rejected.
pub fn grayscale_min(rgba: &Vec<u8>, width: usize, height: usize) -> (r: Result<Vec<u8>, EpdError>)
    requires
        width * height * 4 <= usize::MAX,
    ensures
        r is Ok <==> rgba@.len() == width * height * 4,
        r is Err ==> r->Err_0 == EpdError::InvalidBufferSize,
        r is Ok ==> r->Ok_0@.len() == width * height && (forall|i: int|
            0 <= i < width * height ==> r->Ok_0@[i] == min3(
                rgba@[4 * i], rgba@[4 * i + 1], rgba@[4 * i + 2],
            )),
{
    proof {
        assert(width * height <= width * height * 4) by (nonlinear_arith)
            requires width >= 0, height >= 0,
        ;
    }
    let count: usize = width * height;
    if rgba.len() != count * 4 {
        return Err(EpdError::InvalidBufferSize);
    }
    let mut out: Vec<u8> = Vec::new();
    let mut i: usize = 0;
    while i < count
        invariant
            count == width * height,
            rgba@.len() == count * 4,
            count * 4 <= usize::MAX,
            i <= count,
            out@.len() == i,
            forall|t: int| 0 <= t < i ==> out@[t] == min3(
                rgba@[4 * t], rgba@[4 * t + 1], rgba@[4 * t + 2],
            ),
        decreases count - i,
    {
        let red: u8 = rgba[4 * i];
        let green: u8 = rgba[4 * i + 1];
        let blue: u8 = rgba[4 * i + 2];
        let rg: u8 = if red <= green {
            red
        } else {
            green
        };
        let v: u8 = if rg <= blue {
            rg
        } else {
            blue
        };
        out.push(v);
        i = i + 1;
    }
    Ok(out)
}

/// Extends every raster row with `fill` pixels up to the next multiple of
/// eight columns, so that packing stays inside the raster. A raster of any
/// other size than `width * height` is rejected.
pub fn pad_to_octet_width(px: &Vec<u8>, width: usize, height: usize, fill: u8) -> (r: Result<
    Vec<u8>,
    EpdError,
>)
    requires
        width + 7 <= usize::MAX,
        padded_width(width as int) * height <= usize::MAX,
    ensures
        r is Ok <==> px@.len() == width * height,
        r is Err ==> r->Err_0 == EpdError::InvalidBufferSize,
        r is Ok ==> r->Ok_0@.len() == padded_width(width as int) * height && (forall|i: int|
            0 <= i < padded_width(width as int) * height ==> r->Ok_0@[i] == (if i % padded_width(
                width as int,
            ) < width {
                px@[(i / padded_width(width as int)) * width + i % padded_width(width as int)]
            } else {
                fill
            })),
{
    let rb: usize = (width + 7) / 8;
    let pw: usize = rb * 8;
    proof {
        assert(width <= pw) by (nonlinear_arith)
            requires rb == (width + 7) / 8, pw == rb * 8, width >= 0, 8 * rb >= width,
        ;
        assert(width * height <= pw * height) by (nonlinear_arith)
            requires width <= pw, height >= 0,
        ;
    }
    if px.len() != width * height {
        return Err(EpdError::InvalidBufferSize);
    }
    let total: usize = pw * height;
    let mut out: Vec<u8> = Vec::new();
    let mut i: usize = 0;
    while i < total
        invariant
            rb == row_bytes(width as int),
            pw == padded_width(width as int),
            total == pw * height,
            px@.len() == width * height,
            width * height <= usize::MAX,
            width <= pw,
            i <= total,
            out@.len() == i,
            forall|t: int| 0 <= t < i ==> out@[t] == (if t % (pw as int) < width {
                px@[(t / (pw as int)) * width + t % (pw as int)]
            } else {
                fill
            }),
        decreases total - i,
    {
        let y: usize = i / pw;
        let x: usize = i % pw;
        proof {
            assert(y < height && x < pw) by (nonlinear_arith)
                requires i < total, total == pw * height, pw > 0, y == i / pw, x == i % pw,
            ;
            assert(x < width ==> y * width + x < width * height) by (nonlinear_arith)
                requires y < height, width >= 0,
            ;
        }
        if x < width {
            out.push(px[y * width + x]);
        } else {
            out.push(fill);
        }
        i = i + 1;
    }
    Ok(out)
}

} // verus!
