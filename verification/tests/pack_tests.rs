use sparkboard::error::EpdError;
use sparkboard::pack::{pack_bichromatic, pack_monochrome, unpack_monochrome};

fn checkerboard(width: usize, height: usize) -> Vec<u8> {
    let mut px = Vec::new();
    for y in 0..height {
        for x in 0..width {
            px.push(if (x + y) % 2 == 0 { 255 } else { 0 });
        }
    }
    px
}

#[test]
fn mono_pack_sets_msb_first() {
    // One row of eight pixels: white, black, black, black, black, black,
    // black, white -> 0b1000_0001.
    let px = vec![255, 0, 0, 0, 0, 0, 0, 255];
    let packed = pack_monochrome(&px, 8, 1).unwrap();
    assert_eq!(packed, vec![0x81]);
}

#[test]
fn mono_pack_two_rows() {
    let mut px = vec![255u8; 8];
    px.extend_from_slice(&[0u8; 8]);
    let packed = pack_monochrome(&px, 8, 2).unwrap();
    assert_eq!(packed, vec![0xFF, 0x00]);
}

#[test]
fn mono_pack_nonzero_is_white() {
    // Any non-zero dithered value counts as a set (white) bit.
    let px = vec![1, 2, 3, 4, 0, 0, 0, 128];
    let packed = pack_monochrome(&px, 8, 1).unwrap();
    assert_eq!(packed, vec![0xF1]);
}

#[test]
fn mono_pack_rejects_wrong_size() {
    let px = vec![0u8; 15];
    assert_eq!(pack_monochrome(&px, 8, 2), Err(EpdError::InvalidBufferSize));
}

#[test]
fn mono_pack_padded_width() {
    // Width 10 pads to 16 columns; the caller supplies the padding pixels.
    let px = vec![255u8; 16];
    let packed = pack_monochrome(&px, 10, 1).unwrap();
    assert_eq!(packed, vec![0xFF, 0xFF]);
    assert_eq!(pack_monochrome(&vec![255u8; 10], 10, 1), Err(EpdError::InvalidBufferSize));
}

#[test]
fn mono_unpack_reads_msb_first() {
    let unpacked = unpack_monochrome(&vec![0x81], 8, 1).unwrap();
    assert_eq!(unpacked, vec![255, 0, 0, 0, 0, 0, 0, 255]);
}

#[test]
fn mono_unpack_rejects_wrong_size() {
    assert_eq!(unpack_monochrome(&vec![0u8; 3], 8, 2), Err(EpdError::InvalidBufferSize));
}

#[test]
fn mono_round_trip_checkerboard() {
    let px = checkerboard(16, 4);
    let packed = pack_monochrome(&px, 16, 4).unwrap();
    let unpacked = unpack_monochrome(&packed, 16, 4).unwrap();
    assert_eq!(unpacked, px);
}

#[test]
fn mono_round_trip_all_values() {
    for fill in [0u8, 255u8] {
        let px = vec![fill; 8 * 3];
        let packed = pack_monochrome(&px, 8, 3).unwrap();
        let unpacked = unpack_monochrome(&packed, 8, 3).unwrap();
        assert_eq!(unpacked, px);
    }
}

#[test]
fn pack_is_deterministic() {
    // Two calls on identical inputs give identical output: the packers keep
    // no hidden state.
    let px = checkerboard(24, 5);
    let a = pack_monochrome(&px, 24, 5).unwrap();
    let b = pack_monochrome(&px, 24, 5).unwrap();
    assert_eq!(a, b);

    let black = vec![0xA5u8; 8];
    let color = vec![0x0Fu8; 8];
    let c = pack_bichromatic(&black, &color, 8, 8).unwrap();
    let d = pack_bichromatic(&black, &color, 8, 8).unwrap();
    assert_eq!(c, d);
}

#[test]
fn bichrome_codes_color_over_black_over_white() {
    // One source byte: black plane 0b1100_0000, color plane 0b1010_0000.
    // Pixel 0: color wins (0x4), pixel 1: black (0x0), pixel 2: color
    // (0x4), pixels 3..7: white (0x3).
    let black = vec![0b1100_0000u8];
    let color = vec![0b1010_0000u8];
    let packed = pack_bichromatic(&black, &color, 8, 1).unwrap();
    assert_eq!(packed, vec![0x40, 0x43, 0x33, 0x33]);
}

#[test]
fn bichrome_output_is_four_times_plane() {
    let black = vec![0u8; 80 * 384];
    let color = vec![0u8; 80 * 384];
    let packed = pack_bichromatic(&black, &color, 640, 384).unwrap();
    assert_eq!(packed.len(), 640 * 384 / 2);
}

#[test]
fn bichrome_zero_color_plane_never_codes_color() {
    let mut black = Vec::new();
    for i in 0..256 {
        black.push(i as u8);
    }
    let color = vec![0u8; 256];
    let packed = pack_bichromatic(&black, &color, 16, 128).unwrap();
    for b in packed {
        assert_ne!(b >> 4, 0x4);
        assert_ne!(b & 0x0F, 0x4);
    }
}

#[test]
fn bichrome_rejects_mismatched_planes() {
    let black = vec![0u8; 8];
    let color = vec![0u8; 7];
    assert_eq!(
        pack_bichromatic(&black, &color, 8, 8),
        Err(EpdError::InvalidBufferSize)
    );
    assert_eq!(
        pack_bichromatic(&color, &black, 8, 8),
        Err(EpdError::InvalidBufferSize)
    );
}

#[test]
fn bichrome_all_black_plane() {
    let black = vec![0xFFu8; 4];
    let color = vec![0x00u8; 4];
    let packed = pack_bichromatic(&black, &color, 8, 4).unwrap();
    assert_eq!(packed, vec![0x00; 16]);
}

#[test]
fn bichrome_all_white_planes() {
    let black = vec![0x00u8; 4];
    let color = vec![0x00u8; 4];
    let packed = pack_bichromatic(&black, &color, 8, 4).unwrap();
    assert_eq!(packed, vec![0x33; 16]);
}
