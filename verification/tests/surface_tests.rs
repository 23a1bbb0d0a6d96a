use sparkboard::graphics::Surface;

#[test]
fn new_surface_is_blank() {
    let s = Surface::new(16, 4);
    assert_eq!(s.size(), (16, 4));
    assert_eq!(s.buffer().len(), 16 * 4 / 8);
    assert!(s.buffer().iter().all(|&b| b == 0));
}

#[test]
fn draw_pixel_addresses_byte_and_bit() {
    // Pixel (0, 0) lives in bit 0x80 of byte 0; drawing white sets it.
    let mut s = Surface::new(16, 2);
    s.draw_pixel(0, 0, false);
    assert_eq!(s.buffer()[0], 0x80);

    // Pixel (9, 1) lives in bit 0x40 of byte 9 / 8 + 2 * 1 = 3.
    s.draw_pixel(9, 1, false);
    assert_eq!(s.buffer()[3], 0x40);
}

#[test]
fn draw_pixel_ink_clears_the_bit() {
    let mut s = Surface::new(8, 1);
    s.draw_pixel(2, 0, false);
    assert_eq!(s.buffer()[0], 0x20);
    s.draw_pixel(2, 0, true);
    assert_eq!(s.buffer()[0], 0x00);
}

#[test]
fn draw_pixel_touches_only_its_byte() {
    let mut s = Surface::new(32, 2);
    s.draw_pixel(17, 1, false);
    let buf = s.buffer().clone();
    for (i, b) in buf.iter().enumerate() {
        if i == 17 / 8 + 4 {
            assert_eq!(*b, 0x40);
        } else {
            assert_eq!(*b, 0x00);
        }
    }
}

#[test]
fn negative_points_are_ignored() {
    let mut s = Surface::new(8, 1);
    s.draw_pixel(-1, 0, false);
    s.draw_pixel(0, -5, true);
    s.draw_pixel(-3, -3, false);
    assert!(s.buffer().iter().all(|&b| b == 0));
}

#[test]
fn surface_buffer_feeds_the_packer_path() {
    // A surface buffer has exactly the size the monochrome draw path needs.
    let s = Surface::new(800, 480);
    assert_eq!(s.buffer().len(), 48000);
}
