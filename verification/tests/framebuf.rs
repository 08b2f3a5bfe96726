use kurokku::display::max7219_proto::{framebuffer_row_packet, intensity_value, write_all_packet};
use kurokku::framebuf::{blit_text, blit_text_centered, clear, get_pixel, set_pixel, Frame};

#[test]
fn set_then_get_pixel_reads_back() {
    let mut frame: Frame = [0u8; 32];
    set_pixel(&mut frame, 3, 5, true);
    assert!(get_pixel(&frame, 3, 5));
    assert_eq!(frame[3], 1 << 5);
    assert!(!get_pixel(&frame, 3, 4));
    assert!(!get_pixel(&frame, 4, 5));
    set_pixel(&mut frame, 3, 5, false);
    assert!(!get_pixel(&frame, 3, 5));
    assert_eq!(frame, [0u8; 32]);
}

#[test]
fn set_pixel_off_matrix_is_ignored() {
    let mut frame: Frame = [0xAA; 32];
    set_pixel(&mut frame, 32, 0, true);
    set_pixel(&mut frame, 0, 8, false);
    assert_eq!(frame, [0xAA; 32]);
    assert!(!get_pixel(&frame, 40, 1));
    assert!(!get_pixel(&frame, 1, 9));
}

#[test]
fn clear_darkens_every_pixel() {
    let mut frame: Frame = [0xFF; 32];
    clear(&mut frame);
    for x in 0..32 {
        for y in 0..8 {
            assert!(!get_pixel(&frame, x, y));
        }
    }
}

#[test]
fn blit_text_places_columns_and_clips() {
    let mut frame: Frame = [0u8; 32];
    let w = blit_text(&mut frame, &[1, 2, 3], 30);
    assert_eq!(w, 3);
    assert_eq!(frame[30], 1);
    assert_eq!(frame[31], 2);
    assert_eq!(frame[29], 0);
}

#[test]
fn blit_text_centered_uses_half_the_slack() {
    let mut frame: Frame = [0u8; 32];
    let w = blit_text_centered(&mut frame, &[7; 10]);
    assert_eq!(w, 10);
    assert_eq!(frame[10], 0);
    assert_eq!(frame[11], 7);
    assert_eq!(frame[20], 7);
    assert_eq!(frame[21], 0);
    let mut wide: Frame = [0u8; 32];
    assert_eq!(blit_text_centered(&mut wide, &[9; 40]), 40);
    assert_eq!(wide, [9u8; 32]);
}

#[test]
fn max7219_broadcast_packet() {
    assert_eq!(write_all_packet(0x0C, 0x01), [0x0C, 1, 0x0C, 1, 0x0C, 1, 0x0C, 1]);
}

#[test]
fn max7219_intensity_caps_at_15() {
    assert_eq!(intensity_value(4), 4);
    assert_eq!(intensity_value(15), 15);
    assert_eq!(intensity_value(200), 15);
}

#[test]
fn max7219_row_packet_packs_leftmost_column_high() {
    let mut buf: Frame = [0u8; 32];
    buf[0] = 0b0000_0001; // module 0, column 0, row 0
    buf[7] = 0b0000_0011; // module 0, column 7, rows 0 and 1
    buf[9] = 0b0000_0010; // module 1, column 1, row 1
    assert_eq!(framebuffer_row_packet(&buf, 0), [1, 0b1000_0001, 1, 0, 1, 0, 1, 0]);
    assert_eq!(framebuffer_row_packet(&buf, 1), [2, 0b0000_0001, 2, 0b0100_0000, 2, 0, 2, 0]);
}
