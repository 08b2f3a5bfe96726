use kurokku::display::tm1637_proto::{
    data_mode_frame, digit_frame, display_control_frame, map_brightness,
};

#[test]
fn data_mode_is_auto_increment_command() {
    assert_eq!(data_mode_frame(), [0x40]);
}

#[test]
fn digit_frame_empty_slice_writes_zeros() {
    assert_eq!(digit_frame(&[], false), [0xC0, 0, 0, 0, 0]);
}

#[test]
fn digit_frame_with_colon_sets_bit7_on_digit1_only() {
    let segs = [0x06_u16, 0x5B, 0x4F, 0x66];
    let out = digit_frame(&segs, true);
    assert_eq!(out[0], 0xC0);
    assert_eq!(out[1], 0x06);
    assert_eq!(out[2], 0x5B | 0x80);
    assert_eq!(out[3], 0x4F);
    assert_eq!(out[4], 0x66);
}

#[test]
fn digit_frame_without_colon_leaves_bit7_clear() {
    let segs = [0x06_u16, 0x5B, 0x4F, 0x66];
    let out = digit_frame(&segs, false);
    assert_eq!(out[2] & 0x80, 0);
}

#[test]
fn digit_frame_short_slice_pads_with_zero() {
    assert_eq!(digit_frame(&[0xFF, 0xAB], false), [0xC0, 0xFF, 0xAB, 0, 0]);
}

#[test]
fn digit_frame_excess_entries_ignored() {
    let out = digit_frame(&[0x01, 0x02, 0x03, 0x04, 0x05, 0x06], false);
    assert_eq!(out, [0xC0, 0x01, 0x02, 0x03, 0x04]);
}

#[test]
fn digit_frame_u16_truncates_to_low_byte() {
    assert_eq!(digit_frame(&[0xFF12], false), [0xC0, 0x12, 0, 0, 0]);
}

#[test]
fn digit_frame_preserves_user_dp_bit() {
    let out = digit_frame(&[0x06 | 0x80, 0, 0, 0], false);
    assert_eq!(out[1], 0x86);
}

#[test]
fn display_control_encodes_low_3_bits() {
    assert_eq!(display_control_frame(0), [0x88]);
    assert_eq!(display_control_frame(4), [0x8C]);
    assert_eq!(display_control_frame(7), [0x8F]);
}

#[test]
fn display_control_masks_high_bits() {
    assert_eq!(display_control_frame(0xFF), [0x8F]);
    assert_eq!(display_control_frame(0x18), [0x88]);
}

#[test]
fn map_brightness_covers_boundary_values() {
    assert_eq!(map_brightness(0), 0);
    assert_eq!(map_brightness(1), 0);
    assert_eq!(map_brightness(2), 1);
    assert_eq!(map_brightness(14), 7);
    assert_eq!(map_brightness(15), 7);
}

#[test]
fn map_brightness_clamps_out_of_range() {
    assert_eq!(map_brightness(255), 7);
}

#[test]
fn colon_on_short_slice_lights_blank_digit1() {
    assert_eq!(digit_frame(&[0x3F], true), [0xC0, 0x3F, 0x80, 0, 0]);
}

#[test]
fn brightness_maps_into_control_frame() {
    assert_eq!(display_control_frame(map_brightness(15)), [0x8F]);
    assert_eq!(display_control_frame(map_brightness(4)), [0x8A]);
}
