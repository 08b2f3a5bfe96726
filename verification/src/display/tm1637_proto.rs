//! TM1637 protocol byte encoding.
//!
//! The driver handles the bit-banged start/stop/ack framing; this module
//! produces the raw payload bytes that go between those frames.

use vstd::prelude::*;

verus! {

/// Write data, auto-increment address.
pub const CMD_DATA_AUTO: u8 = 0x40;

/// Address pointer to digit 0.
pub const CMD_ADDR_START: u8 = 0xC0;

/// Display-on command; the low 3 bits carry the brightness.
pub const CMD_DISPLAY_ON: u8 = 0x88;

/// Number of digits on the module.
pub const NUM_DIGITS: usize = 4;

/// The low byte of a segment word, the part the TM1637 drives.
pub open spec fn low_byte(x: u16) -> u8 {
    (x % 256) as u8
}

/// The segment byte sent for digit `i`: the low byte of `segments[i]`
/// (blank where `segments` is too short), with the colon bit 0x80 ORed
/// into digit 1 when `colon` is set.
pub open spec fn digit_byte(segments: Seq<u16>, colon: bool, i: int) -> u8 {
    let b = if i < segments.len() { low_byte(segments[i]) } else { 0u8 };
    if i == 1 && colon { b | 0x80u8 } else { b }
}

/// The whole "write all digits" payload.
pub open spec fn digit_frame_bytes(segments: Seq<u16>, colon: bool) -> Seq<u8> {
    seq![
        CMD_ADDR_START,
        digit_byte(segments, colon, 0),
        digit_byte(segments, colon, 1),
        digit_byte(segments, colon, 2),
        digit_byte(segments, colon, 3),
    ]
}

/// The TM1637 native brightness (0-7) for a 0-15 level: half the level,
/// capped at 7.
pub open spec fn native_brightness(level: u8) -> u8 {
    if level / 2 < 7 { (level / 2) as u8 } else { 7u8 }
}

/// Payload for the "set data mode" frame. Sent between its own start/stop.
pub fn data_mode_frame() -> (r: [u8; 1])
    ensures
        r@ == seq![CMD_DATA_AUTO],
{
    let r = [CMD_DATA_AUTO];
    assert(r@ =~= seq![CMD_DATA_AUTO]);
    r
}

/// Payload for the "write all digits" frame: address byte followed by
/// four segment bytes. `colon` ORs 0x80 into digit 1, matching the
/// standard 4-digit TM1637 clock module layout. Missing entries in
/// `segments` pad with 0; entries past the fourth are ignored. Segment
/// words are truncated to their low byte.
pub fn digit_frame(segments: &[u16], colon: bool) -> (out: [u8; 5])
    ensures
        out@ == digit_frame_bytes(segments@, colon),
{
    let mut out = [0u8; 5];
    out[0] = CMD_ADDR_START;
    let mut i: usize = 0;
    while i < NUM_DIGITS
        invariant
            i <= NUM_DIGITS,
            out@.len() == 5,
            out@[0] == CMD_ADDR_START,
            forall|j: int| 0 <= j < i ==> out@[1 + j] == digit_byte(segments@, colon, j),
        decreases NUM_DIGITS - i,
    {
        let word: u16 = if i < segments.len() { segments[i] } else { 0 };
        let mut b = word as u8;
        assert(word as u8 == word % 256) by (bit_vector);
        if i == 1 && colon {
            b = b | 0x80;
        }
        out[1 + i] = b;
        i = i + 1;
    }
    assert(out@ =~= digit_frame_bytes(segments@, colon));
    out
}

/// Payload for the "display on + brightness" frame. `native_bright` is
/// masked to the TM1637's native 0-7 range.
pub fn display_control_frame(native_bright: u8) -> (r: [u8; 1])
    ensures
        r@ == seq![(CMD_DISPLAY_ON + native_bright % 8) as u8],
{
    let b = CMD_DISPLAY_ON | (native_bright & 0x07);
    assert(0x88u8 | (native_bright & 0x07) == 0x88 + native_bright % 8) by (bit_vector);
    let r = [b];
    assert(r@ =~= seq![(CMD_DISPLAY_ON + native_bright % 8) as u8]);
    r
}

/// Map the crate-wide 0-15 brightness range to the TM1637's native 0-7.
pub fn map_brightness(level_0_15: u8) -> (r: u8)
    ensures
        r == native_brightness(level_0_15),
{
    let h = level_0_15 >> 1;
    assert(level_0_15 >> 1 == level_0_15 / 2) by (bit_vector);
    if h < 7 { h } else { 7 }
}

/// The native brightness is always within the TM1637's 0-7 range, and a
/// brighter level never maps to a dimmer native value.
pub proof fn native_brightness_in_range_and_monotone(a: u8, b: u8)
    ensures
        native_brightness(a) <= 7,
        a <= b ==> native_brightness(a) <= native_brightness(b),
{
}

/// Each native step covers two levels of the 0-15 range: levels `2k` and
/// `2k + 1` both map to `k`, so 0 and 1 give 0 and 14 and 15 give 7.
pub proof fn native_brightness_halves_level(level: u8)
    requires
        level <= 15,
    ensures
        2 * native_brightness(level) <= level <= 2 * native_brightness(level) + 1,
{
}

/// The colon only ever touches bit 7 of digit 1: every other digit byte,
/// and the low 7 bits of digit 1, are the same with and without it.
pub proof fn colon_touches_only_digit1_bit7(segments: Seq<u16>, i: int)
    requires
        0 <= i < 4,
    ensures
        i != 1 ==> digit_byte(segments, true, i) == digit_byte(segments, false, i),
        digit_byte(segments, true, i) & 0x7f == digit_byte(segments, false, i) & 0x7f,
        digit_byte(segments, true, 1) & 0x80 == 0x80,
{
    let b = digit_byte(segments, false, i);
    assert((b | 0x80u8) & 0x7f == b & 0x7f) by (bit_vector);
    let b1 = digit_byte(segments, false, 1);
    assert((b1 | 0x80u8) & 0x80 == 0x80) by (bit_vector);
}

/// Segment words past the fourth never reach the module.
pub proof fn extra_segments_ignored(segments: Seq<u16>, colon: bool)
    ensures
        digit_frame_bytes(segments, colon) == digit_frame_bytes(
            segments.take(if segments.len() < 4 { segments.len() as int } else { 4 }),
            colon,
        ),
{
    let t = segments.take(if segments.len() < 4 { segments.len() as int } else { 4 });
    assert(digit_frame_bytes(segments, colon) =~= digit_frame_bytes(t, colon));
}

} // verus!
