//! MAX7219 packet encoding for a chain of four 8x8 modules (32x8 pixels).
//!
//! Every SPI write carries one (register, value) pair per module, in
//! daisy-chain order. Module 0 (columns 0-7) comes first in the packet.

use vstd::prelude::*;
use crate::framebuf::{bit_lit, lemma_set_bit, Frame};

verus! {

/// No-op register.
pub const REG_NOOP: u8 = 0x00;

/// Decode-mode register.
pub const REG_DECODE_MODE: u8 = 0x09;

/// Intensity register.
pub const REG_INTENSITY: u8 = 0x0A;

/// Scan-limit register.
pub const REG_SCAN_LIMIT: u8 = 0x0B;

/// Shutdown register.
pub const REG_SHUTDOWN: u8 = 0x0C;

/// Display-test register.
pub const REG_DISPLAY_TEST: u8 = 0x0F;

/// Number of daisy-chained modules.
pub const NUM_DEVICES: usize = 4;

/// The register byte of module `dev` in a packet.
pub open spec fn register_of(packet: Seq<u8>, dev: int) -> u8 {
    packet[2 * dev]
}

/// The data byte of module `dev` in a packet.
pub open spec fn data_of(packet: Seq<u8>, dev: int) -> u8 {
    packet[2 * dev + 1]
}

/// The framebuffer column `col` of module `dev`.
pub open spec fn module_column(buf: Seq<u8>, dev: int, col: int) -> u8 {
    buf[dev * 8 + col]
}

/// Packet that sends the same register/value to all chained modules.
pub fn write_all_packet(reg: u8, value: u8) -> (packet: [u8; 8])
    ensures
        forall|dev: int| 0 <= dev < 4 ==> #[trigger] register_of(packet@, dev) == reg,
        forall|dev: int| 0 <= dev < 4 ==> #[trigger] data_of(packet@, dev) == value,
{
    let mut packet = [0u8; 8];
    let mut i: usize = 0;
    while i < NUM_DEVICES
        invariant
            i <= NUM_DEVICES,
            packet@.len() == 8,
            forall|dev: int| 0 <= dev < i ==> #[trigger] register_of(packet@, dev) == reg,
            forall|dev: int| 0 <= dev < i ==> #[trigger] data_of(packet@, dev) == value,
        decreases NUM_DEVICES - i,
    {
        let ghost before = packet@;
        packet[i * 2] = reg;
        packet[i * 2 + 1] = value;
        assert forall|d: int| 0 <= d < i + 1 implies #[trigger] register_of(packet@, d) == reg by {
            if d < i {
                assert(register_of(before, d) == reg);
            }
        }
        assert forall|d: int| 0 <= d < i + 1 implies #[trigger] data_of(packet@, d) == value by {
            if d < i {
                assert(data_of(before, d) == value);
            }
        }
        i = i + 1;
    }
    packet
}

/// The intensity register value for a 0-15 brightness level; larger
/// levels are capped at 15.
pub fn intensity_value(level: u8) -> (r: u8)
    ensures
        r == if level < 15 { level } else { 15 },
{
    if level < 15 { level } else { 15 }
}

/// Whether column `col` of module `dev` shows row `row` lit in the packed
/// row byte: the leftmost column is the most significant bit.
pub open spec fn packed_bit(row_byte: u8, col: int) -> bool {
    bit_lit(row_byte, (7 - col) as u8)
}

/// A packed row byte reads left to right from its most significant bit:
/// column `col` of a module is the bit `0x80 >> col`, so the module's
/// leftmost column is bit 7 and its rightmost column bit 0.
pub proof fn packed_row_reads_left_to_right(row_byte: u8, col: u8)
    requires
        col < 8,
    ensures
        packed_bit(row_byte, col as int) == (row_byte & (0x80u8 >> col) != 0),
        packed_bit(row_byte, 0) == (row_byte & 0x80 != 0),
        packed_bit(row_byte, 7) == (row_byte & 0x01 != 0),
{
    assert((row_byte & (1u8 << ((7 - col) as u8)) != 0) == (row_byte & (0x80u8 >> col) != 0))
        by (bit_vector)
        requires
            col < 8,
    ;
    assert((row_byte & (1u8 << 7u8) != 0) == (row_byte & 0x80 != 0)) by (bit_vector);
    assert((row_byte & (1u8 << 0u8) != 0) == (row_byte & 0x01 != 0)) by (bit_vector);
}

/// Packet for one matrix row: for each module, the 1-based row register
/// followed by the module's eight columns of that row, packed with the
/// leftmost column in bit 7.
pub fn framebuffer_row_packet(buf: &Frame, row: u8) -> (packet: [u8; 8])
    requires
        row < 8,
    ensures
        forall|dev: int| 0 <= dev < 4 ==> #[trigger] register_of(packet@, dev) == row + 1,
        forall|dev: int, col: int|
            0 <= dev < 4 && 0 <= col < 8 ==> #[trigger] packed_bit(data_of(packet@, dev), col) == bit_lit(
                module_column(buf@, dev, col),
                row,
            ),
{
    let mut packet = [0u8; 8];
    let mut dev: usize = 0;
    while dev < NUM_DEVICES
        invariant
            dev <= NUM_DEVICES,
            row < 8,
            packet@.len() == 8,
            forall|d: int| 0 <= d < dev ==> #[trigger] register_of(packet@, d) == row + 1,
            forall|d: int, col: int|
                0 <= d < dev && 0 <= col < 8 ==> #[trigger] packed_bit(data_of(packet@, d), col) == bit_lit(
                    module_column(buf@, d, col),
                    row,
                ),
        decreases NUM_DEVICES - dev,
    {
        let base_col = dev * 8;
        let mut row_byte: u8 = 0;
        let mut col: usize = 0;
        assert forall|c: int| 0 <= c < 8 implies !packed_bit(0u8, c) by {
            let z = (7 - c) as u8;
            assert(z < 8 ==> 0u8 & (1u8 << z) == 0) by (bit_vector);
        }
        while col < 8
            invariant
                col <= 8,
                row < 8,
                base_col == dev * 8,
                dev < NUM_DEVICES,
                forall|c: int| 0 <= c < col ==> #[trigger] packed_bit(row_byte, c) == bit_lit(module_column(buf@, dev as int, c), row),
                forall|c: int| col <= c < 8 ==> !#[trigger] packed_bit(row_byte, c),
            decreases 8 - col,
        {
            let ghost old_byte = row_byte;
            if buf[base_col + col] & (1u8 << row) != 0 {
                row_byte = row_byte | (1u8 << (7 - col as u8));
                assert forall|c: int| 0 <= c < 8 implies packed_bit(row_byte, c) == (c == col
                    || packed_bit(old_byte, c)) by {
                    lemma_set_bit(old_byte, (7 - col) as u8, (7 - c) as u8);
                }
            }
            col = col + 1;
        }
        let ghost before = packet@;
        packet[dev * 2] = row + 1;
        packet[dev * 2 + 1] = row_byte;
        assert forall|d: int| 0 <= d < dev + 1 implies #[trigger] register_of(packet@, d) == row + 1 by {
            if d < dev {
                assert(register_of(before, d) == row + 1);
            }
        }
        assert forall|d: int, c: int| 0 <= d < dev + 1 && 0 <= c < 8 implies #[trigger] packed_bit(
            data_of(packet@, d),
            c,
        ) == bit_lit(module_column(buf@, d, c), row) by {
            if d < dev {
                assert(packed_bit(data_of(before, d), c) == bit_lit(module_column(buf@, d, c), row));
            } else {
                assert(packed_bit(row_byte, c) == bit_lit(module_column(buf@, dev as int, c), row));
            }
        }
        dev = dev + 1;
    }
    packet
}

} // verus!
