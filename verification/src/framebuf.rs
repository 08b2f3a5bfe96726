//! 32x8 LED matrix framebuffer.
//!
//! Each byte is one vertical column (bit 0 = top row, bit 7 = bottom row).
//! Text is placed as rendered columns: the caller hands in the column
//! bytes of the pixel font.

use vstd::prelude::*;

verus! {

/// 32x8 LED matrix framebuffer, one byte per column.
pub type Frame = [u8; 32];

/// Width of the matrix in columns.
pub const WIDTH: usize = 32;

/// Height of the matrix in rows.
pub const HEIGHT: usize = 8;

/// Whether row `y` of a column byte is lit.
pub open spec fn bit_lit(col: u8, y: u8) -> bool {
    col & (1u8 << y) != 0
}

/// Whether the pixel (x, y) of a frame is lit; pixels off the matrix are
/// never lit.
pub open spec fn pixel(frame: Seq<u8>, x: int, y: int) -> bool {
    0 <= x < WIDTH && 0 <= y < HEIGHT && bit_lit(frame[x], y as u8)
}

/// A frame with every pixel dark.
pub open spec fn blank_frame() -> Seq<u8> {
    Seq::new(32, |i: int| 0u8)
}

/// Setting bit `y` lights it and leaves every other bit as it was.
pub proof fn lemma_set_bit(b: u8, y: u8, z: u8)
    requires
        y < 8,
        z < 8,
    ensures
        bit_lit(b | (1u8 << y), z) == (y == z || bit_lit(b, z)),
{
    assert(((b | (1u8 << y)) & (1u8 << z) != 0) == (y == z || b & (1u8 << z) != 0))
        by (bit_vector)
        requires
            y < 8,
            z < 8,
    ;
}

/// Clearing bit `y` darkens it and leaves every other bit as it was.
pub proof fn lemma_clear_bit(b: u8, y: u8, z: u8)
    requires
        y < 8,
        z < 8,
    ensures
        bit_lit(b & !(1u8 << y), z) == (y != z && bit_lit(b, z)),
{
    assert(((b & !(1u8 << y)) & (1u8 << z) != 0) == (y != z && b & (1u8 << z) != 0))
        by (bit_vector)
        requires
            y < 8,
            z < 8,
    ;
}

/// Clear all pixels.
pub fn clear(frame: &mut Frame)
    ensures
        final(frame)@ == blank_frame(),
{
    *frame = [0u8; 32];
    assert(frame@ =~= blank_frame());
}

/// Set or clear the pixel at (x, y). x: 0-31, y: 0-7; coordinates off the
/// matrix leave the frame unchanged.
pub fn set_pixel(frame: &mut Frame, x: usize, y: usize, on: bool)
    ensures
        x >= WIDTH || y >= HEIGHT ==> final(frame)@ == old(frame)@,
        x < WIDTH && y < HEIGHT ==> final(frame)@ == old(frame)@.update(
            x as int,
            if on {
                old(frame)@[x as int] | (1u8 << (y as u8))
            } else {
                old(frame)@[x as int] & !(1u8 << (y as u8))
            },
        ),
{
    if x >= 32 || y >= 8 {
        return;
    }
    let mask: u8 = 1u8 << (y as u8);
    if on {
        frame[x] = frame[x] | mask;
    } else {
        frame[x] = frame[x] & !mask;
    }
}

/// Get the pixel value at (x, y); false off the matrix.
pub fn get_pixel(frame: &Frame, x: usize, y: usize) -> (r: bool)
    ensures
        r == pixel(frame@, x as int, y as int),
{
    if x >= 32 || y >= 8 {
        return false;
    }
    frame[x] & (1u8 << (y as u8)) != 0
}

/// The frame after placing `columns` starting at column `offset`: columns
/// that fall off the right edge are dropped, the rest of the frame is kept.
pub open spec fn blit_columns(frame: Seq<u8>, columns: Seq<u8>, offset: int) -> Seq<u8> {
    Seq::new(
        frame.len(),
        |x: int|
            if offset <= x < offset + columns.len() {
                columns[x - offset]
            } else {
                frame[x]
            },
    )
}

/// Where rendered text of `width` columns starts when centered.
pub open spec fn centered_offset(width: int) -> int {
    if width < 32 { (32 - width) / 2 } else { 0 }
}

/// Render text columns into the frame at the given horizontal offset.
/// Returns the total pixel width of the rendered text.
pub fn blit_text(frame: &mut Frame, columns: &[u8], offset_x: usize) -> (width: usize)
    requires
        columns.len() == 0 || offset_x + columns.len() - 1 <= usize::MAX,
    ensures
        width == columns.len(),
        final(frame)@ == blit_columns(old(frame)@, columns@, offset_x as int),
{
    let n = columns.len();
    let mut i: usize = 0;
    while i < n
        invariant
            n == columns.len(),
            i <= n,
            n == 0 || offset_x + n - 1 <= usize::MAX,
            frame@ == blit_columns(old(frame)@, columns@.take(i as int), offset_x as int),
        decreases n - i,
    {
        let x = offset_x + i;
        if x < 32 {
            frame[x] = columns[i];
        }
        i = i + 1;
        assert(frame@ =~= blit_columns(old(frame)@, columns@.take(i as int), offset_x as int));
    }
    assert(columns@.take(n as int) =~= columns@);
    n
}

/// Render text columns centered horizontally in the frame.
/// Returns the total pixel width of the rendered text.
pub fn blit_text_centered(frame: &mut Frame, columns: &[u8]) -> (width: usize)
    ensures
        width == columns.len(),
        final(frame)@ == blit_columns(old(frame)@, columns@, centered_offset(columns.len() as int)),
{
    let w = columns.len();
    let offset = if w < 32 { (32 - w) / 2 } else { 0 };
    blit_text(frame, columns, offset)
}

/// Setting or clearing a pixel changes that pixel alone: reading it back
/// gives what was written, every other pixel reads as before.
pub proof fn set_then_get(before: Seq<u8>, after: Seq<u8>, x: int, y: int, on: bool, x2: int, y2: int)
    requires
        before.len() == WIDTH,
        0 <= x < WIDTH,
        0 <= y < HEIGHT,
        after == before.update(
            x,
            if on { before[x] | (1u8 << (y as u8)) } else { before[x] & !(1u8 << (y as u8)) },
        ),
    ensures
        pixel(after, x, y) == on,
        (x2 != x || y2 != y) ==> pixel(after, x2, y2) == pixel(before, x2, y2),
{
    if on {
        lemma_set_bit(before[x], y as u8, y as u8);
    } else {
        lemma_clear_bit(before[x], y as u8, y as u8);
    }
    if 0 <= x2 < WIDTH && 0 <= y2 < HEIGHT && x2 == x && y2 != y {
        if on {
            lemma_set_bit(before[x], y as u8, y2 as u8);
        } else {
            lemma_clear_bit(before[x], y as u8, y2 as u8);
        }
    }
}

/// A cleared frame has no lit pixel.
pub proof fn cleared_frame_is_dark(x: int, y: int)
    ensures
        !pixel(blank_frame(), x, y),
{
    if 0 <= x < WIDTH && 0 <= y < HEIGHT {
        let z = y as u8;
        assert(z < 8 ==> 0u8 & (1u8 << z) == 0) by (bit_vector);
    }
}

} // verus!
