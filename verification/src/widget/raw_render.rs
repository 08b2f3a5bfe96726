//! Raw renderers: the server sends the display contents directly.

use vstd::prelude::*;
use crate::framebuf::{pixel, Frame};

verus! {

/// Raw pixel renderer: the server sends 32 column bytes, shown as is.
pub struct RawPixel {
    data: Vec<u8>,
}

/// The frame of raw pixel data: its first 32 bytes, blank columns where
/// the data is shorter.
pub open spec fn raw_frame(data: Seq<u8>) -> Seq<u8> {
    Seq::new(32, |x: int| if x < data.len() { data[x] } else { 0u8 })
}

/// Raw pixel data is shown as sent: byte `x` is column `x` from the left,
/// its bit `y` the pixel in row `y` counted from the top; columns past the
/// end of the data are dark and bytes past the 32nd are not shown.
pub proof fn raw_pixels_as_sent(data: Seq<u8>, x: int, y: int)
    requires
        0 <= x < 32,
        0 <= y < 8,
    ensures
        pixel(raw_frame(data), x, y) == (x < data.len() && data[x] & (1u8 << (y as u8)) != 0),
{
    let z = y as u8;
    assert(0u8 & (1u8 << z) == 0) by (bit_vector);
}

impl RawPixel {
    /// The raw bytes.
    pub closed spec fn spec_data(&self) -> Seq<u8> {
        self.data@
    }

    /// Show `data` as columns.
    pub fn new(data: Vec<u8>) -> (r: Self)
        ensures
            r.spec_data() == data@,
    {
        RawPixel { data }
    }

    /// The frame to hold on the display.
    pub fn frame(&self) -> (frame: Frame)
        ensures
            frame@ == raw_frame(self.spec_data()),
    {
        let mut frame = [0u8; 32];
        let len = if self.data.len() < 32 { self.data.len() } else { 32 };
        let mut i: usize = 0;
        while i < len
            invariant
                len <= 32,
                len <= self.data.len(),
                len == 32 || len == self.data.len(),
                i <= len,
                frame@.len() == 32,
                forall|x: int| 0 <= x < i ==> frame@[x] == self.data@[x],
                forall|x: int| i <= x < 32 ==> frame@[x] == 0,
            decreases len - i,
        {
            frame[i] = self.data[i];
            i = i + 1;
        }
        assert(frame@ =~= raw_frame(self.data@));
        frame
    }
}

/// Raw segment renderer: the server sends segment bitmasks, shown as is.
pub struct RawSegment {
    segments: Vec<u16>,
    colon: bool,
}

impl RawSegment {
    /// The segment words.
    pub closed spec fn spec_segments(&self) -> Seq<u16> {
        self.segments@
    }

    /// Whether the colon is lit.
    pub closed spec fn spec_colon(&self) -> bool {
        self.colon
    }

    /// Show `segments`, with the colon lit when `colon` is set.
    pub fn new(segments: Vec<u16>, colon: bool) -> (r: Self)
        ensures
            r.spec_segments() == segments@,
            r.spec_colon() == colon,
    {
        RawSegment { segments, colon }
    }

    /// The segment words to hold on the display.
    pub fn segments(&self) -> (r: &[u16])
        ensures
            r@ == self.spec_segments(),
    {
        self.segments.as_slice()
    }

    /// Whether the colon is lit.
    pub fn colon(&self) -> (r: bool)
        ensures
            r == self.spec_colon(),
    {
        self.colon
    }
}

} // verus!
