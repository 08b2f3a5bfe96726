//! Status widget: shows a status message (IP address, error, ...) for a
//! given time. Text that fits is held still; wider text scrolls across
//! once, until the time is up.

use vstd::prelude::*;
use crate::font_7seg::{encode_chars, encode_text, encoded_length_bounds};
use crate::framebuf::{blank_frame, blit_columns, blit_text_centered, centered_offset};
use super::message::{MessageContent, DISPLAY_WIDTH};
use super::{
    left_align, left_aligned, scroll_emits, scroll_frame, scroll_step, scrolled_frame,
    segment_window, window, ScrollState,
};

verus! {

/// Pause between pixel scroll steps, in milliseconds.
pub const PIXEL_SCROLL_MS: u64 = 30;

/// Pause between segment scroll steps, in milliseconds.
pub const SEGMENT_SCROLL_MS: u64 = 250;

/// Status widget.
pub struct Status {
    pub text: String,
    /// How long the status is shown, in milliseconds.
    pub duration_ms: u64,
}

/// The next thing a status asks of its runner.
pub enum StatusStep {
    /// Write the frame, then pause for the whole duration (stopping early
    /// if cancelled).
    Show { frame: [u8; 32], ms: u64 },
    /// Write the segment words, then pause for the whole duration.
    ShowSegments { segments: Vec<u16>, ms: u64 },
    /// Write the frame and pause for `ms`.
    Scroll { frame: [u8; 32], ms: u64 },
    /// Write the segment words and pause for `ms`.
    ScrollSegments { segments: Vec<u16>, ms: u64 },
    /// The status is over.
    Done,
}

/// A status being shown.
pub struct StatusPlayer {
    pub content: MessageContent,
    /// Whether the static content has been shown.
    pub shown: bool,
    /// Scroll position (one round) for scrolling content.
    pub scroll: ScrollState,
    /// How long the status is shown, in milliseconds.
    pub duration_ms: u64,
}

impl StatusPlayer {
    /// Scrolling content is swept once from its first to its last offset.
    pub open spec fn wf(&self) -> bool {
        match self.content {
            MessageContent::ScrollPixels { columns } => {
                &&& self.scroll.wf()
                &&& self.scroll.last == columns.len() + 32
                &&& columns.len() + 64 <= usize::MAX
            },
            MessageContent::ScrollSegments { encoded, width } => {
                &&& self.scroll.wf()
                &&& self.scroll.last == encoded.len() + width
                &&& encoded.len() + 2 * width <= usize::MAX
            },
            _ => true,
        }
    }

    /// The next step, given whether the runner has been cancelled and how
    /// long the status has been showing. A scrolling status stops once
    /// cancelled or once its time is up; a static one is shown once and
    /// then held for its whole duration.
    pub fn next_step(&mut self, cancelled: bool, elapsed_ms: u64) -> (step: StatusStep)
        requires
            old(self).wf(),
        ensures
            final(self).wf(),
            final(self).content == old(self).content,
            final(self).duration_ms == old(self).duration_ms,
            final(self).scroll.last == old(self).scroll.last,
            match old(self).content {
                MessageContent::StaticPixels { frame } => if !old(self).shown {
                    step == (StatusStep::Show { frame, ms: old(self).duration_ms })
                } else {
                    step is Done
                },
                MessageContent::StaticSegments { segments } => if !old(self).shown {
                    step matches StatusStep::ShowSegments { segments: s, ms } && s@ == segments@
                        && ms == old(self).duration_ms
                } else {
                    step is Done
                },
                MessageContent::ScrollPixels { columns } => if cancelled || elapsed_ms
                    >= old(self).duration_ms || !scroll_emits(
                    old(self).scroll.offset as int,
                    old(self).scroll.rounds.remaining as int,
                ) {
                    step is Done
                } else {
                    step matches StatusStep::Scroll { frame, ms } && frame@ == scrolled_frame(
                        columns@,
                        old(self).scroll.offset as int,
                    ) && ms == PIXEL_SCROLL_MS
                },
                MessageContent::ScrollSegments { encoded, width } => if cancelled || elapsed_ms
                    >= old(self).duration_ms || !scroll_emits(
                    old(self).scroll.offset as int,
                    old(self).scroll.rounds.remaining as int,
                ) {
                    step is Done
                } else {
                    step matches StatusStep::ScrollSegments { segments, ms } && segments@
                        == window(encoded@, width as int, old(self).scroll.offset as int) && ms
                        == SEGMENT_SCROLL_MS
                },
            },
            match old(self).content {
                MessageContent::StaticPixels { .. } | MessageContent::StaticSegments { .. } => {
                    &&& final(self).shown
                    &&& final(self).scroll == old(self).scroll
                },
                _ => {
                    &&& final(self).shown == old(self).shown
                    &&& (cancelled || elapsed_ms >= old(self).duration_ms) ==> final(self).scroll
                        == old(self).scroll
                    &&& !(cancelled || elapsed_ms >= old(self).duration_ms) ==> (
                        final(self).scroll.offset as int,
                        final(self).scroll.rounds.remaining as int,
                    ) == scroll_step(
                        old(self).scroll.offset as int,
                        old(self).scroll.rounds.remaining as int,
                        old(self).scroll.last as int,
                    )
                },
            },
    {
        match &self.content {
            MessageContent::StaticPixels { frame } => {
                if !self.shown {
                    self.shown = true;
                    StatusStep::Show { frame: *frame, ms: self.duration_ms }
                } else {
                    StatusStep::Done
                }
            },
            MessageContent::StaticSegments { segments } => {
                if !self.shown {
                    let s = crate::network::copy_words(segments);
                    self.shown = true;
                    StatusStep::ShowSegments { segments: s, ms: self.duration_ms }
                } else {
                    StatusStep::Done
                }
            },
            MessageContent::ScrollPixels { columns } => {
                if cancelled || elapsed_ms >= self.duration_ms {
                    return StatusStep::Done;
                }
                match self.scroll.next_offset() {
                    Some(offset) => StatusStep::Scroll {
                        frame: scroll_frame(columns.as_slice(), offset),
                        ms: PIXEL_SCROLL_MS,
                    },
                    None => StatusStep::Done,
                }
            },
            MessageContent::ScrollSegments { encoded, width } => {
                if cancelled || elapsed_ms >= self.duration_ms {
                    return StatusStep::Done;
                }
                match self.scroll.next_offset() {
                    Some(offset) => StatusStep::ScrollSegments {
                        segments: segment_window(encoded.as_slice(), *width, offset),
                        ms: SEGMENT_SCROLL_MS,
                    },
                    None => StatusStep::Done,
                }
            },
        }
    }
}

impl Status {
    /// Show `text` for `duration_ms` milliseconds.
    pub fn new(text: &str, duration_ms: u64) -> (r: Self)
        ensures
            r.text@ == text@,
            r.duration_ms == duration_ms,
    {
        Status { text: String::from_str(text), duration_ms }
    }

    /// Show on the pixel matrix, given the text rendered as columns: text
    /// of at most 32 columns is centered, wider text scrolls across once.
    pub fn play_pixels(&self, columns: Vec<u8>) -> (p: StatusPlayer)
        requires
            columns.len() + 64 <= usize::MAX,
        ensures
            p.wf(),
            !p.shown,
            p.duration_ms == self.duration_ms,
            columns.len() <= DISPLAY_WIDTH ==> (p.content matches MessageContent::StaticPixels {
                frame,
            } && frame@ == blit_columns(blank_frame(), columns@, centered_offset(columns.len() as int))),
            columns.len() > DISPLAY_WIDTH ==> (p.content matches MessageContent::ScrollPixels {
                columns: c,
            } && c@ == columns@),
            columns.len() > DISPLAY_WIDTH ==> p.scroll.offset == 0,
            columns.len() > DISPLAY_WIDTH ==> p.scroll.rounds.remaining == 1,
    {
        if columns.len() <= DISPLAY_WIDTH {
            let mut frame = [0u8; 32];
            proof {
                assert(frame@ =~= blank_frame());
            }
            blit_text_centered(&mut frame, columns.as_slice());
            StatusPlayer {
                content: MessageContent::StaticPixels { frame },
                shown: false,
                scroll: ScrollState::new(0, 0),
                duration_ms: self.duration_ms,
            }
        } else {
            let last = columns.len() + DISPLAY_WIDTH;
            StatusPlayer {
                content: MessageContent::ScrollPixels { columns },
                shown: false,
                scroll: ScrollState::new(last, 1),
                duration_ms: self.duration_ms,
            }
        }
    }

    /// Show on a `width`-digit segment display: encoded text that fits is
    /// left-aligned, longer text slides across once.
    pub fn play_segments(&self, width: usize) -> (p: StatusPlayer)
        requires
            encode_chars(self.text@).len() + 2 * width <= usize::MAX,
        ensures
            p.wf(),
            !p.shown,
            p.duration_ms == self.duration_ms,
            encode_chars(self.text@).len() <= width ==> (p.content matches MessageContent::StaticSegments {
                segments,
            } && segments@ == left_aligned(encode_chars(self.text@), width as int)),
            encode_chars(self.text@).len() > width ==> (p.content matches MessageContent::ScrollSegments {
                encoded,
                width: w,
            } && encoded@ == encode_chars(self.text@) && w == width),
            encode_chars(self.text@).len() > width ==> p.scroll.offset == 0,
            encode_chars(self.text@).len() > width ==> p.scroll.rounds.remaining == 1,
    {
        let encoded = encode_text(self.text.as_str());
        proof {
            encoded_length_bounds(self.text@);
        }
        if encoded.len() <= width {
            let segments = left_align(encoded.as_slice(), width);
            StatusPlayer {
                content: MessageContent::StaticSegments { segments },
                shown: false,
                scroll: ScrollState::new(0, 0),
                duration_ms: self.duration_ms,
            }
        } else {
            let last = encoded.len() + width;
            StatusPlayer {
                content: MessageContent::ScrollSegments { encoded, width },
                shown: false,
                scroll: ScrollState::new(last, 1),
                duration_ms: self.duration_ms,
            }
        }
    }
}

} // verus!
