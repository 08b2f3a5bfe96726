//! Message widget: text that fits is shown centered (pixels) or
//! left-aligned (segments) and held; longer text scrolls across.
//! Either way the message plays `repeats` times (negative: forever).

use vstd::prelude::*;
use crate::font_7seg::{encode_chars, encode_text, encoded_length_bounds};
use crate::framebuf::{blank_frame, blit_columns, blit_text_centered, centered_offset, Frame};
use super::{
    left_align, left_aligned, scroll_emits, scroll_frame, scroll_step, scrolled_frame,
    segment_window, window, Repeats, ScrollState,
};

verus! {

/// Width of the pixel matrix in columns.
pub const DISPLAY_WIDTH: usize = 32;

/// How long a static message is held per repetition, in milliseconds.
pub const STATIC_HOLD_MS: u64 = 5000;

/// Message widget.
pub struct Message {
    text: String,
    scroll_speed_ms: u64,
    repeats: i32,
}

/// What a message shows.
pub enum MessageContent {
    /// One fixed frame on the pixel matrix.
    StaticPixels { frame: Frame },
    /// Fixed segment words on a segment display.
    StaticSegments { segments: Vec<u16> },
    /// Text columns scrolled across the pixel matrix.
    ScrollPixels { columns: Vec<u8> },
    /// Encoded text scrolled across a `width`-digit segment display.
    ScrollSegments { encoded: Vec<u8>, width: usize },
}

/// The next thing a message asks of its runner.
pub enum MessageStep {
    /// Write the frame; no pause follows.
    Show { frame: Frame },
    /// Write the segment words; no pause follows.
    ShowSegments { segments: Vec<u16> },
    /// Pause for `ms`, stopping early if cancelled.
    Hold { ms: u64 },
    /// Stop if cancelled; else write the frame and pause for `ms`.
    Scroll { frame: Frame, ms: u64 },
    /// Stop if cancelled; else write the segment words and pause for `ms`.
    ScrollSegments { segments: Vec<u16>, ms: u64 },
    /// The message has played all its repetitions.
    Done,
}

/// A message being played.
pub struct MessagePlayer {
    pub content: MessageContent,
    /// Whether the static content has been written.
    pub shown: bool,
    /// Holds still due for static content.
    pub holds: Repeats,
    /// Scroll position for scrolling content.
    pub scroll: ScrollState,
    /// Pause between scroll steps, in milliseconds.
    pub speed_ms: u64,
}

impl MessagePlayer {
    /// Scrolling content is swept from its first to its last offset.
    pub open spec fn wf(&self) -> bool {
        match self.content {
            MessageContent::ScrollPixels { columns } => {
                &&& self.scroll.wf()
                &&& self.scroll.last == columns.len() + 32
                &&& columns.len() + 64 <= usize::MAX
            },
            MessageContent::ScrollSegments { encoded, width } => {
                &&& self.scroll.wf()
                &&& self.scroll.last == encoded.len() + width
                &&& encoded.len() + 2 * width <= usize::MAX
            },
            _ => true,
        }
    }

    /// The next step of the message.
    pub fn next_step(&mut self) -> (step: MessageStep)
        requires
            old(self).wf(),
        ensures
            final(self).wf(),
            final(self).content == old(self).content,
            final(self).speed_ms == old(self).speed_ms,
            final(self).scroll.last == old(self).scroll.last,
            match old(self).content {
                MessageContent::StaticPixels { frame } => if !old(self).shown {
                    step == (MessageStep::Show { frame })
                } else if old(self).holds.remaining != 0 {
                    step == (MessageStep::Hold { ms: STATIC_HOLD_MS })
                } else {
                    step is Done
                },
                MessageContent::StaticSegments { segments } => if !old(self).shown {
                    step matches MessageStep::ShowSegments { segments: s } && s@ == segments@
                } else if old(self).holds.remaining != 0 {
                    step == (MessageStep::Hold { ms: STATIC_HOLD_MS })
                } else {
                    step is Done
                },
                MessageContent::ScrollPixels { columns } => if scroll_emits(
                    old(self).scroll.offset as int,
                    old(self).scroll.rounds.remaining as int,
                ) {
                    step matches MessageStep::Scroll { frame, ms } && frame@ == scrolled_frame(
                        columns@,
                        old(self).scroll.offset as int,
                    ) && ms == old(self).speed_ms
                } else {
                    step is Done
                },
                MessageContent::ScrollSegments { encoded, width } => if scroll_emits(
                    old(self).scroll.offset as int,
                    old(self).scroll.rounds.remaining as int,
                ) {
                    step matches MessageStep::ScrollSegments { segments, ms } && segments@
                        == window(encoded@, width as int, old(self).scroll.offset as int) && ms
                        == old(self).speed_ms
                } else {
                    step is Done
                },
            },
            match old(self).content {
                MessageContent::StaticPixels { .. } | MessageContent::StaticSegments { .. } => {
                    &&& final(self).shown
                    &&& final(self).holds.remaining == if old(self).shown && old(self).holds.remaining > 0 {
                        old(self).holds.remaining - 1
                    } else {
                        old(self).holds.remaining as int
                    }
                    &&& final(self).scroll == old(self).scroll
                },
                _ => {
                    &&& final(self).shown == old(self).shown
                    &&& final(self).holds == old(self).holds
                    &&& (final(self).scroll.offset as int, final(self).scroll.rounds.remaining as int)
                        == scroll_step(
                        old(self).scroll.offset as int,
                        old(self).scroll.rounds.remaining as int,
                        old(self).scroll.last as int,
                    )
                },
            },
    {
        match &self.content {
            MessageContent::StaticPixels { frame } => {
                if !self.shown {
                    self.shown = true;
                    return MessageStep::Show { frame: *frame };
                }
                if self.holds.take_round() {
                    MessageStep::Hold { ms: STATIC_HOLD_MS }
                } else {
                    MessageStep::Done
                }
            },
            MessageContent::StaticSegments { segments } => {
                if !self.shown {
                    let s = crate::network::copy_words(segments);
                    self.shown = true;
                    return MessageStep::ShowSegments { segments: s };
                }
                if self.holds.take_round() {
                    MessageStep::Hold { ms: STATIC_HOLD_MS }
                } else {
                    MessageStep::Done
                }
            },
            MessageContent::ScrollPixels { columns } => {
                match self.scroll.next_offset() {
                    Some(offset) => MessageStep::Scroll {
                        frame: scroll_frame(columns.as_slice(), offset),
                        ms: self.speed_ms,
                    },
                    None => MessageStep::Done,
                }
            },
            MessageContent::ScrollSegments { encoded, width } => {
                match self.scroll.next_offset() {
                    Some(offset) => MessageStep::ScrollSegments {
                        segments: segment_window(encoded.as_slice(), *width, offset),
                        ms: self.speed_ms,
                    },
                    None => MessageStep::Done,
                }
            },
        }
    }
}

impl Message {
    /// The text of the message.
    pub closed spec fn spec_text(&self) -> Seq<char> {
        self.text@
    }

    /// The pause between scroll steps, in milliseconds.
    pub closed spec fn spec_scroll_speed_ms(&self) -> u64 {
        self.scroll_speed_ms
    }

    /// How many times the message plays (negative: forever).
    pub closed spec fn spec_repeats(&self) -> i32 {
        self.repeats
    }

    /// A message showing `text`, scrolling one column every
    /// `scroll_speed_ms`, played `repeats` times (negative: forever).
    pub fn new(text: &str, scroll_speed_ms: u64, repeats: i32) -> (r: Self)
        ensures
            r.spec_text() == text@,
            r.spec_scroll_speed_ms() == scroll_speed_ms,
            r.spec_repeats() == repeats,
    {
        Message { text: String::from_str(text), scroll_speed_ms, repeats }
    }

    /// The text of the message.
    pub fn text(&self) -> (r: &str)
        ensures
            r@ == self.spec_text(),
    {
        self.text.as_str()
    }

    /// Play on the pixel matrix, given the text rendered as columns: text
    /// that fits (at most 32 columns) is shown centered, longer text
    /// scrolls in from the right and out to the left.
    pub fn play_pixels(&self, columns: Vec<u8>) -> (p: MessagePlayer)
        requires
            columns.len() + 64 <= usize::MAX,
        ensures
            p.wf(),
            !p.shown,
            p.speed_ms == self.spec_scroll_speed_ms(),
            columns.len() <= DISPLAY_WIDTH ==> (p.content matches MessageContent::StaticPixels {
                frame,
            } && frame@ == blit_columns(blank_frame(), columns@, centered_offset(columns.len() as int))),
            columns.len() <= DISPLAY_WIDTH ==> p.holds.remaining == self.spec_repeats(),
            columns.len() > DISPLAY_WIDTH ==> (p.content matches MessageContent::ScrollPixels {
                columns: c,
            } && c@ == columns@),
            columns.len() > DISPLAY_WIDTH ==> p.scroll.offset == 0,
            columns.len() > DISPLAY_WIDTH ==> p.scroll.rounds.remaining == self.spec_repeats(),
    {
        if columns.len() <= DISPLAY_WIDTH {
            let mut frame = [0u8; 32];
            proof {
                assert(frame@ =~= blank_frame());
            }
            blit_text_centered(&mut frame, columns.as_slice());
            MessagePlayer {
                content: MessageContent::StaticPixels { frame },
                shown: false,
                holds: Repeats::new(self.repeats),
                scroll: ScrollState::new(0, 0),
                speed_ms: self.scroll_speed_ms,
            }
        } else {
            let last = columns.len() + DISPLAY_WIDTH;
            MessagePlayer {
                content: MessageContent::ScrollPixels { columns },
                shown: false,
                holds: Repeats::new(0),
                scroll: ScrollState::new(last, self.repeats),
                speed_ms: self.scroll_speed_ms,
            }
        }
    }

    /// Play on a `width`-digit segment display: encoded text that fits is
    /// shown left-aligned, longer text slides in from the right and out to
    /// the left.
    pub fn play_segments(&self, width: usize) -> (p: MessagePlayer)
        requires
            encode_chars(self.spec_text()).len() + 2 * width <= usize::MAX,
        ensures
            p.wf(),
            !p.shown,
            p.speed_ms == self.spec_scroll_speed_ms(),
            encode_chars(self.spec_text()).len() <= width ==> (p.content matches MessageContent::StaticSegments {
                segments,
            } && segments@ == left_aligned(encode_chars(self.spec_text()), width as int)),
            encode_chars(self.spec_text()).len() <= width ==> p.holds.remaining == self.spec_repeats(),
            encode_chars(self.spec_text()).len() > width ==> (p.content matches MessageContent::ScrollSegments {
                encoded,
                width: w,
            } && encoded@ == encode_chars(self.spec_text()) && w == width),
            encode_chars(self.spec_text()).len() > width ==> p.scroll.offset == 0,
            encode_chars(self.spec_text()).len() > width ==> p.scroll.rounds.remaining == self.spec_repeats(),
    {
        let encoded = encode_text(self.text.as_str());
        proof {
            encoded_length_bounds(self.text@);
        }
        if encoded.len() <= width {
            let segments = left_align(encoded.as_slice(), width);
            MessagePlayer {
                content: MessageContent::StaticSegments { segments },
                shown: false,
                holds: Repeats::new(self.repeats),
                scroll: ScrollState::new(0, 0),
                speed_ms: self.scroll_speed_ms,
            }
        } else {
            let last = encoded.len() + width;
            MessagePlayer {
                content: MessageContent::ScrollSegments { encoded, width },
                shown: false,
                holds: Repeats::new(0),
                scroll: ScrollState::new(last, self.repeats),
                speed_ms: self.scroll_speed_ms,
            }
        }
    }
}

} // verus!
