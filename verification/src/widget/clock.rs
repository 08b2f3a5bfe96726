//! Clock widget: the current time with a blinking colon.
//!
//! 24h mode and AM: 500 ms colon on, 500 ms colon off.
//! PM in 12h mode: double blink, 150 ms on, 200 ms off, 150 ms on,
//! 500 ms off.

use vstd::prelude::*;
use crate::font_7seg::{decimal_char, digit, glyph_or_blank};
use crate::text::{append_decimal, decimal, digit_char};

verus! {

/// Clock widget.
#[derive(Debug, Clone, Copy, PartialEq, Eq)]
pub struct Clock {
    pub format_24h: bool,
}

/// One phase of the blink cycle: the text shown and for how long.
pub struct BlinkPhase {
    pub text: String,
    pub hold_ms: u64,
}

/// One phase of the blink cycle on a 4-digit segment display: the digit
/// segments, whether the colon is lit, and for how long.
pub struct SegmentBlinkPhase {
    pub segments: Vec<u16>,
    pub colon: bool,
    pub hold_ms: u64,
}

/// The 7-segment glyph of a decimal digit.
pub open spec fn digit_word(d: int) -> u16 {
    glyph_or_blank(decimal_char(d)) as u16
}

/// The four digits of the time on a segment display: the hour's two
/// digits (the first left blank in 12-hour mode before 10 o'clock) and the
/// minute's two digits.
pub open spec fn segment_clock_digits(format_24h: bool, hour_raw: u8, minute: u8) -> Seq<u16> {
    let hour = display_hour(format_24h, hour_raw);
    seq![
        if !format_24h && hour < 10 { 0u16 } else { digit_word((hour / 10) as int) },
        digit_word((hour % 10) as int),
        digit_word((minute / 10) as int),
        digit_word((minute % 10) as int),
    ]
}

/// The hour as displayed: as is in 24h mode, 1-12 in 12h mode.
pub open spec fn display_hour(format_24h: bool, hour: u8) -> u8 {
    if format_24h {
        hour
    } else if hour % 12 == 0 {
        12u8
    } else {
        (hour % 12) as u8
    }
}

/// `n` in decimal, padded with a leading zero to at least two digits.
pub open spec fn two_digits(n: u8) -> Seq<char> {
    if n < 10 { seq!['0'] + decimal(n as nat) } else { decimal(n as nat) }
}

/// The time text with the given separator: the hour zero-padded in 24h
/// mode or when it has two digits, unpadded otherwise; then the
/// separator and the zero-padded minute.
pub open spec fn clock_text(format_24h: bool, hour_raw: u8, minute: u8, sep: char) -> Seq<char> {
    let hour = display_hour(format_24h, hour_raw);
    let hour_text = if format_24h || hour >= 10 { two_digits(hour) } else { decimal(hour as nat) };
    hour_text + seq![sep] + two_digits(minute)
}

/// Whether the double-blink PM pattern applies.
pub open spec fn pm_blink(format_24h: bool, hour_raw: u8) -> bool {
    !format_24h && hour_raw >= 12
}

/// In 12-hour mode the displayed hour is always 1 to 12, with 0 and 12
/// shown as 12; in 24-hour mode it is the hour itself.
pub proof fn twelve_hour_range(hour: u8)
    ensures
        1 <= display_hour(false, hour) <= 12,
        hour % 12 == 0 ==> display_hour(false, hour) == 12,
        display_hour(true, hour) == hour,
{
}

/// `n` below 100 in decimal: one digit below 10, two from 10 on.
proof fn decimal_below_hundred(n: nat)
    requires
        n < 100,
    ensures
        n < 10 ==> decimal(n) == seq![digit_char(n as int)],
        n >= 10 ==> decimal(n) == seq![digit_char((n / 10) as int), digit_char((n % 10) as int)],
{
    if n >= 10 {
        assert(decimal(n / 10) == seq![digit_char((n / 10) as int)]);
        assert(decimal(n) =~= seq![digit_char((n / 10) as int), digit_char((n % 10) as int)]);
    }
}

/// The time text character by character. In 24-hour mode it is always
/// five characters: the hour's tens and units digits (a leading zero
/// before 10 o'clock), the separator, the minute's tens and units digits.
/// In 12-hour mode the hour runs 12, 1, 2, ..., 11, with midnight and noon
/// shown as 12, and before 10 it takes a single digit.
pub proof fn clock_text_digits(hour: u8, minute: u8, sep: char)
    requires
        hour < 24,
        minute < 60,
    ensures
        clock_text(true, hour, minute, sep) == seq![
            digit_char((hour / 10) as int),
            digit_char((hour % 10) as int),
            sep,
            digit_char((minute / 10) as int),
            digit_char((minute % 10) as int),
        ],
        hour % 12 == 0 ==> clock_text(false, hour, minute, sep) == seq![
            '1',
            '2',
            sep,
            digit_char((minute / 10) as int),
            digit_char((minute % 10) as int),
        ],
        1 <= hour % 12 < 10 ==> clock_text(false, hour, minute, sep) == seq![
            digit_char((hour % 12) as int),
            sep,
            digit_char((minute / 10) as int),
            digit_char((minute % 10) as int),
        ],
        hour % 12 >= 10 ==> clock_text(false, hour, minute, sep) == seq![
            '1',
            digit_char((hour % 12 - 10) as int),
            sep,
            digit_char((minute / 10) as int),
            digit_char((minute % 10) as int),
        ],
{
    decimal_below_hundred(hour as nat);
    decimal_below_hundred(minute as nat);
    decimal_below_hundred((hour % 12) as nat);
    decimal_below_hundred(12);
    assert(clock_text(true, hour, minute, sep) =~= seq![
        digit_char((hour / 10) as int),
        digit_char((hour % 10) as int),
        sep,
        digit_char((minute / 10) as int),
        digit_char((minute % 10) as int),
    ]);
    if hour % 12 == 0 {
        assert(clock_text(false, hour, minute, sep) =~= seq![
            '1',
            '2',
            sep,
            digit_char((minute / 10) as int),
            digit_char((minute % 10) as int),
        ]);
    } else if hour % 12 < 10 {
        assert(clock_text(false, hour, minute, sep) =~= seq![
            digit_char((hour % 12) as int),
            sep,
            digit_char((minute / 10) as int),
            digit_char((minute % 10) as int),
        ]);
    } else {
        assert(clock_text(false, hour, minute, sep) =~= seq![
            '1',
            digit_char((hour % 12 - 10) as int),
            sep,
            digit_char((minute / 10) as int),
            digit_char((minute % 10) as int),
        ]);
    }
}

/// The segment display shows the digits of the time text: in a five
/// character text the two hour digits and the two minute digits around
/// the separator; in a four character text (12-hour mode before 10
/// o'clock) a dark first digit, then the hour digit and the two minute
/// digits.
pub proof fn segment_digits_follow_text(format_24h: bool, hour: u8, minute: u8, sep: char)
    requires
        hour < 24,
        minute < 60,
    ensures
        ({
            let t = clock_text(format_24h, hour, minute, sep);
            let digits = segment_clock_digits(format_24h, hour, minute);
            &&& t.len() == 4 || t.len() == 5
            &&& t.len() == 5 ==> digits == seq![
                glyph_or_blank(t[0]) as u16,
                glyph_or_blank(t[1]) as u16,
                glyph_or_blank(t[3]) as u16,
                glyph_or_blank(t[4]) as u16,
            ]
            &&& t.len() == 4 ==> digits == seq![
                0u16,
                glyph_or_blank(t[0]) as u16,
                glyph_or_blank(t[2]) as u16,
                glyph_or_blank(t[3]) as u16,
            ]
        }),
{
    clock_text_digits(hour, minute, sep);
    assert(forall|d: int| #[trigger] digit_char(d) == decimal_char(d));
    let t = clock_text(format_24h, hour, minute, sep);
    let digits = segment_clock_digits(format_24h, hour, minute);
    if t.len() == 5 {
        assert(digits =~= seq![
            glyph_or_blank(t[0]) as u16,
            glyph_or_blank(t[1]) as u16,
            glyph_or_blank(t[3]) as u16,
            glyph_or_blank(t[4]) as u16,
        ]);
    } else {
        assert(digits =~= seq![
            0u16,
            glyph_or_blank(t[0]) as u16,
            glyph_or_blank(t[2]) as u16,
            glyph_or_blank(t[3]) as u16,
        ]);
    }
}

fn append_two_digits(s: &mut String, n: u8)
    ensures
        final(s)@ == old(s)@ + two_digits(n),
{
    if n < 10 {
        proof {
            reveal_strlit("0");
        }
        s.append("0");
    }
    append_decimal(s, n as u64);
    assert(s@ =~= old(s)@ + two_digits(n));
}

fn time_text(format_24h: bool, hour_raw: u8, minute: u8, colon: bool) -> (r: String)
    ensures
        r@ == clock_text(format_24h, hour_raw, minute, if colon { ':' } else { ' ' }),
{
    let hour: u8 = if format_24h {
        hour_raw
    } else {
        let h = hour_raw % 12;
        if h == 0 { 12 } else { h }
    };
    let mut s = String::new();
    if format_24h || hour >= 10 {
        append_two_digits(&mut s, hour);
    } else {
        append_decimal(&mut s, hour as u64);
    }
    proof {
        reveal_strlit(":");
        reveal_strlit(" ");
    }
    if colon {
        s.append(":");
    } else {
        s.append(" ");
    }
    append_two_digits(&mut s, minute);
    assert(s@ =~= clock_text(format_24h, hour_raw, minute, if colon { ':' } else { ' ' }));
    s
}

fn clock_digits(format_24h: bool, hour_raw: u8, minute: u8) -> (r: Vec<u16>)
    requires
        hour_raw < 24,
        minute < 60,
    ensures
        r@ == segment_clock_digits(format_24h, hour_raw, minute),
{
    let hour: u8 = if format_24h {
        hour_raw
    } else {
        let h = hour_raw % 12;
        if h == 0 { 12 } else { h }
    };
    let first: u16 = if !format_24h && hour < 10 { 0 } else { digit(hour / 10) as u16 };
    let mut r: Vec<u16> = Vec::new();
    r.push(first);
    r.push(digit(hour % 10) as u16);
    r.push(digit(minute / 10) as u16);
    r.push(digit(minute % 10) as u16);
    assert(r@ =~= segment_clock_digits(format_24h, hour_raw, minute));
    r
}

impl Clock {
    /// A clock in 24-hour (`true`) or 12-hour format.
    pub fn new(format_24h: bool) -> (r: Self)
        ensures
            r.format_24h == format_24h,
    {
        Clock { format_24h }
    }

    /// One blink cycle on a 4-digit segment display for the given local
    /// time (hour 0-23, minute 0-59): the same digits in every phase, the
    /// colon lit and unlit in turn with the same timing as on the matrix.
    pub fn segment_phases(&self, hour_raw: u8, minute: u8) -> (phases: Vec<SegmentBlinkPhase>)
        requires
            hour_raw < 24,
            minute < 60,
        ensures
            pm_blink(self.format_24h, hour_raw) ==> phases.len() == 4,
            !pm_blink(self.format_24h, hour_raw) ==> phases.len() == 2,
            forall|i: int|
                0 <= i < phases.len() ==> #[trigger] phases[i].segments@ == segment_clock_digits(
                    self.format_24h,
                    hour_raw,
                    minute,
                ) && phases[i].colon == (i % 2 == 0),
            pm_blink(self.format_24h, hour_raw) ==> phases[0].hold_ms == 150 && phases[1].hold_ms
                == 200 && phases[2].hold_ms == 150 && phases[3].hold_ms == 500,
            !pm_blink(self.format_24h, hour_raw) ==> phases[0].hold_ms == 500
                && phases[1].hold_ms == 500,
    {
        let f = self.format_24h;
        let mut phases: Vec<SegmentBlinkPhase> = Vec::new();
        if !f && hour_raw >= 12 {
            phases.push(SegmentBlinkPhase { segments: clock_digits(f, hour_raw, minute), colon: true, hold_ms: 150 });
            phases.push(SegmentBlinkPhase { segments: clock_digits(f, hour_raw, minute), colon: false, hold_ms: 200 });
            phases.push(SegmentBlinkPhase { segments: clock_digits(f, hour_raw, minute), colon: true, hold_ms: 150 });
            phases.push(SegmentBlinkPhase { segments: clock_digits(f, hour_raw, minute), colon: false, hold_ms: 500 });
        } else {
            phases.push(SegmentBlinkPhase { segments: clock_digits(f, hour_raw, minute), colon: true, hold_ms: 500 });
            phases.push(SegmentBlinkPhase { segments: clock_digits(f, hour_raw, minute), colon: false, hold_ms: 500 });
        }
        phases
    }

    /// One blink cycle for the given local time (hour 0-23, minute): the
    /// texts to show in turn and how long to hold each.
    pub fn blink_phases(&self, hour_raw: u8, minute: u8) -> (phases: Vec<BlinkPhase>)
        ensures
            pm_blink(self.format_24h, hour_raw) ==> phases.len() == 4,
            !pm_blink(self.format_24h, hour_raw) ==> phases.len() == 2,
            forall|i: int|
                0 <= i < phases.len() ==> #[trigger] phases[i].text@ == clock_text(
                    self.format_24h,
                    hour_raw,
                    minute,
                    if i % 2 == 0 { ':' } else { ' ' },
                ),
            pm_blink(self.format_24h, hour_raw) ==> phases[0].hold_ms == 150 && phases[1].hold_ms
                == 200 && phases[2].hold_ms == 150 && phases[3].hold_ms == 500,
            !pm_blink(self.format_24h, hour_raw) ==> phases[0].hold_ms == 500
                && phases[1].hold_ms == 500,
    {
        let mut phases: Vec<BlinkPhase> = Vec::new();
        if !self.format_24h && hour_raw >= 12 {
            phases.push(BlinkPhase { text: time_text(self.format_24h, hour_raw, minute, true), hold_ms: 150 });
            phases.push(BlinkPhase { text: time_text(self.format_24h, hour_raw, minute, false), hold_ms: 200 });
            phases.push(BlinkPhase { text: time_text(self.format_24h, hour_raw, minute, true), hold_ms: 150 });
            phases.push(BlinkPhase { text: time_text(self.format_24h, hour_raw, minute, false), hold_ms: 500 });
        } else {
            phases.push(BlinkPhase { text: time_text(self.format_24h, hour_raw, minute, true), hold_ms: 500 });
            phases.push(BlinkPhase { text: time_text(self.format_24h, hour_raw, minute, false), hold_ms: 500 });
        }
        phases
    }
}

} // verus!
