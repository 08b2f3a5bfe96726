//! Animations for the pixel matrix and for segment displays.
//!
//! Each animation is a state machine that yields one frame per step; the
//! caller writes the frame, pauses for the animation's frame interval and
//! checks the time limit in between.

use std::collections::VecDeque;
use vstd::prelude::*;
use crate::framebuf::{bit_lit, lemma_set_bit, pixel, set_pixel, set_then_get, Frame, HEIGHT, WIDTH};

verus! {

/// Width of the pixel matrix.
pub const DISPLAY_WIDTH: usize = 32;

/// Height of the pixel matrix.
pub const DISPLAY_HEIGHT: usize = 8;

/// Pause between frames of the pixel noise animation, in milliseconds.
pub const STATIC_FRAME_MS: u64 = 80;

/// Pause between frames of pixel pong.
pub const PONG_FRAME_MS: u64 = 60;

/// Pause between frames of matrix rain.
pub const MATRIX_RAIN_FRAME_MS: u64 = 100;

/// Pause between frames of pixel snake.
pub const SNAKE_FRAME_MS: u64 = 120;

/// Pause between frames of the pixel curtain.
pub const CURTAIN_FRAME_MS: u64 = 60;

/// Pause between frames of the pixel sine wave.
pub const SINE_WAVE_FRAME_MS: u64 = 60;

/// Pause between frames of segment noise.
pub const SEGMENT_STATIC_FRAME_MS: u64 = 80;

/// Pause between frames of segment rain.
pub const SEGMENT_RAIN_FRAME_MS: u64 = 150;

/// Pause between frames of segment pong.
pub const SEGMENT_PONG_FRAME_MS: u64 = 150;

/// Pause between frames of the segment snake.
pub const SEGMENT_SNAKE_FRAME_MS: u64 = 120;

/// Pause between frames of the segment curtain.
pub const SEGMENT_CURTAIN_FRAME_MS: u64 = 150;

/// Pause between frames of the segment sine wave.
pub const SEGMENT_SINE_WAVE_FRAME_MS: u64 = 150;

/// The animations on offer.
#[derive(Debug, Clone, Copy, PartialEq, Eq)]
pub enum AnimationType {
    /// TV noise / random pixels.
    Static,
    /// Bouncing ball with paddles that track it.
    Pong,
    /// Falling columns.
    MatrixRain,
    /// A snake chasing food.
    Snake,
    /// A curtain drawn across and back.
    Curtain,
    /// A travelling wave.
    SineWave,
    /// One of the others, picked at random when the animation starts.
    Random,
}

/// Animation widget.
pub struct Animation {
    animation: AnimationType,
    duration_secs: u64,
}

/// The animation was cancelled.
#[derive(Debug, Clone, Copy, PartialEq, Eq)]
pub struct Cancelled;

/// Whether an animation running for `elapsed_ms` is over: a duration of 0
/// never ends.
pub open spec fn is_timed_out(duration_secs: u64, elapsed_ms: u64) -> bool {
    duration_secs != 0 && elapsed_ms >= duration_secs * 1000
}

impl Animation {
    /// The animation asked for.
    pub closed spec fn spec_animation(&self) -> AnimationType {
        self.animation
    }

    /// How long it runs, in seconds (0 = forever).
    pub closed spec fn spec_duration_secs(&self) -> u64 {
        self.duration_secs
    }

    /// Run `animation` for `duration_secs` seconds (0 = until cancelled).
    pub fn new(animation: AnimationType, duration_secs: u64) -> (r: Self)
        ensures
            r.spec_animation() == animation,
            r.spec_duration_secs() == duration_secs,
    {
        Animation { animation, duration_secs }
    }

    /// The animation asked for.
    pub fn animation(&self) -> (r: AnimationType)
        ensures
            r == self.spec_animation(),
    {
        self.animation
    }

    /// How long it runs, in seconds (0 = forever).
    pub fn duration_secs(&self) -> (r: u64)
        ensures
            r == self.spec_duration_secs(),
    {
        self.duration_secs
    }

    /// The animation to play: `Random` is resolved with the generator,
    /// anything else is played as asked.
    pub fn resolve(&self, rng: &mut SimpleRng) -> (r: AnimationType)
        ensures
            self.spec_animation() != AnimationType::Random ==> r == self.spec_animation()
                && final(rng).state == old(rng).state,
            self.spec_animation() == AnimationType::Random ==> r == random_choice(
                xorshift(old(rng).state) % 6,
            ) && final(rng).state == xorshift(old(rng).state),
    {
        match self.animation {
            AnimationType::Random => pick_random_type(rng),
            other => other,
        }
    }

    /// Whether the animation has run its course, or `Cancelled` if the
    /// runner was cancelled.
    pub fn check_timeout(&self, cancelled: bool, elapsed_ms: u64) -> (r: Result<bool, Cancelled>)
        ensures
            cancelled ==> r == Err::<bool, Cancelled>(Cancelled),
            !cancelled ==> r == Ok::<bool, Cancelled>(
                is_timed_out(self.spec_duration_secs(), elapsed_ms),
            ),
    {
        if cancelled {
            return Err(Cancelled);
        }
        Ok(self.duration_secs != 0 && (elapsed_ms as u128) >= (self.duration_secs as u128) * 1000)
    }
}

/// One step of the xorshift32 generator.
pub open spec fn xorshift(s: u32) -> u32 {
    let a = s ^ (s << 13u32);
    let b = a ^ (a >> 17u32);
    b ^ (b << 5u32)
}

/// The generator state after `k` steps from `s`.
pub open spec fn xorshift_after(s: u32, k: nat) -> u32
    decreases k,
{
    if k == 0 {
        s
    } else {
        xorshift(xorshift_after(s, (k - 1) as nat))
    }
}

/// Small xorshift32 pseudo-random generator.
#[derive(Debug, Clone, Copy, PartialEq, Eq)]
pub struct SimpleRng {
    pub state: u32,
}

impl SimpleRng {
    /// Seed from the wall clock (seconds since the epoch), mixed with a
    /// constant.
    pub fn from_clock(seconds: i64) -> (r: Self)
        ensures
            r.state == (seconds as u32) ^ 0xDEAD_BEEFu32,
    {
        SimpleRng { state: (seconds as u32) ^ 0xDEAD_BEEF }
    }

    /// The next pseudo-random value.
    pub fn next(&mut self) -> (r: u32)
        ensures
            r == xorshift(old(self).state),
            final(self).state == r,
    {
        self.state = self.state ^ (self.state << 13u32);
        self.state = self.state ^ (self.state >> 17u32);
        self.state = self.state ^ (self.state << 5u32);
        self.state
    }

    /// The next pseudo-random value below `max`.
    pub fn next_range(&mut self, max: u32) -> (r: u32)
        requires
            max > 0,
        ensures
            r == xorshift(old(self).state) % max,
            final(self).state == xorshift(old(self).state),
            r < max,
    {
        self.next() % max
    }
}

/// The animation a random pick lands on.
pub open spec fn random_choice(i: u32) -> AnimationType {
    if i == 0 {
        AnimationType::Static
    } else if i == 1 {
        AnimationType::Pong
    } else if i == 2 {
        AnimationType::MatrixRain
    } else if i == 3 {
        AnimationType::Snake
    } else if i == 4 {
        AnimationType::Curtain
    } else {
        AnimationType::SineWave
    }
}

/// Pick one of the six concrete animations at random.
pub fn pick_random_type(rng: &mut SimpleRng) -> (r: AnimationType)
    ensures
        r == random_choice(xorshift(old(rng).state) % 6),
        final(rng).state == xorshift(old(rng).state),
        r != AnimationType::Random,
{
    let i = rng.next_range(6);
    match i {
        0 => AnimationType::Static,
        1 => AnimationType::Pong,
        2 => AnimationType::MatrixRain,
        3 => AnimationType::Snake,
        4 => AnimationType::Curtain,
        _ => AnimationType::SineWave,
    }
}

/// A frame of pixel noise: column `i` is the low byte of the `i+1`-th
/// generator value.
pub fn noise_frame(rng: &mut SimpleRng) -> (frame: Frame)
    ensures
        forall|i: int| 0 <= i < 32 ==> #[trigger] frame@[i] == xorshift_after(old(rng).state, (i + 1) as nat) as u8,
        final(rng).state == xorshift_after(old(rng).state, 32),
{
    let mut frame = [0u8; 32];
    let mut i: usize = 0;
    while i < DISPLAY_WIDTH
        invariant
            i <= DISPLAY_WIDTH,
            frame@.len() == 32,
            rng.state == xorshift_after(old(rng).state, i as nat),
            forall|j: int| 0 <= j < i ==> #[trigger] frame@[j] == xorshift_after(old(rng).state, (j + 1) as nat) as u8,
        decreases DISPLAY_WIDTH - i,
    {
        let v = rng.next();
        frame[i] = v as u8;
        i = i + 1;
    }
    frame
}

/// Segment noise on `n` digits: digit `i` lights the low 7 bits of the
/// `i+1`-th generator value; then the colon is lit when the next value is
/// even.
pub fn noise_segments(rng: &mut SimpleRng, n: usize) -> (r: (Vec<u16>, bool))
    ensures
        r.0.len() == n,
        forall|i: int| 0 <= i < n ==> #[trigger] r.0@[i] == (xorshift_after(old(rng).state, (i + 1) as nat) as u16) & 0x7F,
        r.1 == (xorshift_after(old(rng).state, (n + 1) as nat) % 2 == 0),
        final(rng).state == xorshift_after(old(rng).state, (n + 1) as nat),
{
    let mut segs: Vec<u16> = Vec::new();
    let mut i: usize = 0;
    while i < n
        invariant
            i <= n,
            segs.len() == i,
            rng.state == xorshift_after(old(rng).state, i as nat),
            forall|j: int| 0 <= j < i ==> #[trigger] segs@[j] == (xorshift_after(old(rng).state, (j + 1) as nat) as u16) & 0x7F,
        decreases n - i,
    {
        let v = rng.next();
        segs.push((v as u16) & 0x7F);
        i = i + 1;
    }
    let colon = rng.next_range(2) == 0;
    (segs, colon)
}

/// Pixel curtain: phase `p < 32` lights columns `0..=p`; phase `p >= 32`
/// lights columns `p - 31..32`.
pub open spec fn curtain_frame(phase: int) -> Seq<u8> {
    Seq::new(
        32,
        |x: int|
            if (phase < 32 && x <= phase) || (phase >= 32 && x >= phase - 31) {
                0xFFu8
            } else {
                0u8
            },
    )
}

/// The pixel curtain is drawn across from the left and then withdrawn to
/// the right, one column per phase: phase 0 lights the first column, each
/// of the next phases lights one more, phase 31 covers the whole matrix,
/// each later phase darkens the leftmost lit column, and phase 63 is dark.
/// A column is either fully lit or dark.
pub proof fn curtain_sweeps(phase: int, x: int)
    requires
        0 <= phase < 63,
        0 <= x < 32,
    ensures
        curtain_frame(phase)[x] == 0xFFu8 || curtain_frame(phase)[x] == 0u8,
        (curtain_frame(0)[x] == 0xFFu8) <==> x == 0,
        curtain_frame(31)[x] == 0xFFu8,
        curtain_frame(63)[x] == 0u8,
        phase < 31 ==> ((curtain_frame(phase + 1)[x] == 0xFFu8) <==> (curtain_frame(phase)[x]
            == 0xFFu8 || x == phase + 1)),
        phase >= 31 ==> ((curtain_frame(phase + 1)[x] == 0xFFu8) <==> (curtain_frame(phase)[x]
            == 0xFFu8 && x != phase - 31)),
{
}

/// Pixel curtain state.
#[derive(Debug, Clone, Copy, PartialEq, Eq)]
pub struct CurtainState {
    pub phase: usize,
}

impl CurtainState {
    /// The phase lies in `0..64`.
    pub open spec fn wf(&self) -> bool {
        self.phase < 64
    }

    /// Start with the first column.
    pub fn new() -> (r: Self)
        ensures
            r.wf(),
            r.phase == 0,
    {
        CurtainState { phase: 0 }
    }

    /// The frame for the current phase; the phase then advances, wrapping
    /// after 64.
    pub fn step(&mut self) -> (frame: Frame)
        requires
            old(self).wf(),
        ensures
            final(self).wf(),
            frame@ == curtain_frame(old(self).phase as int),
            final(self).phase == (old(self).phase + 1) % 64,
    {
        let mut frame = [0u8; 32];
        let mut c: usize = 0;
        while c < DISPLAY_WIDTH
            invariant
                c <= DISPLAY_WIDTH,
                self.phase < 64,
                frame@.len() == 32,
                forall|j: int| 0 <= j < c ==> frame@[j] == curtain_frame(self.phase as int)[j],
                forall|j: int| c <= j < 32 ==> frame@[j] == 0,
            decreases DISPLAY_WIDTH - c,
        {
            if (self.phase < DISPLAY_WIDTH && c <= self.phase) || (self.phase >= DISPLAY_WIDTH && c
                + DISPLAY_WIDTH >= self.phase + 1) {
                frame[c] = 0xFF;
            }
            c = c + 1;
        }
        assert(frame@ =~= curtain_frame(self.phase as int));
        self.phase = (self.phase + 1) % (DISPLAY_WIDTH * 2);
        frame
    }
}

/// The segment sine-wave mask: segments a..g are lit one more per phase,
/// then unlit in the same order.
pub open spec fn sine_mask(phase: int) -> u16 {
    if phase == 0 { 0x01u16 }
    else if phase == 1 { 0x03u16 }
    else if phase == 2 { 0x07u16 }
    else if phase == 3 { 0x0Fu16 }
    else if phase == 4 { 0x1Fu16 }
    else if phase == 5 { 0x3Fu16 }
    else if phase == 6 { 0x7Fu16 }
    else if phase == 7 { 0x7Eu16 }
    else if phase == 8 { 0x7Cu16 }
    else if phase == 9 { 0x78u16 }
    else if phase == 10 { 0x70u16 }
    else if phase == 11 { 0x60u16 }
    else if phase == 12 { 0x40u16 }
    else { 0x00u16 }
}

/// The sine wave lights segments a to g one at a time in bit order (each
/// phase adds the next segment) and then unlights them in the same order:
/// seven phases after any phase of the lighting half, exactly the
/// segments it had lit are dark.
pub proof fn sine_lights_then_unlights(phase: int)
    requires
        0 <= phase < 14,
    ensures
        sine_mask(0) == 0x01u16,
        phase < 6 ==> sine_mask(phase + 1) == 2 * sine_mask(phase) + 1,
        sine_mask(6) == 0x7Fu16,
        7 <= phase ==> sine_mask(phase) == 0x7F - sine_mask(phase - 7),
        sine_mask(13) == 0u16,
{
}

/// Segment sine-wave state.
#[derive(Debug, Clone, Copy, PartialEq, Eq)]
pub struct SegmentSineState {
    pub phase: usize,
}

impl SegmentSineState {
    /// The phase lies in `0..14`.
    pub open spec fn wf(&self) -> bool {
        self.phase < 14
    }

    /// Start with segment a alone.
    pub fn new() -> (r: Self)
        ensures
            r.wf(),
            r.phase == 0,
    {
        SegmentSineState { phase: 0 }
    }

    /// Every one of the `n` digits shows the mask of the current phase;
    /// the phase then advances, wrapping after 14.
    pub fn step(&mut self, n: usize) -> (segs: Vec<u16>)
        requires
            old(self).wf(),
        ensures
            final(self).wf(),
            segs@ == Seq::new(n as nat, |i: int| sine_mask(old(self).phase as int)),
            final(self).phase == (old(self).phase + 1) % 14,
    {
        let mask: u16 = match self.phase {
            0 => 0x01,
            1 => 0x03,
            2 => 0x07,
            3 => 0x0F,
            4 => 0x1F,
            5 => 0x3F,
            6 => 0x7F,
            7 => 0x7E,
            8 => 0x7C,
            9 => 0x78,
            10 => 0x70,
            11 => 0x60,
            12 => 0x40,
            _ => 0x00,
        };
        let mut segs: Vec<u16> = Vec::new();
        let mut i: usize = 0;
        while i < n
            invariant
                i <= n,
                mask == sine_mask(self.phase as int),
                segs@ == Seq::new(i as nat, |j: int| sine_mask(self.phase as int)),
            decreases n - i,
        {
            segs.push(mask);
            i = i + 1;
            assert(segs@ =~= Seq::new(i as nat, |j: int| sine_mask(self.phase as int)));
        }
        self.phase = (self.phase + 1) % 14;
        segs
    }
}

/// The segment curtain: digits fill left to right in three stages
/// (e,f; a,d,e,f,g; all), then empty left to right in three stages
/// (a,b,c,d,g; b,c; off) while the digits to the right stay full.
pub open spec fn curtain_segments(n: int, phase: int) -> Seq<u16> {
    Seq::new(
        n as nat,
        |d: int|
            if phase < 3 * n {
                let current = phase / 3;
                let stage = phase % 3;
                if d < current {
                    0x7Fu16
                } else if d == current {
                    if stage == 0 { 0x30u16 } else if stage == 1 { 0x79u16 } else { 0x7Fu16 }
                } else {
                    0u16
                }
            } else {
                let up = phase - 3 * n;
                let current = up / 3;
                let stage = up % 3;
                if d == current {
                    if stage == 0 { 0x4Fu16 } else if stage == 1 { 0x06u16 } else { 0u16 }
                } else if d > current {
                    0x7Fu16
                } else {
                    0u16
                }
            },
    )
}

/// Halfway through the segment curtain every digit is fully lit, and at
/// the end of the cycle every digit is dark.
pub proof fn segment_curtain_full_then_dark(n: int, d: int)
    requires
        0 <= d < n,
    ensures
        curtain_segments(n, 3 * n - 1)[d] == 0x7Fu16,
        curtain_segments(n, 6 * n - 1)[d] == 0u16,
{
    assert((3 * n - 1) / 3 == n - 1 && (3 * n - 1) % 3 == 2) by (nonlinear_arith)
        requires
            n >= 1,
    ;
    assert((6 * n - 1 - 3 * n) / 3 == n - 1 && (6 * n - 1 - 3 * n) % 3 == 2) by (nonlinear_arith)
        requires
            n >= 1,
    ;
}

/// Segment curtain state.
#[derive(Debug, Clone, Copy, PartialEq, Eq)]
pub struct SegmentCurtainState {
    pub phase: usize,
    pub n: usize,
}

impl SegmentCurtainState {
    /// At least one digit, and the phase lies in `0..6n`.
    pub open spec fn wf(&self) -> bool {
        &&& self.n > 0
        &&& self.n <= 0x1000_0000
        &&& self.phase < 6 * self.n
    }

    /// Start filling the first of `n` digits.
    pub fn new(n: usize) -> (r: Self)
        requires
            0 < n <= 0x1000_0000,
        ensures
            r.wf(),
            r.phase == 0,
            r.n == n,
    {
        SegmentCurtainState { phase: 0, n }
    }

    /// The segments of the current phase; the phase then advances,
    /// wrapping after `6n`.
    pub fn step(&mut self) -> (segs: Vec<u16>)
        requires
            old(self).wf(),
        ensures
            final(self).wf(),
            final(self).n == old(self).n,
            segs@ == curtain_segments(old(self).n as int, old(self).phase as int),
            final(self).phase == (old(self).phase + 1) % (6 * old(self).n),
    {
        let n = self.n;
        let fill_phases = n * 3;
        let phase = self.phase;
        let mut segs: Vec<u16> = Vec::new();
        let mut d: usize = 0;
        while d < n
            invariant
                d <= n,
                n == self.n,
                phase == self.phase,
                fill_phases == 3 * n,
                self.wf(),
                segs@ == curtain_segments(n as int, phase as int).take(d as int),
            decreases n - d,
        {
            let s: u16 = if phase < fill_phases {
                let current = phase / 3;
                let stage = phase % 3;
                if d < current {
                    0x7F
                } else if d == current {
                    if stage == 0 { 0x30 } else if stage == 1 { 0x79 } else { 0x7F }
                } else {
                    0
                }
            } else {
                let up = phase - fill_phases;
                let current = up / 3;
                let stage = up % 3;
                if d == current {
                    if stage == 0 { 0x4F } else if stage == 1 { 0x06 } else { 0 }
                } else if d > current {
                    0x7F
                } else {
                    0
                }
            };
            segs.push(s);
            d = d + 1;
            assert(segs@ =~= curtain_segments(n as int, phase as int).take(d as int));
        }
        assert(curtain_segments(n as int, phase as int).take(n as int) =~= curtain_segments(
            n as int,
            phase as int,
        ));
        self.phase = (phase + 1) % (fill_phases * 2);
        segs
    }
}

/// Lit segments of the segment-pong ball: e+f on the left half of a
/// digit, b+c on the right half.
pub const LEFT_VERT: u16 = 0x30;

/// See `LEFT_VERT`.
pub const RIGHT_VERT: u16 = 0x06;

/// The segment-pong frame: the ball at position `pos` lights one half of
/// digit `pos / 2`.
pub open spec fn segment_pong_frame(n: int, pos: int) -> Seq<u16> {
    Seq::new(
        n as nat,
        |d: int|
            if d == pos / 2 {
                if pos % 2 == 1 { RIGHT_VERT } else { LEFT_VERT }
            } else {
                0u16
            },
    )
}

/// Segment pong: a ball bouncing across the halves of all digits.
#[derive(Debug, Clone, Copy, PartialEq, Eq)]
pub struct SegmentPongState {
    pub pos: i32,
    pub dir: i32,
    pub n: usize,
}

impl SegmentPongState {
    /// The ball is on one of the `2n` positions and heads back inside at
    /// either end.
    pub open spec fn wf(&self) -> bool {
        &&& 0 < self.n <= 0x1000_0000
        &&& 0 <= self.pos <= 2 * self.n - 1
        &&& self.dir == 1 || self.dir == -1
        &&& self.pos == 0 ==> self.dir == 1
        &&& self.pos == 2 * self.n - 1 && self.pos > 0 ==> self.dir == -1
    }

    /// Start at the left of the first of `n` digits, heading right.
    pub fn new(n: usize) -> (r: Self)
        requires
            0 < n <= 0x1000_0000,
        ensures
            r.wf(),
            r.pos == 0,
            r.dir == 1,
            r.n == n,
    {
        SegmentPongState { pos: 0, dir: 1, n }
    }

    /// The frame with the ball where it is; the ball then moves one
    /// position and turns around at either end.
    pub fn step(&mut self) -> (segs: Vec<u16>)
        requires
            old(self).wf(),
        ensures
            final(self).wf(),
            final(self).n == old(self).n,
            segs@ == segment_pong_frame(old(self).n as int, old(self).pos as int),
            final(self).pos == old(self).pos + old(self).dir,
            final(self).dir == if final(self).pos >= 2 * old(self).n - 1 || final(self).pos <= 0 {
                -old(self).dir
            } else {
                old(self).dir as int
            },
    {
        let n = self.n;
        let max_pos: i32 = (n * 2) as i32 - 1;
        let ball_digit = (self.pos as usize) / 2;
        let is_right = (self.pos % 2) == 1;
        let mut segs: Vec<u16> = Vec::new();
        let mut d: usize = 0;
        while d < n
            invariant
                d <= n,
                n == self.n,
                self.wf(),
                ball_digit == self.pos / 2,
                is_right == (self.pos % 2 == 1),
                segs@ == segment_pong_frame(n as int, self.pos as int).take(d as int),
            decreases n - d,
        {
            let s: u16 = if d == ball_digit {
                if is_right { RIGHT_VERT } else { LEFT_VERT }
            } else {
                0
            };
            segs.push(s);
            d = d + 1;
            assert(segs@ =~= segment_pong_frame(n as int, self.pos as int).take(d as int));
        }
        assert(segment_pong_frame(n as int, self.pos as int).take(n as int) =~= segment_pong_frame(
            n as int,
            self.pos as int,
        ));
        self.pos = self.pos + self.dir;
        if self.pos >= max_pos || self.pos <= 0 {
            self.dir = -self.dir;
        }
        segs
    }
}

/// Light the pixel (x, y); off the matrix nothing changes.
fn light(frame: &mut Frame, x: usize, y: usize)
    ensures
        forall|x2: int, y2: int| #[trigger] pixel(final(frame)@, x2, y2) == (pixel(old(frame)@, x2, y2)
            || (x2 == x && y2 == y && x < WIDTH && y < HEIGHT)),
{
    let ghost before = frame@;
    set_pixel(frame, x, y, true);
    proof {
        assert forall|x2: int, y2: int| #[trigger] pixel(frame@, x2, y2) == (pixel(before, x2, y2)
            || (x2 == x && y2 == y && x < WIDTH && y < HEIGHT)) by {
            if x < WIDTH && y < HEIGHT {
                set_then_get(before, frame@, x as int, y as int, true, x2, y2);
            }
        }
    }
}

/// Height of a pong paddle.
pub const PADDLE_HEIGHT: i32 = 3;

/// Pixel pong: ball position and direction, and the rows of the top of
/// the left and right paddles.
#[derive(Debug, Clone, Copy, PartialEq, Eq)]
pub struct PongState {
    pub ball_x: i32,
    pub ball_y: i32,
    pub dx: i32,
    pub dy: i32,
    pub paddle_l: i32,
    pub paddle_r: i32,
}

/// A paddle moved one row toward `target`.
pub open spec fn track(paddle: int, target: int) -> int {
    if paddle < target {
        paddle + 1
    } else if paddle > target {
        paddle - 1
    } else {
        paddle
    }
}

/// `v` limited to `lo..=hi`.
pub open spec fn clamp(v: int, lo: int, hi: int) -> int {
    if v < lo {
        lo
    } else if v > hi {
        hi
    } else {
        v
    }
}

/// One move of pong: the ball moves one step and bounces off the top and
/// bottom rows; both paddles move one row toward the ball (kept on the
/// matrix); at the left edge (column <= 1) a paddle in the ball's row
/// sends it right, otherwise the ball restarts at (16, 4) heading right;
/// likewise at the right edge (column >= 30), heading left.
pub open spec fn pong_next(s: PongState) -> PongState {
    let bx0 = s.ball_x + s.dx;
    let by0 = s.ball_y + s.dy;
    let by1 = if by0 <= 0 { 0 } else { by0 };
    let dy1 = if by0 <= 0 { 1 } else { s.dy as int };
    let by2 = if by1 >= 7 { 7 } else { by1 };
    let dy2 = if by1 >= 7 { -1 } else { dy1 };
    let pl = clamp(track(s.paddle_l as int, by2 - 1), 0, 5);
    let pr = clamp(track(s.paddle_r as int, by2 - 1), 0, 5);
    let left_hit = by2 >= pl && by2 < pl + 3;
    let bx3 = if bx0 <= 1 && !left_hit { 16 } else { bx0 };
    let by3 = if bx0 <= 1 && !left_hit { 4 } else { by2 };
    let dx3 = if bx0 <= 1 { 1 } else { s.dx as int };
    let right_hit = by3 >= pr && by3 < pr + 3;
    let bx4 = if bx3 >= 30 && !right_hit { 16 } else { bx3 };
    let by4 = if bx3 >= 30 && !right_hit { 4 } else { by3 };
    let dx4 = if bx3 >= 30 { -1 } else { dx3 };
    PongState {
        ball_x: bx4 as i32,
        ball_y: by4 as i32,
        dx: dx4 as i32,
        dy: dy2 as i32,
        paddle_l: pl as i32,
        paddle_r: pr as i32,
    }
}

/// The pong picture: both paddles (columns 0 and 31), the ball, and the
/// dotted center line (column 16, even rows).
pub open spec fn pong_pixel(s: PongState, x: int, y: int) -> bool {
    0 <= x < 32 && 0 <= y < 8 && ((x == 0 && s.paddle_l <= y < s.paddle_l + 3) || (x == 31
        && s.paddle_r <= y < s.paddle_r + 3) || (x == s.ball_x && y == s.ball_y) || (x == 16 && y
        % 2 == 0))
}

impl PongState {
    /// The ball is on the matrix away from the paddle columns and heads
    /// back inside when next to them; the paddles are on the matrix.
    pub open spec fn wf(&self) -> bool {
        &&& 1 <= self.ball_x <= 30
        &&& 0 <= self.ball_y <= 7
        &&& self.dx == 1 || self.dx == -1
        &&& self.dy == 1 || self.dy == -1
        &&& self.ball_x == 1 ==> self.dx == 1
        &&& self.ball_x == 30 ==> self.dx == -1
        &&& 0 <= self.paddle_l <= 5
        &&& 0 <= self.paddle_r <= 5
    }

    /// The opening position: ball at (16, 4) heading down-right, paddles
    /// at row 2.
    pub fn new() -> (r: Self)
        ensures
            r.wf(),
            r == (PongState { ball_x: 16, ball_y: 4, dx: 1, dy: 1, paddle_l: 2, paddle_r: 2 }),
    {
        PongState { ball_x: 16, ball_y: 4, dx: 1, dy: 1, paddle_l: 2, paddle_r: 2 }
    }

    /// Make one move and draw the result.
    pub fn step(&mut self) -> (frame: Frame)
        requires
            old(self).wf(),
        ensures
            final(self).wf(),
            *final(self) == pong_next(*old(self)),
            forall|x: int, y: int| #[trigger] pixel(frame@, x, y) == pong_pixel(*final(self), x, y),
    {
        self.advance();
        self.render()
    }

    /// Make one move.
    fn advance(&mut self)
        requires
            old(self).wf(),
        ensures
            final(self).wf(),
            *final(self) == pong_next(*old(self)),
    {
        self.ball_x = self.ball_x + self.dx;
        self.ball_y = self.ball_y + self.dy;
        if self.ball_y <= 0 {
            self.ball_y = 0;
            self.dy = 1;
        }
        if self.ball_y >= DISPLAY_HEIGHT as i32 - 1 {
            self.ball_y = DISPLAY_HEIGHT as i32 - 1;
            self.dy = -1;
        }
        let target_l = self.ball_y - PADDLE_HEIGHT / 2;
        if self.paddle_l < target_l {
            self.paddle_l = self.paddle_l + 1;
        }
        if self.paddle_l > target_l {
            self.paddle_l = self.paddle_l - 1;
        }
        let target_r = self.ball_y - PADDLE_HEIGHT / 2;
        if self.paddle_r < target_r {
            self.paddle_r = self.paddle_r + 1;
        }
        if self.paddle_r > target_r {
            self.paddle_r = self.paddle_r - 1;
        }
        let top = DISPLAY_HEIGHT as i32 - PADDLE_HEIGHT;
        if self.paddle_l < 0 {
            self.paddle_l = 0;
        } else if self.paddle_l > top {
            self.paddle_l = top;
        }
        if self.paddle_r < 0 {
            self.paddle_r = 0;
        } else if self.paddle_r > top {
            self.paddle_r = top;
        }
        if self.ball_x <= 1 {
            if self.ball_y >= self.paddle_l && self.ball_y < self.paddle_l + PADDLE_HEIGHT {
                self.dx = 1;
            } else {
                self.ball_x = 16;
                self.ball_y = 4;
                self.dx = 1;
            }
        }
        if self.ball_x >= DISPLAY_WIDTH as i32 - 2 {
            if self.ball_y >= self.paddle_r && self.ball_y < self.paddle_r + PADDLE_HEIGHT {
                self.dx = -1;
            } else {
                self.ball_x = 16;
                self.ball_y = 4;
                self.dx = -1;
            }
        }
    }

    /// Draw the current position.
    fn render(&self) -> (frame: Frame)
        requires
            self.wf(),
        ensures
            forall|x: int, y: int| #[trigger] pixel(frame@, x, y) == pong_pixel(*self, x, y),
    {
        let mut frame: Frame = [0u8; 32];
        proof {
            assert forall|x: int, y: int| !#[trigger] pixel(frame@, x, y) by {
                crate::framebuf::cleared_frame_is_dark(x, y);
                assert(frame@ =~= crate::framebuf::blank_frame());
            }
        }
        let pl = self.paddle_l as usize;
        let pr = self.paddle_r as usize;
        light(&mut frame, 0, pl);
        light(&mut frame, 0, pl + 1);
        light(&mut frame, 0, pl + 2);
        light(&mut frame, DISPLAY_WIDTH - 1, pr);
        light(&mut frame, DISPLAY_WIDTH - 1, pr + 1);
        light(&mut frame, DISPLAY_WIDTH - 1, pr + 2);
        light(&mut frame, self.ball_x as usize, self.ball_y as usize);
        light(&mut frame, DISPLAY_WIDTH / 2, 0);
        light(&mut frame, DISPLAY_WIDTH / 2, 2);
        light(&mut frame, DISPLAY_WIDTH / 2, 4);
        light(&mut frame, DISPLAY_WIDTH / 2, 6);
        frame
    }
}

/// Segment rain, spawn phase: each idle slot (negative) draws from the
/// generator, in slot order, and starts a drop when the draw is a
/// multiple of 5; active slots draw nothing. Covers the first `k` slots;
/// yields the slots and the generator state.
pub open spec fn rain_spawn(drops: Seq<i8>, s: u32, k: nat) -> (Seq<i8>, u32)
    decreases k,
{
    if k == 0 {
        (Seq::empty(), s)
    } else {
        let prev = rain_spawn(drops, s, (k - 1) as nat);
        let d = drops[k - 1];
        if d < 0 {
            let s2 = xorshift(prev.1);
            (prev.0.push(if s2 % 5 == 0 { 0i8 } else { d }), s2)
        } else {
            (prev.0.push(d), prev.1)
        }
    }
}

/// The segment a raindrop lights at its stage on the left or right side
/// of a digit: top vertical (f / b), bottom vertical (e / c), then the
/// bottom bar d.
pub open spec fn rain_segment(stage: i8, right: bool) -> u16 {
    if stage == 0 {
        if right { 0x02u16 } else { 0x20u16 }
    } else if stage == 1 {
        if right { 0x04u16 } else { 0x10u16 }
    } else if stage == 2 {
        0x08u16
    } else {
        0u16
    }
}

/// A raindrop one stage further; it retires after the last stage.
pub open spec fn rain_advance(stage: i8) -> i8 {
    if stage < 0 {
        stage
    } else if stage + 1 > 2 {
        -1i8
    } else {
        (stage + 1) as i8
    }
}

fn rain_segment_of(stage: i8, right: bool) -> (r: u16)
    ensures
        r == rain_segment(stage, right),
{
    match stage {
        0 => if right { 0x02 } else { 0x20 },
        1 => if right { 0x04 } else { 0x10 },
        2 => 0x08,
        _ => 0,
    }
}

/// Segment rain: two drop slots per digit (left and right side); -1 is
/// idle, 0..=2 the stage of a falling drop.
pub struct SegmentRainState {
    pub drops: Vec<i8>,
    pub n: usize,
}

impl SegmentRainState {
    /// Two slots per digit, each idle or at a stage.
    pub open spec fn wf(&self) -> bool {
        &&& self.n <= 0x1000_0000
        &&& self.drops.len() == 2 * self.n
        &&& forall|i: int| 0 <= i < self.drops.len() ==> -1 <= #[trigger] self.drops@[i] <= 2
    }

    /// All slots of `n` digits idle.
    pub fn new(n: usize) -> (r: Self)
        requires
            n <= 0x1000_0000,
        ensures
            r.wf(),
            r.n == n,
            forall|i: int| 0 <= i < r.drops.len() ==> #[trigger] r.drops@[i] == -1,
    {
        let mut drops: Vec<i8> = Vec::new();
        let mut i: usize = 0;
        while i < 2 * n
            invariant
                i <= 2 * n,
                n <= 0x1000_0000,
                drops.len() == i,
                forall|j: int| 0 <= j < i ==> #[trigger] drops@[j] == -1,
            decreases 2 * n - i,
        {
            drops.push(-1);
            i = i + 1;
        }
        SegmentRainState { drops, n }
    }

    /// Spawn new drops, draw every drop, then move each active drop one
    /// stage down.
    pub fn step(&mut self, rng: &mut SimpleRng) -> (segs: Vec<u16>)
        requires
            old(self).wf(),
        ensures
            final(self).wf(),
            final(self).n == old(self).n,
            ({
                let spawned = rain_spawn(old(self).drops@, old(rng).state, (2 * old(self).n) as nat);
                &&& final(rng).state == spawned.1
                &&& segs@ == Seq::new(
                    old(self).n as nat,
                    |j: int| rain_segment(spawned.0[2 * j], false) | rain_segment(spawned.0[2 * j + 1], true),
                )
                &&& final(self).drops@ == spawned.0.map_values(|d: i8| rain_advance(d))
            }),
    {
        let n = self.n;
        let ghost start = self.drops@;
        let ghost seed = rng.state;
        let mut i: usize = 0;
        while i < 2 * n
            invariant
                n == self.n,
                n <= 0x1000_0000,
                i <= 2 * n,
                self.drops.len() == 2 * n,
                start.len() == 2 * n,
                forall|j: int| 0 <= j < 2 * n ==> -1 <= #[trigger] start[j] <= 2,
                rain_spawn(start, seed, i as nat).0 == self.drops@.take(i as int),
                rain_spawn(start, seed, i as nat).1 == rng.state,
                forall|j: int| i <= j < 2 * n ==> #[trigger] self.drops@[j] == start[j],
                forall|j: int| 0 <= j < i ==> -1 <= #[trigger] self.drops@[j] <= 2,
            decreases 2 * n - i,
        {
            let ghost before = self.drops@;
            if self.drops[i] < 0 && rng.next_range(5) == 0 {
                self.drops.set(i, 0);
            }
            assert(self.drops@.take(i as int + 1) =~= rain_spawn(start, seed, i as nat + 1).0);
            i = i + 1;
        }
        assert(self.drops@.take(2 * n as int) =~= self.drops@);
        let ghost spawned = self.drops@;
        let mut segs: Vec<u16> = Vec::new();
        let mut j: usize = 0;
        while j < n
            invariant
                n == self.n,
                n <= 0x1000_0000,
                j <= n,
                self.drops.len() == 2 * n,
                self.drops@ == spawned,
                segs@ == Seq::new(
                    j as nat,
                    |k: int| rain_segment(spawned[2 * k], false) | rain_segment(spawned[2 * k + 1], true),
                ),
            decreases n - j,
        {
            let left = rain_segment_of(self.drops[2 * j], false);
            let right = rain_segment_of(self.drops[2 * j + 1], true);
            segs.push(left | right);
            j = j + 1;
            assert(segs@ =~= Seq::new(
                j as nat,
                |k: int| rain_segment(spawned[2 * k], false) | rain_segment(spawned[2 * k + 1], true),
            ));
        }
        let mut k: usize = 0;
        while k < 2 * n
            invariant
                n == self.n,
                n <= 0x1000_0000,
                k <= 2 * n,
                self.drops.len() == 2 * n,
                spawned.len() == 2 * n,
                forall|m: int| 0 <= m < 2 * n ==> -1 <= #[trigger] spawned[m] <= 2,
                forall|m: int| 0 <= m < k ==> #[trigger] self.drops@[m] == rain_advance(spawned[m]),
                forall|m: int| k <= m < 2 * n ==> #[trigger] self.drops@[m] == spawned[m],
            decreases 2 * n - k,
        {
            let d = self.drops[k];
            if d >= 0 {
                let next: i8 = if d + 1 > 2 { -1 } else { d + 1 };
                self.drops.set(k, next);
            }
            k = k + 1;
        }
        assert(self.drops@ =~= spawned.map_values(|d: i8| rain_advance(d)));
        segs
    }
}

/// The segment the segment snake lights at `step` of a digit: clockwise
/// a, b, c, d, e, f, a when moving right; counter-clockwise a, f, e, d,
/// c, b, a when moving left.
pub open spec fn perimeter_segment(forward: bool, step: int) -> u16 {
    if step == 0 || step == 6 {
        0x01u16
    } else if step == 1 {
        if forward { 0x02u16 } else { 0x20u16 }
    } else if step == 2 {
        if forward { 0x04u16 } else { 0x10u16 }
    } else if step == 3 {
        0x08u16
    } else if step == 4 {
        if forward { 0x10u16 } else { 0x04u16 }
    } else {
        if forward { 0x20u16 } else { 0x02u16 }
    }
}

/// The segments that a trail of (digit, segment) pairs lights on digit `d`.
pub open spec fn trail_mask(trail: Seq<(usize, u16)>, d: int) -> u16
    decreases trail.len(),
{
    if trail.len() == 0 {
        0u16
    } else {
        trail_mask(trail.drop_last(), d) | if trail.last().0 == d {
            trail.last().1
        } else {
            0u16
        }
    }
}

/// Whether a segment word is exactly one of the outer segments a-f.
pub open spec fn perimeter_bit(s: u16) -> bool {
    s == 0x01 || s == 0x02 || s == 0x04 || s == 0x08 || s == 0x10 || s == 0x20
}

/// Length of the segment snake's trail.
pub const SNAKE_TRAIL: usize = 3;

/// Segment snake: walks the outer segments of each digit, moving from
/// digit to digit and bouncing off both ends, with a trail of three.
pub struct SegmentSnakeState {
    pub digit: i32,
    pub step: usize,
    pub dir: i32,
    pub history: VecDeque<(usize, u16)>,
    pub n: usize,
}

/// The segment snake's next (digit, step, direction): after the last step
/// of a digit (7 steps, or 6 at an end of the row) it moves on to the
/// next digit, or turns around at an end.
pub open spec fn segment_snake_next(n: int, digit: int, step: int, dir: int) -> (int, int, int) {
    let step1 = step + 1;
    let next_digit = digit + dir;
    let at_endpoint = next_digit < 0 || next_digit >= n;
    let max_step: int = if at_endpoint { 6 } else { 7 };
    if step1 >= max_step {
        if at_endpoint {
            (0, clamp(digit - dir, 0, n - 1), -dir)
        } else {
            (0, next_digit, dir)
        }
    } else {
        (step1, digit, dir)
    }
}

impl SegmentSnakeState {
    /// The snake is on one of the `n` digits at a valid step, and its
    /// trail holds at most three cells, all on the display.
    pub open spec fn wf(&self) -> bool {
        &&& 0 < self.n <= 0x1000_0000
        &&& 0 <= self.digit < self.n
        &&& self.step < 7
        &&& self.dir == 1 || self.dir == -1
        &&& self.history@.len() <= SNAKE_TRAIL
        &&& forall|i: int| 0 <= i < self.history@.len() ==> (#[trigger] self.history@[i]).0 < self.n
        &&& forall|i: int| 0 <= i < self.history@.len() ==> perimeter_bit((#[trigger] self.history@[i]).1)
    }

    /// Start at segment a of the first of `n` digits, moving right.
    pub fn new(n: usize) -> (r: Self)
        requires
            0 < n <= 0x1000_0000,
        ensures
            r.wf(),
            r.n == n,
            r.digit == 0,
            r.step == 0,
            r.dir == 1,
            r.history@.len() == 0,
    {
        SegmentSnakeState { digit: 0, step: 0, dir: 1, history: VecDeque::new(), n }
    }

    /// Light the next segment, draw the trail, then advance.
    pub fn advance(&mut self) -> (segs: Vec<u16>)
        requires
            old(self).wf(),
        ensures
            final(self).wf(),
            final(self).n == old(self).n,
            ({
                let cell = (old(self).digit as usize, perimeter_segment(old(self).dir > 0, old(self).step as int));
                let grown = seq![cell] + old(self).history@;
                let trail = if grown.len() > SNAKE_TRAIL { grown.take(SNAKE_TRAIL as int) } else { grown };
                &&& final(self).history@ == trail
                &&& segs@ == Seq::new(old(self).n as nat, |d: int| trail_mask(trail, d))
            }),
            (final(self).step as int, final(self).digit as int, final(self).dir as int) == segment_snake_next(
                old(self).n as int,
                old(self).digit as int,
                old(self).step as int,
                old(self).dir as int,
            ),
    {
        let n = self.n;
        let forward = self.dir > 0;
        let seg: u16 = match self.step {
            0 => 0x01,
            1 => if forward { 0x02 } else { 0x20 },
            2 => if forward { 0x04 } else { 0x10 },
            3 => 0x08,
            4 => if forward { 0x10 } else { 0x04 },
            5 => if forward { 0x20 } else { 0x02 },
            _ => 0x01,
        };
        assert(perimeter_bit(seg));
        let ghost grown = seq![(self.digit as usize, seg)] + self.history@;
        assert forall|i: int| 0 <= i < grown.len() implies perimeter_bit((#[trigger] grown[i]).1)
            && grown[i].0 < n by {
            if i > 0 {
                assert(grown[i] == self.history@[i - 1]);
            }
        }
        self.history.push_front((self.digit as usize, seg));
        if self.history.len() > SNAKE_TRAIL {
            self.history.pop_back();
            assert(self.history@ =~= grown.take(SNAKE_TRAIL as int));
        }
        assert(self.history@ == if grown.len() > SNAKE_TRAIL { grown.take(SNAKE_TRAIL as int) } else { grown }) by {
            if grown.len() <= SNAKE_TRAIL {
                assert(grown.take(grown.len() as int) =~= grown);
            }
        }
        let mut segs: Vec<u16> = Vec::new();
        let mut d: usize = 0;
        while d < n
            invariant
                d <= n,
                n == self.n,
                segs@ == Seq::new(d as nat, |j: int| 0u16),
            decreases n - d,
        {
            segs.push(0);
            d = d + 1;
            assert(segs@ =~= Seq::new(d as nat, |j: int| 0u16));
        }
        let ghost trail = self.history@;
        let mut k: usize = 0;
        while k < self.history.len()
            invariant
                k <= trail.len(),
                self.history@ == trail,
                n == self.n,
                0 < n,
                forall|i: int| 0 <= i < trail.len() ==> (#[trigger] trail[i]).0 < n,
                segs@ == Seq::new(n as nat, |j: int| trail_mask(trail.take(k as int), j)),
            decreases trail.len() - k,
        {
            let (cd, cs) = self.history[k];
            let cur = segs[cd];
            segs.set(cd, cur | cs);
            proof {
                assert(trail.take(k as int + 1).drop_last() =~= trail.take(k as int));
                assert forall|j: int| 0 <= j < n implies #[trigger] segs@[j] == trail_mask(trail.take(k as int + 1), j) by {
                    let prev = trail_mask(trail.take(k as int), j);
                    assert(prev | 0u16 == prev) by (bit_vector);
                }
            }
            k = k + 1;
            assert(segs@ =~= Seq::new(n as nat, |j: int| trail_mask(trail.take(k as int), j)));
        }
        assert(trail.take(trail.len() as int) =~= trail);
        self.step = self.step + 1;
        let next_digit = self.digit + self.dir;
        let at_endpoint = next_digit < 0 || next_digit >= n as i32;
        let max_step: usize = if at_endpoint { 6 } else { 7 };
        if self.step >= max_step {
            self.step = 0;
            if at_endpoint {
                self.dir = -self.dir;
                self.digit = self.digit + self.dir;
                let top = n as i32 - 1;
                if self.digit < 0 {
                    self.digit = 0;
                } else if self.digit > top {
                    self.digit = top;
                }
            } else {
                self.digit = next_digit;
            }
        }
        segs
    }
}

/// Length of a matrix-rain trail.
pub const RAIN_TRAIL: i8 = 4;

/// Whether row `y` is lit in a rain column whose drop head is at `head`:
/// the head and the three rows above it.
pub open spec fn rain_lit(head: int, y: int) -> bool {
    head - RAIN_TRAIL < y <= head
}

/// The column byte of a rain column with its head at `head`.
fn rain_column_byte(head: i8) -> (b: u8)
    ensures
        forall|y: u8| y < 8 ==> #[trigger] bit_lit(b, y) == rain_lit(head as int, y as int),
{
    let mut b: u8 = 0;
    let mut y: u8 = 0;
    proof {
        assert forall|z: u8| z < 8 implies !#[trigger] bit_lit(0u8, z) by {
            assert(z < 8 ==> 0u8 & (1u8 << z) == 0) by (bit_vector);
        }
    }
    while y < 8
        invariant
            y <= 8,
            forall|z: u8| z < y ==> #[trigger] bit_lit(b, z) == rain_lit(head as int, z as int),
            forall|z: u8| y <= z < 8 ==> !#[trigger] bit_lit(b, z),
        decreases 8 - y,
    {
        let yy = y as i8;
        if yy <= head && yy > head - RAIN_TRAIL {
            let ghost before = b;
            b = b | (1u8 << y);
            proof {
                assert forall|z: u8| z < 8 implies #[trigger] bit_lit(b, z) == (z == y || bit_lit(before, z)) by {
                    lemma_set_bit(before, y, z);
                }
            }
        }
        y = y + 1;
    }
    b
}

/// Matrix rain, over the first `k` columns: each column's drop moves one
/// row down on ticks that are a multiple of its speed; a drop whose trail
/// has left the matrix restarts above it, drawing its new start height
/// (0 to 11 rows up) and then its new speed (1 or 2) from the generator.
/// Yields the drops, the speeds and the generator state.
pub open spec fn rain_update(drops: Seq<i8>, speeds: Seq<u8>, tick: u8, s: u32, k: nat) -> (Seq<i8>, Seq<u8>, u32)
    decreases k,
{
    if k == 0 {
        (drops, speeds, s)
    } else {
        let prev = rain_update(drops, speeds, tick, s, (k - 1) as nat);
        let c = k - 1;
        let head = rain_head(drops[c], speeds[c], tick);
        if head - RAIN_TRAIL >= 8 {
            let s1 = xorshift(prev.2);
            let s2 = xorshift(s1);
            (prev.0.update(c, (-((s1 % 12) as int)) as i8), prev.1.update(c, (1 + s2 % 2) as u8), s2)
        } else {
            (prev.0.update(c, head as i8), prev.1, prev.2)
        }
    }
}

/// Where a column's drop head is this tick.
pub open spec fn rain_head(drop: i8, speed: u8, tick: u8) -> int {
    if tick % speed == 0 { drop + 1 } else { drop as int }
}

/// Matrix rain: a falling drop with a trail in every column.
pub struct MatrixRainState {
    pub drops: [i8; 32],
    pub speeds: [u8; 32],
    pub tick: u8,
}

impl MatrixRainState {
    /// Drops stay within a few rows of the matrix, speeds are 1 or 2.
    pub open spec fn wf(&self) -> bool {
        &&& forall|c: int| 0 <= c < 32 ==> -11 <= #[trigger] self.drops@[c] <= 11
        &&& forall|c: int| 0 <= c < 32 ==> 1 <= #[trigger] self.speeds@[c] <= 2
    }

    /// Every column starts its drop 0 to 7 rows above the matrix and picks
    /// a speed of 1 or 2; the generator is drawn for the start, then the
    /// speed, column by column.
    pub fn new(rng: &mut SimpleRng) -> (r: Self)
        ensures
            r.wf(),
            r.tick == 0,
            forall|c: int| 0 <= c < 32 ==> #[trigger] r.drops@[c] == -((xorshift_after(old(rng).state, (2 * c + 1) as nat) % 8) as int),
            forall|c: int| 0 <= c < 32 ==> #[trigger] r.speeds@[c] == 1 + xorshift_after(old(rng).state, (2 * c + 2) as nat) % 2,
            final(rng).state == xorshift_after(old(rng).state, 64),
    {
        let mut drops = [0i8; 32];
        let mut speeds = [0u8; 32];
        let mut i: usize = 0;
        while i < DISPLAY_WIDTH
            invariant
                i <= DISPLAY_WIDTH,
                drops@.len() == 32,
                speeds@.len() == 32,
                rng.state == xorshift_after(old(rng).state, (2 * i) as nat),
                forall|c: int| 0 <= c < i ==> #[trigger] drops@[c] == -((xorshift_after(old(rng).state, (2 * c + 1) as nat) % 8) as int),
                forall|c: int| 0 <= c < i ==> #[trigger] speeds@[c] == 1 + xorshift_after(old(rng).state, (2 * c + 2) as nat) % 2,
                forall|c: int| 0 <= c < 32 ==> 1 <= #[trigger] speeds@[c] <= 2 || c >= i,
                forall|c: int| 0 <= c < 32 ==> -11 <= #[trigger] drops@[c] <= 11,
            decreases DISPLAY_WIDTH - i,
        {
            proof {
                assert(xorshift_after(old(rng).state, (2 * i + 1) as nat) == xorshift(
                    xorshift_after(old(rng).state, (2 * i) as nat),
                ));
                assert(xorshift_after(old(rng).state, (2 * i + 2) as nat) == xorshift(
                    xorshift_after(old(rng).state, (2 * i + 1) as nat),
                ));
            }
            let a = rng.next_range(8);
            drops[i] = -(a as i8);
            let b = rng.next_range(2);
            speeds[i] = 1 + b as u8;
            i = i + 1;
        }
        MatrixRainState { drops, speeds, tick: 0 }
    }

    /// Advance the tick, move and draw every column, restarting drops that
    /// have left the matrix.
    pub fn step(&mut self, rng: &mut SimpleRng) -> (frame: Frame)
        requires
            old(self).wf(),
        ensures
            final(self).wf(),
            final(self).tick == (old(self).tick + 1) % 256,
            ({
                let r = rain_update(old(self).drops@, old(self).speeds@, final(self).tick, old(rng).state, 32);
                &&& final(self).drops@ == r.0
                &&& final(self).speeds@ == r.1
                &&& final(rng).state == r.2
            }),
            forall|x: int, y: int| 0 <= x < 32 && 0 <= y < 8 ==> #[trigger] pixel(frame@, x, y) == rain_lit(
                rain_head(old(self).drops@[x], old(self).speeds@[x], final(self).tick),
                y,
            ),
    {
        self.tick = self.tick.wrapping_add(1);
        let tick = self.tick;
        let ghost drops0 = self.drops@;
        let ghost speeds0 = self.speeds@;
        let ghost seed = rng.state;
        let mut frame: Frame = [0u8; 32];
        let mut col: usize = 0;
        while col < DISPLAY_WIDTH
            invariant
                col <= DISPLAY_WIDTH,
                tick == self.tick,
                frame@.len() == 32,
                self.drops@.len() == 32,
                self.speeds@.len() == 32,
                drops0.len() == 32,
                speeds0.len() == 32,
                forall|c: int| 0 <= c < 32 ==> -11 <= #[trigger] drops0[c] <= 11,
                forall|c: int| 0 <= c < 32 ==> 1 <= #[trigger] speeds0[c] <= 2,
                forall|c: int| 0 <= c < 32 ==> -11 <= #[trigger] self.drops@[c] <= 11,
                forall|c: int| 0 <= c < 32 ==> 1 <= #[trigger] self.speeds@[c] <= 2,
                ({
                    let r = rain_update(drops0, speeds0, tick, seed, col as nat);
                    &&& self.drops@ == r.0
                    &&& self.speeds@ == r.1
                    &&& rng.state == r.2
                }),
                forall|c: int| col <= c < 32 ==> #[trigger] self.drops@[c] == drops0[c],
                forall|c: int| col <= c < 32 ==> #[trigger] self.speeds@[c] == speeds0[c],
                forall|x: int, y: int| 0 <= x < col && 0 <= y < 8 ==> #[trigger] pixel(frame@, x, y) == rain_lit(
                    rain_head(drops0[x], speeds0[x], tick),
                    y,
                ),
            decreases DISPLAY_WIDTH - col,
        {
            let speed = self.speeds[col];
            let head: i8 = if tick % speed != 0 { self.drops[col] } else { self.drops[col] + 1 };
            let b = rain_column_byte(head);
            let ghost fbefore = frame@;
            frame[col] = b;
            proof {
                assert forall|x: int, y: int| 0 <= x < col + 1 && 0 <= y < 8 implies #[trigger] pixel(frame@, x, y) == rain_lit(
                    rain_head(drops0[x], speeds0[x], tick),
                    y,
                ) by {
                    if x < col {
                        assert(pixel(fbefore, x, y) == rain_lit(rain_head(drops0[x], speeds0[x], tick), y));
                    } else {
                        assert(bit_lit(b, y as u8) == rain_lit(head as int, y));
                    }
                }
            }
            if head - RAIN_TRAIL >= DISPLAY_HEIGHT as i8 {
                let a = rng.next_range(12);
                self.drops[col] = -(a as i8);
                let s = rng.next_range(2);
                self.speeds[col] = 1 + s as u8;
            } else {
                self.drops[col] = head;
            }
            col = col + 1;
        }
        frame
    }
}

/// Longest the snake grows.
pub const SNAKE_TARGET_LEN: usize = 10;

/// The sign of `v`: -1, 0 or 1.
pub open spec fn sign(v: int) -> int {
    if v > 0 { 1 } else if v < 0 { -1 } else { 0 }
}

/// The absolute value of `v`.
pub open spec fn abs_int(v: int) -> int {
    if v < 0 { -v } else { v }
}

/// The four moves: right, left, down, up, in this order of preference
/// after the moves toward the food.
pub open spec fn is_move(d: (i8, i8)) -> bool {
    d == (1i8, 0i8) || d == (-1i8, 0i8) || d == (0i8, 1i8) || d == (0i8, -1i8)
}

/// Position of a move in the fixed order right, left, down, up.
pub open spec fn default_rank(d: (i8, i8)) -> int {
    if d == (1i8, 0i8) { 0 } else if d == (-1i8, 0i8) { 1 } else if d == (0i8, 1i8) { 2 } else { 3 }
}

/// Preference of a move for a snake at `head` chasing `food`: first the
/// move toward the food along the axis where it is farther off, then the
/// move toward it along the other axis, then the rest in the fixed order.
pub open spec fn move_rank(head: (i8, i8), food: (i8, i8), d: (i8, i8)) -> int {
    let dx = food.0 - head.0;
    let dy = food.1 - head.1;
    let toward_x = dx != 0 && d.0 == sign(dx) && d.1 == 0;
    let toward_y = dy != 0 && d.0 == 0 && d.1 == sign(dy);
    if abs_int(dx) >= abs_int(dy) {
        if toward_x { 0 } else if toward_y { if dx != 0 { 1 } else { 0 } } else { 2 + default_rank(d) }
    } else {
        if toward_y { 0 } else if toward_x { 1 } else { 2 + default_rank(d) }
    }
}

/// Whether `p` is among the first `k` cells of the body.
pub open spec fn occupies(body: Seq<(i8, i8)>, k: int, p: (int, int)) -> bool {
    exists|i: int| 0 <= i < k && i < body.len() && body[i].0 == p.0 && body[i].1 == p.1
}

/// Whether moving the head by `d` is allowed: not straight back, onto the
/// matrix, and not onto the body (its tail end excepted, which moves
/// away).
pub open spec fn move_ok(body: Seq<(i8, i8)>, last: (i8, i8), d: (i8, i8)) -> bool {
    let head = body[0];
    let next = (head.0 + d.0, head.1 + d.1);
    &&& is_move(d)
    &&& !(d.0 == -last.0 && d.1 == -last.1)
    &&& 0 <= next.0 < 32
    &&& 0 <= next.1 < 8
    &&& !occupies(body, body.len() - 1, next)
}

/// How many single-cell moves separate `p` from the food (the Manhattan
/// distance).
pub open spec fn food_distance(p: (int, int), food: (i8, i8)) -> int {
    abs_int(food.0 - p.0) + abs_int(food.1 - p.1)
}

/// The cell the head reaches by the move `d`.
pub open spec fn moved(head: (i8, i8), d: (i8, i8)) -> (int, int) {
    (head.0 + d.0, head.1 + d.1)
}

/// The snake chases its food: whenever an allowed move brings the head
/// closer to the food, the most preferred allowed move does so too, by one
/// cell.
pub proof fn preferred_move_closes_in(
    body: Seq<(i8, i8)>,
    last: (i8, i8),
    food: (i8, i8),
    d: (i8, i8),
)
    requires
        body.len() > 0,
        move_ok(body, last, d),
        forall|m: (i8, i8)| #[trigger]
            move_ok(body, last, m) ==> move_rank(body[0], food, d) <= move_rank(body[0], food, m),
        exists|m: (i8, i8)| #[trigger]
            move_ok(body, last, m) && food_distance(moved(body[0], m), food) < food_distance(
                (body[0].0 as int, body[0].1 as int),
                food,
            ),
    ensures
        food_distance(moved(body[0], d), food) == food_distance(
            (body[0].0 as int, body[0].1 as int),
            food,
        ) - 1,
{
    let head = body[0];
    let m = choose|m: (i8, i8)| #[trigger]
        move_ok(body, last, m) && food_distance(moved(head, m), food) < food_distance(
            (head.0 as int, head.1 as int),
            food,
        );
    assert(move_rank(head, food, m) <= 1);
    assert(move_rank(head, food, d) <= 1);
}

/// Where the food lands: up to `tries` random cells are drawn (column,
/// then row); the first one off the body is taken, else (0, 0). Yields the
/// cell and the generator state.
pub open spec fn food_draw(body: Seq<(i8, i8)>, s: u32, tries: nat) -> ((i8, i8), u32)
    decreases tries,
{
    if tries == 0 {
        ((0i8, 0i8), s)
    } else {
        let s1 = xorshift(s);
        let s2 = xorshift(s1);
        let cell = ((s1 % 32) as i8, (s2 % 8) as i8);
        if occupies(body, body.len() as int, (cell.0 as int, cell.1 as int)) {
            food_draw(body, s2, (tries - 1) as nat)
        } else {
            (cell, s2)
        }
    }
}

/// Whether the body holds the cell `p`, among its first `k` cells.
fn occupied(body: &VecDeque<(i8, i8)>, k: usize, p: (i16, i16)) -> (r: bool)
    requires
        k <= body@.len(),
    ensures
        r == occupies(body@, k as int, (p.0 as int, p.1 as int)),
{
    let mut i: usize = 0;
    while i < k
        invariant
            i <= k,
            k <= body@.len(),
            !occupies(body@, i as int, (p.0 as int, p.1 as int)),
        decreases k - i,
    {
        let c = body[i];
        if c.0 as i16 == p.0 && c.1 as i16 == p.1 {
            assert(body@[i as int].0 == p.0 && body@[i as int].1 == p.1);
            return true;
        }
        i = i + 1;
    }
    false
}

/// Place new food off the body, drawing up to 40 cells.
pub fn spawn_snake_food(body: &VecDeque<(i8, i8)>, rng: &mut SimpleRng) -> (food: (i8, i8))
    ensures
        (food, final(rng).state) == food_draw(body@, old(rng).state, 40),
        0 <= food.0 < 32 && 0 <= food.1 < 8,
{
    let mut tries: u32 = 0;
    while tries < 40
        invariant
            tries <= 40,
            food_draw(body@, old(rng).state, 40) == food_draw(body@, rng.state, (40 - tries) as nat),
        decreases 40 - tries,
    {
        let x = rng.next_range(DISPLAY_WIDTH as u32) as i8;
        let y = rng.next_range(DISPLAY_HEIGHT as u32) as i8;
        if !occupied(body, body.len(), (x as i16, y as i16)) {
            return (x, y);
        }
        tries = tries + 1;
    }
    (0, 0)
}

/// The move a snake makes: the most preferred allowed move, or its last
/// move when none is allowed.
pub fn pick_snake_dir(food: (i8, i8), last: (i8, i8), body: &VecDeque<(i8, i8)>) -> (d: (i8, i8))
    requires
        body@.len() > 0,
    ensures
        (exists|m: (i8, i8)| move_ok(body@, last, m)) ==> move_ok(body@, last, d) && forall|m: (i8, i8)|
            #[trigger] move_ok(body@, last, m) ==> move_rank(body@[0], food, d) <= move_rank(body@[0], food, m),
        !(exists|m: (i8, i8)| move_ok(body@, last, m)) ==> d == last,
        (exists|m: (i8, i8)| #[trigger]
            move_ok(body@, last, m) && food_distance(moved(body@[0], m), food) < food_distance(
                (body@[0].0 as int, body@[0].1 as int),
                food,
            )) ==> food_distance(moved(body@[0], d), food) == food_distance(
            (body@[0].0 as int, body@[0].1 as int),
            food,
        ) - 1,
{
    let head = body[0];
    let moves: [(i8, i8); 4] = [(1, 0), (-1, 0), (0, 1), (0, -1)];
    let dx: i16 = food.0 as i16 - head.0 as i16;
    let dy: i16 = food.1 as i16 - head.1 as i16;
    let adx: i16 = if dx < 0 { -dx } else { dx };
    let ady: i16 = if dy < 0 { -dy } else { dy };
    let mut best: Option<((i8, i8), i16)> = None;
    let mut i: usize = 0;
    while i < 4
        invariant
            i <= 4,
            head == body@[0],
            body@.len() > 0,
            moves@ == seq![(1i8, 0i8), (-1i8, 0i8), (0i8, 1i8), (0i8, -1i8)],
            dx == food.0 - head.0,
            dy == food.1 - head.1,
            adx == abs_int(dx as int),
            ady == abs_int(dy as int),
            forall|j: int| 0 <= j < i && move_ok(body@, last, moves@[j]) ==> (best matches Some(b)
                && b.1 <= move_rank(head, food, moves@[j])),
            best matches Some(b) ==> move_ok(body@, last, b.0) && b.1 == move_rank(head, food, b.0),
            best is None ==> forall|j: int| 0 <= j < i ==> !move_ok(body@, last, moves@[j]),
        decreases 4 - i,
    {
        let m = moves[i];
        let nx: i16 = head.0 as i16 + m.0 as i16;
        let ny: i16 = head.1 as i16 + m.1 as i16;
        let reverse = m.0 as i16 == -(last.0 as i16) && m.1 as i16 == -(last.1 as i16);
        let ok = !reverse && nx >= 0 && nx < DISPLAY_WIDTH as i16 && ny >= 0 && ny < DISPLAY_HEIGHT as i16
            && !occupied(body, body.len() - 1, (nx, ny));
        assert(ok == move_ok(body@, last, m));
        if ok {
            let toward_x = dx != 0 && m.0 as i16 == (if dx > 0 { 1 } else { -1 }) && m.1 == 0;
            let toward_y = dy != 0 && m.0 == 0 && m.1 as i16 == (if dy > 0 { 1 } else { -1 });
            let rank: i16 = if adx >= ady {
                if toward_x { 0 } else if toward_y { if dx != 0 { 1 } else { 0 } } else { 2 + i as i16 }
            } else {
                if toward_y { 0 } else if toward_x { 1 } else { 2 + i as i16 }
            };
            assert(rank == move_rank(head, food, m));
            match best {
                Some(b) => {
                    if rank < b.1 {
                        best = Some((m, rank));
                    }
                },
                None => {
                    best = Some((m, rank));
                },
            }
        }
        i = i + 1;
    }
    proof {
        assert forall|m: (i8, i8)| #[trigger] move_ok(body@, last, m) implies exists|j: int| 0 <= j < 4
            && moves@[j] == m by {
            if m == (1i8, 0i8) {
                assert(moves@[0] == m);
            } else if m == (-1i8, 0i8) {
                assert(moves@[1] == m);
            } else if m == (0i8, 1i8) {
                assert(moves@[2] == m);
            } else {
                assert(moves@[3] == m);
            }
        }
    }
    let d = match best {
        Some(b) => b.0,
        None => last,
    };
    proof {
        if exists|m: (i8, i8)| #[trigger]
            move_ok(body@, last, m) && food_distance(moved(body@[0], m), food) < food_distance(
                (body@[0].0 as int, body@[0].1 as int),
                food,
            ) {
            preferred_move_closes_in(body@, last, food, d);
        }
    }
    d
}

/// Snake chasing food on the pixel matrix; the head is the front of the
/// body.
pub struct SnakeState {
    pub body: VecDeque<(i8, i8)>,
    pub food: (i8, i8),
    pub last_dir: (i8, i8),
}

/// Whether the pixel (x, y) shows part of the snake or its food.
pub open spec fn snake_pixel(body: Seq<(i8, i8)>, food: (i8, i8), x: int, y: int) -> bool {
    0 <= x < 32 && 0 <= y < 8 && (occupies(body, body.len() as int, (x, y)) || (food.0 == x
        && food.1 == y))
}

impl SnakeState {
    /// The snake has between 3 and 10 cells and its food is on the matrix.
    pub open spec fn wf(&self) -> bool {
        &&& 3 <= self.body@.len() <= SNAKE_TARGET_LEN
        &&& 0 <= self.food.0 < 32
        &&& 0 <= self.food.1 < 8
    }

    /// A three-cell snake in the middle of the matrix heading right, with
    /// food placed at random.
    pub fn new(rng: &mut SimpleRng) -> (r: Self)
        ensures
            r.wf(),
            r.body@ == seq![(18i8, 4i8), (17i8, 4i8), (16i8, 4i8)],
            (r.food, final(rng).state) == food_draw(r.body@, old(rng).state, 40),
            r.last_dir == (1i8, 0i8),
    {
        let mut body: VecDeque<(i8, i8)> = VecDeque::new();
        body.push_front((16, 4));
        body.push_front((17, 4));
        body.push_front((18, 4));
        assert(body@ =~= seq![(18i8, 4i8), (17i8, 4i8), (16i8, 4i8)]);
        let food = spawn_snake_food(&body, rng);
        SnakeState { body, food, last_dir: (1, 0) }
    }

    /// Move one cell: pick the move, grow a new head, eat (and place new
    /// food) when the head lands on the food, drop the tail unless the
    /// snake just ate and is still short; then draw snake and food.
    pub fn step(&mut self, rng: &mut SimpleRng) -> (frame: Frame)
        requires
            old(self).wf(),
        ensures
            final(self).wf(),
            ({
                let d = final(self).last_dir;
                let head = old(self).body@[0];
                let new_head = ((head.0 + d.0) as i8, (head.1 + d.1) as i8);
                let grown = seq![new_head] + old(self).body@;
                let ate = new_head == old(self).food;
                &&& ((exists|m: (i8, i8)| move_ok(old(self).body@, old(self).last_dir, m)) ==> move_ok(
                    old(self).body@,
                    old(self).last_dir,
                    d,
                ) && forall|m: (i8, i8)| #[trigger] move_ok(old(self).body@, old(self).last_dir, m)
                    ==> move_rank(head, old(self).food, d) <= move_rank(head, old(self).food, m))
                &&& (!(exists|m: (i8, i8)| move_ok(old(self).body@, old(self).last_dir, m)) ==> d
                    == old(self).last_dir)
                &&& ((exists|m: (i8, i8)| #[trigger]
                    move_ok(old(self).body@, old(self).last_dir, m) && food_distance(
                        moved(head, m),
                        old(self).food,
                    ) < food_distance((head.0 as int, head.1 as int), old(self).food))
                    ==> food_distance(moved(head, d), old(self).food) == food_distance(
                    (head.0 as int, head.1 as int),
                    old(self).food,
                ) - 1)
                &&& ate ==> (final(self).food, final(rng).state) == food_draw(grown, old(rng).state, 40)
                &&& !ate ==> final(self).food == old(self).food && final(rng).state == old(rng).state
                &&& final(self).body@ == if !ate || grown.len() > SNAKE_TARGET_LEN {
                    grown.drop_last()
                } else {
                    grown
                }
            }),
            forall|x: int, y: int| #[trigger] pixel(frame@, x, y) == snake_pixel(
                final(self).body@,
                final(self).food,
                x,
                y,
            ),
    {
        let head = self.body[0];
        let dir = pick_snake_dir(self.food, self.last_dir, &self.body);
        self.last_dir = dir;
        let new_head: (i8, i8) = (
            (head.0 as i16 + dir.0 as i16) as i8,
            (head.1 as i16 + dir.1 as i16) as i8,
        );
        self.body.push_front(new_head);
        let ate = new_head.0 == self.food.0 && new_head.1 == self.food.1;
        if ate {
            self.food = spawn_snake_food(&self.body, rng);
        }
        if !ate || self.body.len() > SNAKE_TARGET_LEN {
            self.body.pop_back();
        }
        self.render()
    }

    /// Draw the snake and its food.
    fn render(&self) -> (frame: Frame)
        requires
            0 <= self.food.0 < 32,
            0 <= self.food.1 < 8,
        ensures
            forall|x: int, y: int| #[trigger] pixel(frame@, x, y) == snake_pixel(self.body@, self.food, x, y),
    {
        let mut frame: Frame = [0u8; 32];
        proof {
            assert forall|x: int, y: int| !#[trigger] pixel(frame@, x, y) by {
                crate::framebuf::cleared_frame_is_dark(x, y);
                assert(frame@ =~= crate::framebuf::blank_frame());
            }
        }
        let mut k: usize = 0;
        while k < self.body.len()
            invariant
                k <= self.body@.len(),
                forall|x: int, y: int| #[trigger] pixel(frame@, x, y) == (0 <= x < 32 && 0 <= y < 8
                    && occupies(self.body@, k as int, (x, y))),
            decreases self.body@.len() - k,
        {
            let (x, y) = self.body[k];
            if x >= 0 && x < DISPLAY_WIDTH as i8 && y >= 0 && y < DISPLAY_HEIGHT as i8 {
                light(&mut frame, x as usize, y as usize);
            }
            proof {
                assert forall|x2: int, y2: int| #[trigger] occupies(self.body@, k as int + 1, (x2, y2))
                    == (occupies(self.body@, k as int, (x2, y2)) || (x2 == x && y2 == y)) by {
                    if x2 == x && y2 == y {
                        assert(self.body@[k as int].0 == x2 && self.body@[k as int].1 == y2);
                    }
                    if occupies(self.body@, k as int + 1, (x2, y2)) && !(x2 == x && y2 == y) {
                        let i = choose|i: int| 0 <= i < k + 1 && i < self.body@.len() && self.body@[i].0 == x2
                            && self.body@[i].1 == y2;
                        assert(i < k);
                    }
                }
            }
            k = k + 1;
        }
        light(&mut frame, self.food.0 as usize, self.food.1 as usize);
        frame
    }
}

} // verus!
