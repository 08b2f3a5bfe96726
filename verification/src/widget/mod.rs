//! Widgets: what is shown on the display, step by step.
//!
//! Each widget is a state machine. The caller runs the loop: it asks the
//! widget for its next step, writes frames to the display, sleeps, checks
//! for cancellation and feeds back what it observed (time, cancellation).

pub mod animation;
pub mod clock;
pub mod message;
pub mod raw_render;
pub mod status;

use std::sync::atomic::{AtomicBool, Ordering};
use std::sync::Arc;
use vstd::prelude::*;
use crate::framebuf::{blank_frame, blit_columns, centered_offset, Frame, WIDTH};

verus! {

/// `Arc::clone`: std documents it as making another pointer to the same
/// allocation, so the clone is claimed equal to the pointer it was made
/// from. Nothing else is claimed.
#[verifier::external_body]
fn share_flag(flag: &Arc<AtomicBool>) -> (r: Arc<AtomicBool>)
    ensures
        r == *flag,
{
    Arc::clone(flag)
}

/// Lightweight cancellation token backed by a shared atomic flag. Clones
/// share the flag.
#[derive(Clone)]
pub struct CancelToken {
    cancelled: Arc<AtomicBool>,
}

impl CancelToken {
    /// A fresh token, not cancelled. Its flag is a std atomic of which
    /// nothing is known to the verifier (no value is specified for it), so
    /// no clause states that it starts clear.
    pub fn new() -> Self {
        CancelToken { cancelled: Arc::new(AtomicBool::new(false)) }
    }

    /// Another handle on the same token: cancelling either cancels both.
    pub fn share(&self) -> (r: CancelToken)
        ensures
            r == *self,
    {
        CancelToken { cancelled: share_flag(&self.cancelled) }
    }

    /// Cancel the token and every clone of it.
    pub fn cancel(&self) {
        self.cancelled.store(true, Ordering::Relaxed);
    }

    /// Whether the token (or a clone of it) has been cancelled. The flag is
    /// shared between threads, so nothing is stated of the answer.
    pub fn is_cancelled(&self) -> bool {
        self.cancelled.load(Ordering::Relaxed)
    }
}

/// How many more rounds remain after `k` rounds have been taken from a
/// count of `r` (negative counts never run out).
pub open spec fn repeats_after(r: i32, k: nat) -> i32
    decreases k,
{
    if k == 0 {
        r
    } else {
        let prev = repeats_after(r, (k - 1) as nat);
        if prev > 0 { (prev - 1) as i32 } else { prev }
    }
}

/// A count of repetitions; a negative count repeats forever.
#[derive(Debug, Clone, Copy, PartialEq, Eq)]
pub struct Repeats {
    pub remaining: i32,
}

impl Repeats {
    /// Start with `n` rounds (negative: forever).
    pub fn new(n: i32) -> (r: Self)
        ensures
            r.remaining == n,
    {
        Repeats { remaining: n }
    }

    /// Whether another round is due; counts it down when the count is
    /// finite.
    pub fn take_round(&mut self) -> (due: bool)
        ensures
            due == (old(self).remaining != 0),
            final(self).remaining == if old(self).remaining > 0 {
                old(self).remaining - 1
            } else {
                old(self).remaining as int
            },
    {
        if self.remaining == 0 {
            return false;
        }
        if self.remaining > 0 {
            self.remaining = self.remaining - 1;
        }
        true
    }
}

/// A finite count of `n` gives exactly `n` rounds; a negative count never
/// runs out.
pub proof fn repeats_run_out(n: i32, k: nat)
    ensures
        n >= 0 && k < n ==> repeats_after(n, k) == n - k,
        n >= 0 && k >= n ==> repeats_after(n, k) == 0,
        n < 0 ==> repeats_after(n, k) == n,
    decreases k,
{
    if k > 0 {
        repeats_run_out(n, (k - 1) as nat);
    }
}

/// Whether a scroll at `offset` with `rounds` left still shows an offset:
/// it is over once a round ends with no rounds left.
pub open spec fn scroll_emits(offset: int, rounds: int) -> bool {
    !(offset == 0 && rounds == 0)
}

/// The scroll position after one call: on to the next offset, or back to
/// 0 with one round fewer (unless unlimited) after the last offset; a
/// finished scroll stays put.
pub open spec fn scroll_step(offset: int, rounds: int, last: int) -> (int, int) {
    if !scroll_emits(offset, rounds) {
        (offset, rounds)
    } else if offset == last {
        (0, if rounds > 0 { rounds - 1 } else { rounds })
    } else {
        (offset + 1, rounds)
    }
}

/// The scroll position after `k` calls.
pub open spec fn scroll_after(offset: int, rounds: int, last: int, k: nat) -> (int, int)
    decreases k,
{
    if k == 0 {
        (offset, rounds)
    } else {
        let p = scroll_after(offset, rounds, last, (k - 1) as nat);
        scroll_step(p.0, p.1, last)
    }
}

/// Calls compose: `a` calls then `b` calls are `a + b` calls.
pub proof fn scroll_after_adds(offset: int, rounds: int, last: int, a: nat, b: nat)
    ensures
        scroll_after(offset, rounds, last, a + b) == ({
            let p = scroll_after(offset, rounds, last, a);
            scroll_after(p.0, p.1, last, b)
        }),
    decreases b,
{
    if b > 0 {
        scroll_after_adds(offset, rounds, last, a, (b - 1) as nat);
        assert((a + b - 1) as nat == a + (b - 1) as nat);
    }
}

/// Within a round of a scroll with rounds left, the `i`-th call shows
/// offset `i`, for `i` up to `last`.
pub proof fn scroll_round_offsets(rounds: int, last: int, i: nat)
    requires
        rounds != 0,
        last >= 0,
        i <= last,
    ensures
        scroll_after(0, rounds, last, i) == (i as int, rounds),
        scroll_emits(i as int, rounds),
    decreases i,
{
    if i > 0 {
        scroll_round_offsets(rounds, last, (i - 1) as nat);
    }
}

/// One round of a scroll with rounds left shows offsets 0, 1, ..., last
/// in order and then starts over with one round fewer (unless the count
/// is unlimited).
pub proof fn scroll_round(rounds: int, last: int)
    requires
        rounds != 0,
        last >= 0,
    ensures
        forall|i: nat| i <= last ==> #[trigger] scroll_after(0, rounds, last, i) == (i as int, rounds),
        scroll_after(0, rounds, last, (last + 1) as nat) == (0int, if rounds > 0 { rounds - 1 } else { rounds }),
{
    assert forall|i: nat| i <= last implies #[trigger] scroll_after(0, rounds, last, i) == (i as int, rounds) by {
        scroll_round_offsets(rounds, last, i);
    }
    scroll_round_offsets(rounds, last, last as nat);
}

/// A message scrolled `n` times (n >= 0) makes exactly `n` full sweeps
/// and then stops.
pub proof fn scroll_finishes(n: int, last: int)
    requires
        n >= 0,
        last >= 0,
    ensures
        scroll_after(0, n, last, (n * (last + 1)) as nat) == (0int, 0int),
        !scroll_emits(0, 0),
    decreases n,
{
    if n > 0 {
        scroll_round(n, last);
        scroll_finishes(n - 1, last);
        assert(n * (last + 1) == (last + 1) + (n - 1) * (last + 1)) by (nonlinear_arith);
        assert((n - 1) * (last + 1) >= 0) by (nonlinear_arith)
            requires
                n >= 1,
                last >= 0,
        ;
        scroll_after_adds(0, n, last, (last + 1) as nat, ((n - 1) * (last + 1)) as nat);
        assert(((last + 1) as nat + ((n - 1) * (last + 1)) as nat) as int == n * (last + 1));
    }
}

/// Position in a scroll that sweeps offsets `0..=last` once per round.
#[derive(Debug, Clone, Copy, PartialEq, Eq)]
pub struct ScrollState {
    pub offset: usize,
    pub last: usize,
    pub rounds: Repeats,
}

impl ScrollState {
    /// Well-formed: the next offset lies in `0..=last`.
    pub open spec fn wf(&self) -> bool {
        self.offset <= self.last
    }

    /// A scroll over offsets `0..=last`, `rounds` times.
    pub fn new(last: usize, rounds: i32) -> (r: Self)
        ensures
            r.wf(),
            r.offset == 0,
            r.last == last,
            r.rounds.remaining == rounds,
    {
        ScrollState { offset: 0, last, rounds: Repeats::new(rounds) }
    }

    /// The next offset to show, or `None` once the rounds are used up.
    /// A round is counted when its last offset has been shown.
    pub fn next_offset(&mut self) -> (r: Option<usize>)
        requires
            old(self).wf(),
        ensures
            final(self).wf(),
            final(self).last == old(self).last,
            r == (if scroll_emits(old(self).offset as int, old(self).rounds.remaining as int) {
                Some(old(self).offset)
            } else {
                None::<usize>
            }),
            (final(self).offset as int, final(self).rounds.remaining as int) == scroll_step(
                old(self).offset as int,
                old(self).rounds.remaining as int,
                old(self).last as int,
            ),
    {
        if self.offset == 0 && self.rounds.remaining == 0 {
            return None;
        }
        let shown = self.offset;
        if self.offset == self.last {
            self.offset = 0;
            if self.rounds.remaining > 0 {
                self.rounds.remaining = self.rounds.remaining - 1;
            }
        } else {
            self.offset = self.offset + 1;
        }
        Some(shown)
    }
}

/// The pixel frame of text columns scrolled to `offset`: the text enters
/// from the right edge at offset 0 and has left the matrix at offset
/// `columns.len() + 32`. Column `x` shows text column `x + offset - 32`.
pub open spec fn scrolled_frame(columns: Seq<u8>, offset: int) -> Seq<u8> {
    Seq::new(
        32,
        |x: int|
            if 0 <= x + offset - 32 < columns.len() {
                columns[x + offset - 32]
            } else {
                0u8
            },
    )
}

/// Render text columns scrolled to `offset`.
pub fn scroll_frame(columns: &[u8], offset: usize) -> (frame: Frame)
    requires
        offset <= columns.len() + 32,
        columns.len() + 64 <= usize::MAX,
    ensures
        frame@ == scrolled_frame(columns@, offset as int),
{
    let mut frame = [0u8; 32];
    let mut x: usize = 0;
    while x < WIDTH
        invariant
            x <= WIDTH,
            offset <= columns.len() + 32,
            columns.len() + 64 <= usize::MAX,
            frame@.len() == 32,
            forall|j: int| 0 <= j < x ==> frame@[j] == scrolled_frame(columns@, offset as int)[j],
            forall|j: int| x <= j < 32 ==> frame@[j] == 0,
        decreases WIDTH - x,
    {
        let i = x + offset;
        if i >= 32 && i - 32 < columns.len() {
            frame[x] = columns[i - 32];
        }
        x = x + 1;
    }
    assert(frame@ =~= scrolled_frame(columns@, offset as int));
    frame
}

/// The matrix is dark before the text enters (offset 0) and after it has
/// left (offset `columns.len() + 32`), and each step of the offset moves
/// the picture one column to the left.
pub proof fn scrolled_frame_moves_left(columns: Seq<u8>, offset: int)
    ensures
        scrolled_frame(columns, offset).len() == 32,
        forall|x: int| 0 <= x < 32 ==> #[trigger] scrolled_frame(columns, 0)[x] == 0u8,
        forall|x: int| 0 <= x < 32 ==> #[trigger] scrolled_frame(columns, columns.len() + 32int)[x] == 0u8,
        forall|x: int|
            0 <= x < 31 ==> #[trigger] scrolled_frame(columns, offset + 1)[x] == scrolled_frame(
                columns,
                offset,
            )[x + 1],
{
}

/// Every text column scrolls across the whole matrix: column `k` enters at
/// the right edge at offset `k + 1`, leaves from the left edge at offset
/// `k + 32`, and shows at matrix column `x` at offset `k + 32 - x`; all
/// these offsets lie within the sweep.
pub proof fn every_column_scrolls_across(columns: Seq<u8>, k: int)
    requires
        0 <= k < columns.len(),
    ensures
        k + 32 <= columns.len() + 32,
        scrolled_frame(columns, k + 1)[31] == columns[k],
        scrolled_frame(columns, k + 32)[0] == columns[k],
        forall|x: int| 0 <= x < 32 ==> #[trigger] scrolled_frame(columns, k + 32 - x)[x] == columns[k],
{
}

/// Text that fits is centered: the margins left and right of it differ by
/// at most one column, the extra column going to the right; and the
/// centered picture is the scrolling picture at the moment the text
/// reaches the middle.
pub proof fn centered_text_is_mid_scroll(columns: Seq<u8>)
    requires
        columns.len() <= 32,
    ensures
        ({
            let left = centered_offset(columns.len() as int);
            let right = 32 - columns.len() - left;
            &&& 0 <= left <= right <= left + 1
            &&& blit_columns(blank_frame(), columns, left) == scrolled_frame(columns, 32 - left)
        }),
{
    let left = centered_offset(columns.len() as int);
    assert(blit_columns(blank_frame(), columns, left) =~= scrolled_frame(columns, 32 - left));
}

/// Byte `k` of encoded text padded with `width` blanks on each side.
pub open spec fn padded_byte(encoded: Seq<u8>, width: int, k: int) -> u8 {
    if width <= k < width + encoded.len() {
        encoded[k - width]
    } else {
        0u8
    }
}

/// The `width` segment words seen through a window starting at `start`
/// over the padded text.
pub open spec fn window(encoded: Seq<u8>, width: int, start: int) -> Seq<u16> {
    Seq::new(width as nat, |i: int| padded_byte(encoded, width, start + i) as u16)
}

/// What a window shows: at position `i` of a window starting at `start`,
/// byte `start + i - width` of the text where that lies inside the text,
/// and a blank elsewhere. A window starting at 0 or at the end of the
/// padded text is all blank, and each step of `start` moves the text one
/// digit to the left.
pub proof fn window_contents(encoded: Seq<u8>, width: int, start: int)
    requires
        width >= 0,
    ensures
        window(encoded, width, start).len() == width,
        forall|i: int|
            0 <= i < width ==> #[trigger] window(encoded, width, start)[i] == if width <= start + i
                < width + encoded.len() {
                encoded[start + i - width] as u16
            } else {
                0u16
            },
        forall|i: int| 0 <= i < width ==> #[trigger] window(encoded, width, 0)[i] == 0u16,
        forall|i: int|
            0 <= i < width ==> #[trigger] window(encoded, width, encoded.len() + width)[i] == 0u16,
        forall|i: int|
            0 <= i < width - 1 ==> #[trigger] window(encoded, width, start + 1)[i] == window(
                encoded,
                width,
                start,
            )[i + 1],
{
}

/// Every byte of the text scrolls across the whole display: byte `k`
/// enters at the right edge in the window starting at `k + 1` and leaves
/// from the left edge in the window starting at `k + width`, showing at
/// position `i` in the window starting at `k + width - i`. All these
/// windows start within the padded text.
pub proof fn every_byte_scrolls_across(encoded: Seq<u8>, width: int, k: int)
    requires
        width > 0,
        0 <= k < encoded.len(),
    ensures
        k + width <= encoded.len() + width,
        window(encoded, width, k + 1)[width - 1] == encoded[k] as u16,
        window(encoded, width, k + width)[0] == encoded[k] as u16,
        forall|i: int|
            0 <= i < width ==> #[trigger] window(encoded, width, k + width - i)[i] == encoded[k] as u16,
{
}

/// The segment words of a window over encoded text padded with `width`
/// blanks on each side, so that the text slides fully in and fully out.
pub fn segment_window(encoded: &[u8], width: usize, start: usize) -> (segs: Vec<u16>)
    requires
        start <= encoded.len() + width,
        encoded.len() + 2 * width <= usize::MAX,
    ensures
        segs@ == window(encoded@, width as int, start as int),
{
    let mut segs: Vec<u16> = Vec::new();
    let mut i: usize = 0;
    while i < width
        invariant
            i <= width,
            start <= encoded.len() + width,
            encoded.len() + 2 * width <= usize::MAX,
            segs@ == window(encoded@, width as int, start as int).take(i as int),
        decreases width - i,
    {
        let k = start + i;
        let b: u8 = if k >= width && k - width < encoded.len() { encoded[k - width] } else { 0 };
        segs.push(b as u16);
        i = i + 1;
        assert(segs@ =~= window(encoded@, width as int, start as int).take(i as int));
    }
    assert(window(encoded@, width as int, start as int).take(width as int) =~= window(
        encoded@,
        width as int,
        start as int,
    ));
    segs
}

/// Encoded text shown from the left edge of a `width`-digit display:
/// the first `width` bytes, blanks after the text.
pub open spec fn left_aligned(encoded: Seq<u8>, width: int) -> Seq<u16> {
    Seq::new(width as nat, |i: int| if i < encoded.len() { encoded[i] as u16 } else { 0u16 })
}

/// Text that fits a segment display is shown as the scrolling window at
/// the moment the text's first byte reaches the left edge.
pub proof fn left_aligned_is_scroll_window(encoded: Seq<u8>, width: int)
    requires
        width >= 0,
    ensures
        left_aligned(encoded, width) == window(encoded, width, width),
{
    assert(left_aligned(encoded, width) =~= window(encoded, width, width));
}

/// Encoded text shown left-aligned on a `width`-digit display.
pub fn left_align(encoded: &[u8], width: usize) -> (segs: Vec<u16>)
    ensures
        segs@ == left_aligned(encoded@, width as int),
{
    let mut segs: Vec<u16> = Vec::new();
    let mut i: usize = 0;
    while i < width
        invariant
            i <= width,
            segs@ == left_aligned(encoded@, width as int).take(i as int),
        decreases width - i,
    {
        let b: u16 = if i < encoded.len() { encoded[i] as u16 } else { 0 };
        segs.push(b);
        i = i + 1;
        assert(segs@ =~= left_aligned(encoded@, width as int).take(i as int));
    }
    assert(left_aligned(encoded@, width as int).take(width as int) =~= left_aligned(
        encoded@,
        width as int,
    ));
    segs
}

} // verus!
