use kurokku::font_7seg::digit;
use kurokku::widget::clock::Clock;
use kurokku::widget::message::{Message, MessageContent, MessageStep};
use kurokku::widget::raw_render::{RawPixel, RawSegment};
use kurokku::widget::status::{Status, StatusStep};
use kurokku::widget::{left_align, scroll_frame, segment_window, CancelToken, Repeats, ScrollState};

#[test]
fn repeats_count_down_or_forever() {
    let mut r = Repeats::new(2);
    assert!(r.take_round());
    assert!(r.take_round());
    assert!(!r.take_round());
    assert!(!r.take_round());
    let mut forever = Repeats::new(-1);
    for _ in 0..100 {
        assert!(forever.take_round());
    }
}

#[test]
fn scroll_state_sweeps_each_round() {
    let mut s = ScrollState::new(2, 2);
    let mut seen = Vec::new();
    while let Some(o) = s.next_offset() {
        seen.push(o);
    }
    assert_eq!(seen, vec![0, 1, 2, 0, 1, 2]);
    let mut none = ScrollState::new(5, 0);
    assert_eq!(none.next_offset(), None);
}

#[test]
fn scroll_frame_enters_from_the_right() {
    let cols = [1u8, 2, 3];
    assert_eq!(scroll_frame(&cols, 0), [0u8; 32]);
    let f = scroll_frame(&cols, 1);
    assert_eq!(f[31], 1);
    let g = scroll_frame(&cols, 33);
    assert_eq!(g[0], 2);
    assert_eq!(g[1], 3);
    assert_eq!(scroll_frame(&cols, 35), [0u8; 32]);
}

#[test]
fn segment_window_pads_both_sides() {
    let enc = [1u8, 2, 3, 4, 5];
    assert_eq!(segment_window(&enc, 4, 0), vec![0, 0, 0, 0]);
    assert_eq!(segment_window(&enc, 4, 2), vec![0, 0, 1, 2]);
    assert_eq!(segment_window(&enc, 4, 9), vec![0, 0, 0, 0]);
    assert_eq!(left_align(&[7, 8], 4), vec![7, 8, 0, 0]);
}

#[test]
fn static_message_holds_for_each_repeat() {
    let m = Message::new("HI", 50, 2);
    let mut p = m.play_pixels(vec![0xFF, 0x81]);
    match p.next_step() {
        MessageStep::Show { frame } => {
            assert_eq!(frame[15], 0xFF);
            assert_eq!(frame[16], 0x81);
        }
        _ => panic!("expected the frame first"),
    }
    assert!(matches!(p.next_step(), MessageStep::Hold { ms: 5000 }));
    assert!(matches!(p.next_step(), MessageStep::Hold { ms: 5000 }));
    assert!(matches!(p.next_step(), MessageStep::Done));
}

#[test]
fn zero_repeat_message_shows_then_finishes() {
    let m = Message::new("HI", 50, 0);
    let mut p = m.play_segments(4);
    match p.next_step() {
        MessageStep::ShowSegments { segments } => {
            assert_eq!(segments, vec![0x76, 0x30, 0, 0]);
        }
        _ => panic!("expected segments first"),
    }
    assert!(matches!(p.next_step(), MessageStep::Done));
}

#[test]
fn scrolling_segment_message_slides_through() {
    let m = Message::new("12345", 100, 1);
    let mut p = m.play_segments(4);
    assert!(matches!(p.content, MessageContent::ScrollSegments { .. }));
    let mut frames = Vec::new();
    loop {
        match p.next_step() {
            MessageStep::ScrollSegments { segments, ms } => {
                assert_eq!(ms, 100);
                frames.push(segments);
            }
            MessageStep::Done => break,
            _ => panic!("unexpected step"),
        }
    }
    // 5 bytes padded by 4 blanks each side: windows at 0..=9.
    assert_eq!(frames.len(), 10);
    assert_eq!(frames[4], vec![digit(1) as u16, digit(2) as u16, digit(3) as u16, digit(4) as u16]);
    assert_eq!(frames[9], vec![0, 0, 0, 0]);
}

#[test]
fn scrolling_pixel_message_counts_offsets() {
    let m = Message::new("long", 50, 1);
    let mut p = m.play_pixels(vec![1u8; 40]);
    let mut n = 0;
    while let MessageStep::Scroll { .. } = p.next_step() {
        n += 1;
    }
    assert_eq!(n, 40 + 32 + 1);
}

#[test]
fn status_stops_on_cancel_or_time() {
    let s = Status::new("10.11.12.13", 3000);
    let mut p = s.play_segments(4);
    match p.next_step(false, 0) {
        StatusStep::ScrollSegments { ms, .. } => assert_eq!(ms, 250),
        _ => panic!("expected a scroll step"),
    }
    assert!(matches!(p.next_step(true, 10), StatusStep::Done));
    let mut q = s.play_segments(4);
    assert!(matches!(q.next_step(false, 3000), StatusStep::Done));
}

#[test]
fn short_status_is_held_once() {
    let s = Status::new("NO", 3000);
    let mut p = s.play_segments(4);
    match p.next_step(false, 0) {
        StatusStep::ShowSegments { segments, ms } => {
            assert_eq!(segments, vec![0x54, 0x3F, 0, 0]);
            assert_eq!(ms, 3000);
        }
        _ => panic!("expected static segments"),
    }
    assert!(matches!(p.next_step(false, 0), StatusStep::Done));
}

#[test]
fn clock_texts_and_blinks() {
    let c24 = Clock::new(true);
    let phases = c24.blink_phases(7, 5);
    assert_eq!(phases.len(), 2);
    assert_eq!(phases[0].text, "07:05");
    assert_eq!(phases[1].text, "07 05");
    assert_eq!(phases[0].hold_ms, 500);
    let c12 = Clock::new(false);
    let pm = c12.blink_phases(13, 45);
    assert_eq!(pm.len(), 4);
    assert_eq!(pm[0].text, "1:45");
    assert_eq!(pm[1].text, "1 45");
    assert_eq!(
        pm.iter().map(|p| p.hold_ms).collect::<Vec<_>>(),
        vec![150, 200, 150, 500]
    );
    let midnight = c12.blink_phases(0, 0);
    assert_eq!(midnight.len(), 2);
    assert_eq!(midnight[0].text, "12:00");
    let noon = c12.blink_phases(12, 9);
    assert_eq!(noon[0].text, "12:09");
    assert_eq!(noon.len(), 4);
}

#[test]
fn raw_renderers() {
    let p = RawPixel::new(vec![1, 2, 3]);
    let f = p.frame();
    assert_eq!(&f[..4], &[1, 2, 3, 0]);
    let long = RawPixel::new((0..40).collect());
    assert_eq!(long.frame()[31], 31);
    let s = RawSegment::new(vec![119, 63, 6, 91], true);
    assert_eq!(s.segments(), &[119, 63, 6, 91]);
    assert!(s.colon());
}

#[test]
fn cancel_token_is_shared_by_clones() {
    let t = CancelToken::new();
    let u = t.clone();
    assert!(!u.is_cancelled());
    t.cancel();
    assert!(u.is_cancelled());
}

#[test]
fn segment_clock_digits_and_colon() {
    let c24 = Clock::new(true);
    let p = c24.segment_phases(7, 5);
    assert_eq!(p.len(), 2);
    assert_eq!(p[0].segments, vec![digit(0) as u16, digit(7) as u16, digit(0) as u16, digit(5) as u16]);
    assert!(p[0].colon);
    assert!(!p[1].colon);
    assert_eq!(p[1].segments, p[0].segments);
    assert_eq!(p[0].hold_ms, 500);
    let c12 = Clock::new(false);
    let pm = c12.segment_phases(13, 45);
    assert_eq!(pm.len(), 4);
    assert_eq!(pm[0].segments, vec![0, digit(1) as u16, digit(4) as u16, digit(5) as u16]);
    assert_eq!(pm.iter().map(|p| p.hold_ms).collect::<Vec<_>>(), vec![150, 200, 150, 500]);
    assert_eq!(pm.iter().map(|p| p.colon).collect::<Vec<_>>(), vec![true, false, true, false]);
    let midnight = c12.segment_phases(0, 0);
    assert_eq!(midnight[0].segments, vec![digit(1) as u16, digit(2) as u16, digit(0) as u16, digit(0) as u16]);
}
