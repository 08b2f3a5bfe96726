use kurokku::framebuf::get_pixel;
use kurokku::widget::animation::{
    noise_frame, noise_segments, pick_random_type, Animation, AnimationType, Cancelled,
    CurtainState, MatrixRainState, PongState, SegmentCurtainState, SegmentPongState,
    SegmentRainState, SegmentSineState, SegmentSnakeState, SimpleRng, SnakeState,
};

fn xorshift(mut s: u32) -> u32 {
    s ^= s << 13;
    s ^= s >> 17;
    s ^= s << 5;
    s
}

#[test]
fn rng_is_xorshift32() {
    let mut r = SimpleRng { state: 1 };
    assert_eq!(r.next(), 270369);
    assert_eq!(r.next(), 67634689);
    assert_eq!(r.next_range(10), 2647435461 % 10);
    let seeded = SimpleRng::from_clock(1_700_000_000);
    assert_eq!(seeded.state, 0xBBFE4FEF);
}

#[test]
fn random_pick_uses_one_draw() {
    let mut r = SimpleRng::from_clock(1_700_000_000);
    assert_eq!(pick_random_type(&mut r), AnimationType::MatrixRain);
    assert_eq!(r.state, 846285614);
    let a = Animation::new(AnimationType::Random, 30);
    let mut r2 = SimpleRng::from_clock(1_700_000_000);
    assert_eq!(a.resolve(&mut r2), AnimationType::MatrixRain);
    let b = Animation::new(AnimationType::Pong, 30);
    let mut r3 = SimpleRng { state: 5 };
    assert_eq!(b.resolve(&mut r3), AnimationType::Pong);
    assert_eq!(r3.state, 5);
}

#[test]
fn animation_timeouts() {
    let a = Animation::new(AnimationType::Static, 30);
    assert_eq!(a.check_timeout(false, 29_999), Ok(false));
    assert_eq!(a.check_timeout(false, 30_000), Ok(true));
    assert_eq!(a.check_timeout(true, 0), Err(Cancelled));
    let forever = Animation::new(AnimationType::Static, 0);
    assert_eq!(forever.check_timeout(false, u64::MAX), Ok(false));
}

#[test]
fn noise_uses_successive_draws() {
    let mut r = SimpleRng { state: 1 };
    let f = noise_frame(&mut r);
    assert_eq!(&f[..3], &[33, 1, 197]);
    let mut r2 = SimpleRng { state: 1 };
    let (segs, colon) = noise_segments(&mut r2, 4);
    assert_eq!(segs.len(), 4);
    assert_eq!(segs[0], 270369u32 as u16 & 0x7F);
    let mut s = 1u32;
    for _ in 0..5 {
        s = xorshift(s);
    }
    assert_eq!(colon, s % 2 == 0);
    assert!(segs.iter().all(|w| w & 0x80 == 0));
}

#[test]
fn pixel_curtain_closes_and_opens() {
    let mut c = CurtainState::new();
    let f0 = c.step();
    assert_eq!(f0[0], 0xFF);
    assert_eq!(f0[1], 0);
    for _ in 1..32 {
        c.step();
    }
    let f32 = c.step();
    assert_eq!(f32[0], 0);
    assert_eq!(f32[1], 0xFF);
    assert_eq!(c.phase, 33);
}

#[test]
fn segment_sine_rolls_segments() {
    let mut s = SegmentSineState::new();
    assert_eq!(s.step(4), vec![0x01; 4]);
    for _ in 1..6 {
        s.step(4);
    }
    assert_eq!(s.step(2), vec![0x7F; 2]);
    assert_eq!(s.step(1), vec![0x7E]);
    for _ in 8..13 {
        s.step(1);
    }
    assert_eq!(s.step(1), vec![0]);
    assert_eq!(s.phase, 0);
}

#[test]
fn segment_curtain_fills_then_empties() {
    let mut c = SegmentCurtainState::new(2);
    assert_eq!(c.step(), vec![0x30, 0]);
    assert_eq!(c.step(), vec![0x79, 0]);
    assert_eq!(c.step(), vec![0x7F, 0]);
    assert_eq!(c.step(), vec![0x7F, 0x30]);
    c.step();
    c.step();
    assert_eq!(c.step(), vec![0x4F, 0x7F]);
    assert_eq!(c.step(), vec![0x06, 0x7F]);
    assert_eq!(c.step(), vec![0, 0x7F]);
    assert_eq!(c.step(), vec![0, 0x4F]);
}

#[test]
fn segment_pong_bounces() {
    let mut p = SegmentPongState::new(2);
    let mut seen = Vec::new();
    for _ in 0..8 {
        seen.push(p.step());
    }
    assert_eq!(seen[0], vec![0x30, 0]);
    assert_eq!(seen[1], vec![0x06, 0]);
    assert_eq!(seen[2], vec![0, 0x30]);
    assert_eq!(seen[3], vec![0, 0x06]);
    assert_eq!(seen[4], vec![0, 0x30]);
    assert_eq!(seen[6], vec![0x30, 0]);
    assert_eq!(seen[7], vec![0x06, 0]);
}

#[test]
fn pixel_pong_ball_stays_on_matrix() {
    let mut p = PongState::new();
    let f = p.step();
    assert_eq!((p.ball_x, p.ball_y), (17, 5));
    assert!(get_pixel(&f, 17, 5));
    assert!(get_pixel(&f, 16, 0));
    assert!(get_pixel(&f, 0, p.paddle_l as usize));
    for _ in 0..500 {
        p.step();
        assert!(p.ball_x >= 1 && p.ball_x <= 30);
        assert!(p.ball_y >= 0 && p.ball_y <= 7);
        assert!(p.paddle_l >= 0 && p.paddle_l <= 5);
    }
}

#[test]
fn segment_rain_drops_fall_through_three_stages() {
    let mut r = SegmentRainState::new(4);
    let mut rng = SimpleRng { state: 12345 };
    for _ in 0..50 {
        let segs = r.step(&mut rng);
        assert_eq!(segs.len(), 4);
        assert!(segs.iter().all(|s| s & !0x3E == 0));
        assert!(r.drops.iter().all(|&d| (-1..=2).contains(&d)));
    }
}

#[test]
fn segment_snake_walks_perimeter() {
    let mut s = SegmentSnakeState::new(4);
    assert_eq!(s.advance(), vec![0x01, 0, 0, 0]);
    assert_eq!(s.advance(), vec![0x03, 0, 0, 0]);
    assert_eq!(s.advance(), vec![0x07, 0, 0, 0]);
    assert_eq!(s.advance(), vec![0x0E, 0, 0, 0]);
    for _ in 0..200 {
        let segs = s.advance();
        assert_eq!(segs.len(), 4);
        assert!(s.history.len() <= 3);
        assert!(s.digit >= 0 && s.digit < 4);
    }
}

#[test]
fn matrix_rain_keeps_drops_near() {
    let mut rng = SimpleRng { state: 99 };
    let mut m = MatrixRainState::new(&mut rng);
    assert!(m.drops.iter().all(|&d| (-7..=0).contains(&d)));
    assert!(m.speeds.iter().all(|&s| s == 1 || s == 2));
    for _ in 0..300 {
        m.step(&mut rng);
        assert!(m.drops.iter().all(|&d| (-11..=11).contains(&d)));
    }
}

#[test]
fn snake_moves_and_stays_short() {
    let mut rng = SimpleRng { state: 7 };
    let mut s = SnakeState::new(&mut rng);
    assert_eq!(s.body.len(), 3);
    for _ in 0..300 {
        let f = s.step(&mut rng);
        assert!(s.body.len() >= 3 && s.body.len() <= 10);
        assert!(get_pixel(&f, s.food.0 as usize, s.food.1 as usize));
        let (hx, hy) = s.body[0];
        if (0..32).contains(&hx) && (0..8).contains(&hy) {
            assert!(get_pixel(&f, hx as usize, hy as usize));
        }
    }
}

#[test]
fn segment_curtain_full_at_half_dark_at_end() {
    let mut c = SegmentCurtainState::new(4);
    let mut frames = Vec::new();
    for _ in 0..24 {
        frames.push(c.step());
    }
    assert_eq!(frames[11], vec![0x7F; 4]);
    assert_eq!(frames[23], vec![0; 4]);
    assert_eq!(c.phase, 0);
}
