use kurokku::engine::{
    animation_kind, choose_widget, plan_config_update, revert_to_clock, DisplayAction, DisplayState,
    NetworkState, RunOutcome, SharedState, SyslogChange, WidgetChoice,
};
use kurokku::network::{ConfigUpdate, ServerResponse, WidgetInstruction};
use kurokku::widget::animation::AnimationType;
use kurokku::widget::CancelToken;

fn reply(instruction: Option<WidgetInstruction>) -> ServerResponse {
    ServerResponse { instruction, brightness: None, poll_interval_ms: None, config: None }
}

#[test]
fn animation_names() {
    assert_eq!(animation_kind("pong"), AnimationType::Pong);
    assert_eq!(animation_kind("matrix"), AnimationType::MatrixRain);
    assert_eq!(animation_kind("matrix_rain"), AnimationType::MatrixRain);
    assert_eq!(animation_kind("sinewave"), AnimationType::SineWave);
    assert_eq!(animation_kind("random"), AnimationType::Random);
    assert_eq!(animation_kind("bogus"), AnimationType::Static);
    assert_eq!(animation_kind("static"), AnimationType::Static);
}

#[test]
fn clock_instruction_sets_fallback_format() {
    let (w, f) = choose_widget(WidgetInstruction::Clock { format_24h: false }, true);
    assert!(matches!(w, WidgetChoice::Clock(c) if !c.format_24h));
    assert!(!f);
    let (w2, f2) = choose_widget(WidgetInstruction::Ota { url: "http://x/fw.bin".to_string() }, false);
    assert!(matches!(w2, WidgetChoice::OtaStatus(s) if s.text == "OTA..." && s.duration_ms == 5000));
    assert!(!f2);
    let (w3, _) = choose_widget(
        WidgetInstruction::Animation { animation: "snake".to_string(), duration_secs: 0 },
        true,
    );
    assert!(matches!(w3, WidgetChoice::Animation(a) if a.animation() == AnimationType::Snake && a.duration_secs() == 0));
}

#[test]
fn config_update_plans() {
    let p = plan_config_update(&ConfigUpdate { syslog_host: Some(String::new()), tz: Some(String::new()) });
    assert!(matches!(p.syslog, SyslogChange::Disable));
    assert_eq!(p.tz, None);
    let q = plan_config_update(&ConfigUpdate { syslog_host: Some("h:514".to_string()), tz: Some("UTC0".to_string()) });
    assert!(matches!(q.syslog, SyslogChange::Enable(ref h) if h == "h:514"));
    assert_eq!(q.tz, Some("UTC0".to_string()));
    let r = plan_config_update(&ConfigUpdate { syslog_host: None, tz: None });
    assert!(matches!(r.syslog, SyslogChange::Keep));
}

#[test]
fn repeated_instruction_is_passed_on_once() {
    let mut net = NetworkState::new();
    let mut shared = SharedState::new();
    let token = shared.current_cancel.clone();
    let msg = WidgetInstruction::Message { text: "Hello".to_string(), scroll_speed_ms: 50, repeats: 1 };
    assert!(net.on_response(reply(Some(msg.clone())), &mut shared));
    assert!(!token.is_cancelled());
    assert_eq!(shared.pending_instruction, Some(msg.clone()));
    shared.pending_instruction = None;
    assert!(!net.on_response(reply(Some(msg.clone())), &mut shared));
    assert_eq!(shared.pending_instruction, None);
    let clock = WidgetInstruction::Clock { format_24h: true };
    assert!(net.on_response(reply(Some(clock.clone())), &mut shared));
    assert_eq!(shared.pending_instruction, Some(clock));
}

#[test]
fn brightness_and_config_are_handed_over() {
    let mut net = NetworkState::new();
    let mut shared = SharedState::new();
    let cfg = ConfigUpdate { syslog_host: None, tz: Some("UTC0".to_string()) };
    let r = ServerResponse { instruction: None, brightness: Some(12), poll_interval_ms: None, config: Some(cfg.clone()) };
    assert!(!net.on_response(r.clone(), &mut shared));
    assert_eq!(shared.pending_brightness, Some(12));
    assert_eq!(shared.pending_config, Some(cfg.clone()));
    shared.pending_config = None;
    net.on_response(r, &mut shared);
    assert_eq!(shared.pending_config, None);
}

#[test]
fn sixty_failures_reboot() {
    let mut net = NetworkState::new();
    for _ in 0..59 {
        assert!(!net.on_failure(false));
    }
    assert!(net.on_failure(false));
    let mut net2 = NetworkState::new();
    for _ in 0..59 {
        assert!(!net2.on_failure(false));
    }
    assert!(!net2.on_failure(true));
    assert_eq!(net2.consecutive_failures, 0);
    net2.on_failure(false);
    net2.on_empty();
    assert_eq!(net2.consecutive_failures, 0);
}

#[test]
fn display_steps_follow_precedence() {
    let mut shared = SharedState::new();
    shared.pending_brightness = Some(3);
    shared.pending_config = Some(ConfigUpdate { syslog_host: None, tz: None });
    shared.pending_instruction = Some(WidgetInstruction::Ota { url: "u".to_string() });
    let s1 = shared.next_display_step();
    assert_eq!(s1.brightness, Some(3));
    assert!(matches!(s1.action, DisplayAction::ApplyConfig(_)));
    let s2 = shared.next_display_step();
    assert_eq!(s2.brightness, None);
    assert!(matches!(s2.action, DisplayAction::Install(WidgetInstruction::Ota { .. })));
    assert_eq!(shared.ota_url, Some("u".to_string()));
    let s3 = shared.next_display_step();
    assert!(matches!(s3.action, DisplayAction::Ota(ref u) if u == "u"));
    let s4 = shared.next_display_step();
    assert!(matches!(s4.action, DisplayAction::RunCurrent));
}

#[test]
fn widget_outcomes() {
    assert!(revert_to_clock(RunOutcome::Finished));
    assert!(revert_to_clock(RunOutcome::Failed));
    assert!(!revert_to_clock(RunOutcome::Cancelled));
}

#[test]
fn installed_token_is_the_shared_one() {
    let mut shared = SharedState::new();
    shared.pending_instruction = Some(WidgetInstruction::Clock { format_24h: true });
    let old = shared.current_cancel.share();
    let step = shared.next_display_step();
    assert!(matches!(step.action, DisplayAction::Install(_)));
    let token = shared.install_token(CancelToken::new());
    assert!(!token.is_cancelled());
    old.cancel();
    assert!(!token.is_cancelled());
    shared.current_cancel.cancel();
    assert!(token.is_cancelled());
}

#[test]
fn response_reports_wake_and_keeps_the_shared_token() {
    let mut net = NetworkState::new();
    let mut shared = SharedState::new();
    let before = shared.current_cancel.share();
    assert!(net.on_response(reply(Some(WidgetInstruction::Clock { format_24h: false })), &mut shared));
    assert!(!before.is_cancelled());
    shared.current_cancel.cancel();
    assert!(before.is_cancelled());
}

#[test]
fn fallback_clock_follows_last_clock_instruction() {
    let (mut state, first) = DisplayState::new(true);
    assert!(first.format_24h);
    let mut shared = SharedState::new();
    let old_token = shared.current_cancel.share();
    assert!(matches!(state.install(WidgetInstruction::Clock { format_24h: false }), WidgetChoice::Clock(c) if !c.format_24h));
    state.install(WidgetInstruction::Message { text: "x".to_string(), scroll_speed_ms: 50, repeats: 1 });
    let (clock, token) = state.after_run(RunOutcome::Finished, &mut shared, CancelToken::new()).expect("falls back");
    assert!(!clock.format_24h);
    assert!(!token.is_cancelled());
    old_token.cancel();
    assert!(!shared.current_cancel.is_cancelled());
    token.cancel();
    assert!(shared.current_cancel.is_cancelled());
    assert!(state.after_run(RunOutcome::Cancelled, &mut shared, CancelToken::new()).is_none());
    let (ota_clock, _) = state.fall_back(&mut shared, CancelToken::new());
    assert!(!ota_clock.format_24h);
    assert!(state.after_run(RunOutcome::Failed, &mut shared, CancelToken::new()).is_some());
}
