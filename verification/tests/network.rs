use kurokku::network::polling::{HttpPoller, PollError};
use kurokku::network::{
    default_animation_duration, default_repeats, default_scroll_speed, default_true, ConfigUpdate,
    ServerResponse, WidgetInstruction,
};

#[test]
fn serde_defaults() {
    assert!(default_true());
    assert_eq!(default_scroll_speed(), 50);
    assert_eq!(default_repeats(), 1);
    assert_eq!(default_animation_duration(), 30);
}

#[test]
fn instruction_equality_and_copy() {
    let a = WidgetInstruction::Message { text: "Hi".to_string(), scroll_speed_ms: 50, repeats: 1 };
    let b = a.duplicate();
    assert_eq!(a, b);
    assert!(a.same_as(&b));
    let c = WidgetInstruction::Message { text: "Ho".to_string(), scroll_speed_ms: 50, repeats: 1 };
    assert!(!a.same_as(&c));
    let d = WidgetInstruction::RawPixel { data: vec![1, 2, 3] };
    assert!(d.same_as(&d.duplicate()));
    assert!(!d.same_as(&WidgetInstruction::RawPixel { data: vec![1, 2] }));
    assert!(!a.same_as(&d));
}

#[test]
fn config_update_equality() {
    let a = ConfigUpdate { syslog_host: Some("h:1".to_string()), tz: None };
    assert!(a.same_as(&a.duplicate()));
    assert!(!a.same_as(&ConfigUpdate { syslog_host: None, tz: None }));
}

#[test]
fn poller_trims_trailing_slashes_and_builds_url() {
    let p = HttpPoller::new("http://host:8080//", "dev1", "max7219", 5000);
    assert_eq!(
        p.instruction_url("0.1.0%2Babc"),
        "http://host:8080/api/v1/devices/dev1/instruction?display_type=max7219&firmware_version=0.1.0%2Babc"
    );
    assert_eq!(p.recommended_interval(), 5000);
}

#[test]
fn poller_status_and_interval() {
    assert_eq!(HttpPoller::check_status(200), Ok(()));
    assert_eq!(HttpPoller::check_status(404), Err(PollError::BadStatus(404)));
    let mut p = HttpPoller::new("http://h", "d", "tm1637", 5000);
    p.set_poll_interval(1000);
    assert_eq!(p.recommended_interval(), 1000);
    let resp = ServerResponse { instruction: None, brightness: None, poll_interval_ms: Some(250), config: None };
    p.apply_response(&resp);
    assert_eq!(p.recommended_interval(), 250);
    let quiet = ServerResponse { instruction: None, brightness: Some(3), poll_interval_ms: None, config: None };
    p.apply_response(&quiet);
    assert_eq!(p.recommended_interval(), 250);
}
