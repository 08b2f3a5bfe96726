use kurokku::config::{clean_stored_text, AppConfig, StoredConfig};
use kurokku::ota::{is_redirect, partition_summary};
use kurokku::udp_log::{syslog_message, syslog_priority, LogLevel};

fn empty_store() -> StoredConfig {
    StoredConfig {
        wifi_ssid: None,
        wifi_password: None,
        server_url: None,
        device_id: None,
        format_24h: None,
        brightness: None,
        poll_ms: None,
        tz: None,
        syslog_host: None,
    }
}

#[test]
fn missing_keys_take_defaults() {
    let cfg = AppConfig::from_stored(&empty_store());
    assert_eq!(cfg.wifi_ssid, "");
    assert_eq!(cfg.device_id, "unprovisioned");
    assert!(cfg.format_24h);
    assert_eq!(cfg.default_brightness, 4);
    assert_eq!(cfg.poll_interval_ms, 5000);
    assert_eq!(cfg.tz, "UTC0");
    assert_eq!(cfg.syslog_host, None);
    assert!(!cfg.has_wifi_config());
}

#[test]
fn stored_strings_are_cleaned() {
    assert_eq!(clean_stored_text("abc\0\0"), Some("abc".to_string()));
    assert_eq!(clean_stored_text("\0"), None);
    assert_eq!(clean_stored_text(""), None);
    let mut s = empty_store();
    s.device_id = Some("\0".to_string());
    s.poll_ms = Some(-1);
    s.format_24h = Some(0);
    let cfg = AppConfig::from_stored(&s);
    assert_eq!(cfg.device_id, "unprovisioned");
    assert_eq!(cfg.poll_interval_ms, 4294967295);
    assert!(!cfg.format_24h);
}

#[test]
fn saved_config_loads_back() {
    let cfg = AppConfig {
        wifi_ssid: "net".to_string(),
        wifi_password: "secret".to_string(),
        server_url: "http://srv".to_string(),
        device_id: "esp32-001".to_string(),
        format_24h: false,
        default_brightness: 9,
        poll_interval_ms: 10000,
        tz: "CST6CDT,M3.2.0,M11.1.0".to_string(),
        syslog_host: Some("192.168.1.50:5514".to_string()),
    };
    assert!(cfg.has_wifi_config());
    let back = AppConfig::from_stored(&cfg.to_stored());
    assert_eq!(back.wifi_ssid, cfg.wifi_ssid);
    assert_eq!(back.wifi_password, cfg.wifi_password);
    assert_eq!(back.server_url, cfg.server_url);
    assert_eq!(back.device_id, cfg.device_id);
    assert_eq!(back.format_24h, cfg.format_24h);
    assert_eq!(back.default_brightness, cfg.default_brightness);
    assert_eq!(back.poll_interval_ms, cfg.poll_interval_ms);
    assert_eq!(back.tz, cfg.tz);
    assert_eq!(back.syslog_host, cfg.syslog_host);
}

#[test]
fn syslog_priorities() {
    assert_eq!(syslog_priority(LogLevel::Error), 11);
    assert_eq!(syslog_priority(LogLevel::Warn), 12);
    assert_eq!(syslog_priority(LogLevel::Info), 14);
    assert_eq!(syslog_priority(LogLevel::Debug), 15);
    assert_eq!(syslog_priority(LogLevel::Trace), 15);
}

#[test]
fn syslog_message_layout() {
    assert_eq!(
        syslog_message(LogLevel::Info, "esp32-001", "kurokku::engine", "hello"),
        "<14>1 - esp32-001 kurokku::engine - - - hello"
    );
}

#[test]
fn ota_redirects_and_summary() {
    for s in [301u16, 302, 303, 307, 308] {
        assert!(is_redirect(s));
    }
    assert!(!is_redirect(200));
    assert!(!is_redirect(304));
    assert_eq!(partition_summary("ota_0", Some("0.1.0")), "partition=ota_0, firmware=0.1.0");
    assert_eq!(partition_summary("factory", None), "partition=factory, firmware=unknown");
}
