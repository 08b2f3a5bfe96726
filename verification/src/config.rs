//! Application configuration and its stored form.
//!
//! Per-device values (WiFi credentials, server URL, device ID, ...) are
//! provisioned into non-volatile storage. Reading and writing that storage
//! is the caller's business; this module turns the raw stored values into
//! a configuration (with defaults for missing keys) and back.

use vstd::prelude::*;
use crate::text::trim_trailing;
use crate::network::{copy_optional_text, optional_text};

verus! {

/// Application configuration.
#[derive(Debug, Clone)]
pub struct AppConfig {
    pub wifi_ssid: String,
    pub wifi_password: String,
    pub server_url: String,
    pub device_id: String,
    pub format_24h: bool,
    pub default_brightness: u8,
    pub poll_interval_ms: u64,
    /// POSIX TZ string, e.g. "CST6CDT,M3.2.0,M11.1.0" for US Central.
    pub tz: String,
    /// UDP syslog target as "host:port", e.g. "192.168.1.50:5514". None = disabled.
    pub syslog_host: Option<String>,
}

/// The values of an `AppConfig`.
pub struct ConfigModel {
    pub wifi_ssid: Seq<char>,
    pub wifi_password: Seq<char>,
    pub server_url: Seq<char>,
    pub device_id: Seq<char>,
    pub format_24h: bool,
    pub default_brightness: u8,
    pub poll_interval_ms: u64,
    pub tz: Seq<char>,
    pub syslog_host: Option<Seq<char>>,
}

impl View for AppConfig {
    type V = ConfigModel;

    open spec fn view(&self) -> ConfigModel {
        ConfigModel {
            wifi_ssid: self.wifi_ssid@,
            wifi_password: self.wifi_password@,
            server_url: self.server_url@,
            device_id: self.device_id@,
            format_24h: self.format_24h,
            default_brightness: self.default_brightness,
            poll_interval_ms: self.poll_interval_ms,
            tz: self.tz@,
            syslog_host: optional_text(self.syslog_host),
        }
    }
}

/// The raw values found in storage, one per key; `None` where a key is
/// absent. Strings are as stored (possibly with trailing NULs); the poll
/// interval is stored as a signed 32-bit value.
#[derive(Debug, Clone)]
pub struct StoredConfig {
    pub wifi_ssid: Option<String>,
    pub wifi_password: Option<String>,
    pub server_url: Option<String>,
    pub device_id: Option<String>,
    pub format_24h: Option<u8>,
    pub brightness: Option<u8>,
    pub poll_ms: Option<i32>,
    pub tz: Option<String>,
    pub syslog_host: Option<String>,
}

/// The values of a `StoredConfig`.
pub struct StoredModel {
    pub wifi_ssid: Option<Seq<char>>,
    pub wifi_password: Option<Seq<char>>,
    pub server_url: Option<Seq<char>>,
    pub device_id: Option<Seq<char>>,
    pub format_24h: Option<u8>,
    pub brightness: Option<u8>,
    pub poll_ms: Option<i32>,
    pub tz: Option<Seq<char>>,
    pub syslog_host: Option<Seq<char>>,
}

impl View for StoredConfig {
    type V = StoredModel;

    open spec fn view(&self) -> StoredModel {
        StoredModel {
            wifi_ssid: optional_text(self.wifi_ssid),
            wifi_password: optional_text(self.wifi_password),
            server_url: optional_text(self.server_url),
            device_id: optional_text(self.device_id),
            format_24h: self.format_24h,
            brightness: self.brightness,
            poll_ms: self.poll_ms,
            tz: optional_text(self.tz),
            syslog_host: optional_text(self.syslog_host),
        }
    }
}

/// A stored string as a value: trailing NULs dropped, and nothing left
/// counts as absent.
pub open spec fn cleaned(raw: Option<Seq<char>>) -> Option<Seq<char>> {
    match raw {
        Some(s) => {
            let t = trim_trailing(s, '\0');
            if t.len() == 0 { None } else { Some(t) }
        },
        None => None,
    }
}

/// A cleaned stored string, or `default` when absent.
pub open spec fn text_or(raw: Option<Seq<char>>, default: Seq<char>) -> Seq<char> {
    match cleaned(raw) {
        Some(t) => t,
        None => default,
    }
}

/// The configuration described by stored values, with the defaults for
/// missing keys: empty WiFi credentials and server URL, device id
/// "unprovisioned", 24-hour clock, brightness 4, poll every 5000 ms,
/// time zone "UTC0", syslog off.
pub open spec fn config_from_stored(s: StoredModel) -> ConfigModel {
    ConfigModel {
        wifi_ssid: text_or(s.wifi_ssid, Seq::empty()),
        wifi_password: text_or(s.wifi_password, Seq::empty()),
        server_url: text_or(s.server_url, Seq::empty()),
        device_id: text_or(s.device_id, "unprovisioned"@),
        format_24h: match s.format_24h {
            Some(v) => v != 0,
            None => true,
        },
        default_brightness: match s.brightness {
            Some(v) => v,
            None => 4u8,
        },
        poll_interval_ms: match s.poll_ms {
            Some(v) => (v as u32) as u64,
            None => 5000u64,
        },
        tz: text_or(s.tz, "UTC0"@),
        syslog_host: cleaned(s.syslog_host),
    }
}

/// The values a configuration is stored as: every string as is, the clock
/// format as 1 or 0, the poll interval truncated to 32 bits, and no
/// syslog key when syslog is off.
pub open spec fn stored_from_config(c: ConfigModel) -> StoredModel {
    StoredModel {
        wifi_ssid: Some(c.wifi_ssid),
        wifi_password: Some(c.wifi_password),
        server_url: Some(c.server_url),
        device_id: Some(c.device_id),
        format_24h: Some(if c.format_24h { 1u8 } else { 0u8 }),
        brightness: Some(c.default_brightness),
        poll_ms: Some((c.poll_interval_ms as u32) as i32),
        tz: Some(c.tz),
        syslog_host: c.syslog_host,
    }
}

/// Every key missing from storage takes its default, whatever
/// the other keys hold: empty WiFi credentials and server URL, device id
/// `unprovisioned`, time zone `UTC0`, 24-hour clock, brightness 4, a poll
/// every 5000 ms, and no syslog target.
pub proof fn absent_keys_take_defaults(s: StoredModel)
    ensures
        s.wifi_ssid is None ==> config_from_stored(s).wifi_ssid.len() == 0,
        s.wifi_password is None ==> config_from_stored(s).wifi_password.len() == 0,
        s.server_url is None ==> config_from_stored(s).server_url.len() == 0,
        s.device_id is None ==> config_from_stored(s).device_id == "unprovisioned"@,
        s.tz is None ==> config_from_stored(s).tz == "UTC0"@,
        s.format_24h is None ==> config_from_stored(s).format_24h,
        s.brightness is None ==> config_from_stored(s).default_brightness == 4,
        s.poll_ms is None ==> config_from_stored(s).poll_interval_ms == 5000,
        s.syslog_host is None ==> config_from_stored(s).syslog_host is None,
{
}

/// A stored string that is nothing but NULs, or empty, counts as absent;
/// otherwise its value is the stored text up to its last character that is
/// not NUL.
pub proof fn cleaned_drops_trailing_nuls(raw: Seq<char>)
    ensures
        (forall|i: int| 0 <= i < raw.len() ==> raw[i] == '\0') ==> cleaned(Some(raw)) is None,
        forall|k: int|
            0 <= k < raw.len() && raw[k] != '\0' && (forall|i: int| k < i < raw.len() ==> raw[i]
                == '\0') ==> cleaned(Some(raw)) == Some(raw.take(k + 1)),
{
    crate::text::trim_trailing_shape(raw, '\0');
    let t = trim_trailing(raw, '\0');
    if forall|i: int| 0 <= i < raw.len() ==> raw[i] == '\0' {
        if t.len() > 0 {
            assert(raw[t.len() - 1] == t.last());
        }
    }
    assert forall|k: int|
        0 <= k < raw.len() && raw[k] != '\0' && (forall|i: int| k < i < raw.len() ==> raw[i]
            == '\0') implies cleaned(Some(raw)) == Some(raw.take(k + 1)) by {
        if t.len() < k + 1 {
            assert(raw[k] == '\0');
        }
        if t.len() > k + 1 {
            assert(raw[t.len() - 1] == t.last());
        }
        assert(t.len() == k + 1);
    }
}

/// A stored string as a value: trailing NULs dropped; `None` if nothing
/// is left.
pub fn clean_stored_text(raw: &str) -> (r: Option<String>)
    ensures
        optional_text(r) == cleaned(Some(raw@)),
{
    let n = raw.unicode_len();
    let mut k = n;
    assert(raw@.take(n as int) =~= raw@);
    while k > 0 && raw.get_char(k - 1) == '\0'
        invariant
            k <= n,
            n == raw@.len(),
            trim_trailing(raw@.take(k as int), '\0') == trim_trailing(raw@, '\0'),
        decreases k,
    {
        assert(raw@.take(k as int).drop_last() =~= raw@.take(k as int - 1));
        k = k - 1;
    }
    if k == 0 {
        assert(raw@.take(0) =~= Seq::<char>::empty());
        None
    } else {
        let kept = raw.substring_char(0, k);
        assert(kept@ =~= raw@.take(k as int));
        Some(String::from_str(kept))
    }
}

fn clean_optional(raw: &Option<String>) -> (r: Option<String>)
    ensures
        optional_text(r) == cleaned(optional_text(*raw)),
{
    match raw {
        Some(s) => clean_stored_text(s.as_str()),
        None => None,
    }
}

fn text_or_default(raw: &Option<String>, default: &str) -> (r: String)
    ensures
        r@ == text_or(optional_text(*raw), default@),
{
    match clean_optional(raw) {
        Some(t) => t,
        None => String::from_str(default),
    }
}

impl AppConfig {
    /// The configuration described by the stored values, with defaults
    /// for missing keys.
    pub fn from_stored(stored: &StoredConfig) -> (r: AppConfig)
        ensures
            r@ == config_from_stored(stored@),
    {
        let format_24h = match stored.format_24h {
            Some(v) => v != 0,
            None => true,
        };
        let default_brightness = match stored.brightness {
            Some(v) => v,
            None => 4,
        };
        let poll_interval_ms: u64 = match stored.poll_ms {
            Some(v) => (v as u32) as u64,
            None => 5000,
        };
        let r = AppConfig {
            wifi_ssid: text_or_default(&stored.wifi_ssid, ""),
            wifi_password: text_or_default(&stored.wifi_password, ""),
            server_url: text_or_default(&stored.server_url, ""),
            device_id: text_or_default(&stored.device_id, "unprovisioned"),
            format_24h,
            default_brightness,
            poll_interval_ms,
            tz: text_or_default(&stored.tz, "UTC0"),
            syslog_host: clean_optional(&stored.syslog_host),
        };
        proof {
            reveal_strlit("");
            assert(""@ =~= Seq::<char>::empty());
        }
        r
    }

    /// The values this configuration is stored as.
    pub fn to_stored(&self) -> (r: StoredConfig)
        ensures
            r@ == stored_from_config(self@),
    {
        StoredConfig {
            wifi_ssid: Some(self.wifi_ssid.clone()),
            wifi_password: Some(self.wifi_password.clone()),
            server_url: Some(self.server_url.clone()),
            device_id: Some(self.device_id.clone()),
            format_24h: Some(if self.format_24h { 1 } else { 0 }),
            brightness: Some(self.default_brightness),
            poll_ms: Some((self.poll_interval_ms as u32) as i32),
            tz: Some(self.tz.clone()),
            syslog_host: copy_optional_text(&self.syslog_host),
        }
    }

    /// Check if WiFi credentials are configured.
    pub fn has_wifi_config(&self) -> (r: bool)
        ensures
            r == (self.wifi_ssid@.len() > 0 && self.wifi_password@.len() > 0),
    {
        !self.wifi_ssid.as_str().is_empty() && !self.wifi_password.as_str().is_empty()
    }
}

/// A string without trailing NULs reads back as itself.
proof fn lemma_clean_plain_text(s: Seq<char>)
    requires
        s.len() > 0,
        s.last() != '\0',
    ensures
        cleaned(Some(s)) == Some(s),
{
}

/// What is stored is what is read back: loading the stored form of a
/// configuration gives that configuration again, provided its strings do
/// not end in NUL, its device id and time zone are not empty (empty ones
/// read back as their defaults), syslog is not set to an empty target,
/// and the poll interval fits in 32 bits.
pub proof fn stored_config_round_trip(c: ConfigModel)
    requires
        c.wifi_ssid.len() > 0 ==> c.wifi_ssid.last() != '\0',
        c.wifi_password.len() > 0 ==> c.wifi_password.last() != '\0',
        c.server_url.len() > 0 ==> c.server_url.last() != '\0',
        c.device_id.len() > 0 && c.device_id.last() != '\0',
        c.tz.len() > 0 && c.tz.last() != '\0',
        c.syslog_host matches Some(h) ==> h.len() > 0 && h.last() != '\0',
        c.poll_interval_ms <= u32::MAX,
    ensures
        config_from_stored(stored_from_config(c)) == c,
{
    let s = stored_from_config(c);
    if c.wifi_ssid.len() > 0 {
        lemma_clean_plain_text(c.wifi_ssid);
    } else {
        assert(c.wifi_ssid =~= Seq::<char>::empty());
    }
    if c.wifi_password.len() > 0 {
        lemma_clean_plain_text(c.wifi_password);
    } else {
        assert(c.wifi_password =~= Seq::<char>::empty());
    }
    if c.server_url.len() > 0 {
        lemma_clean_plain_text(c.server_url);
    } else {
        assert(c.server_url =~= Seq::<char>::empty());
    }
    lemma_clean_plain_text(c.device_id);
    lemma_clean_plain_text(c.tz);
    if let Some(h) = c.syslog_host {
        lemma_clean_plain_text(h);
    }
    let p = c.poll_interval_ms;
    assert(p <= 0xffff_ffff ==> ((p as u32) as i32) as u32 as u64 == p) by (bit_vector);
    let fmt = if c.format_24h { 1u8 } else { 0u8 };
    assert((fmt != 0) == c.format_24h);
}

} // verus!
