//! What the server tells the device: display instructions, brightness,
//! poll interval and remote configuration updates.

pub mod polling;

use vstd::prelude::*;

verus! {

/// Instruction from the server describing what to display.
#[derive(Debug, Clone, PartialEq)]
pub enum WidgetInstruction {
    /// Current time with a blinking colon.
    Clock { format_24h: bool },
    /// Text, centered when it fits, scrolled otherwise.
    Message { text: String, scroll_speed_ms: u64, repeats: i32 },
    /// 32 raw column bytes for the pixel matrix.
    RawPixel { data: Vec<u8> },
    /// Raw segment bitmasks for a segment display.
    RawSegment { segments: Vec<u16>, colon: bool },
    /// A named animation, for `duration_secs` seconds (0 = forever).
    Animation { animation: String, duration_secs: u64 },
    /// Over-the-air firmware update from `url`.
    Ota { url: String },
}

/// The mathematical value of an instruction: its strings and vectors by
/// their contents.
pub enum InstructionModel {
    Clock { format_24h: bool },
    Message { text: Seq<char>, scroll_speed_ms: u64, repeats: i32 },
    RawPixel { data: Seq<u8> },
    RawSegment { segments: Seq<u16>, colon: bool },
    Animation { animation: Seq<char>, duration_secs: u64 },
    Ota { url: Seq<char> },
}

impl View for WidgetInstruction {
    type V = InstructionModel;

    open spec fn view(&self) -> InstructionModel {
        match self {
            WidgetInstruction::Clock { format_24h } => InstructionModel::Clock {
                format_24h: *format_24h,
            },
            WidgetInstruction::Message { text, scroll_speed_ms, repeats } =>
                InstructionModel::Message {
                text: text@,
                scroll_speed_ms: *scroll_speed_ms,
                repeats: *repeats,
            },
            WidgetInstruction::RawPixel { data } => InstructionModel::RawPixel { data: data@ },
            WidgetInstruction::RawSegment { segments, colon } => InstructionModel::RawSegment {
                segments: segments@,
                colon: *colon,
            },
            WidgetInstruction::Animation { animation, duration_secs } =>
                InstructionModel::Animation {
                animation: animation@,
                duration_secs: *duration_secs,
            },
            WidgetInstruction::Ota { url } => InstructionModel::Ota { url: url@ },
        }
    }
}

/// Copy a byte vector.
pub fn copy_bytes(v: &Vec<u8>) -> (r: Vec<u8>)
    ensures
        r@ == v@,
{
    let mut r: Vec<u8> = Vec::new();
    let mut i: usize = 0;
    while i < v.len()
        invariant
            i <= v.len(),
            r@ == v@.take(i as int),
        decreases v.len() - i,
    {
        r.push(v[i]);
        i = i + 1;
        assert(r@ =~= v@.take(i as int));
    }
    assert(v@.take(v.len() as int) =~= v@);
    r
}

/// Copy a vector of segment words.
pub fn copy_words(v: &Vec<u16>) -> (r: Vec<u16>)
    ensures
        r@ == v@,
{
    let mut r: Vec<u16> = Vec::new();
    let mut i: usize = 0;
    while i < v.len()
        invariant
            i <= v.len(),
            r@ == v@.take(i as int),
        decreases v.len() - i,
    {
        r.push(v[i]);
        i = i + 1;
        assert(r@ =~= v@.take(i as int));
    }
    assert(v@.take(v.len() as int) =~= v@);
    r
}

/// Whether two byte vectors hold the same bytes.
pub fn same_bytes(a: &Vec<u8>, b: &Vec<u8>) -> (r: bool)
    ensures
        r == (a@ == b@),
{
    if a.len() != b.len() {
        return false;
    }
    let mut i: usize = 0;
    while i < a.len()
        invariant
            a.len() == b.len(),
            i <= a.len(),
            a@.take(i as int) == b@.take(i as int),
        decreases a.len() - i,
    {
        if a[i] != b[i] {
            assert(a@[i as int] != b@[i as int]);
            return false;
        }
        assert(a@.take(i as int + 1) =~= a@.take(i as int).push(a@[i as int]));
        assert(b@.take(i as int + 1) =~= b@.take(i as int).push(b@[i as int]));
        i = i + 1;
    }
    assert(a@.take(a.len() as int) =~= a@);
    assert(b@.take(b.len() as int) =~= b@);
    true
}

/// Whether two vectors of segment words hold the same words.
pub fn same_words(a: &Vec<u16>, b: &Vec<u16>) -> (r: bool)
    ensures
        r == (a@ == b@),
{
    if a.len() != b.len() {
        return false;
    }
    let mut i: usize = 0;
    while i < a.len()
        invariant
            a.len() == b.len(),
            i <= a.len(),
            a@.take(i as int) == b@.take(i as int),
        decreases a.len() - i,
    {
        if a[i] != b[i] {
            assert(a@[i as int] != b@[i as int]);
            return false;
        }
        assert(a@.take(i as int + 1) =~= a@.take(i as int).push(a@[i as int]));
        assert(b@.take(i as int + 1) =~= b@.take(i as int).push(b@[i as int]));
        i = i + 1;
    }
    assert(a@.take(a.len() as int) =~= a@);
    assert(b@.take(b.len() as int) =~= b@);
    true
}

/// Whether two strings hold the same characters.
pub fn same_text(a: &String, b: &String) -> (r: bool)
    ensures
        r == (a@ == b@),
{
    a.eq(b)
}

/// Whether two optional strings are both absent or hold the same text.
pub fn same_optional_text(a: &Option<String>, b: &Option<String>) -> (r: bool)
    ensures
        r == (optional_text(*a) == optional_text(*b)),
{
    match (a, b) {
        (None, None) => true,
        (Some(x), Some(y)) => same_text(x, y),
        _ => false,
    }
}

/// An optional string by its characters.
pub open spec fn optional_text(s: Option<String>) -> Option<Seq<char>> {
    match s {
        Some(t) => Some(t@),
        None => None,
    }
}

impl WidgetInstruction {
    /// A copy of this instruction.
    pub fn duplicate(&self) -> (r: WidgetInstruction)
        ensures
            r@ == self@,
    {
        match self {
            WidgetInstruction::Clock { format_24h } => WidgetInstruction::Clock {
                format_24h: *format_24h,
            },
            WidgetInstruction::Message { text, scroll_speed_ms, repeats } =>
                WidgetInstruction::Message {
                text: text.clone(),
                scroll_speed_ms: *scroll_speed_ms,
                repeats: *repeats,
            },
            WidgetInstruction::RawPixel { data } => WidgetInstruction::RawPixel {
                data: copy_bytes(data),
            },
            WidgetInstruction::RawSegment { segments, colon } => WidgetInstruction::RawSegment {
                segments: copy_words(segments),
                colon: *colon,
            },
            WidgetInstruction::Animation { animation, duration_secs } =>
                WidgetInstruction::Animation {
                animation: animation.clone(),
                duration_secs: *duration_secs,
            },
            WidgetInstruction::Ota { url } => WidgetInstruction::Ota { url: url.clone() },
        }
    }

    /// Whether two instructions ask for the same thing.
    pub fn same_as(&self, other: &WidgetInstruction) -> (r: bool)
        ensures
            r == (self@ == other@),
    {
        match (self, other) {
            (WidgetInstruction::Clock { format_24h: a }, WidgetInstruction::Clock { format_24h: b }) =>
                *a == *b,
            (
                WidgetInstruction::Message { text: t1, scroll_speed_ms: s1, repeats: r1 },
                WidgetInstruction::Message { text: t2, scroll_speed_ms: s2, repeats: r2 },
            ) => same_text(t1, t2) && *s1 == *s2 && *r1 == *r2,
            (WidgetInstruction::RawPixel { data: d1 }, WidgetInstruction::RawPixel { data: d2 }) =>
                same_bytes(d1, d2),
            (
                WidgetInstruction::RawSegment { segments: s1, colon: c1 },
                WidgetInstruction::RawSegment { segments: s2, colon: c2 },
            ) => same_words(s1, s2) && *c1 == *c2,
            (
                WidgetInstruction::Animation { animation: a1, duration_secs: d1 },
                WidgetInstruction::Animation { animation: a2, duration_secs: d2 },
            ) => same_text(a1, a2) && *d1 == *d2,
            (WidgetInstruction::Ota { url: u1 }, WidgetInstruction::Ota { url: u2 }) => same_text(
                u1,
                u2,
            ),
            _ => false,
        }
    }
}

/// Default clock format when the server omits it: 24-hour.
pub fn default_true() -> (r: bool)
    ensures
        r,
{
    true
}

/// Default scroll step when the server omits it: 50 ms.
pub fn default_scroll_speed() -> (r: u64)
    ensures
        r == 50,
{
    50
}

/// Default number of message repeats when the server omits it: 1.
pub fn default_repeats() -> (r: i32)
    ensures
        r == 1,
{
    1
}

/// Default animation length when the server omits it: 30 seconds.
pub fn default_animation_duration() -> (r: u64)
    ensures
        r == 30,
{
    30
}

/// Remote configuration update delivered alongside an instruction.
///
/// Lets the server change persisted settings without re-provisioning a
/// device. Absent fields are left unchanged; an empty `syslog_host`
/// disables syslog. Updates are deduplicated by the device, so the server
/// can keep returning the same `config` on every poll.
#[derive(Debug, Clone, PartialEq)]
pub struct ConfigUpdate {
    /// UDP syslog target as "host:port". Empty string disables syslog.
    pub syslog_host: Option<String>,
    /// POSIX TZ string, e.g. "CST6CDT,M3.2.0,M11.1.0".
    pub tz: Option<String>,
}

impl View for ConfigUpdate {
    type V = (Option<Seq<char>>, Option<Seq<char>>);

    open spec fn view(&self) -> (Option<Seq<char>>, Option<Seq<char>>) {
        (optional_text(self.syslog_host), optional_text(self.tz))
    }
}

/// Copy an optional string.
pub fn copy_optional_text(s: &Option<String>) -> (r: Option<String>)
    ensures
        optional_text(r) == optional_text(*s),
{
    match s {
        Some(t) => Some(t.clone()),
        None => None,
    }
}

impl ConfigUpdate {
    /// A copy of this update.
    pub fn duplicate(&self) -> (r: ConfigUpdate)
        ensures
            r@ == self@,
    {
        ConfigUpdate {
            syslog_host: copy_optional_text(&self.syslog_host),
            tz: copy_optional_text(&self.tz),
        }
    }

    /// Whether two updates carry the same settings.
    pub fn same_as(&self, other: &ConfigUpdate) -> (r: bool)
        ensures
            r == (self@ == other@),
    {
        same_optional_text(&self.syslog_host, &other.syslog_host) && same_optional_text(
            &self.tz,
            &other.tz,
        )
    }
}

/// Full server response. Every field is optional.
#[derive(Debug, Clone)]
pub struct ServerResponse {
    pub instruction: Option<WidgetInstruction>,
    pub brightness: Option<u8>,
    pub poll_interval_ms: Option<u64>,
    pub config: Option<ConfigUpdate>,
}

} // verus!
