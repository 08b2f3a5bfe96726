//! Engine decisions: which widget an instruction asks for, how server
//! replies are folded into the state shared between the network and
//! display threads, and what the display thread does next.
//!
//! The threads, the locking, the display writes and the network calls
//! are the caller's; this module holds the rules.

use vstd::prelude::*;
use crate::network::{
    optional_text, ConfigUpdate, InstructionModel, ServerResponse,
    WidgetInstruction,
};
use crate::widget::animation::{Animation, AnimationType};
use crate::widget::clock::Clock;
use crate::widget::message::Message;
use crate::widget::raw_render::{RawPixel, RawSegment};
use crate::widget::status::Status;
use crate::widget::CancelToken;

verus! {

/// Consecutive failed polls after which the device reboots.
pub const MAX_CONSECUTIVE_FAILURES: u32 = 60;

/// How long the "OTA..." status is shown when an update is requested, in
/// milliseconds.
pub const OTA_STATUS_MS: u64 = 5000;

/// Whether a string holds exactly the characters of another.
pub fn text_is(s: &str, expected: &str) -> (r: bool)
    ensures
        r == (s@ == expected@),
{
    let n = s.unicode_len();
    if n != expected.unicode_len() {
        return false;
    }
    let mut i: usize = 0;
    while i < n
        invariant
            n == s@.len(),
            n == expected@.len(),
            i <= n,
            s@.take(i as int) == expected@.take(i as int),
        decreases n - i,
    {
        if s.get_char(i) != expected.get_char(i) {
            return false;
        }
        assert(s@.take(i as int + 1) =~= s@.take(i as int).push(s@[i as int]));
        assert(expected@.take(i as int + 1) =~= expected@.take(i as int).push(expected@[i as int]));
        i = i + 1;
    }
    assert(s@.take(n as int) =~= s@);
    assert(expected@.take(n as int) =~= expected@);
    true
}

/// The animation a name asks for; unknown names give `Static`.
pub open spec fn animation_for_name(name: Seq<char>) -> AnimationType {
    if name == "pong"@ {
        AnimationType::Pong
    } else if name == "matrix"@ || name == "matrix_rain"@ {
        AnimationType::MatrixRain
    } else if name == "snake"@ {
        AnimationType::Snake
    } else if name == "curtain"@ {
        AnimationType::Curtain
    } else if name == "sine"@ || name == "sine_wave"@ || name == "sinewave"@ {
        AnimationType::SineWave
    } else if name == "random"@ {
        AnimationType::Random
    } else {
        AnimationType::Static
    }
}

/// The animation a name asks for; unknown names give `Static`.
pub fn animation_kind(name: &str) -> (r: AnimationType)
    ensures
        r == animation_for_name(name@),
{
    if text_is(name, "pong") {
        AnimationType::Pong
    } else if text_is(name, "matrix") || text_is(name, "matrix_rain") {
        AnimationType::MatrixRain
    } else if text_is(name, "snake") {
        AnimationType::Snake
    } else if text_is(name, "curtain") {
        AnimationType::Curtain
    } else if text_is(name, "sine") || text_is(name, "sine_wave") || text_is(name, "sinewave") {
        AnimationType::SineWave
    } else if text_is(name, "random") {
        AnimationType::Random
    } else {
        AnimationType::Static
    }
}

/// Each animation has its own names and no name is shared: `pong`;
/// `matrix` or `matrix_rain`; `snake`; `curtain`; `sine`, `sine_wave` or
/// `sinewave`; `random`. Every other name gives TV noise.
pub proof fn animation_names(name: Seq<char>)
    ensures
        (animation_for_name(name) == AnimationType::Pong) <==> name == "pong"@,
        (animation_for_name(name) == AnimationType::MatrixRain) <==> (name == "matrix"@ || name
            == "matrix_rain"@),
        (animation_for_name(name) == AnimationType::Snake) <==> name == "snake"@,
        (animation_for_name(name) == AnimationType::Curtain) <==> name == "curtain"@,
        (animation_for_name(name) == AnimationType::SineWave) <==> (name == "sine"@ || name
            == "sine_wave"@ || name == "sinewave"@),
        (animation_for_name(name) == AnimationType::Random) <==> name == "random"@,
        (animation_for_name(name) == AnimationType::Static) <==> !(name == "pong"@ || name
            == "matrix"@ || name == "matrix_rain"@ || name == "snake"@ || name == "curtain"@
            || name == "sine"@ || name == "sine_wave"@ || name == "sinewave"@ || name
            == "random"@),
{
    reveal_strlit("pong");
    reveal_strlit("matrix");
    reveal_strlit("matrix_rain");
    reveal_strlit("snake");
    reveal_strlit("curtain");
    reveal_strlit("sine");
    reveal_strlit("sine_wave");
    reveal_strlit("sinewave");
    reveal_strlit("random");
    assert("pong"@.len() == 4 && "sine"@.len() == 4 && "pong"@[0] != "sine"@[0]);
    assert("snake"@.len() == 5);
    assert("matrix"@.len() == 6 && "random"@.len() == 6 && "matrix"@[0] != "random"@[0]);
    assert("curtain"@.len() == 7 && "sinewave"@.len() == 8 && "sine_wave"@.len() == 9);
    assert("matrix_rain"@.len() == 11);
}

/// The widget an instruction calls for.
pub enum WidgetChoice {
    Clock(Clock),
    Message(Message),
    RawPixel(RawPixel),
    RawSegment(RawSegment),
    Animation(Animation),
    /// An update is pending: show this status while it starts.
    OtaStatus(Status),
}

/// Whether `w` is the widget an instruction calls for: a clock in the
/// asked format, a message, raw pixels or segments as sent, the named
/// animation for the asked time, or for an update the "OTA..." status.
pub open spec fn widget_for(instruction: InstructionModel, w: WidgetChoice) -> bool {
    match instruction {
        InstructionModel::Clock { format_24h: f } => w matches WidgetChoice::Clock(c) && c.format_24h == f,
        InstructionModel::Message { text, scroll_speed_ms, repeats } => w matches WidgetChoice::Message(m)
            && m.spec_text() == text && m.spec_scroll_speed_ms() == scroll_speed_ms
            && m.spec_repeats() == repeats,
        InstructionModel::RawPixel { data } => w matches WidgetChoice::RawPixel(p) && p.spec_data() == data,
        InstructionModel::RawSegment { segments, colon } => w matches WidgetChoice::RawSegment(s)
            && s.spec_segments() == segments && s.spec_colon() == colon,
        InstructionModel::Animation { animation, duration_secs } => w matches WidgetChoice::Animation(a)
            && a.spec_animation() == animation_for_name(animation) && a.spec_duration_secs()
            == duration_secs,
        InstructionModel::Ota { .. } => w matches WidgetChoice::OtaStatus(s) && s.text@ == "OTA..."@
            && s.duration_ms == OTA_STATUS_MS,
    }
}

/// The clock format to fall back to after an instruction: a clock
/// instruction sets it, every other instruction keeps it.
pub open spec fn next_format(instruction: InstructionModel, format_24h: bool) -> bool {
    match instruction {
        InstructionModel::Clock { format_24h: f } => f,
        _ => format_24h,
    }
}

/// The widget for an instruction, and the clock format to fall back to
/// from now on (a clock instruction sets it, others keep it).
pub fn choose_widget(instruction: WidgetInstruction, format_24h: bool) -> (r: (WidgetChoice, bool))
    ensures
        widget_for(instruction@, r.0),
        r.1 == next_format(instruction@, format_24h),
{
    match instruction {
        WidgetInstruction::Clock { format_24h: f } => (WidgetChoice::Clock(Clock::new(f)), f),
        WidgetInstruction::Message { text, scroll_speed_ms, repeats } => (
            WidgetChoice::Message(Message::new(text.as_str(), scroll_speed_ms, repeats)),
            format_24h,
        ),
        WidgetInstruction::RawPixel { data } => (WidgetChoice::RawPixel(RawPixel::new(data)), format_24h),
        WidgetInstruction::RawSegment { segments, colon } => (
            WidgetChoice::RawSegment(RawSegment::new(segments, colon)),
            format_24h,
        ),
        WidgetInstruction::Animation { animation, duration_secs } => (
            WidgetChoice::Animation(Animation::new(animation_kind(animation.as_str()), duration_secs)),
            format_24h,
        ),
        WidgetInstruction::Ota { .. } => (
            WidgetChoice::OtaStatus(Status::new("OTA...", OTA_STATUS_MS)),
            format_24h,
        ),
    }
}

/// How a widget run ended.
#[derive(Debug, Clone, Copy, PartialEq, Eq)]
pub enum RunOutcome {
    /// The widget finished on its own (a message done scrolling).
    Finished,
    /// A new instruction cancelled it.
    Cancelled,
    /// It failed (for example, the display type is not supported).
    Failed,
}

/// Whether the display falls back to the clock after a widget run: after
/// it finished or failed, yes; after a cancellation the new instruction
/// is picked up instead.
pub fn revert_to_clock(outcome: RunOutcome) -> (r: bool)
    ensures
        r == (outcome != RunOutcome::Cancelled),
{
    match outcome {
        RunOutcome::Cancelled => false,
        _ => true,
    }
}

/// A change of the syslog target.
pub enum SyslogChange {
    /// No syslog setting in the update.
    Keep,
    /// An empty target: forget the stored target and stop sending.
    Disable,
    /// Store this target and send to it.
    Enable(String),
}

/// What to do with a configuration update.
pub struct ConfigPlan {
    pub syslog: SyslogChange,
    /// A time zone to store and apply.
    pub tz: Option<String>,
}

/// The plan for a configuration update: an absent syslog target changes
/// nothing, an empty one disables syslog, another one enables it; a time
/// zone is applied unless absent or empty.
pub fn plan_config_update(update: &ConfigUpdate) -> (plan: ConfigPlan)
    ensures
        match optional_text(update.syslog_host) {
            None => plan.syslog is Keep,
            Some(h) => if h.len() == 0 {
                plan.syslog is Disable
            } else {
                plan.syslog matches SyslogChange::Enable(t) && t@ == h
            },
        },
        optional_text(plan.tz) == match optional_text(update.tz) {
            Some(tz) => if tz.len() == 0 { None } else { Some(tz) },
            None => None,
        },
{
    let syslog = match &update.syslog_host {
        None => SyslogChange::Keep,
        Some(h) => if h.as_str().is_empty() {
            SyslogChange::Disable
        } else {
            SyslogChange::Enable(h.clone())
        },
    };
    let tz = match &update.tz {
        Some(t) => if t.as_str().is_empty() { None } else { Some(t.clone()) },
        None => None,
    };
    ConfigPlan { syslog, tz }
}

/// An optional instruction by its value.
pub open spec fn optional_instruction(i: Option<WidgetInstruction>) -> Option<InstructionModel> {
    match i {
        Some(x) => Some(x@),
        None => None,
    }
}

/// An optional update by its value.
pub open spec fn optional_update(u: Option<ConfigUpdate>) -> Option<(Option<Seq<char>>, Option<Seq<char>>)> {
    match u {
        Some(x) => Some(x@),
        None => None,
    }
}

/// Deduplication of a reported value against the last one passed on:
/// a value different from the last is passed on and remembered; the same
/// value again, or no value, passes nothing on. Yields what is passed on
/// and what is remembered.
pub open spec fn dedup<T>(last: Option<T>, incoming: Option<T>) -> (Option<T>, Option<T>) {
    match incoming {
        Some(v) => if last == Some(v) { (None, last) } else { (Some(v), Some(v)) },
        None => (None, last),
    }
}

/// The failure count after a failed poll: reset when the WiFi link was
/// found down and restored, else one more.
pub open spec fn failures_after_failure(count: int, wifi_restored: bool) -> int {
    if wifi_restored { 0 } else { count + 1 }
}

/// What the display thread should take up, handed over by the network
/// thread.
pub struct SharedState {
    /// Latest instruction from the server; None = no change.
    pub pending_instruction: Option<WidgetInstruction>,
    /// Server-requested brightness override.
    pub pending_brightness: Option<u8>,
    /// Firmware update requested.
    pub ota_url: Option<String>,
    /// Remote configuration update.
    pub pending_config: Option<ConfigUpdate>,
    /// Cancel token of the widget being shown.
    pub current_cancel: CancelToken,
}

/// What the display thread does next.
pub enum DisplayAction {
    /// Apply a configuration update, then look again.
    ApplyConfig(ConfigUpdate),
    /// Start a firmware update from this URL; on failure, fall back to the
    /// clock with a fresh cancel token.
    Ota(String),
    /// Show the widget for this instruction, under a new cancel token
    /// installed with `SharedState::install_token`.
    Install(WidgetInstruction),
    /// Keep running the current widget.
    RunCurrent,
}

/// The display thread's next move: a brightness to apply first (if any),
/// then the action.
pub struct DisplayStep {
    pub brightness: Option<u8>,
    pub action: DisplayAction,
}

impl SharedState {
    /// Nothing pending.
    pub fn new() -> (r: Self)
        ensures
            r.pending_instruction is None,
            r.pending_brightness is None,
            r.ota_url is None,
            r.pending_config is None,
    {
        SharedState {
            pending_instruction: None,
            pending_brightness: None,
            ota_url: None,
            pending_config: None,
            current_cancel: CancelToken::new(),
        }
    }

    /// Take what is pending, in order of precedence: a brightness always;
    /// then a configuration update, else a firmware update, else a new
    /// instruction. An update instruction also becomes the pending
    /// firmware update, to be started on the next look.
    pub fn next_display_step(&mut self) -> (step: DisplayStep)
        ensures
            step.brightness == old(self).pending_brightness,
            final(self).pending_brightness is None,
            final(self).current_cancel == old(self).current_cancel,
            match old(self).pending_config {
                Some(c) => (step.action matches DisplayAction::ApplyConfig(u) && u@ == c@)
                    && final(self).pending_config is None && final(self).ota_url == old(self).ota_url
                    && final(self).pending_instruction == old(self).pending_instruction,
                None => final(self).pending_config is None && match old(self).ota_url {
                    Some(url) => (step.action matches DisplayAction::Ota(u) && u@ == url@)
                        && final(self).ota_url is None && final(self).pending_instruction
                        == old(self).pending_instruction,
                    None => match old(self).pending_instruction {
                        Some(i) => (step.action matches DisplayAction::Install(j) && j@ == i@)
                            && final(self).pending_instruction is None && match i@ {
                            InstructionModel::Ota { url } => optional_text(final(self).ota_url)
                                == Some(url),
                            _ => final(self).ota_url is None,
                        },
                        None => step.action is RunCurrent && final(self).pending_instruction is None
                            && final(self).ota_url is None,
                    },
                },
            },
    {
        let brightness = self.pending_brightness.take();
        if let Some(update) = self.pending_config.take() {
            return DisplayStep { brightness, action: DisplayAction::ApplyConfig(update) };
        }
        if let Some(url) = self.ota_url.take() {
            return DisplayStep { brightness, action: DisplayAction::Ota(url) };
        }
        match self.pending_instruction.take() {
            Some(instruction) => {
                if let WidgetInstruction::Ota { url } = &instruction {
                    self.ota_url = Some(url.clone());
                }
                DisplayStep { brightness, action: DisplayAction::Install(instruction) }
            },
            None => DisplayStep { brightness, action: DisplayAction::RunCurrent },
        }
    }

    /// Make `token` the current cancel token, the one a new instruction
    /// cancels, and hand it back for the widget about to run; nothing
    /// pending is touched.
    pub fn install_token(&mut self, token: CancelToken) -> (r: CancelToken)
        ensures
            r == token,
            final(self).current_cancel == token,
            final(self).pending_instruction == old(self).pending_instruction,
            final(self).pending_brightness == old(self).pending_brightness,
            final(self).ota_url == old(self).ota_url,
            final(self).pending_config == old(self).pending_config,
    {
        self.current_cancel = token.share();
        token
    }
}

/// The display thread's own state: the clock format it falls back to,
/// which is the one of the last clock instruction taken (the configured
/// one before any).
pub struct DisplayState {
    pub format_24h: bool,
}

impl DisplayState {
    /// Start from the configured clock format, showing the clock.
    pub fn new(config_format_24h: bool) -> (r: (DisplayState, Clock))
        ensures
            r.0.format_24h == config_format_24h,
            r.1.format_24h == config_format_24h,
    {
        (DisplayState { format_24h: config_format_24h }, Clock::new(config_format_24h))
    }

    /// Take an instruction: the widget it calls for; a clock instruction
    /// also becomes the format to fall back to.
    pub fn install(&mut self, instruction: WidgetInstruction) -> (w: WidgetChoice)
        ensures
            widget_for(instruction@, w),
            final(self).format_24h == next_format(instruction@, old(self).format_24h),
    {
        let (w, f) = choose_widget(instruction, self.format_24h);
        self.format_24h = f;
        w
    }

    /// Fall back to the clock, in the tracked format, under the new cancel
    /// token `token`, installed as the shared current one; nothing else
    /// pending is touched. Used after a widget finished or failed, and
    /// after a failed firmware update.
    pub fn fall_back(&self, shared: &mut SharedState, token: CancelToken) -> (r: (Clock, CancelToken))
        ensures
            r.0.format_24h == self.format_24h,
            r.1 == token,
            final(shared).current_cancel == token,
            final(shared).pending_instruction == old(shared).pending_instruction,
            final(shared).pending_brightness == old(shared).pending_brightness,
            final(shared).ota_url == old(shared).ota_url,
            final(shared).pending_config == old(shared).pending_config,
    {
        let token = shared.install_token(token);
        (Clock::new(self.format_24h), token)
    }

    /// After a widget run: a finished or failed widget gives way to the
    /// clock in the tracked format under the new token `token`, installed
    /// as the current one; after a cancellation nothing changes (the token
    /// is dropped) and the pending instruction is taken up instead.
    pub fn after_run(&self, outcome: RunOutcome, shared: &mut SharedState, token: CancelToken) -> (r: Option<(Clock, CancelToken)>)
        ensures
            outcome == RunOutcome::Cancelled ==> r is None && final(shared).current_cancel
                == old(shared).current_cancel,
            outcome != RunOutcome::Cancelled ==> (r matches Some(p) && p.0.format_24h
                == self.format_24h && p.1 == token && final(shared).current_cancel == token),
            final(shared).pending_instruction == old(shared).pending_instruction,
            final(shared).pending_brightness == old(shared).pending_brightness,
            final(shared).ota_url == old(shared).ota_url,
            final(shared).pending_config == old(shared).pending_config,
    {
        if revert_to_clock(outcome) {
            Some(self.fall_back(shared, token))
        } else {
            None
        }
    }
}

/// The fallback clock follows the clock instructions: after a clock
/// instruction it uses that instruction's format, and any other
/// instruction leaves the format as it was.
pub proof fn fallback_format_follows_clock_instructions(i: InstructionModel, format_24h: bool)
    ensures
        i matches InstructionModel::Clock { format_24h: f } ==> next_format(i, format_24h) == f,
        !(i is Clock) ==> next_format(i, format_24h) == format_24h,
{
}

/// What the network thread remembers between polls.
pub struct NetworkState {
    /// The last instruction passed on to the display.
    pub last_served: Option<WidgetInstruction>,
    /// The last configuration update passed on.
    pub last_config: Option<ConfigUpdate>,
    /// Failed polls in a row.
    pub consecutive_failures: u32,
}

impl NetworkState {
    /// Below the reboot threshold.
    pub open spec fn wf(&self) -> bool {
        self.consecutive_failures < MAX_CONSECUTIVE_FAILURES
    }

    /// Nothing served yet, no failures.
    pub fn new() -> (r: Self)
        ensures
            r.wf(),
            r.last_served is None,
            r.last_config is None,
            r.consecutive_failures == 0,
    {
        NetworkState { last_served: None, last_config: None, consecutive_failures: 0 }
    }

    /// Fold a server reply into the shared state: the failure count is
    /// reset; an instruction different from the last one served becomes
    /// pending; a brightness becomes pending; a configuration update
    /// different from the last one passed on becomes pending. Returns
    /// whether a new instruction became pending, in which case the caller
    /// wakes the running widget by cancelling `shared.current_cancel`
    /// (which this leaves in place).
    pub fn on_response(&mut self, resp: ServerResponse, shared: &mut SharedState) -> (wake: bool)
        ensures
            final(self).wf(),
            final(self).consecutive_failures == 0,
            ({
                let served = dedup(optional_instruction(old(self).last_served), optional_instruction(resp.instruction));
                &&& optional_instruction(final(self).last_served) == served.1
                &&& wake == served.0 is Some
                &&& served.0 is Some ==> optional_instruction(final(shared).pending_instruction) == served.0
                &&& served.0 is None ==> final(shared).pending_instruction == old(shared).pending_instruction
            }),
            ({
                let passed = dedup(optional_update(old(self).last_config), optional_update(resp.config));
                &&& optional_update(final(self).last_config) == passed.1
                &&& passed.0 is Some ==> optional_update(final(shared).pending_config) == passed.0
                &&& passed.0 is None ==> final(shared).pending_config == old(shared).pending_config
            }),
            final(shared).pending_brightness == match resp.brightness {
                Some(b) => Some(b),
                None => old(shared).pending_brightness,
            },
            final(shared).ota_url == old(shared).ota_url,
            final(shared).current_cancel == old(shared).current_cancel,
    {
        self.consecutive_failures = 0;
        let mut wake = false;
        if let Some(instruction) = resp.instruction {
            let changed = match &self.last_served {
                Some(last) => !last.same_as(&instruction),
                None => true,
            };
            if changed {
                shared.pending_instruction = Some(instruction.duplicate());
                wake = true;
                self.last_served = Some(instruction);
            }
        }
        if let Some(brightness) = resp.brightness {
            shared.pending_brightness = Some(brightness);
        }
        if let Some(config) = resp.config {
            let changed = match &self.last_config {
                Some(last) => !last.same_as(&config),
                None => true,
            };
            if changed {
                shared.pending_config = Some(config.duplicate());
                self.last_config = Some(config);
            }
        }
        wake
    }

    /// A poll that brought nothing resets the failure count.
    pub fn on_empty(&mut self)
        ensures
            final(self).wf(),
            final(self).consecutive_failures == 0,
            final(self).last_served == old(self).last_served,
            final(self).last_config == old(self).last_config,
    {
        self.consecutive_failures = 0;
    }

    /// Count a failed poll; `wifi_restored` tells whether the link was
    /// found down and brought back up, which resets the count. Returns
    /// whether the device must reboot (60 failures in a row); otherwise
    /// the state stays below the threshold.
    pub fn on_failure(&mut self, wifi_restored: bool) -> (reboot: bool)
        requires
            old(self).wf(),
        ensures
            final(self).consecutive_failures == failures_after_failure(
                old(self).consecutive_failures as int,
                wifi_restored,
            ),
            reboot == (final(self).consecutive_failures >= MAX_CONSECUTIVE_FAILURES),
            !reboot ==> final(self).wf(),
            final(self).last_served == old(self).last_served,
            final(self).last_config == old(self).last_config,
    {
        self.consecutive_failures = self.consecutive_failures + 1;
        if wifi_restored {
            self.consecutive_failures = 0;
        }
        self.consecutive_failures >= MAX_CONSECUTIVE_FAILURES
    }
}

/// The server keeps returning the current desired state: the same
/// instruction (or configuration) reported again is passed on once only,
/// and a different one is always passed on.
pub proof fn repeated_report_passed_on_once<T>(last: Option<T>, v: T, w: T)
    ensures
        dedup(dedup(last, Some(v)).1, Some(v)).0 is None,
        (dedup(last, Some(v)).0 is Some) == (last != Some(v)),
        v != w ==> dedup(dedup(last, Some(v)).1, Some(w)).0 == Some(w),
{
}

/// The failure count after `k` failed polls in a row, none of them
/// restoring the link, starting from `count`.
pub open spec fn failures_after_run(count: int, k: nat) -> int
    decreases k,
{
    if k == 0 {
        count
    } else {
        failures_after_failure(failures_after_run(count, (k - 1) as nat), false)
    }
}

/// Starting from a successful poll, the device reboots at the 60th
/// failed poll in a row and not before (when no reconnect succeeds).
pub proof fn reboot_after_sixty_failures(k: nat)
    ensures
        failures_after_run(0, k) == k,
        (failures_after_run(0, k) >= MAX_CONSECUTIVE_FAILURES) == (k >= 60),
    decreases k,
{
    if k > 0 {
        reboot_after_sixty_failures((k - 1) as nat);
    }
}

} // verus!
