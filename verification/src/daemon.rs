//! The backend's decisions: what each Bluetooth event and control command
//! changes, and what has to be sent or saved as a result.
//!
//! The caller performs the effects in order and stops at the first failure.
use vstd::prelude::*;
use vstd::string::StringSliceAdditionalSpecFns;
use vstd::utf8::*;

use crate::bytes::{eq_ignore_ascii_case, same_ignoring_ascii_case, str_equal};
use crate::crypto::aes128_decrypt_block;
use crate::model::{
    event_applied, known_model, spec_apply_ble, spec_default_status, spec_ears_in,
    spec_model_from_ble, spec_model_from_number, spec_model_name, with_measurements_reset,
    with_model, Status,
};
use crate::protocol::{
    adaptive_packet, advertisement_of, conversation_packet, conversation_value, decrypt_battery,
    is_proximity_frame, noise_packet, parse_advertisement, parse_packet, spec_control_packet,
    spec_parse_packet, spec_verify_rpa, verify_rpa, Advertisement, Event, EventView, FEATURES,
    HANDSHAKE, NOTIFICATIONS, REQUEST_MAGIC_KEYS,
};
use crate::settings::{spec_validate, Settings, SettingsView};

verus! {

/// What the media worker is told: the device, the ear-detection behavior, the
/// ears, and the latest conversation activity.
#[derive(Clone, Debug, PartialEq, Eq)]
pub struct MediaState {
    pub device: Option<String>,
    pub behavior: u8,
    pub ears: Option<(bool, bool)>,
    pub conversation: Option<u8>,
}

pub struct MediaStateView {
    pub device: Option<Seq<char>>,
    pub behavior: u8,
    pub ears: Option<(bool, bool)>,
    pub conversation: Option<u8>,
}

impl View for MediaState {
    type V = MediaStateView;

    open spec fn view(&self) -> MediaStateView {
        MediaStateView {
            device: match self.device {
                Some(d) => Some(d@),
                None => None,
            },
            behavior: self.behavior,
            ears: self.ears,
            conversation: self.conversation,
        }
    }
}

impl Default for MediaState {
    fn default() -> (r: Self)
        ensures
            r@ == (MediaStateView { device: None, behavior: 0, ears: None, conversation: None }),
    {
        MediaState { device: None, behavior: 0, ears: None, conversation: None }
    }
}

/// Something to do after a state change: send a packet, or save the preferences.
#[derive(Clone, Debug, PartialEq, Eq)]
pub enum Effect {
    Send(Vec<u8>),
    SaveSettings,
}

pub enum EffectView {
    Send(Seq<u8>),
    SaveSettings,
}

impl View for Effect {
    type V = EffectView;

    open spec fn view(&self) -> EffectView {
        match self {
            Effect::Send(p) => EffectView::Send(p@),
            Effect::SaveSettings => EffectView::SaveSettings,
        }
    }
}

pub open spec fn effects_view(v: Seq<Effect>) -> Seq<EffectView> {
    v.map_values(|e: Effect| e@)
}

/// What the periodic notification check asks for.
#[derive(Clone, Copy, Debug, PartialEq, Eq, Structural)]
pub enum NotificationAction {
    /// The control connection never came up: drop the link to retry.
    Reconnect,
    /// Connected without any battery reading yet: ask for notifications again.
    RequestNotifications,
    Nothing,
}

/// The state of the backend that is not I/O.
pub struct Daemon {
    pub status: Status,
    pub settings: Settings,
    pub media: MediaState,
    pub notifications_due: Option<u64>,
}

/// A connection to a different device than the remembered one.
pub open spec fn forgets_device(settings: SettingsView, address: Seq<char>) -> bool {
    settings.bluetooth_address.len() > 0 && !eq_ignore_ascii_case(
        encode_utf8(settings.bluetooth_address),
        encode_utf8(address),
    )
}

/// The preferences after connecting to `address`: the pairing keys and model
/// of another remembered device are forgotten.
pub open spec fn settings_after_connect(s: SettingsView, address: Seq<char>) -> SettingsView {
    if forgets_device(s, address) {
        SettingsView {
            bluetooth_address: address,
            magic_acc_irk: Seq::empty(),
            magic_acc_enc_key: Seq::empty(),
            model: 0,
            model_number: Seq::empty(),
            ..s
        }
    } else {
        SettingsView { bluetooth_address: address, ..s }
    }
}

/// The status before the connection is confirmed; the measurements and model of
/// another device are forgotten. `texts` are the device name, model number
/// and model name held afterwards.
pub open spec fn status_after_connect(s: Status, forget: bool, texts: (String, String, String)) -> Status {
    let base = if forget {
        with_model(
            Status { model_number: texts.1, ..with_measurements_reset(s) },
            0,
            texts.2,
        )
    } else {
        s
    };
    Status { connected: false, device_name: texts.0, noise_mode: -1i32, ..base }
}

/// The listening modes offered, in cycling order.
pub open spec fn available_modes(supports_off: bool, supports_adaptive: bool) -> Seq<i32> {
    if supports_off && supports_adaptive {
        seq![0i32, 1, 2, 3]
    } else if supports_off {
        seq![0i32, 1, 2]
    } else if supports_adaptive {
        seq![1i32, 2, 3]
    } else {
        seq![1i32, 2]
    }
}

/// The mode after the current one in cycling order; the first one when the
/// current mode is not offered.
pub open spec fn next_mode(s: Status) -> i32 {
    let modes = available_modes(s.supports_noise_off, s.supports_adaptive);
    if exists|i: int| 0 <= i < modes.len() && modes[i] == s.noise_mode {
        let i = choose|i: int| 0 <= i < modes.len() && modes[i] == s.noise_mode;
        modes[(i + 1) % (modes.len() as int)]
    } else {
        modes[0]
    }
}

/// The digits of a number as `u8::to_string` writes them.
pub open spec fn decimal(v: u8) -> Seq<char> {
    if v < 10 {
        seq![((v + 48) as u32) as char]
    } else if v < 100 {
        seq![(((v / 10) + 48) as u32) as char, (((v % 10) + 48) as u32) as char]
    } else {
        seq![
            (((v / 100) + 48) as u32) as char,
            ((((v / 10) % 10) + 48) as u32) as char,
            (((v % 10) + 48) as u32) as char,
        ]
    }
}

/// Everything after the leading `adaptive:` prefixes, as `trim_start_matches` removes them.
pub open spec fn strip_adaptive(s: Seq<char>) -> Seq<char>
    decreases s.len(),
{
    if s.len() >= 9 && s.take(9) == "adaptive:"@ {
        strip_adaptive(s.skip(9))
    } else {
        s
    }
}

/// An Adaptive level written exactly as its number, from 0 to 100.
pub open spec fn adaptive_level(value: Seq<char>) -> Option<u8> {
    match crate::settings::spec_parse_u8(value) {
        Ok(level) => if level <= 100 && decimal(level) == value {
            Some(level)
        } else {
            None
        },
        Err(_) => None,
    }
}

/// Which group of commands changed something, for the bookkeeping afterwards.
#[derive(Clone, Copy, Debug, PartialEq, Eq, Structural)]
pub enum CommandKind {
    Ear,
    Noise,
    Conversation,
    Adaptive,
}

/// What a control command asks for, before anything is sent.
#[derive(Clone, Debug, PartialEq, Eq)]
pub enum CommandPlan {
    /// Reply with the status.
    Status,
    /// Reply `ok` without doing anything (the mode is already selected).
    AlreadySet,
    /// Ask BlueZ to connect (or disconnect) the device.
    Device { connect: bool },
    /// Send `packet` (if any), then record the change.
    Change { kind: CommandKind, settings: Settings, packet: Option<Vec<u8>>, noise: Option<i32> },
}

/// Why a command was refused; the reply is `error: ` and this text.
#[derive(Clone, Copy, Debug, PartialEq, Eq)]
pub struct CommandError(pub &'static str);

pub enum PlanView {
    Status,
    AlreadySet,
    Device { connect: bool },
    Change { kind: CommandKind, settings: SettingsView, packet: Option<Seq<u8>>, noise: Option<i32> },
}

pub open spec fn plan_view(r: Result<CommandPlan, CommandError>) -> Result<PlanView, Seq<char>> {
    match r {
        Err(e) => Err(e.0@),
        Ok(CommandPlan::Status) => Ok(PlanView::Status),
        Ok(CommandPlan::AlreadySet) => Ok(PlanView::AlreadySet),
        Ok(CommandPlan::Device { connect }) => Ok(PlanView::Device { connect }),
        Ok(CommandPlan::Change { kind, settings, packet, noise }) => Ok(
            PlanView::Change {
                kind,
                settings: settings@,
                packet: match packet {
                    Some(p) => Some(p@),
                    None => None,
                },
                noise,
            },
        ),
    }
}

/// A listening-mode command for `mode`, given the status.
pub open spec fn spec_noise_command(s: Status, settings: SettingsView, mode: i32) -> Result<PlanView, Seq<char>> {
    if !s.connected {
        Err("AirPods are disconnected"@)
    } else if !s.supports_noise_control {
        Err("Listening modes are unavailable for this model"@)
    } else if mode == 0 && !s.supports_noise_off {
        Err("Off mode is unavailable for this model"@)
    } else if mode == 3 && !s.supports_adaptive {
        Err("Adaptive mode is unavailable for this model"@)
    } else if mode == s.noise_mode {
        Ok(PlanView::AlreadySet)
    } else {
        Ok(
            PlanView::Change {
                kind: CommandKind::Noise,
                settings,
                packet: Some(spec_control_packet(0x0d, (mode + 1) as u8)),
                noise: Some(mode),
            },
        )
    }
}

/// What a control command asks for.
pub open spec fn spec_plan_command(s: Status, settings: SettingsView, c: Seq<char>) -> Result<PlanView, Seq<char>> {
    if c == "status"@ {
        Ok(PlanView::Status)
    } else if c == "ear:one"@ || c == "ear:both"@ || c == "ear:off"@ {
        Ok(
            PlanView::Change {
                kind: CommandKind::Ear,
                settings: SettingsView {
                    ear_detection_behavior: if c == "ear:one"@ {
                        0
                    } else if c == "ear:both"@ {
                        1
                    } else {
                        2
                    },
                    ..settings
                },
                packet: None,
                noise: None,
            },
        )
    } else if c == "noise:off"@ {
        spec_noise_command(s, settings, 0)
    } else if c == "noise:anc"@ {
        spec_noise_command(s, settings, 1)
    } else if c == "noise:transparency"@ {
        spec_noise_command(s, settings, 2)
    } else if c == "noise:adaptive"@ {
        spec_noise_command(s, settings, 3)
    } else if c == "noise:cycle"@ {
        if !s.connected {
            Err("AirPods are disconnected"@)
        } else if !s.supports_noise_control {
            Err("Listening modes are unavailable for this model"@)
        } else {
            spec_noise_command(s, settings, next_mode(s))
        }
    } else if c == "ca:on"@ || c == "ca:off"@ {
        if !s.supports_conversational_awareness {
            Err("Conversation Awareness is unavailable for this model"@)
        } else {
            Ok(
                PlanView::Change {
                    kind: CommandKind::Conversation,
                    settings: SettingsView { conversational_awareness: c == "ca:on"@, ..settings },
                    packet: Some(spec_control_packet(0x28, conversation_value(c == "ca:on"@))),
                    noise: None,
                },
            )
        }
    } else if c == "onebud:on"@ || c == "onebud:off"@ {
        if !s.supports_one_bud_anc {
            Err("One-bud ANC is unavailable for this model"@)
        } else {
            Err("One-bud ANC control is not implemented"@)
        }
    } else if c == "connect"@ || c == "disconnect"@ {
        Ok(PlanView::Device { connect: c == "connect"@ })
    } else if c == "reopen"@ {
        Err("this daemon runs headless and has no window"@)
    } else if c.len() >= 9 && c.take(9) == "adaptive:"@ {
        match adaptive_level(strip_adaptive(c)) {
            None => Err("Adaptive level must be 0–100"@),
            Some(level) => if !(s.supports_adaptive && s.noise_mode == 3) {
                Err("Adaptive listening mode is not active"@)
            } else {
                Ok(
                    PlanView::Change {
                        kind: CommandKind::Adaptive,
                        settings: SettingsView { adaptive_noise_level: level, ..settings },
                        packet: Some(spec_control_packet(0x2e, level)),
                        noise: None,
                    },
                )
            },
        }
    } else {
        Err("Unknown command"@)
    }
}


fn digit_char(d: u8) -> (r: char)
    requires
        d <= 9,
    ensures
        r == ((d + 48) as u32) as char,
{
    let x: u8 = d + 48;
    x as char
}

/// The digits of `v` as `u8::to_string` writes them.
fn decimal_chars(v: u8) -> (r: Vec<char>)
    ensures
        r@ == decimal(v),
{
    let mut out: Vec<char> = Vec::new();
    if v < 10 {
        out.push(digit_char(v));
    } else if v < 100 {
        out.push(digit_char(v / 10));
        out.push(digit_char(v % 10));
    } else {
        out.push(digit_char(v / 100));
        out.push(digit_char((v / 10) % 10));
        out.push(digit_char(v % 10));
    }
    assert(out@ =~= decimal(v));
    out
}

fn noise_command(status: &Status, settings: &Settings, mode: i32) -> (r: Result<CommandPlan, CommandError>)
    requires
        0 <= mode <= 3,
    ensures
        plan_view(r) == spec_noise_command(*status, settings@, mode),
{
    if !status.connected {
        return Err(CommandError("AirPods are disconnected"));
    }
    if !status.supports_noise_control {
        return Err(CommandError("Listening modes are unavailable for this model"));
    }
    if mode == 0 && !status.supports_noise_off {
        return Err(CommandError("Off mode is unavailable for this model"));
    }
    if mode == 3 && !status.supports_adaptive {
        return Err(CommandError("Adaptive mode is unavailable for this model"));
    }
    if mode == status.noise_mode {
        return Ok(CommandPlan::AlreadySet);
    }
    let packet = match noise_packet(mode) {
        Some(p) => p,
        None => return Err(CommandError("Unknown command")),
    };
    let mut bytes: Vec<u8> = Vec::new();
    bytes.extend_from_slice(packet.as_slice());
    assert(bytes@ =~= packet@);
    Ok(
        CommandPlan::Change {
            kind: CommandKind::Noise,
            settings: settings.clone(),
            packet: Some(bytes),
            noise: Some(mode),
        },
    )
}

/// The mode after the current one among those offered.
fn cycle_mode(status: &Status) -> (r: i32)
    ensures
        r == next_mode(*status),
        0 <= r <= 3,
{
    let mut modes: Vec<i32> = Vec::new();
    if status.supports_noise_off {
        modes.push(0);
    }
    modes.push(1);
    modes.push(2);
    if status.supports_adaptive {
        modes.push(3);
    }
    let ghost expected = available_modes(status.supports_noise_off, status.supports_adaptive);
    assert(modes@ =~= expected);
    let mut i: usize = 0;
    while i < modes.len() && modes[i] != status.noise_mode
        invariant
            modes@ == expected,
            i <= modes@.len(),
            forall|j: int| 0 <= j < i ==> modes@[j] != status.noise_mode,
        decreases modes@.len() - i,
    {
        i = i + 1;
    }
    if i < modes.len() {
        let next = modes[(i + 1) % modes.len()];
        proof {
            let k = choose|k: int| 0 <= k < expected.len() && expected[k] == status.noise_mode;
            assert(k == i as int) by {
                if k < i {
                    assert(modes@[k] != status.noise_mode);
                }
                if k > i {
                    assert(expected[i as int] == status.noise_mode);
                    assert(expected[k] == expected[i as int]);
                }
            }
        }
        next
    } else {
        modes[0]
    }
}

impl Daemon {
    /// Plans a control command: what it changes and what must be sent. Nothing
    /// changes until the plan has been carried out and recorded.
    pub fn plan_command(&self, command: &str) -> (r: Result<CommandPlan, CommandError>)
        ensures
            plan_view(r) == spec_plan_command(self.status, self.settings@, command@),
    {
        if str_equal(command, "status") {
            return Ok(CommandPlan::Status);
        }
        let one = str_equal(command, "ear:one");
        let both = str_equal(command, "ear:both");
        if one || both || str_equal(command, "ear:off") {
            let mut settings = self.settings.clone();
            settings.ear_detection_behavior = if one {
                0
            } else if both {
                1
            } else {
                2
            };
            return Ok(
                CommandPlan::Change { kind: CommandKind::Ear, settings, packet: None, noise: None },
            );
        }
        if str_equal(command, "noise:off") {
            return noise_command(&self.status, &self.settings, 0);
        }
        if str_equal(command, "noise:anc") {
            return noise_command(&self.status, &self.settings, 1);
        }
        if str_equal(command, "noise:transparency") {
            return noise_command(&self.status, &self.settings, 2);
        }
        if str_equal(command, "noise:adaptive") {
            return noise_command(&self.status, &self.settings, 3);
        }
        if str_equal(command, "noise:cycle") {
            if !self.status.connected {
                return Err(CommandError("AirPods are disconnected"));
            }
            if !self.status.supports_noise_control {
                return Err(CommandError("Listening modes are unavailable for this model"));
            }
            let mode = cycle_mode(&self.status);
            return noise_command(&self.status, &self.settings, mode);
        }
        let on = str_equal(command, "ca:on");
        if on || str_equal(command, "ca:off") {
            if !self.status.supports_conversational_awareness {
                return Err(CommandError("Conversation Awareness is unavailable for this model"));
            }
            let mut settings = self.settings.clone();
            settings.conversational_awareness = on;
            let packet = conversation_packet(on);
            let mut bytes: Vec<u8> = Vec::new();
            bytes.extend_from_slice(packet.as_slice());
            assert(bytes@ =~= packet@);
            return Ok(
                CommandPlan::Change {
                    kind: CommandKind::Conversation,
                    settings,
                    packet: Some(bytes),
                    noise: None,
                },
            );
        }
        if str_equal(command, "onebud:on") || str_equal(command, "onebud:off") {
            if !self.status.supports_one_bud_anc {
                return Err(CommandError("One-bud ANC is unavailable for this model"));
            }
            return Err(CommandError("One-bud ANC control is not implemented"));
        }
        let connect = str_equal(command, "connect");
        if connect || str_equal(command, "disconnect") {
            return Ok(CommandPlan::Device { connect });
        }
        if str_equal(command, "reopen") {
            return Err(CommandError("this daemon runs headless and has no window"));
        }
        let chars = crate::text::chars_of(command);
        let prefix = crate::text::chars_of("adaptive:");
        if chars.len() >= 9 && crate::text::chars_equal(&chars, 0, 9, &prefix) {
            assert(chars@.subrange(0, 9) =~= chars@.take(9));
            assert(chars@.skip(0) =~= chars@);
            let mut start: usize = 0;
            while chars.len() - start >= 9 && crate::text::chars_equal(
                &chars,
                start,
                start + 9,
                &prefix,
            )
                invariant
                    start <= chars@.len(),
                    prefix@ == "adaptive:"@,
                    strip_adaptive(chars@) == strip_adaptive(chars@.skip(start as int)),
                decreases chars@.len() - start,
            {
                proof {
                    let rest = chars@.skip(start as int);
                    assert(chars@.subrange(start as int, start + 9) =~= rest.take(9));
                    assert(rest.skip(9) =~= chars@.skip(start + 9));
                }
                start = start + 9;
            }
            proof {
                let rest = chars@.skip(start as int);
                if rest.len() >= 9 {
                    assert(chars@.subrange(start as int, start + 9) =~= rest.take(9));
                }
                assert(chars@.subrange(start as int, chars@.len() as int) =~= rest);
            }
            let level = match crate::settings::parse_u8(&chars, start, chars.len()) {
                Ok(level) => level,
                Err(_) => return Err(CommandError("Adaptive level must be 0–100")),
            };
            let digits = decimal_chars(level);
            if level > 100 || !crate::text::chars_equal(&chars, start, chars.len(), &digits) {
                return Err(CommandError("Adaptive level must be 0–100"));
            }
            if !(self.status.supports_adaptive && self.status.noise_mode == 3) {
                return Err(CommandError("Adaptive listening mode is not active"));
            }
            let mut settings = self.settings.clone();
            settings.adaptive_noise_level = level;
            let packet = match adaptive_packet(level) {
                Some(p) => p,
                None => return Err(CommandError("Adaptive level must be 0–100")),
            };
            let mut bytes: Vec<u8> = Vec::new();
            bytes.extend_from_slice(packet.as_slice());
            assert(bytes@ =~= packet@);
            return Ok(
                CommandPlan::Change {
                    kind: CommandKind::Adaptive,
                    settings,
                    packet: Some(bytes),
                    noise: None,
                },
            );
        }
        proof {
            if command@.len() >= 9 && command@.take(9) == "adaptive:"@ {
                assert(chars@.subrange(0, 9) =~= chars@.take(9));
            }
        }
        Err(CommandError("Unknown command"))
    }
}


/// The media state with the device gone and nothing pending.
pub open spec fn media_without_device(m: MediaStateView) -> MediaStateView {
    MediaStateView { device: None, ears: None, conversation: None, ..m }
}

/// What a parsed event changes besides the status itself, and what it asks
/// to send or save. `before` and `after` are the status, the preferences and
/// the media state.
#[verifier::opaque]
pub open spec fn packet_handled(
    before: (Status, SettingsView, MediaStateView),
    after: (Status, SettingsView, MediaStateView),
    e: EventView,
    effects: Seq<EffectView>,
) -> bool {
    let (s0, p0, m0) = before;
    let (s1, p1, m1) = after;
    match e {
        EventView::HandshakeAck => {
            &&& s1 == Status { connected: true, ..s0 }
            &&& p1 == p0 && m1 == m0
            &&& effects == seq![EffectView::Send(FEATURES@)]
        },
        EventView::FeaturesAck => {
            &&& s1 == s0 && p1 == p0 && m1 == m0
            &&& effects == seq![
                EffectView::Send(NOTIFICATIONS@),
                EffectView::Send(REQUEST_MAGIC_KEYS@),
            ]
        },
        EventView::MagicKeys { irk, key } => {
            &&& s1 == s0 && m1 == m0
            &&& p1 == SettingsView { magic_acc_irk: irk, magic_acc_enc_key: key, ..p0 }
            &&& effects == seq![EffectView::SaveSettings]
        },
        EventView::Metadata { .. } => {
            &&& event_applied(s0, s1, e)
            &&& m1 == m0
            &&& p1 == SettingsView {
                device_name: s1.device_name@,
                model: s1.model_int,
                model_number: s1.model_number@,
                ..p0
            }
            &&& effects == seq![EffectView::SaveSettings, EffectView::Send(REQUEST_MAGIC_KEYS@)]
        },
        EventView::Disconnected => {
            &&& event_applied(s0, s1, e)
            &&& p1 == p0
            &&& m1 == media_without_device(m0)
            &&& effects.len() == 0
        },
        EventView::Ear { .. } => {
            &&& event_applied(s0, s1, e)
            &&& p1 == p0
            &&& m1 == MediaStateView { ears: Some(spec_ears_in(s1)), ..m0 }
            &&& effects.len() == 0
        },
        EventView::Battery(_) => {
            &&& event_applied(s0, s1, e)
            &&& p1 == p0
            &&& m1 == MediaStateView { ears: Some(spec_ears_in(s1)), ..m0 }
            &&& effects.len() == 0
        },
        EventView::ConversationActivity(a) => {
            &&& s1 == s0 && p1 == p0
            &&& m1 == MediaStateView { conversation: Some(a), ..m0 }
            &&& effects.len() == 0
        },
        EventView::Conversation(enabled) => {
            &&& event_applied(s0, s1, e)
            &&& p1 == p0
            &&& m1 == (if enabled {
                m0
            } else {
                MediaStateView { conversation: Some(8u8), ..m0 }
            })
            &&& effects.len() == 0
        },
        _ => {
            &&& event_applied(s0, s1, e)
            &&& p1 == p0 && m1 == m0
            &&& effects.len() == 0
        },
    }
}

fn packet_bytes(packet: &[u8]) -> (r: Vec<u8>)
    ensures
        r@ == packet@,
{
    let mut bytes: Vec<u8> = Vec::new();
    bytes.extend_from_slice(packet);
    assert(bytes@ =~= packet@);
    bytes
}

fn bytes_equal(a: &Vec<u8>, b: &Vec<u8>) -> (r: bool)
    ensures
        r == (a@ == b@),
{
    if a.len() != b.len() {
        return false;
    }
    let mut i: usize = 0;
    while i < a.len()
        invariant
            a@.len() == b@.len(),
            i <= a@.len(),
            forall|j: int| 0 <= j < i ==> a@[j] == b@[j],
        decreases a@.len() - i,
    {
        if a[i] != b[i] {
            assert(a@[i as int] != b@[i as int]);
            return false;
        }
        i = i + 1;
    }
    assert(a@ =~= b@);
    true
}

/// Whether two sets of preferences are equal.
pub fn same_settings(a: &Settings, b: &Settings) -> (r: bool)
    ensures
        r == (a@ == b@),
{
    a.ear_detection_behavior == b.ear_detection_behavior && a.conversational_awareness
        == b.conversational_awareness && a.adaptive_noise_level == b.adaptive_noise_level
        && a.one_bud_anc == b.one_bud_anc && str_equal(a.device_name.as_str(), b.device_name.as_str())
        && str_equal(a.model_number.as_str(), b.model_number.as_str()) && str_equal(
        a.bluetooth_address.as_str(),
        b.bluetooth_address.as_str(),
    ) && a.model == b.model && bytes_equal(&a.magic_acc_irk, &b.magic_acc_irk) && bytes_equal(
        &a.magic_acc_enc_key,
        &b.magic_acc_enc_key,
    )
}

/// Whether a datagram is the AirPods' report of listening mode `mode`.
pub fn confirms_noise_mode(data: &[u8], mode: i32) -> (r: bool)
    ensures
        r == (spec_parse_packet(data@) == Ok::<Option<EventView>, Seq<char>>(
            Some(EventView::NoiseMode(mode)),
        )),
{
    match parse_packet(data) {
        Ok(Some(Event::NoiseMode(m))) => m == mode,
        _ => false,
    }
}

/// The status after a listening-mode change to `noise` (if any) is recorded.
pub open spec fn with_noise_recorded(s: Status, noise: Option<i32>) -> Status {
    match noise {
        Some(m) => Status {
            noise_mode: m,
            noise_control_changes_total: (s.noise_control_changes_total + 1) as u64,
            ..s
        },
        None => s,
    }
}

/// The status after a command of group `kind` is counted and its setting shown.
pub open spec fn with_kind_recorded(s: Status, settings: SettingsView, kind: CommandKind) -> Status {
    match kind {
        CommandKind::Ear => Status {
            ear_detection_changes_total: (s.ear_detection_changes_total + 1) as u64,
            ..s
        },
        CommandKind::Conversation => Status {
            conversational_awareness: settings.conversational_awareness,
            ca_changes_total: (s.ca_changes_total + 1) as u64,
            ..s
        },
        CommandKind::Adaptive => Status {
            adaptive_noise_level: settings.adaptive_noise_level,
            adaptive_level_changes_total: (s.adaptive_level_changes_total + 1) as u64,
            ..s
        },
        CommandKind::Noise => s,
    }
}

/// The status after a command is recorded: the new mode, the ear-detection
/// behavior of the preferences, and the command's own setting and counter.
pub open spec fn status_after_command(
    s: Status,
    settings: SettingsView,
    kind: CommandKind,
    noise: Option<i32>,
) -> Status {
    with_kind_recorded(
        Status {
            ear_detection_behavior: settings.ear_detection_behavior,
            ..with_noise_recorded(s, noise)
        },
        settings,
        kind,
    )
}

/// The media state after a command is recorded: a new ear-detection
/// behavior, or the end of ducking when Conversation Awareness is turned off.
pub open spec fn media_after_command(m: MediaStateView, settings: SettingsView, kind: CommandKind) -> MediaStateView {
    if kind == CommandKind::Ear {
        MediaStateView { behavior: settings.ear_detection_behavior, ..m }
    } else if kind == CommandKind::Conversation && !settings.conversational_awareness {
        MediaStateView { conversation: Some(8u8), ..m }
    } else {
        m
    }
}

/// Counters that a command may count up have room.
pub open spec fn command_counters_fit(s: Status, kind: CommandKind, noise: Option<i32>) -> bool {
    &&& noise is Some ==> s.noise_control_changes_total < u64::MAX
    &&& kind == CommandKind::Ear ==> s.ear_detection_changes_total < u64::MAX
    &&& kind == CommandKind::Conversation ==> s.ca_changes_total < u64::MAX
    &&& kind == CommandKind::Adaptive ==> s.adaptive_level_changes_total < u64::MAX
}

fn record_noise(s: &mut Status, noise: Option<i32>)
    requires
        noise is Some ==> old(s).noise_control_changes_total < u64::MAX,
    ensures
        *final(s) == with_noise_recorded(*old(s), noise),
{
    if let Some(mode) = noise {
        s.noise_mode = mode;
        s.noise_control_changes_total = s.noise_control_changes_total + 1;
    }
}

fn record_kind(s: &mut Status, settings: &Settings, kind: CommandKind)
    requires
        kind == CommandKind::Ear ==> old(s).ear_detection_changes_total < u64::MAX,
        kind == CommandKind::Conversation ==> old(s).ca_changes_total < u64::MAX,
        kind == CommandKind::Adaptive ==> old(s).adaptive_level_changes_total < u64::MAX,
    ensures
        *final(s) == with_kind_recorded(*old(s), settings@, kind),
{
    match kind {
        CommandKind::Ear => {
            s.ear_detection_changes_total = s.ear_detection_changes_total + 1;
        },
        CommandKind::Conversation => {
            s.conversational_awareness = settings.conversational_awareness;
            s.ca_changes_total = s.ca_changes_total + 1;
        },
        CommandKind::Adaptive => {
            s.adaptive_noise_level = settings.adaptive_noise_level;
            s.adaptive_level_changes_total = s.adaptive_level_changes_total + 1;
        },
        CommandKind::Noise => {},
    }
}

/// The 16 bytes of a stored key; `None` when it has another length.
fn key_block(v: &Vec<u8>) -> (r: Option<[u8; 16]>)
    ensures
        r is Some <==> v@.len() == 16,
        r matches Some(b) ==> b@ == v@,
{
    if v.len() != 16 {
        return None;
    }
    let mut out = [0u8; 16];
    let mut i: usize = 0;
    while i < 16
        invariant
            v@.len() == 16,
            i <= 16,
            forall|j: int| 0 <= j < i ==> out@[j] == v@[j],
        decreases 16 - i,
    {
        out[i] = v[i];
        i = i + 1;
    }
    assert(out@ =~= v@);
    Some(out)
}

/// Carries out a parsed event: applies it to the status and updates the
/// preferences and the media state as it asks.
fn handle_event(
    status: &mut Status,
    settings: &mut Settings,
    media: &mut MediaState,
    event: &Event,
) -> (effects: Vec<Effect>)
    ensures
        packet_handled(
            (*old(status), old(settings)@, old(media)@),
            (*final(status), final(settings)@, final(media)@),
            event@,
            effects_view(effects@),
        ),
{
    status.apply(event);
    let mut effects: Vec<Effect> = Vec::new();
    match event {
        Event::HandshakeAck => {
            proof {
                reveal(event_applied);
            }
            status.connected = true;
            effects.push(Effect::Send(packet_bytes(FEATURES.as_slice())));
            proof {
                reveal(packet_handled);
                assert(effects_view(effects@) =~= seq![EffectView::Send(FEATURES@)]);
            }
        },
        Event::FeaturesAck => {
            proof {
                reveal(event_applied);
            }
            effects.push(Effect::Send(packet_bytes(NOTIFICATIONS.as_slice())));
            effects.push(Effect::Send(packet_bytes(REQUEST_MAGIC_KEYS.as_slice())));
            proof {
                reveal(packet_handled);
                assert(effects_view(effects@) =~= seq![
                    EffectView::Send(NOTIFICATIONS@),
                    EffectView::Send(REQUEST_MAGIC_KEYS@),
                ]);
            }
        },
        Event::MagicKeys(keys) => {
            proof {
                reveal(event_applied);
            }
            settings.magic_acc_irk = packet_bytes(keys.irk.as_slice());
            settings.magic_acc_enc_key = packet_bytes(keys.key.as_slice());
            effects.push(Effect::SaveSettings);
            proof {
                reveal(packet_handled);
                assert(effects_view(effects@) =~= seq![EffectView::SaveSettings]);
            }
        },
        Event::Metadata { .. } => {
            settings.device_name = status.device_name.clone();
            settings.model = status.model_int;
            settings.model_number = status.model_number.clone();
            effects.push(Effect::SaveSettings);
            effects.push(Effect::Send(packet_bytes(REQUEST_MAGIC_KEYS.as_slice())));
            proof {
                reveal(packet_handled);
                assert(effects_view(effects@) =~= seq![
                    EffectView::SaveSettings,
                    EffectView::Send(REQUEST_MAGIC_KEYS@),
                ]);
            }
        },
        Event::Disconnected => {
            media.device = None;
            media.ears = None;
            media.conversation = None;
            proof {
                reveal(packet_handled);
            }
        },
        Event::Ear { .. } => {
            media.ears = Some(status.ears_in());
            proof {
                reveal(packet_handled);
            }
        },
        Event::Battery(_) => {
            media.ears = Some(status.ears_in());
            proof {
                reveal(packet_handled);
            }
        },
        Event::ConversationActivity(activity) => {
            proof {
                reveal(event_applied);
            }
            media.conversation = Some(*activity);
            proof {
                reveal(packet_handled);
            }
        },
        Event::Conversation(enabled) => {
            if !*enabled {
                media.conversation = Some(8);
            }
            proof {
                reveal(packet_handled);
            }
        },
        _ => {
            proof {
                reveal(packet_handled);
            }
        },
    }
    effects
}

/// The model the backend starts with: the one of the saved model number when
/// there is one, else the saved model id.
pub open spec fn startup_model(p: SettingsView) -> u8 {
    if p.model_number.len() > 0 {
        spec_model_from_number(p.model_number)
    } else {
        p.model
    }
}

/// The status at startup: the defaults, the saved model and the saved
/// preferences. `texts` are the device name, model name and model number.
pub open spec fn startup_status(p: SettingsView, texts: (String, String, String)) -> Status {
    Status {
        ear_detection_behavior: p.ear_detection_behavior,
        conversational_awareness: p.conversational_awareness,
        adaptive_noise_level: p.adaptive_noise_level,
        one_bud_anc_mode: p.one_bud_anc,
        ..with_model(spec_default_status(texts.0, texts.1, texts.2), startup_model(p), texts.1)
    }
}

impl Daemon {
    /// The state at startup, from the saved preferences.
    #[verifier::rlimit(40)]
    pub fn new(settings: Settings) -> (r: Daemon)
        ensures
            r.status == startup_status(
                settings@,
                (r.status.device_name, r.status.model_name, r.status.model_number),
            ),
            r.status.device_name@ == settings.device_name@,
            r.status.model_number@ == settings.model_number@,
            r.status.model_name@ == spec_model_name(known_model(startup_model(settings@))),
            r.settings@ == settings@,
            r.media@ == (MediaStateView {
                device: None,
                behavior: settings.ear_detection_behavior,
                ears: None,
                conversation: None,
            }),
            r.notifications_due is None,
    {
        proof {
            reveal(with_model);
        }
        let mut status = Status::default();
        status.set_model_id(settings.model);
        if !settings.model_number.as_str().is_empty() {
            status.set_model_number(settings.model_number.as_str());
        }
        status.device_name = settings.device_name.clone();
        status.ear_detection_behavior = settings.ear_detection_behavior;
        status.conversational_awareness = settings.conversational_awareness;
        status.adaptive_noise_level = settings.adaptive_noise_level;
        status.one_bud_anc_mode = settings.one_bud_anc;
        let behavior = settings.ear_detection_behavior;
        Daemon {
            status,
            settings,
            media: MediaState { device: None, behavior, ears: None, conversation: None },
            notifications_due: None,
        }
    }

    /// Whether `settings` differ from the saved preferences (and so must be saved).
    pub fn settings_changed(&self, settings: &Settings) -> (r: bool)
        ensures
            r == (settings@ != self.settings@),
    {
        !same_settings(settings, &self.settings)
    }

    /// Records a command whose packet (if any) was sent and whose preferences
    /// (if changed) were saved and adopted.
    #[verifier::rlimit(80)]
    pub fn record_command(&mut self, kind: CommandKind, noise: Option<i32>)
        requires
            command_counters_fit(old(self).status, kind, noise),
        ensures
            final(self).status == status_after_command(
                old(self).status,
                old(self).settings@,
                kind,
                noise,
            ),
            final(self).media@ == media_after_command(old(self).media@, old(self).settings@, kind),
            final(self).settings@ == old(self).settings@,
            final(self).notifications_due == old(self).notifications_due,
    {
        record_noise(&mut self.status, noise);
        self.status.ear_detection_behavior = self.settings.ear_detection_behavior;
        record_kind(&mut self.status, &self.settings, kind);
        match kind {
            CommandKind::Ear => {
                self.media.behavior = self.settings.ear_detection_behavior;
            },
            CommandKind::Conversation => {
                if !self.settings.conversational_awareness {
                    self.media.conversation = Some(8);
                }
            },
            _ => {},
        }
    }

    /// What the notification timer does when it fires.
    pub fn notification_action(&self) -> (r: NotificationAction)
        ensures
            r == (if !self.status.connected {
                NotificationAction::Reconnect
            } else if !self.status.left.available && !self.status.headset.available {
                NotificationAction::RequestNotifications
            } else {
                NotificationAction::Nothing
            }),
    {
        if !self.status.connected {
            NotificationAction::Reconnect
        } else if !self.status.left.available && !self.status.headset.available {
            NotificationAction::RequestNotifications
        } else {
            NotificationAction::Nothing
        }
    }

    /// The timer fired: it is no longer pending.
    pub fn notifications_fired(&mut self)
        ensures
            final(self).notifications_due is None,
            final(self).status == old(self).status,
            final(self).settings@ == old(self).settings@,
            final(self).media@ == old(self).media@,
    {
        self.notifications_due = None;
    }

    /// The handshake was sent: check for battery notifications three seconds later.
    pub fn handshake_sent(&mut self, now: u64)
        requires
            now + 3000 <= u64::MAX,
        ensures
            final(self).notifications_due == Some((now + 3000) as u64),
            final(self).status == old(self).status,
            final(self).settings@ == old(self).settings@,
            final(self).media@ == old(self).media@,
    {
        self.notifications_due = Some(now + 3000);
    }

    /// The control link went down.
    pub fn on_disconnected(&mut self)
        ensures
            final(self).status == (Status { connected: false, ..old(self).status }),
            final(self).settings@ == old(self).settings@,
            final(self).media@ == media_without_device(old(self).media@),
            final(self).notifications_due is None,
    {
        self.status.connected = false;
        self.notifications_due = None;
        self.media.device = None;
        self.media.ears = None;
        self.media.conversation = None;
    }

    /// The control link to `address` came up; the handshake is to be sent next.
    #[verifier::rlimit(80)]
    pub fn on_connected(&mut self, address: &str, name: &str) -> (effects: Vec<Effect>)
        ensures
            final(self).status == status_after_connect(
                old(self).status,
                forgets_device(old(self).settings@, address@),
                (final(self).status.device_name, final(self).status.model_number, final(self).status.model_name),
            ),
            final(self).status.device_name@ == name@,
            forgets_device(old(self).settings@, address@) ==> final(self).status.model_number@.len() == 0
                && final(self).status.model_name@ == spec_model_name(0),
            final(self).settings@ == settings_after_connect(old(self).settings@, address@),
            final(self).media@ == (MediaStateView {
                device: Some(address@),
                ears: None,
                conversation: None,
                ..old(self).media@
            }),
            final(self).notifications_due == old(self).notifications_due,
            effects_view(effects@) == seq![EffectView::Send(HANDSHAKE@)],
    {
        let remembered = !self.settings.bluetooth_address.as_str().is_empty();
        let same = same_ignoring_ascii_case(self.settings.bluetooth_address.as_str(), address);
        if remembered && !same {
            self.forget_device();
        }
        self.settings.bluetooth_address = address.to_owned();
        self.status.connected = false;
        self.status.device_name = name.to_owned();
        self.status.noise_mode = -1;
        self.media.device = Some(address.to_owned());
        self.media.ears = None;
        self.media.conversation = None;
        let mut effects: Vec<Effect> = Vec::new();
        effects.push(Effect::Send(packet_bytes(HANDSHAKE.as_slice())));
        assert(effects_view(effects@) =~= seq![EffectView::Send(HANDSHAKE@)]);
        effects
    }

    /// A datagram arrived on the control channel. Datagrams that are not a
    /// known report change nothing.
    pub fn on_packet(&mut self, data: &[u8]) -> (effects: Vec<Effect>)
        ensures
            match spec_parse_packet(data@) {
                Ok(Some(e)) => packet_handled(
                    (old(self).status, old(self).settings@, old(self).media@),
                    (final(self).status, final(self).settings@, final(self).media@),
                    e,
                    effects_view(effects@),
                ),
                _ => {
                    &&& final(self).status == old(self).status
                    &&& final(self).settings@ == old(self).settings@
                    &&& final(self).media@ == old(self).media@
                    &&& effects@.len() == 0
                },
            },
            final(self).notifications_due == old(self).notifications_due,
    {
        let event = match parse_packet(data) {
            Ok(Some(event)) => event,
            _ => return Vec::new(),
        };
        handle_event(&mut self.status, &mut self.settings, &mut self.media, &event)
    }

    /// A BLE advertisement from `address` was seen. It is applied only when
    /// the address resolves with the stored IRK and the frame can be read; the
    /// battery block is decrypted with the stored key. Returns whether it was applied.
    pub fn on_advertisement(&mut self, address: &str, data: &[u8]) -> (applied: bool)
        ensures
            applied <==> {
                &&& old(self).settings.magic_acc_irk@.len() == 16
                &&& old(self).settings.magic_acc_enc_key@.len() == 16
                &&& spec_verify_rpa(address.spec_bytes(), old(self).settings.magic_acc_irk@)
                &&& is_proximity_frame(data@)
            },
            applied ==> exists|adv: Advertisement|
                #![trigger advertisement_of(data@, adv)]
                advertisement_of(data@, adv) && final(self).status == spec_apply_ble(
                    old(self).status,
                    adv,
                    aes128_decrypt_block(old(self).settings.magic_acc_enc_key@, data@.subrange(11, 27)),
                    final(self).status.model_name,
                ) && final(self).status.model_name@ == (if spec_model_from_ble(adv.model_id) != 0 {
                    spec_model_name(spec_model_from_ble(adv.model_id))
                } else {
                    old(self).status.model_name@
                }),
            !applied ==> final(self).status == old(self).status,
            final(self).settings@ == old(self).settings@,
            final(self).media@ == old(self).media@,
            final(self).notifications_due == old(self).notifications_due,
    {
        let irk = match key_block(&self.settings.magic_acc_irk) {
            Some(k) => k,
            None => return false,
        };
        let key = match key_block(&self.settings.magic_acc_enc_key) {
            Some(k) => k,
            None => return false,
        };
        if !verify_rpa(address, &irk) {
            return false;
        }
        let adv = match parse_advertisement(data) {
            Some(adv) => adv,
            None => return false,
        };
        let bytes = match decrypt_battery(adv.encrypted_payload.as_slice(), &key) {
            Some(b) => b,
            None => return false,
        };
        self.status.apply_ble(&adv, &bytes);
        assert(advertisement_of(data@, adv));
        true
    }

    fn forget_device(&mut self)
        ensures
            final(self).status == with_model(
                Status { model_number: final(self).status.model_number, ..with_measurements_reset(old(self).status) },
                0,
                final(self).status.model_name,
            ),
            final(self).status.model_number@.len() == 0,
            final(self).status.model_name@ == spec_model_name(0),
            final(self).settings@ == (SettingsView {
                magic_acc_irk: Seq::empty(),
                magic_acc_enc_key: Seq::empty(),
                model: 0,
                model_number: Seq::empty(),
                ..old(self).settings@
            }),
            final(self).media@ == old(self).media@,
            final(self).notifications_due == old(self).notifications_due,
    {
        self.status.reset_measurements();
        self.status.model_number = String::new();
        proof {
            reveal(with_model);
        }
        self.status.set_model_id(0);
        self.settings.magic_acc_irk = Vec::new();
        self.settings.magic_acc_enc_key = Vec::new();
        self.settings.model = 0;
        self.settings.model_number = String::new();
    }
}

/// Cycling offers only the modes the model has, and moves off the current one.
pub proof fn law_cycle_offers_only_available_modes(s: Status)
    ensures
        available_modes(s.supports_noise_off, s.supports_adaptive).contains(next_mode(s)),
        next_mode(s) == 0 ==> s.supports_noise_off,
        next_mode(s) == 3 ==> s.supports_adaptive,
        available_modes(s.supports_noise_off, s.supports_adaptive).contains(s.noise_mode)
            ==> next_mode(s) != s.noise_mode,
{
    let modes = available_modes(s.supports_noise_off, s.supports_adaptive);
    assert(2 <= modes.len() <= 4);
    if exists|i: int| 0 <= i < modes.len() && modes[i] == s.noise_mode {
        let i = choose|i: int| 0 <= i < modes.len() && modes[i] == s.noise_mode;
        let j = (i + 1) % (modes.len() as int);
        if i == 0 {
            assert(j == 1);
        } else if i == 1 {
            assert(j == 2 || (modes.len() == 2 && j == 0));
        } else if i == 2 {
            assert(j == 3 || (modes.len() == 3 && j == 0));
        } else {
            assert(j == 0);
        }
        assert(modes[j] != modes[i]);
        assert(modes.contains(modes[j]));
    } else {
        assert(modes.contains(modes[0]));
    }
}

/// Cycling while connected to a model with listening modes is never refused:
/// it selects an offered mode, or answers that it is already selected.
pub proof fn law_cycle_never_refused(s: Status, p: SettingsView)
    requires
        s.connected,
        s.supports_noise_control,
    ensures
        spec_plan_command(s, p, "noise:cycle"@) is Ok,
{
    law_cycle_offers_only_available_modes(s);
    let c = "noise:cycle"@;
    reveal_strlit("noise:cycle");
    reveal_strlit("status");
    reveal_strlit("ear:one");
    reveal_strlit("ear:both");
    reveal_strlit("ear:off");
    reveal_strlit("noise:off");
    reveal_strlit("noise:anc");
    reveal_strlit("noise:transparency");
    reveal_strlit("noise:adaptive");
    assert(c.len() == 11);
    assert(c != "status"@ && c != "ear:one"@ && c != "ear:both"@ && c != "ear:off"@);
    assert(c != "noise:off"@ && c != "noise:anc"@ && c != "noise:transparency"@);
    assert(c != "noise:adaptive"@);
}

/// Asking for the mode that is already selected sends nothing.
pub proof fn law_current_mode_sends_nothing(s: Status, p: SettingsView, mode: i32)
    requires
        s.connected,
        s.supports_noise_control,
        mode == s.noise_mode,
        mode != 0 || s.supports_noise_off,
        mode != 3 || s.supports_adaptive,
    ensures
        spec_noise_command(s, p, mode) == Ok::<PlanView, Seq<char>>(PlanView::AlreadySet),
{
}

/// Listening-mode commands are refused while disconnected, whatever the mode.
pub proof fn law_disconnected_refuses_modes(s: Status, p: SettingsView, mode: i32)
    requires
        !s.connected,
    ensures
        spec_noise_command(s, p, mode) == Err::<PlanView, Seq<char>>("AirPods are disconnected"@),
{
}

/// Reconnecting keeps the preferences: ear detection, Conversation Awareness,
/// Adaptive level and one-bud ANC survive, and the listening mode is unknown
/// until the AirPods report it.
pub proof fn law_reconnect_keeps_preferences(
    s: Status,
    p: SettingsView,
    address: Seq<char>,
    texts: (String, String, String),
)
    ensures
        settings_after_connect(p, address).ear_detection_behavior == p.ear_detection_behavior,
        settings_after_connect(p, address).conversational_awareness == p.conversational_awareness,
        settings_after_connect(p, address).adaptive_noise_level == p.adaptive_noise_level,
        settings_after_connect(p, address).one_bud_anc == p.one_bud_anc,
        settings_after_connect(p, address).bluetooth_address == address,
        status_after_connect(s, forgets_device(p, address), texts).noise_mode == -1,
        !status_after_connect(s, forgets_device(p, address), texts).connected,
        status_after_connect(s, forgets_device(p, address), texts).ear_detection_behavior
            == s.ear_detection_behavior,
{
    reveal(with_model);
}

/// Reconnecting to the remembered device (in any letter case) keeps its
/// pairing keys and model; another device forgets them.
pub proof fn law_pairing_kept_for_same_device(p: SettingsView, address: Seq<char>)
    ensures
        !forgets_device(p, address) ==> settings_after_connect(p, address).magic_acc_irk
            == p.magic_acc_irk && settings_after_connect(p, address).magic_acc_enc_key
            == p.magic_acc_enc_key && settings_after_connect(p, address).model == p.model,
        forgets_device(p, address) ==> settings_after_connect(p, address).magic_acc_irk.len() == 0
            && settings_after_connect(p, address).magic_acc_enc_key.len() == 0,
{
}

/// Commands never make the preferences invalid: a change keeps them within
/// range, so saving it never fails validation.
pub proof fn law_commands_keep_preferences_valid(s: Status, p: SettingsView, c: Seq<char>)
    requires
        spec_validate(p) is Ok,
    ensures
        spec_plan_command(s, p, c) matches Ok(PlanView::Change { settings, .. }) ==> spec_validate(
            settings,
        ) is Ok,
{
    if let Some(level) = adaptive_level(strip_adaptive(c)) {
        assert(level <= 100);
    }
}

/// Connecting to a device never makes the preferences invalid.
pub proof fn law_connect_keeps_preferences_valid(p: SettingsView, address: Seq<char>)
    requires
        spec_validate(p) is Ok,
    ensures
        spec_validate(settings_after_connect(p, address)) is Ok,
{
}

/// Device reports never make the preferences invalid: the pairing keys they
/// carry are 16 bytes, and the identity they carry is not validated.
pub proof fn law_reports_keep_preferences_valid(
    before: (Status, SettingsView, MediaStateView),
    after: (Status, SettingsView, MediaStateView),
    e: Event,
    effects: Seq<EffectView>,
)
    requires
        spec_validate(before.1) is Ok,
        packet_handled(before, after, e@, effects),
    ensures
        spec_validate(after.1) is Ok,
{
    reveal(packet_handled);
    if let Event::MagicKeys(keys) = e {
        assert(keys.irk@.len() == 16 && keys.key@.len() == 16);
    }
}

/// The ear-detection commands select I, II or Off, and the recorded status
/// then shows that behavior.
pub proof fn law_ear_command_sets_behavior(s: Status, p: SettingsView, c: Seq<char>, b: u8)
    requires
        (c == "ear:one"@ && b == 0) || (c == "ear:both"@ && b == 1) || (c == "ear:off"@ && b == 2),
    ensures
        spec_plan_command(s, p, c) == Ok::<PlanView, Seq<char>>(
            PlanView::Change {
                kind: CommandKind::Ear,
                settings: SettingsView { ear_detection_behavior: b, ..p },
                packet: None,
                noise: None,
            },
        ),
        status_after_command(
            s,
            SettingsView { ear_detection_behavior: b, ..p },
            CommandKind::Ear,
            None,
        ).ear_detection_behavior == b,
{
    reveal_strlit("status");
    reveal_strlit("ear:one");
    reveal_strlit("ear:both");
    reveal_strlit("ear:off");
    assert("status"@.len() == 6 && "ear:one"@.len() == 7 && "ear:both"@.len() == 8);
    assert("ear:off"@.len() == 7 && "ear:one"@[5] == 'n' && "ear:off"@[5] == 'f');
    assert("ear:one"@ != "status"@ && "ear:both"@ != "status"@ && "ear:off"@ != "status"@);
    assert("ear:one"@ != "ear:both"@ && "ear:one"@ != "ear:off"@ && "ear:both"@ != "ear:off"@);
}

/// A command changes at most its own preference: ear detection, Conversation
/// Awareness or the Adaptive level; a listening-mode change none. A refused
/// command changes nothing, since planning only reads the state.
pub proof fn law_command_changes_only_its_preference(s: Status, p: SettingsView, c: Seq<char>)
    ensures
        spec_plan_command(s, p, c) matches Ok(PlanView::Change { kind, settings, .. }) ==> match kind {
            CommandKind::Ear => settings == SettingsView {
                ear_detection_behavior: settings.ear_detection_behavior,
                ..p
            },
            CommandKind::Conversation => settings == SettingsView {
                conversational_awareness: settings.conversational_awareness,
                ..p
            },
            CommandKind::Adaptive => settings == SettingsView {
                adaptive_noise_level: settings.adaptive_noise_level,
                ..p
            },
            CommandKind::Noise => settings == p,
        },
{
}

/// A listening mode the model offers: Off (0) only where it has it, ANC (1)
/// and Transparency (2) always, Adaptive (3) only where it has it.
pub open spec fn mode_offered(m: i32, supports_off: bool, supports_adaptive: bool) -> bool {
    &&& 0 <= m <= 3
    &&& m != 0 || supports_off
    &&& m != 3 || supports_adaptive
}

/// The cycling order is the offered modes by ascending number: from an
/// offered mode it moves to the next higher offered mode, or wraps around to
/// the lowest; from a mode that is not offered it starts at the lowest.
pub proof fn law_cycle_ascends(s: Status)
    ensures
        ({
            let off = s.supports_noise_off;
            let adaptive = s.supports_adaptive;
            let modes = available_modes(off, adaptive);
            let next = next_mode(s);
            let cur = s.noise_mode;
            &&& forall|i: int, j: int| 0 <= i < j < modes.len() ==> modes[i] < modes[j]
            &&& forall|m: i32| modes.contains(m) <==> mode_offered(m, off, adaptive)
            &&& mode_offered(next, off, adaptive)
            &&& mode_offered(cur, off, adaptive) && (exists|m: i32|
                mode_offered(m, off, adaptive) && m > cur) ==> next > cur && forall|m: i32|
                mode_offered(m, off, adaptive) && m > cur ==> next <= m
            &&& !(mode_offered(cur, off, adaptive) && (exists|m: i32|
                mode_offered(m, off, adaptive) && m > cur)) ==> forall|m: i32|
                mode_offered(m, off, adaptive) ==> next <= m
        }),
{
    let off = s.supports_noise_off;
    let adaptive = s.supports_adaptive;
    let modes = available_modes(off, adaptive);
    assert(modes.len() == 2 || modes.len() == 3 || modes.len() == 4);
    assert forall|m: i32| modes.contains(m) <==> mode_offered(m, off, adaptive) by {
        if mode_offered(m, off, adaptive) {
            if off && adaptive {
                assert(modes[m as int] == m);
            } else if off {
                assert(modes[m as int] == m);
            } else if adaptive {
                assert(modes[m - 1] == m);
            } else {
                assert(modes[m - 1] == m);
            }
        }
    }
    if off && adaptive {
        assert(modes == seq![0i32, 1, 2, 3]);
    } else if off {
        assert(modes == seq![0i32, 1, 2]);
    } else if adaptive {
        assert(modes == seq![1i32, 2, 3]);
    } else {
        assert(modes == seq![1i32, 2]);
    }
    let len = modes.len() as int;
    if exists|i: int| 0 <= i < modes.len() && modes[i] == s.noise_mode {
        let i = choose|i: int| 0 <= i < modes.len() && modes[i] == s.noise_mode;
        assert(next_mode(s) == modes[(i + 1) % len]);
        if i == 0 {
            assert((i + 1) % len == 1);
        } else if i == 1 {
            assert((i + 1) % len == (if len == 2 { 0int } else { 2int }));
        } else if i == 2 {
            assert((i + 1) % len == (if len == 3 { 0int } else { 3int }));
        } else {
            assert(i == 3);
            assert((i + 1) % len == 0);
        }
    } else {
        assert(next_mode(s) == modes[0]);
        assert(!mode_offered(s.noise_mode, off, adaptive)) by {
            if mode_offered(s.noise_mode, off, adaptive) {
                assert(modes.contains(s.noise_mode));
            }
        }
    }
}

} // verus!
