//! The published device status (schema 1) and how events update it.
use vstd::prelude::*;

use crate::bytes::str_equal;
use crate::protocol::{Advertisement, Component, ComponentReading, EarState, Event, EventView};

verus! {

/// One battery as published: a measured level, or unavailable.
#[derive(Clone, Copy, Debug, PartialEq, Eq, Structural)]
pub struct Battery {
    pub available: bool,
    pub level: u8,
    pub charging: bool,
    pub in_ear: Option<bool>,
}

impl Default for Battery {
    fn default() -> (r: Self)
        ensures
            r == (Battery { available: false, level: 0, charging: false, in_ear: None }),
    {
        Battery { available: false, level: 0, charging: false, in_ear: None }
    }
}

/// A measurement of `level` (a percentage) and `charging`; other levels are no measurement.
pub open spec fn battery_updated(b: Battery, level: u8, charging: bool) -> Battery {
    if level <= 100 {
        Battery { available: true, level, charging, ..b }
    } else {
        b
    }
}

pub open spec fn spec_pod_battery() -> Battery {
    Battery { available: false, level: 0, charging: false, in_ear: Some(false) }
}

impl Battery {
    /// An earbud's battery, with no measurement and out of the ear.
    pub fn pod() -> (r: Self)
        ensures
            r == spec_pod_battery(),
    {
        Battery { available: false, level: 0, charging: false, in_ear: Some(false) }
    }

    /// This battery after a measurement of `level` and `charging`.
    pub fn updated(self, level: u8, charging: bool) -> (r: Battery)
        ensures
            r == battery_updated(self, level, charging),
    {
        if level <= 100 {
            Battery { available: true, level, charging, ..self }
        } else {
            self
        }
    }

    /// Records a measurement; a level above 100 is not one and changes nothing.
    pub fn update(&mut self, level: u8, charging: bool)
        ensures
            *final(self) == battery_updated(*old(self), level, charging),
    {
        if level <= 100 {
            self.available = true;
            self.level = level;
            self.charging = charging;
        }
    }
}

/// The status published for the GNOME extension.
#[derive(Clone, Debug, PartialEq, Eq)]
pub struct Status {
    pub schema_version: u8,
    pub connected: bool,
    pub device_name: String,
    pub noise_mode: i32,
    pub left: Battery,
    pub right: Battery,
    pub case: Battery,
    pub headset: Battery,
    pub reconnect_attempts_total: u64,
    pub reconnect_failures_total: u64,
    pub noise_control_changes_total: u64,
    pub forget_calls_total: u64,
    pub ear_detection_changes_total: u64,
    pub ca_changes_total: u64,
    pub disconnect_calls_total: u64,
    pub connect_calls_total: u64,
    pub disconnect_failures_total: u64,
    pub connect_failures_total: u64,
    pub adaptive_level_changes_total: u64,
    pub one_bud_anc_changes_total: u64,
    pub reopen_calls_total: u64,
    pub conversational_awareness: bool,
    pub adaptive_noise_level: u8,
    pub one_bud_anc_mode: bool,
    pub model_name: String,
    pub model_int: u8,
    pub is_pro_series: bool,
    pub is_headset: bool,
    pub supports_noise_off: bool,
    pub supports_noise_control: bool,
    pub supports_adaptive: bool,
    pub supports_conversational_awareness: bool,
    pub supports_one_bud_anc: bool,
    pub model_number: String,
    pub ear_detection_behavior: u8,
    pub lid_state: u8,
    pub primary: Component,
    pub primary_ear: EarState,
    pub secondary_ear: EarState,
    /// The case level came from an exact (decrypted or control) reading.
    pub case_is_exact: bool,
}

/// A status with its text fields given and everything else at the defaults.
pub open spec fn spec_default_status(device_name: String, model_name: String, model_number: String) -> Status {
    Status {
        schema_version: 1,
        connected: false,
        device_name,
        noise_mode: -1i32,
        left: spec_pod_battery(),
        right: spec_pod_battery(),
        case: Battery { available: false, level: 0, charging: false, in_ear: None },
        headset: Battery { available: false, level: 0, charging: false, in_ear: None },
        reconnect_attempts_total: 0,
        reconnect_failures_total: 0,
        noise_control_changes_total: 0,
        forget_calls_total: 0,
        ear_detection_changes_total: 0,
        ca_changes_total: 0,
        disconnect_calls_total: 0,
        connect_calls_total: 0,
        disconnect_failures_total: 0,
        connect_failures_total: 0,
        adaptive_level_changes_total: 0,
        one_bud_anc_changes_total: 0,
        reopen_calls_total: 0,
        conversational_awareness: false,
        adaptive_noise_level: 50,
        one_bud_anc_mode: false,
        model_name,
        model_int: 0,
        is_pro_series: false,
        is_headset: false,
        supports_noise_off: true,
        supports_noise_control: true,
        supports_adaptive: false,
        supports_conversational_awareness: false,
        supports_one_bud_anc: false,
        model_number,
        ear_detection_behavior: 1,
        lid_state: 2,
        primary: Component::Left,
        primary_ear: EarState::Disconnected,
        secondary_ear: EarState::Disconnected,
        case_is_exact: false,
    }
}

impl Default for Status {
    fn default() -> (r: Self)
        ensures
            r.device_name@.len() == 0,
            r.model_name@.len() == 0,
            r.model_number@.len() == 0,
            r == spec_default_status(r.device_name, r.model_name, r.model_number),
    {
        Status {
            schema_version: 1,
            connected: false,
            device_name: String::new(),
            noise_mode: -1,
            left: Battery::pod(),
            right: Battery::pod(),
            case: Battery::default(),
            headset: Battery::default(),
            reconnect_attempts_total: 0,
            reconnect_failures_total: 0,
            noise_control_changes_total: 0,
            forget_calls_total: 0,
            ear_detection_changes_total: 0,
            ca_changes_total: 0,
            disconnect_calls_total: 0,
            connect_calls_total: 0,
            disconnect_failures_total: 0,
            connect_failures_total: 0,
            adaptive_level_changes_total: 0,
            one_bud_anc_changes_total: 0,
            reopen_calls_total: 0,
            conversational_awareness: false,
            adaptive_noise_level: 50,
            one_bud_anc_mode: false,
            model_name: String::new(),
            model_int: 0,
            is_pro_series: false,
            is_headset: false,
            supports_noise_off: true,
            supports_noise_control: true,
            supports_adaptive: false,
            supports_conversational_awareness: false,
            supports_one_bud_anc: false,
            model_number: String::new(),
            ear_detection_behavior: 1,
            lid_state: 2,
            primary: Component::Left,
            primary_ear: EarState::Disconnected,
            secondary_ear: EarState::Disconnected,
            case_is_exact: false,
        }
    }
}

/// The model of a model number (such as `A3064`); 0 when unknown.
#[verifier::opaque]
pub open spec fn spec_model_from_number(n: Seq<char>) -> u8 {
    if n == "A1523"@ || n == "A1722"@ {
        1
    } else if n == "A2032"@ || n == "A2031"@ {
        2
    } else if n == "A2565"@ || n == "A2564"@ {
        3
    } else if n == "A2084"@ || n == "A2083"@ {
        4
    } else if n == "A2931"@ || n == "A2699"@ || n == "A2698"@ {
        5
    } else if n == "A3047"@ || n == "A3048"@ || n == "A3049"@ {
        6
    } else if n == "A2096"@ {
        7
    } else if n == "A3184"@ {
        8
    } else if n == "A3053"@ || n == "A3050"@ || n == "A3054"@ {
        9
    } else if n == "A3056"@ || n == "A3055"@ || n == "A3057"@ {
        10
    } else if n == "A3063"@ || n == "A3064"@ || n == "A3065"@ {
        11
    } else if n == "A3454"@ {
        12
    } else {
        0
    }
}

/// The model of a BLE model ID; 0 when unknown.
pub open spec fn spec_model_from_ble(id: u16) -> u8 {
    if id == 0x0220 {
        1
    } else if id == 0x0f20 {
        2
    } else if id == 0x1320 {
        3
    } else if id == 0x0e20 {
        4
    } else if id == 0x1420 {
        5
    } else if id == 0x2420 {
        6
    } else if id == 0x0a20 {
        7
    } else if id == 0x1f20 {
        8
    } else if id == 0x1920 {
        9
    } else if id == 0x1b20 {
        10
    } else if id == 0x2720 {
        11
    } else {
        0
    }
}

/// The display name of a model; empty when unknown.
#[verifier::opaque]
pub open spec fn spec_model_name(id: u8) -> Seq<char> {
    if id == 1 {
        "AirPods"@
    } else if id == 2 {
        "AirPods (2nd generation)"@
    } else if id == 3 {
        "AirPods (3rd generation)"@
    } else if id == 4 {
        "AirPods Pro"@
    } else if id == 5 {
        "AirPods Pro 2"@
    } else if id == 6 {
        "AirPods Pro 2 (USB-C)"@
    } else if id == 7 {
        "AirPods Max"@
    } else if id == 8 {
        "AirPods Max (USB-C)"@
    } else if id == 9 || id == 10 {
        "AirPods 4"@
    } else if id == 11 {
        "AirPods Pro 3"@
    } else if id == 12 {
        "AirPods Max 2"@
    } else {
        ""@
    }
}

/// Ids above 12 are unknown models.
pub open spec fn known_model(id: u8) -> u8 {
    if id <= 12 {
        id
    } else {
        0
    }
}

/// The status with the model and its capabilities set from a model id.
#[verifier::opaque]
pub open spec fn with_model(s: Status, id: u8, name: String) -> Status {
    let m = known_model(id);
    Status {
        model_int: m,
        model_name: name,
        is_pro_series: m == 4 || m == 5 || m == 6 || m == 11,
        is_headset: m == 7 || m == 8 || m == 12,
        supports_noise_off: m != 11,
        supports_noise_control: !(m == 1 || m == 2 || m == 3 || m == 9),
        supports_adaptive: m == 5 || m == 6 || m == 10 || m == 11 || m == 12,
        supports_conversational_awareness: m == 5 || m == 6 || m == 10 || m == 11 || m == 12,
        supports_one_bud_anc: m == 4 || m == 5 || m == 6 || m == 10 || m == 11,
        ..s
    }
}

/// The in-ear flags of the pods from the primary/secondary ear states.
#[verifier::opaque]
pub open spec fn with_ears(s: Status) -> Status {
    let primary = s.primary_ear == EarState::InEar;
    let secondary = s.secondary_ear == EarState::InEar;
    Status {
        left: Battery {
            in_ear: Some(if s.primary == Component::Left { primary } else { secondary }),
            ..s.left
        },
        right: Battery {
            in_ear: Some(if s.primary == Component::Right { primary } else { secondary }),
            ..s.right
        },
        ..s
    }
}

/// The measurements forgotten when another device is selected.
pub open spec fn with_measurements_reset(s: Status) -> Status {
    Status {
        left: spec_pod_battery(),
        right: spec_pod_battery(),
        case: Battery { available: false, level: 0, charging: false, in_ear: None },
        headset: Battery { available: false, level: 0, charging: false, in_ear: None },
        primary: Component::Left,
        primary_ear: EarState::Disconnected,
        secondary_ear: EarState::Disconnected,
        lid_state: 2,
        case_is_exact: false,
        ..s
    }
}

/// Which ears are in: the headset counts as both when worn.
pub open spec fn spec_ears_in(s: Status) -> (bool, bool) {
    if s.is_headset {
        (s.primary_ear == EarState::InEar, s.primary_ear == EarState::InEar)
    } else {
        (s.left.in_ear == Some(true), s.right.in_ear == Some(true))
    }
}

/// The component of the first reading that is not the case.
pub open spec fn first_pod(readings: Seq<ComponentReading>) -> Option<Component>
    decreases readings.len(),
{
    if readings.len() == 0 {
        None
    } else if readings[0].component != Component::Case {
        Some(readings[0].component)
    } else {
        first_pod(readings.drop_first())
    }
}

/// One reading applied to the batteries; a disconnected component is no measurement.
pub open spec fn with_reading(s: Status, r: ComponentReading) -> Status {
    if !r.available {
        s
    } else {
        match r.component {
            Component::Headset => Status {
                headset: battery_updated(s.headset, r.level, r.charging),
                ..s
            },
            Component::Left => Status { left: battery_updated(s.left, r.level, r.charging), ..s },
            Component::Right => Status {
                right: battery_updated(s.right, r.level, r.charging),
                ..s
            },
            Component::Case => Status {
                case: battery_updated(s.case, r.level, r.charging),
                case_is_exact: true,
                ..s
            },
        }
    }
}

/// The first `k` readings applied in order.
pub open spec fn with_readings(s: Status, readings: Seq<ComponentReading>, k: nat) -> Status
    decreases k,
{
    if k == 0 || k > readings.len() {
        s
    } else {
        with_reading(with_readings(s, readings, (k - 1) as nat), readings[k - 1])
    }
}

/// A battery packet: the primary pod is the first non-case component.
#[verifier::opaque]
pub open spec fn with_battery_event(s: Status, readings: Seq<ComponentReading>) -> Status {
    let s1 = match first_pod(readings) {
        Some(c) => Status { primary: c, ..s },
        None => s,
    };
    with_ears(with_readings(s1, readings, readings.len()))
}

/// A decrypted battery byte: 7 bits of level, and the charging bit.
pub open spec fn level_of(b: u8) -> u8 {
    b & 0x7f
}

pub open spec fn charging_of(b: u8) -> bool {
    b & 0x80 != 0
}

/// The case after a decrypted case byte: an exact level, a zero level when a
/// pod is docked, or else the rounded broadcast level until an exact one is known.
pub open spec fn ble_case(s: Status, adv: Advertisement, d: Seq<u8>) -> (Battery, bool) {
    let level = level_of(d[3]);
    if (level != 0 || adv.pod_in_case) && level <= 100 {
        (battery_updated(s.case, level, charging_of(d[3])), true)
    } else if !s.case_is_exact {
        match adv.case_level {
            Some(l) => (battery_updated(s.case, l, adv.case_charging), false),
            None => (s.case, false),
        }
    } else {
        (s.case, s.case_is_exact)
    }
}

/// The batteries after a decrypted block, once the model is known.
pub open spec fn ble_batteries(s: Status, adv: Advertisement, d: Seq<u8>) -> Status {
    if s.is_headset {
        Status {
            primary: Component::Headset,
            headset: battery_updated(s.headset, level_of(d[1]), charging_of(d[1])),
            ..s
        }
    } else {
        let left = if adv.primary_left { d[1] } else { d[2] };
        let right = if adv.primary_left { d[2] } else { d[1] };
        let (case, exact) = ble_case(s, adv, d);
        Status {
            primary: if adv.primary_left { Component::Left } else { Component::Right },
            left: battery_updated(s.left, level_of(left), charging_of(left)),
            right: battery_updated(s.right, level_of(right), charging_of(right)),
            case,
            case_is_exact: exact,
            ..s
        }
    }
}

/// The ears and lid after an advertisement.
pub open spec fn ble_ears(s: Status, adv: Advertisement) -> Status {
    let primary_in = (adv.primary_left && adv.left_in_ear) || (!adv.primary_left && adv.right_in_ear);
    let secondary_in = (adv.primary_left && adv.right_in_ear) || (!adv.primary_left
        && adv.left_in_ear);
    with_ears(
        Status {
            primary_ear: if primary_in { EarState::InEar } else { EarState::Out },
            secondary_ear: if secondary_in { EarState::InEar } else { EarState::Out },
            lid_state: adv.lid_state,
            ..s
        },
    )
}

/// An authenticated advertisement and its decrypted block; `name` is the model name held after.
pub open spec fn spec_apply_ble(s: Status, adv: Advertisement, d: Seq<u8>, name: String) -> Status {
    let model = spec_model_from_ble(adv.model_id);
    let s1 = if model != 0 {
        with_model(s, model, name)
    } else {
        s
    };
    ble_ears(ble_batteries(s1, adv, d), adv)
}

/// The status `after` is the status `before` with the event `e` applied. A
/// metadata event names the device and model; events that carry no status
/// change nothing.
#[verifier::opaque]
pub open spec fn event_applied(before: Status, after: Status, e: EventView) -> bool {
    match e {
        EventView::Battery(readings) => after == with_battery_event(before, readings),
        EventView::Ear { primary, secondary } => after == with_ears(
            Status { primary_ear: primary, secondary_ear: secondary, ..before },
        ),
        EventView::NoiseMode(mode) => after == (Status { noise_mode: mode, ..before }),
        EventView::AdaptiveLevel(level) => after == (Status {
            adaptive_noise_level: level,
            ..before
        }),
        EventView::Conversation(enabled) => after == (Status {
            conversational_awareness: enabled,
            ..before
        }),
        EventView::Metadata { name, model_number } => {
            &&& after.device_name@ == name
            &&& after.model_number@ == model_number
            &&& after.model_name@ == spec_model_name(known_model(spec_model_from_number(model_number)))
            &&& after == with_model(
                Status { device_name: after.device_name, model_number: after.model_number, ..before },
                spec_model_from_number(model_number),
                after.model_name,
            )
        },
        EventView::Disconnected => after == (Status { connected: false, ..before }),
        _ => after == before,
    }
}

impl Status {
    pub fn set_model_number(&mut self, number: &str)
        ensures
            final(self).model_number@ == number@,
            final(self).model_name@ == spec_model_name(known_model(spec_model_from_number(number@))),
            *final(self) == with_model(
                Status { model_number: final(self).model_number, ..*old(self) },
                spec_model_from_number(number@),
                final(self).model_name,
            ),
    {
        proof {
            reveal(with_model);
        }
        self.model_number = number.to_owned();
        let id = model_from_number(number);
        self.set_model_id(id);
    }

    pub fn set_model_id(&mut self, id: u8)
        ensures
            final(self).model_name@ == spec_model_name(known_model(id)),
            *final(self) == with_model(*old(self), id, final(self).model_name),
    {
        let m = if id <= 12 {
            id
        } else {
            0
        };
        proof {
            reveal(with_model);
        }
        self.model_int = m;
        self.model_name = model_name(m).to_owned();
        self.is_pro_series = m == 4 || m == 5 || m == 6 || m == 11;
        self.is_headset = m == 7 || m == 8 || m == 12;
        self.supports_noise_off = m != 11;
        self.supports_noise_control = !(m == 1 || m == 2 || m == 3 || m == 9);
        self.supports_adaptive = m == 5 || m == 6 || m == 10 || m == 11 || m == 12;
        self.supports_conversational_awareness = self.supports_adaptive;
        self.supports_one_bud_anc = m == 4 || m == 5 || m == 6 || m == 10 || m == 11;
    }

    /// Whether the left and right ears are in; a worn headset is both.
    pub fn ears_in(&self) -> (r: (bool, bool))
        ensures
            r == spec_ears_in(*self),
    {
        if self.is_headset {
            let worn = self.primary_ear == EarState::InEar;
            return (worn, worn);
        }
        (self.left.in_ear == Some(true), self.right.in_ear == Some(true))
    }

    /// Forgets measurements when selecting a different device. A temporary
    /// control reconnect keeps the last measurements instead.
    pub fn reset_measurements(&mut self)
        ensures
            *final(self) == with_measurements_reset(*old(self)),
    {
        self.left = Battery::pod();
        self.right = Battery::pod();
        self.case = Battery::default();
        self.headset = Battery::default();
        self.primary = Component::Left;
        self.primary_ear = EarState::Disconnected;
        self.secondary_ear = EarState::Disconnected;
        self.lid_state = 2;
        self.case_is_exact = false;
    }

    pub fn update_ears(&mut self)
        ensures
            *final(self) == with_ears(*old(self)),
    {
        proof {
            reveal(with_ears);
        }
        let primary = self.primary_ear == EarState::InEar;
        let secondary = self.secondary_ear == EarState::InEar;
        self.left.in_ear = Some(
            if self.primary == Component::Left {
                primary
            } else {
                secondary
            },
        );
        self.right.in_ear = Some(
            if self.primary == Component::Right {
                primary
            } else {
                secondary
            },
        );
    }

    #[verifier::rlimit(30)]
    fn apply_reading(&mut self, reading: ComponentReading)
        ensures
            *final(self) == with_reading(*old(self), reading),
    {
        if !reading.available {
            return;
        }
        match reading.component {
            Component::Headset => self.headset = self.headset.updated(reading.level, reading.charging),
            Component::Left => self.left = self.left.updated(reading.level, reading.charging),
            Component::Right => self.right = self.right.updated(reading.level, reading.charging),
            Component::Case => {
                self.case = self.case.updated(reading.level, reading.charging);
                self.case_is_exact = true;
            },
        }
    }

    fn apply_battery(&mut self, readings: &Vec<ComponentReading>)
        ensures
            event_applied(*old(self), *final(self), EventView::Battery(readings@)),
            *final(self) == with_battery_event(*old(self), readings@),
    {
        proof {
            reveal(event_applied);
        }
        let mut i: usize = 0;
        while i < readings.len() && readings[i].component == Component::Case
            invariant
                i <= readings@.len(),
                forall|j: int| 0 <= j < i ==> readings@[j].component == Component::Case,
            decreases readings@.len() - i,
        {
            i = i + 1;
        }
        proof {
            lemma_first_pod(readings@, i as int);
            reveal(with_battery_event);
        }
        if i < readings.len() {
            self.primary = readings[i].component;
        }
        let ghost start = *self;
        let mut k: usize = 0;
        while k < readings.len()
            invariant
                k <= readings@.len(),
                *self == with_readings(start, readings@, k as nat),
            decreases readings@.len() - k,
        {
            self.apply_reading(readings[k]);
            k = k + 1;
        }
        self.update_ears();
    }

    /// Applies one parsed event. Events that carry no status are ignored.
    pub fn apply(&mut self, event: &Event)
        ensures
            event_applied(*old(self), *final(self), event@),
    {
        match event {
            Event::Battery(readings) => self.apply_battery(readings),
            Event::Ear { primary, secondary } => self.apply_ear(*primary, *secondary),
            Event::Metadata { name, model_number } => self.apply_metadata(name, model_number),
            _ => self.apply_plain(event),
        }
    }

    fn apply_plain(&mut self, event: &Event)
        requires
            !(event is Battery || event is Ear || event is Metadata),
        ensures
            event_applied(*old(self), *final(self), event@),
    {
        proof {
            reveal(event_applied);
        }
        match event {
            Event::NoiseMode(mode) => {
                self.noise_mode = *mode;
            },
            Event::AdaptiveLevel(level) => {
                self.adaptive_noise_level = *level;
            },
            Event::Conversation(enabled) => {
                self.conversational_awareness = *enabled;
            },
            Event::Disconnected => {
                self.connected = false;
            },
            _ => {},
        }
    }

    fn apply_ear(&mut self, primary: EarState, secondary: EarState)
        ensures
            event_applied(*old(self), *final(self), EventView::Ear { primary, secondary }),
            *final(self) == with_ears(
                Status { primary_ear: primary, secondary_ear: secondary, ..*old(self) },
            ),
    {
        proof {
            reveal(event_applied);
        }
        self.primary_ear = primary;
        self.secondary_ear = secondary;
        self.update_ears();
    }

    fn apply_metadata(&mut self, name: &String, model_number: &String)
        ensures
            event_applied(
                *old(self),
                *final(self),
                EventView::Metadata { name: name@, model_number: model_number@ },
            ),
            final(self).device_name@ == name@,
            final(self).model_number@ == model_number@,
            final(self).model_name@ == spec_model_name(known_model(spec_model_from_number(model_number@))),
            *final(self) == with_model(
                Status {
                    device_name: final(self).device_name,
                    model_number: final(self).model_number,
                    ..*old(self)
                },
                spec_model_from_number(model_number@),
                final(self).model_name,
            ),
    {
        proof {
            reveal(event_applied);
        }
        proof {
            reveal(with_model);
        }
        self.device_name = name.clone();
        self.set_model_number(model_number.as_str());
    }

    /// Applies an advertisement, after its address has been authenticated with
    /// the IRK, and its decrypted battery block.
    pub fn apply_ble(&mut self, adv: &Advertisement, decrypted: &[u8; 16])
        ensures
            final(self).model_name@ == (if spec_model_from_ble(adv.model_id) != 0 {
                spec_model_name(spec_model_from_ble(adv.model_id))
            } else {
                old(self).model_name@
            }),
            *final(self) == spec_apply_ble(*old(self), *adv, decrypted@, final(self).model_name),
    {
        let model = model_from_ble(adv.model_id);
        if model != 0 {
            self.set_model_id(model);
        }
        self.apply_ble_batteries(adv, decrypted);
        self.apply_ble_ears(adv);
    }

    fn apply_ble_case(&mut self, adv: &Advertisement, decrypted: &[u8; 16])
        ensures
            (final(self).case, final(self).case_is_exact) == ble_case(*old(self), *adv, decrypted@),
            *final(self) == (Status {
                case: final(self).case,
                case_is_exact: final(self).case_is_exact,
                ..*old(self)
            }),
    {
        let level = decrypted[3] & 0x7f;
        if (level != 0 || adv.pod_in_case) && level <= 100 {
            self.case = self.case.updated(level, decrypted[3] & 0x80 != 0);
            self.case_is_exact = true;
        } else if !self.case_is_exact {
            // The public case nibble is useful before an exact reading is
            // available, but must not round a known exact level to tens.
            if let Some(level) = adv.case_level {
                self.case = self.case.updated(level, adv.case_charging);
            }
        }
    }

    #[verifier::rlimit(30)]
    fn apply_ble_batteries(&mut self, adv: &Advertisement, decrypted: &[u8; 16])
        ensures
            *final(self) == ble_batteries(*old(self), *adv, decrypted@),
    {
        if self.is_headset {
            self.primary = Component::Headset;
            self.headset = self.headset.updated(decrypted[1] & 0x7f, decrypted[1] & 0x80 != 0);
        } else {
            self.primary = if adv.primary_left {
                Component::Left
            } else {
                Component::Right
            };
            let (left, right) = if adv.primary_left {
                (decrypted[1], decrypted[2])
            } else {
                (decrypted[2], decrypted[1])
            };
            self.left = self.left.updated(left & 0x7f, left & 0x80 != 0);
            self.right = self.right.updated(right & 0x7f, right & 0x80 != 0);
            self.apply_ble_case(adv, decrypted);
        }
    }

    fn apply_ble_ears(&mut self, adv: &Advertisement)
        ensures
            final(self).model_name == old(self).model_name,
            *final(self) == ble_ears(*old(self), *adv),
    {
        self.primary_ear = if (adv.primary_left && adv.left_in_ear) || (!adv.primary_left
            && adv.right_in_ear) {
            EarState::InEar
        } else {
            EarState::Out
        };
        self.secondary_ear = if (adv.primary_left && adv.right_in_ear) || (!adv.primary_left
            && adv.left_in_ear) {
            EarState::InEar
        } else {
            EarState::Out
        };
        self.lid_state = adv.lid_state;
        proof {
            reveal(with_ears);
        }
        self.update_ears();
    }
}

proof fn lemma_first_pod(readings: Seq<ComponentReading>, i: int)
    requires
        0 <= i <= readings.len(),
        forall|j: int| 0 <= j < i ==> readings[j].component == Component::Case,
        i < readings.len() ==> readings[i].component != Component::Case,
    ensures
        first_pod(readings) == (if i < readings.len() {
            Some(readings[i].component)
        } else {
            None
        }),
    decreases i,
{
    if i > 0 {
        lemma_first_pod(readings.drop_first(), i - 1);
    }
}

pub fn model_from_number(number: &str) -> (r: u8)
    ensures
        r == spec_model_from_number(number@),
{
    reveal(spec_model_from_number);
    if str_equal(number, "A1523") || str_equal(number, "A1722") {
        1
    } else if str_equal(number, "A2032") || str_equal(number, "A2031") {
        2
    } else if str_equal(number, "A2565") || str_equal(number, "A2564") {
        3
    } else if str_equal(number, "A2084") || str_equal(number, "A2083") {
        4
    } else if str_equal(number, "A2931") || str_equal(number, "A2699") || str_equal(
        number,
        "A2698",
    ) {
        5
    } else if str_equal(number, "A3047") || str_equal(number, "A3048") || str_equal(
        number,
        "A3049",
    ) {
        6
    } else if str_equal(number, "A2096") {
        7
    } else if str_equal(number, "A3184") {
        8
    } else if str_equal(number, "A3053") || str_equal(number, "A3050") || str_equal(
        number,
        "A3054",
    ) {
        9
    } else if str_equal(number, "A3056") || str_equal(number, "A3055") || str_equal(
        number,
        "A3057",
    ) {
        10
    } else if str_equal(number, "A3063") || str_equal(number, "A3064") || str_equal(
        number,
        "A3065",
    ) {
        11
    } else if str_equal(number, "A3454") {
        12
    } else {
        0
    }
}

pub fn model_from_ble(id: u16) -> (r: u8)
    ensures
        r == spec_model_from_ble(id),
{
    match id {
        0x0220 => 1,
        0x0f20 => 2,
        0x1320 => 3,
        0x0e20 => 4,
        0x1420 => 5,
        0x2420 => 6,
        0x0a20 => 7,
        0x1f20 => 8,
        0x1920 => 9,
        0x1b20 => 10,
        0x2720 => 11,
        _ => 0,
    }
}

pub fn model_name(id: u8) -> (r: &'static str)
    ensures
        r@ == spec_model_name(id),
{
    reveal(spec_model_name);
    match id {
        1 => "AirPods",
        2 => "AirPods (2nd generation)",
        3 => "AirPods (3rd generation)",
        4 => "AirPods Pro",
        5 => "AirPods Pro 2",
        6 => "AirPods Pro 2 (USB-C)",
        7 => "AirPods Max",
        8 => "AirPods Max (USB-C)",
        9 | 10 => "AirPods 4",
        11 => "AirPods Pro 3",
        12 => "AirPods Max 2",
        _ => "",
    }
}


/// A reading that is not a percentage is not a measurement: the battery keeps
/// its last known values.
pub proof fn law_invalid_level_keeps_battery(b: Battery, level: u8, charging: bool)
    requires
        level > 100,
    ensures
        battery_updated(b, level, charging) == b,
{
}

/// Readings of disconnected components are not measurements: a battery event
/// made only of them leaves every battery level, charge state and availability
/// as it was.
pub proof fn law_unavailable_readings_keep_levels(s: Status, readings: Seq<ComponentReading>)
    requires
        forall|i: int| 0 <= i < readings.len() ==> !(#[trigger] readings[i]).available,
    ensures
        ({
            let t = with_battery_event(s, readings);
            &&& t.case == s.case && t.headset == s.headset && t.case_is_exact == s.case_is_exact
            &&& t.left.level == s.left.level && t.left.available == s.left.available
                && t.left.charging == s.left.charging
            &&& t.right.level == s.right.level && t.right.available == s.right.available
                && t.right.charging == s.right.charging
        }),
{
    reveal(with_battery_event);
    reveal(with_ears);
    let s1 = match first_pod(readings) {
        Some(c) => Status { primary: c, ..s },
        None => s,
    };
    lemma_unavailable_readings(s1, readings, readings.len());
}

proof fn lemma_unavailable_readings(s: Status, readings: Seq<ComponentReading>, k: nat)
    requires
        k <= readings.len(),
        forall|i: int| 0 <= i < readings.len() ==> !(#[trigger] readings[i]).available,
    ensures
        with_readings(s, readings, k) == s,
    decreases k,
{
    if k > 0 {
        lemma_unavailable_readings(s, readings, (k - 1) as nat);
        assert(!readings[k - 1].available);
    }
}

/// Once the case level is exact, the rounded broadcast level never replaces
/// it: an advertisement without a usable exact case byte leaves the case alone.
pub proof fn law_exact_case_never_rounded(s: Status, adv: Advertisement, d: Seq<u8>, name: String)
    requires
        d.len() == 16,
        s.case_is_exact,
        !((level_of(d[3]) != 0 || adv.pod_in_case) && level_of(d[3]) <= 100),
    ensures
        spec_apply_ble(s, adv, d, name).case == s.case,
        spec_apply_ble(s, adv, d, name).case_is_exact,
{
    reveal(with_model);
    reveal(with_ears);
}

/// A headset (AirPods Max) never gets a case reading or pod batteries from an
/// advertisement: only its single battery is measured.
pub proof fn law_headset_gets_no_case_or_pod_levels(
    s: Status,
    adv: Advertisement,
    d: Seq<u8>,
    name: String,
)
    requires
        d.len() == 16,
        (if spec_model_from_ble(adv.model_id) != 0 {
            with_model(s, spec_model_from_ble(adv.model_id), name).is_headset
        } else {
            s.is_headset
        }),
    ensures
        ({
            let t = spec_apply_ble(s, adv, d, name);
            &&& t.case == s.case
            &&& t.left.level == s.left.level && t.left.available == s.left.available
            &&& t.right.level == s.right.level && t.right.available == s.right.available
        }),
{
    reveal(with_model);
    reveal(with_ears);
}

/// Forgetting the measurements also forgets which ears were in.
pub proof fn law_reset_leaves_no_ear_in(s: Status)
    ensures
        spec_ears_in(with_measurements_reset(s)) == (false, false),
{
}

/// The capabilities follow the model alone, and Conversation Awareness is
/// offered exactly where Adaptive is.
pub proof fn law_capabilities_follow_model(s: Status, t: Status, id: u8, name: String)
    ensures
        with_model(s, id, name).model_int <= 12,
        with_model(s, id, name).supports_conversational_awareness == with_model(
            s,
            id,
            name,
        ).supports_adaptive,
        with_model(s, id, name).is_headset == with_model(t, id, name).is_headset,
        with_model(s, id, name).supports_noise_control == with_model(t, id, name).supports_noise_control,
        with_model(s, id, name).supports_noise_off == with_model(t, id, name).supports_noise_off,
        with_model(s, id, name).supports_adaptive == with_model(t, id, name).supports_adaptive,
{
    reveal(with_model);
}

/// A battery reading is consistent: an available one has a level of at most
/// 100, an unavailable one shows level 0 and not charging.
pub open spec fn battery_ok(b: Battery) -> bool {
    &&& b.available ==> b.level <= 100
    &&& !b.available ==> b.level == 0 && !b.charging
}

/// All four batteries of a status are consistent.
pub open spec fn batteries_ok(s: Status) -> bool {
    battery_ok(s.left) && battery_ok(s.right) && battery_ok(s.case) && battery_ok(s.headset)
}

proof fn lemma_readings_keep_batteries(s: Status, readings: Seq<ComponentReading>, k: nat)
    requires
        batteries_ok(s),
    ensures
        batteries_ok(with_readings(s, readings, k)),
    decreases k,
{
    if k > 0 && k <= readings.len() {
        lemma_readings_keep_batteries(s, readings, (k - 1) as nat);
    }
}

/// Every status the backend reaches keeps its batteries consistent: the
/// default status does, and applying an event or an advertisement, forgetting
/// the measurements and setting the model keep it.
pub proof fn law_batteries_stay_consistent(
    s: Status,
    after: Status,
    e: EventView,
    adv: Advertisement,
    d: Seq<u8>,
    id: u8,
    texts: (String, String, String),
)
    ensures
        batteries_ok(spec_default_status(texts.0, texts.1, texts.2)),
        batteries_ok(s) && event_applied(s, after, e) ==> batteries_ok(after),
        batteries_ok(s) ==> batteries_ok(spec_apply_ble(s, adv, d, texts.1)),
        batteries_ok(s) ==> batteries_ok(with_measurements_reset(s)),
        batteries_ok(s) ==> batteries_ok(with_model(s, id, texts.1)),
{
    reveal(with_model);
    reveal(with_ears);
    reveal(with_battery_event);
    reveal(event_applied);
    if batteries_ok(s) {
        if let EventView::Battery(readings) = e {
            let s1 = match first_pod(readings) {
                Some(c) => Status { primary: c, ..s },
                None => s,
            };
            lemma_readings_keep_batteries(s1, readings, readings.len());
        }
    }
}

/// One operation on the status: a parsed event (`apply`), an authenticated
/// advertisement and its decrypted block (`apply_ble`), forgetting the
/// measurements, or setting the model by id or by model number.
pub enum StatusOp {
    Event(EventView),
    Ble(Advertisement, Seq<u8>),
    Reset,
    ModelId(u8),
    ModelNumber(Seq<char>),
}

/// `after` is the status after `op` on `before`, as the methods' contracts give it.
pub open spec fn status_step(before: Status, after: Status, op: StatusOp) -> bool {
    match op {
        StatusOp::Event(e) => event_applied(before, after, e),
        StatusOp::Ble(adv, d) => after == spec_apply_ble(before, adv, d, after.model_name),
        StatusOp::Reset => after == with_measurements_reset(before),
        StatusOp::ModelId(id) => after == with_model(before, id, after.model_name),
        StatusOp::ModelNumber(n) => after == with_model(
            Status { model_number: after.model_number, ..before },
            spec_model_from_number(n),
            after.model_name,
        ),
    }
}

/// `states` is a history of the status from a default status through `ops`.
pub open spec fn status_history(states: Seq<Status>, ops: Seq<StatusOp>) -> bool {
    &&& states.len() == ops.len() + 1
    &&& states[0] == spec_default_status(
        states[0].device_name,
        states[0].model_name,
        states[0].model_number,
    )
    &&& forall|i: int|
        #![trigger ops[i]]
        0 <= i < ops.len() ==> status_step(states[i], states[i + 1], ops[i])
}

proof fn lemma_history_batteries(states: Seq<Status>, ops: Seq<StatusOp>, k: int)
    requires
        status_history(states, ops),
        0 <= k < states.len(),
    ensures
        batteries_ok(states[k]),
    decreases k,
{
    let d0 = states[0];
    if k == 0 {
        law_batteries_stay_consistent(
            d0,
            d0,
            EventView::HandshakeAck,
            arbitrary(),
            Seq::empty(),
            0,
            (d0.device_name, d0.model_name, d0.model_number),
        );
    } else {
        lemma_history_batteries(states, ops, k - 1);
        let s = states[k - 1];
        let a = states[k];
        let texts = (a.device_name, a.model_name, a.model_number);
        assert(status_step(s, a, ops[k - 1]));
        match ops[k - 1] {
            StatusOp::Event(e) => law_batteries_stay_consistent(s, a, e, arbitrary(), Seq::empty(), 0, texts),
            StatusOp::Ble(adv, d) => law_batteries_stay_consistent(s, a, EventView::HandshakeAck, adv, d, 0, texts),
            StatusOp::Reset => law_batteries_stay_consistent(s, a, EventView::HandshakeAck, arbitrary(), Seq::empty(), 0, texts),
            StatusOp::ModelId(id) => law_batteries_stay_consistent(s, a, EventView::HandshakeAck, arbitrary(), Seq::empty(), id, texts),
            StatusOp::ModelNumber(n) => {
                let s1 = Status { model_number: a.model_number, ..s };
                law_batteries_stay_consistent(
                    s1,
                    a,
                    EventView::HandshakeAck,
                    arbitrary(),
                    Seq::empty(),
                    spec_model_from_number(n),
                    texts,
                );
            },
        }
    }
}

/// Every status reached from a default status through the library's
/// operations keeps its batteries consistent.
pub proof fn law_reachable_batteries_consistent(states: Seq<Status>, ops: Seq<StatusOp>)
    requires
        status_history(states, ops),
    ensures
        forall|k: int| 0 <= k < states.len() ==> batteries_ok(#[trigger] states[k]),
{
    assert forall|k: int| 0 <= k < states.len() implies batteries_ok(#[trigger] states[k]) by {
        lemma_history_batteries(states, ops, k);
    }
}

} // verus!
