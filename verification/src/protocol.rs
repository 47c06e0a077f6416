//! AirPods packet formats: the L2CAP control channel and BLE advertisements.
//!
//! Parsing has no side effects, so a malformed known packet can never
//! partially update state: it is either a whole event, ignored, or an error.
use vstd::prelude::*;
use vstd::utf8::*;

use vstd::string::StringSliceAdditionalSpecFns;

use crate::bytes::{has_prefix, range_equals, starts_with, utf8_text};
use crate::crypto::{aes128_decrypt, aes128_decrypt_block, aes128_encrypt, aes128_encrypt_block};

verus! {

pub const HANDSHAKE: [u8; 16] = [0, 0, 4, 0, 1, 0, 2, 0, 0, 0, 0, 0, 0, 0, 0, 0];

pub const FEATURES: [u8; 14] = [4, 0, 4, 0, 0x4d, 0, 0xd7, 0, 0, 0, 0, 0, 0, 0];

pub const NOTIFICATIONS: [u8; 11] = [4, 0, 4, 0, 0x0f, 0, 0xff, 0xff, 0xff, 0xff, 0xff];

pub const REQUEST_MAGIC_KEYS: [u8; 8] = [4, 0, 4, 0, 0x30, 0, 5, 0];

pub const MAGIC_KEYS_HEADER: [u8; 7] = [4, 0, 4, 0, 0x31, 0, 2];

pub open spec fn handshake_ack_header() -> Seq<u8> {
    seq![1u8, 0, 4, 0]
}

pub open spec fn features_ack_header() -> Seq<u8> {
    seq![4u8, 0, 4, 0, 0x2b, 0]
}

pub open spec fn disconnect_packet() -> Seq<u8> {
    seq![0u8, 1, 0, 0]
}

pub open spec fn battery_header() -> Seq<u8> {
    seq![4u8, 0, 4, 0, 4, 0]
}

pub open spec fn ear_header() -> Seq<u8> {
    seq![4u8, 0, 4, 0, 6, 0]
}

pub open spec fn control_header() -> Seq<u8> {
    seq![4u8, 0, 4, 0, 9, 0]
}

pub open spec fn metadata_header() -> Seq<u8> {
    seq![4u8, 0, 4, 0, 0x1d]
}

pub open spec fn magic_keys_header() -> Seq<u8> {
    seq![4u8, 0, 4, 0, 0x31, 0, 2]
}

pub open spec fn conversation_header() -> Seq<u8> {
    seq![4u8, 0, 4, 0, 0x4b, 0, 2, 0, 1]
}

/// A battery-bearing part of the AirPods.
#[derive(Clone, Copy, Debug, PartialEq, Eq, Structural)]
pub enum Component {
    Headset,
    Left,
    Right,
    Case,
}

impl Default for Component {
    fn default() -> (r: Self)
        ensures
            r == Component::Left,
    {
        Component::Left
    }
}

pub open spec fn spec_component_from_wire(value: u8) -> Option<Component> {
    if value == 1 {
        Some(Component::Headset)
    } else if value == 2 {
        Some(Component::Right)
    } else if value == 4 {
        Some(Component::Left)
    } else if value == 8 {
        Some(Component::Case)
    } else {
        None
    }
}

impl Component {
    pub fn from_wire(value: u8) -> (r: Option<Self>)
        ensures
            r == spec_component_from_wire(value),
    {
        match value {
            1 => Some(Component::Headset),
            2 => Some(Component::Right),
            4 => Some(Component::Left),
            8 => Some(Component::Case),
            _ => None,
        }
    }
}

/// Where one earbud (or the headset) currently is.
#[derive(Clone, Copy, Debug, PartialEq, Eq, Structural)]
pub enum EarState {
    InEar,
    Out,
    InCase,
    Disconnected,
}

impl Default for EarState {
    fn default() -> (r: Self)
        ensures
            r == EarState::Disconnected,
    {
        EarState::Disconnected
    }
}

pub open spec fn spec_ear_from_wire(value: u8) -> EarState {
    if value == 0 {
        EarState::InEar
    } else if value == 1 {
        EarState::Out
    } else if value == 2 {
        EarState::InCase
    } else {
        EarState::Disconnected
    }
}

impl EarState {
    pub fn from_wire(value: u8) -> (r: Self)
        ensures
            r == spec_ear_from_wire(value),
    {
        match value {
            0 => EarState::InEar,
            1 => EarState::Out,
            2 => EarState::InCase,
            _ => EarState::Disconnected,
        }
    }
}

/// One battery record of a battery packet.
#[derive(Clone, Copy, Debug, PartialEq, Eq, Structural)]
pub struct ComponentReading {
    pub component: Component,
    pub level: u8,
    pub charging: bool,
    pub available: bool,
}

/// `core::fmt::Formatter`, the sink that `Debug` writes to; opaque here.
#[verifier::external_type_specification]
#[verifier::external_body]
pub struct ExFormatter<'a>(core::fmt::Formatter<'a>);

/// `core::fmt::Error`, the failure a formatter reports; opaque here.
#[verifier::external_type_specification]
#[verifier::external_body]
pub struct ExFmtError(core::fmt::Error);

/// The pairing keys; their `Debug` form never shows the key bytes.
#[derive(Clone, PartialEq, Eq)]
pub struct MagicKeys {
    pub irk: [u8; 16],
    pub key: [u8; 16],
}

impl core::fmt::Debug for MagicKeys {
    /// Writes a fixed redacted text through `Formatter::write_str`; nothing is
    /// claimed of the formatter.
    #[verifier::external_body]
    fn fmt(&self, f: &mut core::fmt::Formatter<'_>) -> core::fmt::Result {
        f.write_str("MagicKeys(<redacted>)")
    }
}

#[derive(Clone, Debug, PartialEq, Eq)]
pub enum Event {
    HandshakeAck,
    FeaturesAck,
    Disconnected,
    Battery(Vec<ComponentReading>),
    Ear { primary: EarState, secondary: EarState },
    NoiseMode(i32),
    AdaptiveLevel(u8),
    Conversation(bool),
    ConversationActivity(u8),
    Metadata { name: String, model_number: String },
    MagicKeys(MagicKeys),
}

/// The mathematical value of an [`Event`].
pub enum EventView {
    HandshakeAck,
    FeaturesAck,
    Disconnected,
    Battery(Seq<ComponentReading>),
    Ear { primary: EarState, secondary: EarState },
    NoiseMode(i32),
    AdaptiveLevel(u8),
    Conversation(bool),
    ConversationActivity(u8),
    Metadata { name: Seq<char>, model_number: Seq<char> },
    MagicKeys { irk: Seq<u8>, key: Seq<u8> },
}

impl View for Event {
    type V = EventView;

    open spec fn view(&self) -> EventView {
        match self {
            Event::HandshakeAck => EventView::HandshakeAck,
            Event::FeaturesAck => EventView::FeaturesAck,
            Event::Disconnected => EventView::Disconnected,
            Event::Battery(readings) => EventView::Battery(readings@),
            Event::Ear { primary, secondary } => EventView::Ear {
                primary: *primary,
                secondary: *secondary,
            },
            Event::NoiseMode(m) => EventView::NoiseMode(*m),
            Event::AdaptiveLevel(l) => EventView::AdaptiveLevel(*l),
            Event::Conversation(b) => EventView::Conversation(*b),
            Event::ConversationActivity(a) => EventView::ConversationActivity(*a),
            Event::Metadata { name, model_number } => EventView::Metadata {
                name: name@,
                model_number: model_number@,
            },
            Event::MagicKeys(keys) => EventView::MagicKeys { irk: keys.irk@, key: keys.key@ },
        }
    }
}

/// Why a known packet was rejected.
#[derive(Clone, Copy, Debug, PartialEq, Eq)]
pub struct ParseError(pub &'static str);

impl ParseError {
    pub fn message(&self) -> (r: &'static str)
        ensures
            r == self.0,
    {
        self.0
    }
}

/// The outcome of parsing a datagram, by the view of its event and the text of its error.
pub open spec fn parse_view(r: Result<Option<Event>, ParseError>) -> Result<Option<EventView>, Seq<char>> {
    match r {
        Ok(None) => Ok(None),
        Ok(Some(e)) => Ok(Some(e@)),
        Err(e) => Err(e.0@),
    }
}

pub open spec fn spec_control_packet(id: u8, value: u8) -> Seq<u8> {
    seq![4u8, 0, 4, 0, 9, 0, id, value, 0, 0, 0]
}

pub fn control_packet(id: u8, value: u8) -> (r: [u8; 11])
    ensures
        r@ == spec_control_packet(id, value),
{
    let r = [4, 0, 4, 0, 9, 0, id, value, 0, 0, 0];
    assert(r@ =~= spec_control_packet(id, value));
    r
}

/// Listening modes 0..=3 are sent as control 0x0d with value mode + 1.
pub fn noise_packet(mode: i32) -> (r: Option<[u8; 11]>)
    ensures
        r is Some <==> 0 <= mode <= 3,
        r matches Some(p) ==> p@ == spec_control_packet(0x0d, (mode + 1) as u8),
{
    if 0 <= mode && mode <= 3 {
        Some(control_packet(0x0d, (mode + 1) as u8))
    } else {
        None
    }
}

pub open spec fn conversation_value(enabled: bool) -> u8 {
    if enabled {
        1
    } else {
        2
    }
}

pub fn conversation_packet(enabled: bool) -> (r: [u8; 11])
    ensures
        r@ == spec_control_packet(0x28, conversation_value(enabled)),
{
    control_packet(0x28, if enabled { 1 } else { 2 })
}

pub fn adaptive_packet(level: u8) -> (r: Option<[u8; 11]>)
    ensures
        r is Some <==> level <= 100,
        r matches Some(p) ==> p@ == spec_control_packet(0x2e, level),
{
    if level <= 100 {
        Some(control_packet(0x2e, level))
    } else {
        None
    }
}

pub open spec fn spec_control_event(id: u8, value: u8) -> Result<Option<EventView>, Seq<char>> {
    if id == 0x0d && 1 <= value <= 4 {
        Ok(Some(EventView::NoiseMode((value - 1) as i32)))
    } else if id == 0x2e && value <= 100 {
        Ok(Some(EventView::AdaptiveLevel(value)))
    } else if id == 0x28 && (value == 1 || value == 2) {
        Ok(Some(EventView::Conversation(value == 1)))
    } else if id == 0x0d || id == 0x2e || id == 0x28 {
        Err("invalid control value"@)
    } else {
        Ok(None)
    }
}

/// The reading of a battery record, if its component is known and its values valid.
pub open spec fn battery_step(acc: Seq<ComponentReading>, r: Seq<u8>) -> Result<
    Seq<ComponentReading>,
    Seq<char>,
> {
    if r[1] != 1 || r[4] != 1 {
        Err("invalid battery record delimiters"@)
    } else {
        match spec_component_from_wire(r[0]) {
            None => Ok(acc),
            Some(c) => if !(r[3] == 1 || r[3] == 2 || r[3] == 4) || (r[3] != 4 && r[2] > 100) {
                Err("invalid battery reading"@)
            } else if exists|j: int| 0 <= j < acc.len() && (#[trigger] acc[j]).component == c {
                Err("duplicate battery component"@)
            } else {
                Ok(
                    acc.push(
                        ComponentReading {
                            component: c,
                            level: r[2],
                            charging: r[3] == 1,
                            available: r[3] != 4,
                        },
                    ),
                )
            },
        }
    }
}

pub open spec fn battery_record(data: Seq<u8>, i: int) -> Seq<u8> {
    data.subrange(7 + 5 * i, 7 + 5 * i + 5)
}

/// The readings of the first `k` records, in order.
pub open spec fn battery_records(data: Seq<u8>, k: nat) -> Result<Seq<ComponentReading>, Seq<char>>
    decreases k,
{
    if k == 0 {
        Ok(Seq::empty())
    } else {
        match battery_records(data, (k - 1) as nat) {
            Err(e) => Err(e),
            Ok(acc) => battery_step(acc, battery_record(data, k - 1)),
        }
    }
}

pub open spec fn spec_parse_battery(data: Seq<u8>) -> Result<Seq<ComponentReading>, Seq<char>> {
    if data.len() <= 6 {
        Err("missing battery count"@)
    } else if data[6] > 3 || data.len() != 7 + 5 * data[6] {
        Err("invalid battery packet length"@)
    } else {
        battery_records(data, data[6] as nat)
    }
}

/// The position of the first zero byte.
pub open spec fn first_zero(s: Seq<u8>) -> Option<int>
    decreases s.len(),
{
    if s.len() == 0 {
        None
    } else if s[0] == 0 {
        Some(0)
    } else {
        match first_zero(s.drop_first()) {
            Some(i) => Some(i + 1),
            None => None,
        }
    }
}

/// One zero-terminated UTF-8 metadata field, and what follows it.
pub open spec fn spec_take_string(s: Seq<u8>) -> Result<(Seq<char>, Seq<u8>), Seq<char>> {
    match first_zero(s) {
        None => Err("unterminated metadata field"@),
        Some(end) => if end > 255 {
            Err("oversized metadata field"@)
        } else if !valid_utf8(s.take(end)) {
            Err("invalid metadata text"@)
        } else {
            Ok((decode_utf8(s.take(end)), s.skip(end + 1)))
        },
    }
}

pub open spec fn spec_parse_metadata(data: Seq<u8>) -> Result<Option<EventView>, Seq<char>> {
    if data.len() < 11 {
        Err("truncated metadata"@)
    } else {
        match spec_take_string(data.skip(11)) {
            Err(e) => Err(e),
            Ok((name, rest)) => match spec_take_string(rest) {
                Err(e) => Err(e),
                Ok((model_number, rest2)) => match spec_take_string(rest2) {
                    Err(e) => Err(e),
                    Ok(_) => Ok(Some(EventView::Metadata { name, model_number })),
                },
            },
        }
    }
}

pub open spec fn spec_parse_magic_keys(data: Seq<u8>) -> Result<Option<EventView>, Seq<char>> {
    if data.len() < 47 || data.subrange(7, 10) != seq![1u8, 0, 16] || data.subrange(27, 30)
        != seq![4u8, 0, 16] {
        Err("invalid magic key packet"@)
    } else {
        Ok(Some(EventView::MagicKeys { irk: data.subrange(11, 27), key: data.subrange(31, 47) }))
    }
}

/// What one L2CAP datagram means.
pub open spec fn spec_parse_packet(data: Seq<u8>) -> Result<Option<EventView>, Seq<char>> {
    if data.len() > 65535 {
        Err("oversized packet"@)
    } else if starts_with(data, handshake_ack_header()) {
        Ok(Some(EventView::HandshakeAck))
    } else if starts_with(data, features_ack_header()) {
        Ok(Some(EventView::FeaturesAck))
    } else if data == disconnect_packet() {
        Ok(Some(EventView::Disconnected))
    } else if starts_with(data, battery_header()) {
        match spec_parse_battery(data) {
            Ok(readings) => Ok(Some(EventView::Battery(readings))),
            Err(e) => Err(e),
        }
    } else if starts_with(data, ear_header()) {
        if data.len() != 8 {
            Err("invalid ear packet length"@)
        } else {
            Ok(
                Some(
                    EventView::Ear {
                        primary: spec_ear_from_wire(data[6]),
                        secondary: spec_ear_from_wire(data[7]),
                    },
                ),
            )
        }
    } else if starts_with(data, control_header()) {
        if data.len() != 11 {
            Err("invalid control packet length"@)
        } else {
            spec_control_event(data[6], data[7])
        }
    } else if starts_with(data, conversation_header()) {
        if data.len() != 10 {
            Err("invalid conversation packet length"@)
        } else {
            Ok(Some(EventView::ConversationActivity(data[9])))
        }
    } else if starts_with(data, metadata_header()) {
        spec_parse_metadata(data)
    } else if starts_with(data, magic_keys_header()) {
        spec_parse_magic_keys(data)
    } else {
        Ok(None)
    }
}


proof fn lemma_first_zero(s: Seq<u8>, k: int)
    requires
        0 <= k <= s.len(),
        forall|j: int| 0 <= j < k ==> s[j] != 0,
    ensures
        k < s.len() && s[k] == 0 ==> first_zero(s) == Some(k),
        k == s.len() ==> first_zero(s) is None,
    decreases k,
{
    if k > 0 {
        lemma_first_zero(s.drop_first(), k - 1);
    }
}

/// Reads one zero-terminated UTF-8 field starting at `start`; on success also
/// returns where the next field starts.
fn take_string(data: &[u8], start: usize) -> (r: Result<(String, usize), ParseError>)
    requires
        start <= data@.len(),
    ensures
        match r {
            Ok((text, next)) => next <= data@.len() && spec_take_string(data@.skip(start as int))
                == Ok::<(Seq<char>, Seq<u8>), Seq<char>>((text@, data@.skip(next as int))),
            Err(e) => spec_take_string(data@.skip(start as int)) == Err::<(Seq<char>, Seq<u8>), Seq<char>>(
                e.0@,
            ),
        },
{
    let ghost s = data@.skip(start as int);
    let mut i: usize = start;
    while i < data.len() && data[i] != 0
        invariant
            start <= i <= data@.len(),
            s == data@.skip(start as int),
            forall|j: int| 0 <= j < i - start ==> s[j] != 0,
        decreases data@.len() - i,
    {
        i = i + 1;
    }
    proof {
        lemma_first_zero(s, i - start);
    }
    if i == data.len() {
        return Err(ParseError("unterminated metadata field"));
    }
    let end = i - start;
    if end > 255 {
        return Err(ParseError("oversized metadata field"));
    }
    let field = &data[start..i];
    assert(field@ =~= s.take(end as int));
    match utf8_text(field) {
        None => Err(ParseError("invalid metadata text")),
        Some(text) => {
            assert(s.skip(end + 1) =~= data@.skip(i + 1));
            Ok((text.to_owned(), i + 1))
        },
    }
}

fn parse_metadata(data: &[u8]) -> (r: Result<Option<Event>, ParseError>)
    ensures
        parse_view(r) == spec_parse_metadata(data@),
{
    if data.len() < 11 {
        return Err(ParseError("truncated metadata"));
    }
    let (name, next) = match take_string(data, 11) {
        Ok(v) => v,
        Err(e) => return Err(e),
    };
    let (model_number, next2) = match take_string(data, next) {
        Ok(v) => v,
        Err(e) => return Err(e),
    };
    match take_string(data, next2) {
        Ok(_) => {},
        Err(e) => return Err(e),
    }
    Ok(Some(Event::Metadata { name, model_number }))
}

fn copy_key(data: &[u8], start: usize) -> (r: [u8; 16])
    requires
        start + 16 <= data@.len(),
    ensures
        r@ == data@.subrange(start as int, start + 16),
{
    let mut key = [0u8; 16];
    let mut i: usize = 0;
    let n = data.len();
    while i < 16
        invariant
            n == data@.len(),
            start + 16 <= data@.len(),
            i <= 16,
            forall|j: int| 0 <= j < i ==> key@[j] == data@[start + j],
        decreases 16 - i,
    {
        key[i] = data[start + i];
        i = i + 1;
    }
    assert(key@ =~= data@.subrange(start as int, start + 16));
    key
}

fn parse_magic_keys(data: &[u8]) -> (r: Result<Option<Event>, ParseError>)
    ensures
        parse_view(r) == spec_parse_magic_keys(data@),
{
    let irk_tag: [u8; 3] = [1, 0, 16];
    let key_tag: [u8; 3] = [4, 0, 16];
    assert(irk_tag@ =~= seq![1u8, 0, 16]);
    assert(key_tag@ =~= seq![4u8, 0, 16]);
    if data.len() < 47 || !range_equals(data, 7, irk_tag.as_slice()) || !range_equals(
        data,
        27,
        key_tag.as_slice(),
    ) {
        return Err(ParseError("invalid magic key packet"));
    }
    Ok(Some(Event::MagicKeys(MagicKeys { irk: copy_key(data, 11), key: copy_key(data, 31) })))
}

/// Whether `readings` already holds a reading of `component`.
fn has_component(readings: &Vec<ComponentReading>, component: Component) -> (r: bool)
    ensures
        r == exists|j: int| 0 <= j < readings@.len() && (#[trigger] readings@[j]).component == component,
{
    let mut i: usize = 0;
    while i < readings.len()
        invariant
            i <= readings@.len(),
            forall|j: int| 0 <= j < i ==> (#[trigger] readings@[j]).component != component,
        decreases readings@.len() - i,
    {
        if readings[i].component == component {
            return true;
        }
        i = i + 1;
    }
    false
}

proof fn lemma_battery_error_persists(data: Seq<u8>, k: nat, m: nat)
    requires
        k <= m,
        battery_records(data, k) is Err,
    ensures
        battery_records(data, m) == battery_records(data, k),
    decreases m - k,
{
    if k < m {
        lemma_battery_error_persists(data, k, (m - 1) as nat);
    }
}

fn parse_battery(data: &[u8]) -> (r: Result<Vec<ComponentReading>, ParseError>)
    ensures
        match r {
            Ok(v) => spec_parse_battery(data@) == Ok::<Seq<ComponentReading>, Seq<char>>(v@),
            Err(e) => spec_parse_battery(data@) == Err::<Seq<ComponentReading>, Seq<char>>(e.0@),
        },
{
    if data.len() <= 6 {
        return Err(ParseError("missing battery count"));
    }
    let count = data[6] as usize;
    if count > 3 || data.len() != 7 + 5 * count {
        return Err(ParseError("invalid battery packet length"));
    }
    let mut readings: Vec<ComponentReading> = Vec::new();
    let mut k: usize = 0;
    while k < count
        invariant
            count == data@[6],
            count <= 3,
            data@.len() == 7 + 5 * count,
            k <= count,
            battery_records(data@, k as nat) == Ok::<Seq<ComponentReading>, Seq<char>>(readings@),
        decreases count - k,
    {
        let base = 7 + 5 * k;
        let ghost record = battery_record(data@, k as int);
        assert(record[0] == data@[base as int] && record[1] == data@[base + 1] && record[2]
            == data@[base + 2] && record[3] == data@[base + 3] && record[4] == data@[base + 4]);
        if data[base + 1] != 1 || data[base + 4] != 1 {
            proof {
                lemma_battery_error_persists(data@, (k + 1) as nat, count as nat);
            }
            return Err(ParseError("invalid battery record delimiters"));
        }
        match Component::from_wire(data[base]) {
            None => {},
            Some(component) => {
                let state = data[base + 3];
                let level = data[base + 2];
                if !(state == 1 || state == 2 || state == 4) || (state != 4 && level > 100) {
                    proof {
                        lemma_battery_error_persists(data@, (k + 1) as nat, count as nat);
                    }
                    return Err(ParseError("invalid battery reading"));
                }
                if has_component(&readings, component) {
                    proof {
                        lemma_battery_error_persists(data@, (k + 1) as nat, count as nat);
                    }
                    return Err(ParseError("duplicate battery component"));
                }
                readings.push(
                    ComponentReading { component, level, charging: state == 1, available: state != 4 },
                );
            },
        }
        k = k + 1;
    }
    Ok(readings)
}

/// Parses one L2CAP datagram. Unknown packets are `Ok(None)`.
pub fn parse_packet(data: &[u8]) -> (r: Result<Option<Event>, ParseError>)
    ensures
        parse_view(r) == spec_parse_packet(data@),
{
    if data.len() > 65535 {
        return Err(ParseError("oversized packet"));
    }
    let handshake_ack: [u8; 4] = [1, 0, 4, 0];
    let features_ack: [u8; 6] = [4, 0, 4, 0, 0x2b, 0];
    let battery: [u8; 6] = [4, 0, 4, 0, 4, 0];
    let ear: [u8; 6] = [4, 0, 4, 0, 6, 0];
    let control: [u8; 6] = [4, 0, 4, 0, 9, 0];
    let conversation: [u8; 9] = [4, 0, 4, 0, 0x4b, 0, 2, 0, 1];
    let metadata: [u8; 5] = [4, 0, 4, 0, 0x1d];
    let magic: [u8; 7] = [4, 0, 4, 0, 0x31, 0, 2];
    assert(handshake_ack@ =~= handshake_ack_header());
    assert(features_ack@ =~= features_ack_header());
    assert(battery@ =~= battery_header());
    assert(ear@ =~= ear_header());
    assert(control@ =~= control_header());
    assert(conversation@ =~= conversation_header());
    assert(metadata@ =~= metadata_header());
    assert(magic@ =~= magic_keys_header());
    if has_prefix(data, handshake_ack.as_slice()) {
        Ok(Some(Event::HandshakeAck))
    } else if has_prefix(data, features_ack.as_slice()) {
        Ok(Some(Event::FeaturesAck))
    } else if data.len() == 4 && data[0] == 0 && data[1] == 1 && data[2] == 0 && data[3] == 0 {
        assert(data@ =~= disconnect_packet());
        Ok(Some(Event::Disconnected))
    } else if has_prefix(data, battery.as_slice()) {
        assert(data@ != disconnect_packet());
        match parse_battery(data) {
            Ok(readings) => Ok(Some(Event::Battery(readings))),
            Err(e) => Err(e),
        }
    } else if has_prefix(data, ear.as_slice()) {
        assert(data@ != disconnect_packet());
        if data.len() != 8 {
            return Err(ParseError("invalid ear packet length"));
        }
        Ok(
            Some(
                Event::Ear {
                    primary: EarState::from_wire(data[6]),
                    secondary: EarState::from_wire(data[7]),
                },
            ),
        )
    } else if has_prefix(data, control.as_slice()) {
        assert(data@ != disconnect_packet());
        if data.len() != 11 {
            return Err(ParseError("invalid control packet length"));
        }
        let id = data[6];
        let value = data[7];
        if id == 0x0d && 1 <= value && value <= 4 {
            Ok(Some(Event::NoiseMode(value as i32 - 1)))
        } else if id == 0x2e && value <= 100 {
            Ok(Some(Event::AdaptiveLevel(value)))
        } else if id == 0x28 && (value == 1 || value == 2) {
            Ok(Some(Event::Conversation(value == 1)))
        } else if id == 0x0d || id == 0x2e || id == 0x28 {
            Err(ParseError("invalid control value"))
        } else {
            Ok(None)
        }
    } else if has_prefix(data, conversation.as_slice()) {
        assert(data@ != disconnect_packet());
        if data.len() != 10 {
            return Err(ParseError("invalid conversation packet length"));
        }
        Ok(Some(Event::ConversationActivity(data[9])))
    } else if has_prefix(data, metadata.as_slice()) {
        assert(data@ != disconnect_packet());
        parse_metadata(data)
    } else if has_prefix(data, magic.as_slice()) {
        assert(data@ != disconnect_packet());
        parse_magic_keys(data)
    } else {
        assert(data@ != disconnect_packet()) by {
            if data@ == disconnect_packet() {
                assert(data@.len() == 4 && data@[0] == 0 && data@[1] == 1);
            }
        }
        Ok(None)
    }
}



/// Apple manufacturer data (company ID 0x004c, excluding that ID).
#[derive(Clone, Debug, PartialEq, Eq)]
pub struct Advertisement {
    pub model_id: u16,
    pub primary_left: bool,
    pub pod_in_case: bool,
    pub left_in_ear: bool,
    pub right_in_ear: bool,
    pub case_level: Option<u8>,
    pub case_charging: bool,
    pub lid_state: u8,
    pub encrypted_payload: [u8; 16],
}

/// Whether `data` is an AirPods proximity frame that can be read.
pub open spec fn is_proximity_frame(data: Seq<u8>) -> bool {
    data.len() >= 27 && data[0] == 7 && data[1] == 25 && data[2] == 1
}

/// The fields of `adv` are those encoded in `data`. The status byte says which
/// pod is primary and whether it is in the case; the in-ear bits are ordered by
/// primary pod, flipped when the primary pod is the right one outside the case
/// or the left one inside it.
pub open spec fn advertisement_of(data: Seq<u8>, adv: Advertisement) -> bool {
    let status = data[5];
    let primary_left = status & 0x20 != 0;
    let pod_in_case = status & 0x40 != 0;
    let flipped = (!primary_left) != pod_in_case;
    let nibble = data[7] & 0x0f;
    &&& adv.model_id == data[3] * 256 + data[4]
    &&& adv.primary_left == primary_left
    &&& adv.pod_in_case == pod_in_case
    &&& adv.left_in_ear == (status & (if flipped { 0x08u8 } else { 0x02u8 }) != 0)
    &&& adv.right_in_ear == (status & (if flipped { 0x02u8 } else { 0x08u8 }) != 0)
    &&& adv.case_level == (if nibble <= 10 { Some((nibble * 10) as u8) } else { None })
    &&& adv.case_charging == (data[7] & 0x40 != 0)
    &&& adv.lid_state == (if pod_in_case { (data[8] >> 3) & 1 } else { 2 })
    &&& adv.encrypted_payload@ == data.subrange(11, 27)
}

/// Reads an AirPods advertisement. The unencrypted pod percentages, rounded to
/// tens, are deliberately not exposed.
pub fn parse_advertisement(data: &[u8]) -> (r: Option<Advertisement>)
    ensures
        r is Some <==> is_proximity_frame(data@),
        r matches Some(adv) ==> advertisement_of(data@, adv),
{
    if data.len() < 27 || data[0] != 7 || data[1] != 25 || data[2] != 1 {
        return None;
    }
    let status = data[5];
    let primary_left = status & 0x20 != 0;
    let pod_in_case = status & 0x40 != 0;
    let flipped = (!primary_left) != pod_in_case;
    let case_nibble = data[7] & 0x0f;
    let mut payload = [0u8; 16];
    let mut i: usize = 0;
    while i < 16
        invariant
            data@.len() >= 27,
            i <= 16,
            forall|j: int| 0 <= j < i ==> payload@[j] == data@[11 + j],
        decreases 16 - i,
    {
        payload[i] = data[11 + i];
        i = i + 1;
    }
    assert(payload@ =~= data@.subrange(11, 27));
    Some(
        Advertisement {
            model_id: (data[3] as u16) * 256 + data[4] as u16,
            primary_left,
            pod_in_case,
            left_in_ear: status & (if flipped { 0x08u8 } else { 0x02u8 }) != 0,
            right_in_ear: status & (if flipped { 0x02u8 } else { 0x08u8 }) != 0,
            case_level: if case_nibble <= 10 { Some(case_nibble * 10) } else { None },
            case_charging: data[7] & 0x40 != 0,
            lid_state: if pod_in_case { (data[8] >> 3) & 1 } else { 2 },
            encrypted_payload: payload,
        },
    )
}

/// The value of one hexadecimal digit.
pub open spec fn hex_digit(c: u8) -> Option<u8> {
    if 48 <= c <= 57 {
        Some((c - 48) as u8)
    } else if 97 <= c <= 102 {
        Some((c - 87) as u8)
    } else if 65 <= c <= 70 {
        Some((c - 55) as u8)
    } else {
        None
    }
}

/// A two-byte address part as `u8::from_str_radix(part, 16)` reads it: two
/// digits, or a `+` sign and one digit.
pub open spec fn hex_pair(a: u8, b: u8) -> Option<u8> {
    if a == 43 {
        hex_digit(b)
    } else {
        match (hex_digit(a), hex_digit(b)) {
            (Some(x), Some(y)) => Some((16 * x + y) as u8),
            _ => None,
        }
    }
}

/// The six bytes of a colon-separated Bluetooth address, in written order.
pub open spec fn address_bytes(text: Seq<u8>) -> Option<Seq<u8>> {
    if text.len() == 17 && text[2] == 58 && text[5] == 58 && text[8] == 58 && text[11] == 58
        && text[14] == 58 && hex_pair(text[0], text[1]) is Some && hex_pair(text[3], text[4]) is Some
        && hex_pair(text[6], text[7]) is Some && hex_pair(text[9], text[10]) is Some && hex_pair(
        text[12],
        text[13],
    ) is Some && hex_pair(text[15], text[16]) is Some {
        Some(
            seq![
                hex_pair(text[0], text[1])->0,
                hex_pair(text[3], text[4])->0,
                hex_pair(text[6], text[7])->0,
                hex_pair(text[9], text[10])->0,
                hex_pair(text[12], text[13])->0,
                hex_pair(text[15], text[16])->0,
            ],
        )
    } else {
        None
    }
}

fn hex_digit_value(c: u8) -> (r: Option<u8>)
    ensures
        r == hex_digit(c),
{
    if 48 <= c && c <= 57 {
        Some(c - 48)
    } else if 97 <= c && c <= 102 {
        Some(c - 87)
    } else if 65 <= c && c <= 70 {
        Some(c - 55)
    } else {
        None
    }
}

fn hex_pair_value(a: u8, b: u8) -> (r: Option<u8>)
    ensures
        r == hex_pair(a, b),
{
    if a == 43 {
        hex_digit_value(b)
    } else {
        match (hex_digit_value(a), hex_digit_value(b)) {
            (Some(x), Some(y)) => Some(16 * x + y),
            _ => None,
        }
    }
}

/// Reads the six bytes of a colon-separated address such as `70:81:94:0D:FB:AA`.
pub fn parse_address(address: &str) -> (r: Option<[u8; 6]>)
    ensures
        match r {
            Some(bytes) => address_bytes(address.spec_bytes()) == Some(bytes@),
            None => address_bytes(address.spec_bytes()) is None,
        },
{
    let text = address.as_bytes();
    if text.len() != 17 || text[2] != 58 || text[5] != 58 || text[8] != 58 || text[11] != 58
        || text[14] != 58 {
        return None;
    }
    let mut bytes = [0u8; 6];
    let mut k: usize = 0;
    while k < 6
        invariant
            text@ == address.spec_bytes(),
            text@.len() == 17,
            k <= 6,
            forall|j: int| 0 <= j < k ==> hex_pair(text@[3 * j], text@[3 * j + 1]) == Some(#[trigger] bytes@[j]),
        decreases 6 - k,
    {
        match hex_pair_value(text[3 * k], text[3 * k + 1]) {
            Some(v) => {
                bytes[k] = v;
            },
            None => {
                return None;
            },
        }
        k = k + 1;
    }
    assert(hex_pair(text@[0], text@[1]) == Some(bytes@[0]));
    assert(hex_pair(text@[3], text@[4]) == Some(bytes@[1]));
    assert(hex_pair(text@[6], text@[7]) == Some(bytes@[2]));
    assert(hex_pair(text@[9], text@[10]) == Some(bytes@[3]));
    assert(hex_pair(text@[12], text@[13]) == Some(bytes@[4]));
    assert(hex_pair(text@[15], text@[16]) == Some(bytes@[5]));
    assert(address_bytes(text@)->0 =~= bytes@);
    Some(bytes)
}

/// The block that Bluetooth's `ah()` encrypts for an address: its prand part
/// (the first three written bytes), last in the block.
pub open spec fn rpa_plaintext(address: Seq<u8>) -> Seq<u8> {
    Seq::new(
        16,
        |i: int|
            if i == 13 {
                address[0]
            } else if i == 14 {
                address[1]
            } else if i == 15 {
                address[2]
            } else {
                0u8
            },
    )
}

/// The encrypted block's last three bytes equal the address's hash part (the
/// last three written bytes).
pub open spec fn rpa_hash_matches(address: Seq<u8>, encrypted: Seq<u8>) -> bool {
    encrypted[15] == address[5] && encrypted[14] == address[4] && encrypted[13] == address[3]
}

/// Whether a random address was generated from `irk` (stored in the protocol's
/// little-endian order, hence reversed for AES).
pub open spec fn spec_verify_rpa(text: Seq<u8>, irk: Seq<u8>) -> bool {
    match address_bytes(text) {
        None => false,
        Some(a) => rpa_hash_matches(a, aes128_encrypt_block(irk.reverse(), rpa_plaintext(a))),
    }
}

/// Compares an address's hash part with the block that `ah()` produced for it.
pub fn rpa_matches(address: &[u8; 6], encrypted: &[u8; 16]) -> (r: bool)
    ensures
        r == rpa_hash_matches(address@, encrypted@),
{
    encrypted[15] == address[5] && encrypted[14] == address[4] && encrypted[13] == address[3]
}

/// Verifies a random Bluetooth address before accepting another device's BLE data.
pub fn verify_rpa(address: &str, irk: &[u8; 16]) -> (r: bool)
    ensures
        r == spec_verify_rpa(address.spec_bytes(), irk@),
{
    let bytes = match parse_address(address) {
        Some(b) => b,
        None => return false,
    };
    let mut key = [0u8; 16];
    let mut i: usize = 0;
    while i < 16
        invariant
            i <= 16,
            forall|j: int| 0 <= j < i ==> key@[j] == irk@[15 - j],
        decreases 16 - i,
    {
        key[i] = irk[15 - i];
        i = i + 1;
    }
    assert(key@ =~= irk@.reverse());
    let mut plaintext = [0u8; 16];
    plaintext[13] = bytes[0];
    plaintext[14] = bytes[1];
    plaintext[15] = bytes[2];
    assert(plaintext@ =~= rpa_plaintext(bytes@));
    let block = aes128_encrypt(&key, &plaintext);
    rpa_matches(&bytes, &block)
}

/// A single AES-CBC block with a zero IV equals a single AES block decryption.
/// The protocol has no authentication tag: check the address separately.
pub fn decrypt_battery(payload: &[u8], key: &[u8; 16]) -> (r: Option<[u8; 16]>)
    ensures
        r is Some <==> payload@.len() == 16,
        r matches Some(block) ==> block@ == aes128_decrypt_block(key@, payload@),
{
    if payload.len() != 16 {
        return None;
    }
    let mut input = [0u8; 16];
    let mut i: usize = 0;
    while i < 16
        invariant
            payload@.len() == 16,
            i <= 16,
            forall|j: int| 0 <= j < i ==> input@[j] == payload@[j],
        decreases 16 - i,
    {
        input[i] = payload[i];
        i = i + 1;
    }
    assert(input@ =~= payload@);
    Some(aes128_decrypt(key, &input))
}


/// Every listening mode sent by `noise_packet` is read back as that mode.
pub proof fn law_noise_mode_round_trip(mode: i32)
    requires
        0 <= mode <= 3,
    ensures
        spec_parse_packet(spec_control_packet(0x0d, (mode + 1) as u8)) == Ok::<
            Option<EventView>,
            Seq<char>,
        >(Some(EventView::NoiseMode(mode))),
{
    lemma_control_packet_is_control(0x0d, (mode + 1) as u8);
}

/// Every Conversation Awareness switch sent is read back as that switch.
pub proof fn law_conversation_round_trip(enabled: bool)
    ensures
        spec_parse_packet(spec_control_packet(0x28, conversation_value(enabled))) == Ok::<
            Option<EventView>,
            Seq<char>,
        >(Some(EventView::Conversation(enabled))),
{
    lemma_control_packet_is_control(0x28, conversation_value(enabled));
}

/// Every Adaptive level sent (0 to 100) is read back as that level.
pub proof fn law_adaptive_round_trip(level: u8)
    requires
        level <= 100,
    ensures
        spec_parse_packet(spec_control_packet(0x2e, level)) == Ok::<Option<EventView>, Seq<char>>(
            Some(EventView::AdaptiveLevel(level)),
        ),
{
    lemma_control_packet_is_control(0x2e, level);
}

proof fn lemma_control_packet_is_control(id: u8, value: u8)
    ensures
        spec_parse_packet(spec_control_packet(id, value)) == spec_control_event(id, value),
{
    let p = spec_control_packet(id, value);
    assert(p.subrange(0, 4)[0] == 4);
    assert(p.subrange(0, 6)[4] == 9);
    assert(p.subrange(0, 6) =~= control_header());
    assert(!starts_with(p, handshake_ack_header()));
    assert(!starts_with(p, features_ack_header()));
    assert(p != disconnect_packet());
    assert(!starts_with(p, battery_header()));
    assert(!starts_with(p, ear_header()));
}

/// A truncated battery packet is never read as a complete battery update:
/// no proper prefix of a battery packet parses as battery readings.
pub proof fn law_truncated_battery_never_complete(data: Seq<u8>, n: int)
    requires
        spec_parse_packet(data) matches Ok(Some(EventView::Battery(_))),
        0 <= n < data.len(),
    ensures
        !(spec_parse_packet(data.take(n)) matches Ok(Some(EventView::Battery(_)))),
{
    let p = data.take(n);
    if spec_parse_packet(p) matches Ok(Some(EventView::Battery(_))) {
        assert(starts_with(data, battery_header())) by {
            if !starts_with(data, battery_header()) {
                assert(!(spec_parse_packet(data) matches Ok(Some(EventView::Battery(_)))));
            }
        }
        assert(starts_with(p, battery_header())) by {
            if !starts_with(p, battery_header()) {
                assert(!(spec_parse_packet(p) matches Ok(Some(EventView::Battery(_)))));
            }
        }
        assert(spec_parse_battery(p) is Ok);
        assert(spec_parse_battery(data) is Ok);
        assert(p[6] == data[6]);
        assert(false);
    }
}

/// A magic-key packet shorter than its two complete key records is rejected.
pub proof fn law_short_magic_keys_rejected(data: Seq<u8>)
    requires
        starts_with(data, magic_keys_header()),
        data.len() < 47,
    ensures
        spec_parse_packet(data) is Err,
{
    let h = data.subrange(0, 7);
    assert(h[0] == 4 && h[4] == 0x31);
    assert(data[0] == 4 && data[4] == 0x31);
    assert(!starts_with(data, handshake_ack_header())) by {
        if starts_with(data, handshake_ack_header()) {
            assert(data.subrange(0, 4)[0] == 1);
        }
    }
    assert(!starts_with(data, features_ack_header())) by {
        if starts_with(data, features_ack_header()) {
            assert(data.subrange(0, 6)[4] == 0x2b);
        }
    }
    assert(data != disconnect_packet());
    assert(!starts_with(data, battery_header())) by {
        if starts_with(data, battery_header()) {
            assert(data.subrange(0, 6)[4] == 4);
        }
    }
    assert(!starts_with(data, ear_header())) by {
        if starts_with(data, ear_header()) {
            assert(data.subrange(0, 6)[4] == 6);
        }
    }
    assert(!starts_with(data, control_header())) by {
        if starts_with(data, control_header()) {
            assert(data.subrange(0, 6)[4] == 9);
        }
    }
    assert(!starts_with(data, conversation_header())) by {
        if starts_with(data, conversation_header()) {
            assert(data.subrange(0, 9)[4] == 0x4b);
        }
    }
    assert(!starts_with(data, metadata_header())) by {
        if starts_with(data, metadata_header()) {
            assert(data.subrange(0, 5)[4] == 0x1d);
        }
    }
}

/// Every reading of a parsed battery packet names a different component, and
/// every available reading is a percentage.
pub proof fn law_battery_readings_distinct_and_bounded(data: Seq<u8>)
    requires
        spec_parse_battery(data) is Ok,
    ensures
        ({
            let readings = spec_parse_battery(data)->Ok_0;
            &&& forall|i: int, j: int|
                0 <= i < j < readings.len() ==> readings[i].component != readings[j].component
            &&& forall|i: int| 0 <= i < readings.len() && (#[trigger] readings[i]).available
                ==> readings[i].level <= 100
        }),
{
    lemma_battery_records_distinct(data, data[6] as nat);
}

proof fn lemma_battery_records_distinct(data: Seq<u8>, k: nat)
    requires
        battery_records(data, k) is Ok,
    ensures
        ({
            let readings = battery_records(data, k)->Ok_0;
            &&& forall|i: int, j: int|
                0 <= i < j < readings.len() ==> readings[i].component != readings[j].component
            &&& forall|i: int| 0 <= i < readings.len() && (#[trigger] readings[i]).available
                ==> readings[i].level <= 100
        }),
    decreases k,
{
    if k > 0 {
        lemma_battery_records_distinct(data, (k - 1) as nat);
        let acc = battery_records(data, (k - 1) as nat)->Ok_0;
        let readings = battery_records(data, k)->Ok_0;
        assert forall|i: int, j: int|
            0 <= i < j < readings.len() implies readings[i].component != readings[j].component by {
            if j == acc.len() {
                assert(readings[i] == acc[i]);
            }
        }
    }
}

proof fn lemma_battery_records_from_bytes(data: Seq<u8>, k: nat)
    requires
        battery_records(data, k) is Ok,
    ensures
        ({
            let readings = battery_records(data, k)->Ok_0;
            forall|i: int|
                0 <= i < readings.len() ==> exists|j: int|
                    0 <= j < k && {
                        let r = #[trigger] battery_record(data, j);
                        &&& (r[3] == 1 || r[3] == 2 || r[3] == 4)
                        &&& (#[trigger] readings[i]).level == r[2]
                        &&& readings[i].charging == (r[3] == 1)
                        &&& readings[i].available == (r[3] != 4)
                    }
        }),
    decreases k,
{
    if k > 0 {
        lemma_battery_records_from_bytes(data, (k - 1) as nat);
        let acc = battery_records(data, (k - 1) as nat)->Ok_0;
        let readings = battery_records(data, k)->Ok_0;
        assert forall|i: int| 0 <= i < readings.len() implies exists|j: int|
            0 <= j < k && {
                let r = #[trigger] battery_record(data, j);
                &&& (r[3] == 1 || r[3] == 2 || r[3] == 4)
                &&& (#[trigger] readings[i]).level == r[2]
                &&& readings[i].charging == (r[3] == 1)
                &&& readings[i].available == (r[3] != 4)
            } by {
            if i < acc.len() {
                assert(readings[i] == acc[i]);
                let j = choose|j: int|
                    0 <= j < k - 1 && {
                        let r = #[trigger] battery_record(data, j);
                        &&& (r[3] == 1 || r[3] == 2 || r[3] == 4)
                        &&& (#[trigger] acc[i]).level == r[2]
                        &&& acc[i].charging == (r[3] == 1)
                        &&& acc[i].available == (r[3] != 4)
                    };
                assert(0 <= j < k);
            } else {
                let r = battery_record(data, k - 1);
                assert(r[3] == 1 || r[3] == 2 || r[3] == 4);
            }
        }
    }
}

/// The state byte of battery record `j`: the fourth of the five bytes at `7 + 5j`.
pub open spec fn record_state(data: Seq<u8>, j: int) -> u8 {
    data[7 + 5 * j + 3]
}

/// The level byte of battery record `j`: the third of the five bytes at `7 + 5j`.
pub open spec fn record_level(data: Seq<u8>, j: int) -> u8 {
    data[7 + 5 * j + 2]
}

/// `reading` is what battery record `j` says: its level byte, and its state
/// byte, which is 1 charging, 2 discharging or 4 disconnected (not available).
pub open spec fn reading_of_record(data: Seq<u8>, reading: ComponentReading, j: int) -> bool {
    let state = record_state(data, j);
    &&& 0 <= j < data[6]
    &&& state == 1 || state == 2 || state == 4
    &&& reading.level == record_level(data, j)
    &&& reading.charging == (state == 1)
    &&& reading.available == (state != 4)
}

/// `reading` is what one of the battery records says.
pub open spec fn reading_of_some_record(data: Seq<u8>, reading: ComponentReading) -> bool {
    exists|j: int| reading_of_record(data, reading, j)
}

/// Each reading of a battery report comes from one of its records, byte for
/// byte; no other state than 1, 2 and 4 is accepted.
pub proof fn law_battery_readings_follow_records(data: Seq<u8>)
    requires
        spec_parse_battery(data) is Ok,
    ensures
        spec_parse_battery(data)->Ok_0.len() <= data[6],
        forall|i: int|
            0 <= i < spec_parse_battery(data)->Ok_0.len() ==> reading_of_some_record(
                data,
                #[trigger] spec_parse_battery(data)->Ok_0[i],
            ),
{
    let k = data[6] as nat;
    lemma_battery_records_from_bytes(data, k);
    lemma_battery_records_len(data, k);
    assert(spec_parse_battery(data)->Ok_0 == battery_records(data, k)->Ok_0);
    assert forall|i: int| 0 <= i < spec_parse_battery(data)->Ok_0.len() implies reading_of_some_record(
        data,
        #[trigger] spec_parse_battery(data)->Ok_0[i],
    ) by {
        let readings = battery_records(data, k)->Ok_0;
        let j = choose|j: int|
            0 <= j < k && {
                let r = #[trigger] battery_record(data, j);
                &&& (r[3] == 1 || r[3] == 2 || r[3] == 4)
                &&& (#[trigger] readings[i]).level == r[2]
                &&& readings[i].charging == (r[3] == 1)
                &&& readings[i].available == (r[3] != 4)
            };
        let r = battery_record(data, j);
        assert(r[3] == record_state(data, j));
        assert(r[2] == record_level(data, j));
        assert(reading_of_record(data, readings[i], j));
    }
}

proof fn lemma_battery_records_len(data: Seq<u8>, k: nat)
    requires
        battery_records(data, k) is Ok,
    ensures
        battery_records(data, k)->Ok_0.len() <= k,
    decreases k,
{
    if k > 0 {
        lemma_battery_records_len(data, (k - 1) as nat);
    }
}

/// The in-ear bits of the status byte (byte 5) are ordered by pod: for a
/// left primary pod out of the case, bit 0x02 is the left pod and 0x08 the
/// right; a right primary pod out of the case swaps them, and so does a left
/// primary pod in the case; a right primary pod in the case swaps them back.
/// Bit 0x20 says the left pod is primary, bit 0x40 that it is in the case.
pub proof fn law_in_ear_bits_by_pod(d: Seq<u8>, adv: Advertisement)
    requires
        advertisement_of(d, adv),
    ensures
        adv.primary_left == (d[5] & 0x20 != 0),
        adv.pod_in_case == (d[5] & 0x40 != 0),
        d[5] & 0x20 != 0 && d[5] & 0x40 == 0 ==> adv.left_in_ear == (d[5] & 0x02 != 0)
            && adv.right_in_ear == (d[5] & 0x08 != 0),
        d[5] & 0x20 == 0 && d[5] & 0x40 == 0 ==> adv.left_in_ear == (d[5] & 0x08 != 0)
            && adv.right_in_ear == (d[5] & 0x02 != 0),
        d[5] & 0x20 != 0 && d[5] & 0x40 != 0 ==> adv.left_in_ear == (d[5] & 0x08 != 0)
            && adv.right_in_ear == (d[5] & 0x02 != 0),
        d[5] & 0x20 == 0 && d[5] & 0x40 != 0 ==> adv.left_in_ear == (d[5] & 0x02 != 0)
            && adv.right_in_ear == (d[5] & 0x08 != 0),
{
}

} // verus!
