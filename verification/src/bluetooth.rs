//! Which connected BlueZ device is the AirPods to control, and the decisions
//! of the reconnecting control link and of BLE discovery.
use vstd::prelude::*;
use vstd::string::StringSliceAdditionalSpecFns;
use vstd::utf8::*;

use crate::bytes::{
    eq_ignore_ascii_case, lemma_lex_order, lex_less, same_ignoring_ascii_case, text_less,
};

verus! {

/// The AirPods control (AAP) service.
pub const AAP_UUID: &'static str = "74ec2172-0bad-4d01-8f77-997b2be0722a";

/// A connected AirPods device as BlueZ describes it.
#[derive(Debug, Clone, PartialEq, Eq)]
pub struct Device {
    pub address: String,
    pub name: String,
    pub path: String,
}

pub struct DeviceView {
    pub address: Seq<char>,
    pub name: Seq<char>,
    pub path: Seq<char>,
}

impl View for Device {
    type V = DeviceView;

    open spec fn view(&self) -> DeviceView {
        DeviceView { address: self.address@, name: self.name@, path: self.path@ }
    }
}

pub open spec fn device_view(d: Option<Device>) -> Option<DeviceView> {
    match d {
        Some(d) => Some(d@),
        None => None,
    }
}

/// What the Bluetooth workers report to the backend.
pub enum Event {
    Connected(Device),
    Disconnected,
    Packet(Vec<u8>),
    /// Apple manufacturer data seen from an address.
    Advertisement(String, Vec<u8>),
}

/// The properties of an `org.bluez.Device1` interface that the selection reads.
/// A property that is missing or has another D-Bus type is `None`; so is a
/// service entry that is not a string.
pub struct DeviceProperties {
    pub connected: Option<bool>,
    pub uuids: Option<Vec<Option<String>>>,
    pub address: Option<String>,
    pub alias: Option<String>,
    pub name: Option<String>,
}

/// An object of BlueZ's object tree: its path and its `org.bluez.Device1`
/// properties, when it has that interface.
pub struct BluezObject {
    pub path: String,
    pub device: Option<DeviceProperties>,
}

/// The service list holds only strings, and one of them is the AAP service in
/// any letter case.
pub open spec fn spec_has_aap_service(p: DeviceProperties) -> bool {
    match p.uuids {
        None => false,
        Some(list) => {
            &&& forall|i: int| 0 <= i < list@.len() ==> (#[trigger] list@[i]) is Some
            &&& exists|i: int| 0 <= i < list@.len() && is_aap_uuid(#[trigger] list@[i])
        },
    }
}

/// A service entry that names the AAP service, in any letter case.
pub open spec fn is_aap_uuid(u: Option<String>) -> bool {
    match u {
        Some(u) => eq_ignore_ascii_case(encode_utf8(u@), encode_utf8(AAP_UUID@)),
        None => false,
    }
}

pub fn has_aap_service(p: &DeviceProperties) -> (r: bool)
    ensures
        r == spec_has_aap_service(*p),
{
    let list = match &p.uuids {
        Some(list) => list,
        None => return false,
    };
    let mut found = false;
    let mut i: usize = 0;
    while i < list.len()
        invariant
            p.uuids == Some(*list),
            i <= list@.len(),
            forall|j: int| 0 <= j < i ==> (#[trigger] list@[j]) is Some,
            found <==> exists|j: int| 0 <= j < i && is_aap_uuid(#[trigger] list@[j]),
        decreases list@.len() - i,
    {
        match &list[i] {
            Some(u) => {
                if same_ignoring_ascii_case(u.as_str(), AAP_UUID) {
                    assert(is_aap_uuid(list@[i as int]));
                    found = true;
                }
            },
            None => {
                return false;
            },
        }
        i = i + 1;
    }
    found
}

/// The device an object describes, if it is connected AirPods with an address.
/// It is named by its alias, else its name, else "AirPods".
pub open spec fn spec_candidate(o: BluezObject) -> Option<DeviceView> {
    match o.device {
        None => None,
        Some(p) => if p.connected == Some(true) && spec_has_aap_service(p) {
            match p.address {
                None => None,
                Some(a) => Some(
                    DeviceView {
                        address: a@,
                        name: match p.alias {
                            Some(n) => n@,
                            None => match p.name {
                                Some(n) => n@,
                                None => "AirPods"@,
                            },
                        },
                        path: o.path@,
                    },
                ),
            }
        } else {
            None
        },
    }
}

pub fn candidate(o: &BluezObject) -> (r: Option<Device>)
    ensures
        device_view(r) == spec_candidate(*o),
{
    let p = match &o.device {
        Some(p) => p,
        None => return None,
    };
    if p.connected != Some(true) || !has_aap_service(p) {
        return None;
    }
    let address = match &p.address {
        Some(a) => a.clone(),
        None => return None,
    };
    let name = match &p.alias {
        Some(n) => n.clone(),
        None => match &p.name {
            Some(n) => n.clone(),
            None => "AirPods".to_owned(),
        },
    };
    Some(Device { address, name, path: o.path.clone() })
}

/// The object at `i` is a candidate with the current device's address.
pub open spec fn is_current(objs: Seq<BluezObject>, i: int, current: Option<Seq<char>>) -> bool {
    spec_candidate(objs[i]) matches Some(d) && current == Some(d.address)
}

/// `i` is the first candidate with the current device's address.
pub open spec fn first_current(objs: Seq<BluezObject>, i: int, current: Option<Seq<char>>) -> bool {
    &&& 0 <= i < objs.len()
    &&& is_current(objs, i, current)
    &&& forall|j: int| 0 <= j < i ==> !is_current(objs, j, current)
}

/// The UTF-8 bytes of a candidate's address.
pub open spec fn address_bytes_of(o: BluezObject) -> Seq<u8> {
    encode_utf8(spec_candidate(o)->0.address)
}

/// No candidate before `i` has the address `a`, and none at all sorts before it.
pub open spec fn smallest_so_far(objs: Seq<BluezObject>, k: int, i: int, a: Seq<u8>) -> bool {
    forall|j: int|
        0 <= j < k && (#[trigger] spec_candidate(objs[j])) is Some ==> {
            &&& !lex_less(address_bytes_of(objs[j]), a)
            &&& j < i ==> address_bytes_of(objs[j]) != a
        }
}

/// `i` is the first candidate with the smallest address, in byte order.
pub open spec fn first_smallest(objs: Seq<BluezObject>, i: int) -> bool {
    &&& 0 <= i < objs.len()
    &&& spec_candidate(objs[i]) is Some
    &&& smallest_so_far(objs, objs.len() as int, i, address_bytes_of(objs[i]))
}

/// The address of the current device, if any.
pub open spec fn current_address(current: Option<&Device>) -> Option<Seq<char>> {
    match current {
        Some(d) => Some(d.address@),
        None => None,
    }
}

/// `r` is the selection among `objs`: the first candidate with the current
/// address when there is one, else the first with the smallest address, else none.
pub open spec fn selection_ok(objs: Seq<BluezObject>, cur: Option<Seq<char>>, r: Option<DeviceView>) -> bool {
    if exists|i: int| first_current(objs, i, cur) {
        exists|i: int| first_current(objs, i, cur) && r == spec_candidate(#[trigger] objs[i])
    } else if exists|i: int| 0 <= i < objs.len() && (#[trigger] spec_candidate(objs[i])) is Some {
        exists|i: int| first_smallest(objs, i) && r == spec_candidate(#[trigger] objs[i])
    } else {
        r is None
    }
}

proof fn lemma_smallest_extend(objs: Seq<BluezObject>, k: int, i: int, a: Seq<u8>)
    requires
        0 <= k < objs.len(),
        smallest_so_far(objs, k, i, a),
        spec_candidate(objs[k]) is Some ==> !lex_less(address_bytes_of(objs[k]), a) && (k < i
            ==> address_bytes_of(objs[k]) != a),
    ensures
        smallest_so_far(objs, k + 1, i, a),
{
}

proof fn lemma_smallest_replace(objs: Seq<BluezObject>, k: int, i: int, a: Seq<u8>, b: Seq<u8>)
    requires
        0 <= k < objs.len(),
        smallest_so_far(objs, k, i, a),
        lex_less(b, a),
        spec_candidate(objs[k]) is Some,
        address_bytes_of(objs[k]) == b,
    ensures
        smallest_so_far(objs, k + 1, k, b),
{
    lemma_lex_order(b, b, b);
    assert forall|j: int|
        0 <= j < k + 1 && (#[trigger] spec_candidate(objs[j])) is Some implies {
        &&& !lex_less(address_bytes_of(objs[j]), b)
        &&& j < k ==> address_bytes_of(objs[j]) != b
    } by {
        lemma_lex_order(address_bytes_of(objs[j]), b, a);
    }
}

proof fn lemma_smallest_first(objs: Seq<BluezObject>, k: int, b: Seq<u8>)
    requires
        0 <= k < objs.len(),
        forall|j: int| 0 <= j < k ==> (#[trigger] spec_candidate(objs[j])) is None,
        spec_candidate(objs[k]) is Some,
        address_bytes_of(objs[k]) == b,
    ensures
        smallest_so_far(objs, k + 1, k, b),
{
    lemma_lex_order(b, b, b);
}

/// Selects the AirPods to control among the connected devices: the current
/// one while it is still connected, else the one with the smallest address.
pub fn select_device(objects: &Vec<BluezObject>, current: Option<&Device>) -> (r: Option<Device>)
    ensures
        selection_ok(objects@, current_address(current), device_view(r)),
{
    let ghost cur = current_address(current);
    let mut selected: Option<Device> = None;
    let ghost mut index: int = 0;
    let mut k: usize = 0;
    while k < objects.len()
        invariant
            k <= objects@.len(),
            cur == current_address(current),
            forall|j: int| 0 <= j < k ==> !is_current(objects@, j, cur),
            selected is None <==> forall|j: int|
                0 <= j < k ==> (#[trigger] spec_candidate(objects@[j])) is None,
            selected is Some ==> {
                &&& 0 <= index < k
                &&& spec_candidate(objects@[index]) == device_view(selected)
                &&& smallest_so_far(objects@, k as int, index, encode_utf8(selected->0.address@))
            },
        decreases objects@.len() - k,
    {
        let found = candidate(&objects[k]);
        match found {
            None => {
                proof {
                    if selected is Some {
                        lemma_smallest_extend(
                            objects@,
                            k as int,
                            index,
                            encode_utf8(selected->0.address@),
                        );
                    }
                }
            },
            Some(device) => {
                let matches_current = match current {
                    Some(c) => c.address == device.address,
                    None => false,
                };
                if matches_current {
                    assert(first_current(objects@, k as int, cur));
                    return Some(device);
                }
                let better = match &selected {
                    None => true,
                    Some(s) => text_less(device.address.as_str(), s.address.as_str()),
                };
                if better {
                    proof {
                        if selected is Some {
                            lemma_smallest_replace(
                                objects@,
                                k as int,
                                index,
                                encode_utf8(selected->0.address@),
                                encode_utf8(device.address@),
                            );
                        } else {
                            lemma_smallest_first(objects@, k as int, encode_utf8(device.address@));
                        }
                        index = k as int;
                    }
                    selected = Some(device);
                } else {
                    proof {
                        lemma_smallest_extend(
                            objects@,
                            k as int,
                            index,
                            encode_utf8(selected->0.address@),
                        );
                    }
                }
            },
        }
        k = k + 1;
    }
    proof {
        if selected is Some {
            assert(first_smallest(objects@, index));
        } else {
            assert(!exists|i: int| 0 <= i < objects@.len() && (#[trigger] spec_candidate(objects@[i])) is Some);
        }
    }
    selected
}

/// The object that a connect or disconnect request addresses when no device
/// is selected: the object's `Address` must match the remembered address (in
/// any letter case) when one is remembered, and it must offer the AAP service.
pub open spec fn command_target_ok(o: BluezObject, remembered: Option<Seq<char>>) -> bool {
    o.device matches Some(p) && p.address matches Some(a) && !(remembered matches Some(saved)
        && saved.len() > 0 && !eq_ignore_ascii_case(encode_utf8(a@), encode_utf8(saved)))
        && spec_has_aap_service(p)
}

/// The path of the first object that a device request can address.
pub fn command_target(objects: &Vec<BluezObject>, remembered: Option<&str>) -> (r: Option<String>)
    ensures
        ({
            let saved = match remembered {
                Some(s) => Some(s@),
                None => None,
            };
            match r {
                Some(path) => exists|i: int|
                    0 <= i < objects@.len() && command_target_ok(#[trigger] objects@[i], saved)
                        && path@ == objects@[i].path@ && forall|j: int|
                        0 <= j < i ==> !command_target_ok(#[trigger] objects@[j], saved),
                None => forall|i: int|
                    0 <= i < objects@.len() ==> !command_target_ok(#[trigger] objects@[i], saved),
            }
        }),
{
    let ghost saved = match remembered {
        Some(s) => Some(s@),
        None => None,
    };
    let mut k: usize = 0;
    while k < objects.len()
        invariant
            k <= objects@.len(),
            saved == (match remembered {
                Some(s) => Some(s@),
                None => None,
            }),
            forall|j: int| 0 <= j < k ==> !command_target_ok(#[trigger] objects@[j], saved),
        decreases objects@.len() - k,
    {
        let o = &objects[k];
        if let Some(p) = &o.device {
            if let Some(a) = &p.address {
                let excluded = match remembered {
                    Some(s) => !s.is_empty() && !same_ignoring_ascii_case(a.as_str(), s),
                    None => false,
                };
                if !excluded && has_aap_service(p) {
                    assert(command_target_ok(objects@[k as int], saved));
                    return Some(o.path.clone());
                }
            }
        }
        k = k + 1;
    }
    None
}

/// Consecutive failures of the control connection, which set the pause
/// before the next attempt.
#[derive(Clone, Copy, Debug, PartialEq, Eq, Structural)]
pub struct Backoff {
    pub failures: u32,
}

/// Seconds to wait after `failures` failed attempts: 1, 2, 4, 8, then 16.
pub open spec fn spec_delay_secs(failures: u32) -> u64 {
    if failures == 0 {
        1
    } else if failures == 1 {
        2
    } else if failures == 2 {
        4
    } else if failures == 3 {
        8
    } else {
        16
    }
}

impl Backoff {
    pub fn new() -> (r: Backoff)
        ensures
            r.failures == 0,
    {
        Backoff { failures: 0 }
    }

    /// The link came up, or another device was selected: start over.
    pub fn reset(&mut self)
        ensures
            final(self).failures == 0,
    {
        self.failures = 0;
    }

    /// An attempt failed. Returns whether it is the first failure in a row,
    /// the one worth reporting.
    pub fn failed(&mut self) -> (first: bool)
        ensures
            final(self).failures == (if old(self).failures == u32::MAX {
                u32::MAX
            } else {
                (old(self).failures + 1) as u32
            }),
            first == (final(self).failures == 1),
    {
        self.failures = self.failures.saturating_add(1);
        self.failures == 1
    }

    /// The pause before the next attempt, in seconds.
    pub fn delay_secs(&self) -> (r: u64)
        ensures
            r == spec_delay_secs(self.failures),
    {
        let exponent: u32 = if self.failures < 4 {
            self.failures
        } else {
            4
        };
        let r: u64 = 1u64 << exponent;
        assert(1u64 << 0u32 == 1 && 1u64 << 1u32 == 2 && 1u64 << 2u32 == 4 && 1u64 << 3u32 == 8
            && 1u64 << 4u32 == 16) by (bit_vector);
        r
    }
}

/// Whether discovery is wanted on an adapter: the backend wants it, the
/// system is awake, and the adapter reports that it is powered.
pub fn discovery_wanted(scan: bool, sleeping: bool, powered: Option<bool>) -> (r: bool)
    ensures
        r == (scan && !sleeping && powered == Some(true)),
{
    scan && !sleeping && powered == Some(true)
}

/// The discovery call to make on an adapter: `Some(true)` to start it,
/// `Some(false)` to stop it, `None` when the recorded state already matches.
pub fn discovery_call(enabled: bool, recorded: Option<bool>) -> (r: Option<bool>)
    ensures
        r == (if recorded == Some(enabled) {
            None::<bool>
        } else {
            Some(enabled)
        }),
{
    if recorded == Some(enabled) {
        None
    } else {
        Some(enabled)
    }
}

/// Whether the adapter's new state is recorded after the call: a start that
/// failed is tried again on the next round, a stop never is.
pub fn discovery_recorded(enabled: bool, succeeded: bool) -> (r: bool)
    ensures
        r == (succeeded || !enabled),
{
    succeeded || !enabled
}

/// The device the link should follow: none while the system sleeps.
pub fn wanted_device(sleeping: bool, objects: &Vec<BluezObject>, current: Option<&Device>) -> (r: Option<Device>)
    ensures
        sleeping ==> r is None,
        !sleeping ==> selection_ok(objects@, current_address(current), device_view(r)),
{
    if sleeping {
        None
    } else {
        select_device(objects, current)
    }
}

/// The pause between attempts grows with the failures and stays between one
/// and sixteen seconds.
pub proof fn law_backoff_bounded(a: u32, b: u32)
    ensures
        1 <= spec_delay_secs(a) <= 16,
        a <= b ==> spec_delay_secs(a) <= spec_delay_secs(b),
        spec_delay_secs(0) == 1,
{
}

} // verus!
