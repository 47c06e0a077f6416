//! Queries on a snapshot of the PipeWire graph: the device of an AirPods
//! address, its default output and microphone, and the audio profile to use.
//!
//! The snapshot is the list of objects that `pw-dump` prints, each reduced to
//! the values that the queries read. A value that is missing, or is not of
//! the expected JSON type, is `None`; a number may also be given as a decimal
//! string.
use vstd::prelude::*;

use crate::bytes::str_equal;
use crate::media::{normalize_address, spec_normalize_address};
use crate::playback::Sink;
use crate::text::{chars_equal, chars_of};

verus! {

/// An entry of a metadata object: `subject`, `key` and `value.name`.
pub struct MetadataEntry {
    pub subject: Option<u64>,
    pub key: Option<String>,
    pub value_name: Option<String>,
}

/// A profile that a device offers (an `EnumProfile` entry).
pub struct ProfileEntry {
    pub index: Option<u64>,
    pub name: Option<String>,
    pub description: Option<String>,
    pub available: Option<String>,
    pub priority: Option<u64>,
}

/// One object of the graph.
pub struct PwObject {
    pub id: Option<u64>,
    /// `type`
    pub object_type: Option<String>,
    /// `info.props."api.bluez5.address"`
    pub address: Option<String>,
    /// `info.props."device.id"`
    pub device_id: Option<u64>,
    /// `info.props."media.class"`
    pub media_class: Option<String>,
    /// `info.props."node.name"`
    pub node_name: Option<String>,
    /// `info.props."object.serial"`
    pub serial: Option<u64>,
    /// `info.state`
    pub state: Option<String>,
    /// `info."output-node-id"`
    pub output_node: Option<u64>,
    /// `info."input-node-id"`
    pub input_node: Option<u64>,
    /// `metadata`, when it is an array.
    pub metadata: Option<Vec<MetadataEntry>>,
    /// `info.params.EnumProfile`, when it is an array.
    pub profiles: Option<Vec<ProfileEntry>>,
    /// The `index` of each `info.params.Profile` entry, when that is an array.
    pub active_profiles: Option<Vec<Option<u64>>>,
}

/// A device and its chosen profile.
#[derive(Clone, Copy, Debug, PartialEq, Eq, Structural)]
pub struct DeviceProfile {
    pub device: u64,
    pub index: u64,
    pub active: bool,
}

/// The value is the text `t`.
pub open spec fn text_is(v: Option<String>, t: Seq<char>) -> bool {
    match v {
        Some(s) => s@ == t,
        None => false,
    }
}

fn text_equals(v: &Option<String>, t: &str) -> (r: bool)
    ensures
        r == text_is(*v, t@),
{
    match v {
        Some(s) => str_equal(s.as_str(), t),
        None => false,
    }
}

/// The value is an address that normalizes to `address`.
pub open spec fn address_is(v: Option<String>, address: Seq<char>) -> bool {
    match v {
        Some(a) => spec_normalize_address(a@) == address,
        None => false,
    }
}

fn address_equals(v: &Option<String>, address: &str) -> (r: bool)
    ensures
        r == address_is(*v, address@),
{
    match v {
        Some(a) => {
            let n = normalize_address(a.as_str());
            str_equal(n.as_str(), address)
        },
        None => false,
    }
}

/// A device object of the address, with an id.
pub open spec fn is_device_of(o: PwObject, address: Seq<char>) -> bool {
    &&& text_is(o.object_type, "PipeWire:Interface:Device"@)
    &&& address_is(o.address, address)
    &&& o.id is Some
}

/// The id of the first device object of the (normalized) address.
pub open spec fn spec_device_id(objs: Seq<PwObject>, address: Seq<char>) -> Option<u64>
    decreases objs.len(),
{
    if objs.len() == 0 {
        None
    } else if is_device_of(objs[0], address) {
        objs[0].id
    } else {
        spec_device_id(objs.drop_first(), address)
    }
}

pub fn device_id(objs: &Vec<PwObject>, address: &str) -> (r: Option<u64>)
    ensures
        r == spec_device_id(objs@, address@),
{
    let mut k: usize = 0;
    assert(objs@.skip(0) =~= objs@);
    while k < objs.len()
        invariant
            k <= objs@.len(),
            spec_device_id(objs@, address@) == spec_device_id(objs@.skip(k as int), address@),
        decreases objs@.len() - k,
    {
        let o = &objs[k];
        assert(objs@.skip(k as int)[0] == objs@[k as int]);
        assert(objs@.skip(k as int).drop_first() =~= objs@.skip(k + 1));
        if text_equals(&o.object_type, "PipeWire:Interface:Device") && address_equals(
            &o.address,
            address,
        ) && o.id.is_some() {
            return o.id;
        }
        k = k + 1;
    }
    None
}

/// An object belongs to the address when it carries the address itself or
/// names the address's device.
pub open spec fn spec_belongs(objs: Seq<PwObject>, o: PwObject, address: Seq<char>) -> bool {
    address_is(o.address, address) || match spec_device_id(objs, address) {
        Some(id) => o.device_id == Some(id),
        None => false,
    }
}

pub fn belongs(objs: &Vec<PwObject>, o: &PwObject, address: &str) -> (r: bool)
    ensures
        r == spec_belongs(objs@, *o, address@),
{
    if address_equals(&o.address, address) {
        return true;
    }
    match device_id(objs, address) {
        Some(id) => o.device_id == Some(id),
        None => false,
    }
}

/// The output that an object is, when it is an audio sink with an id, a
/// serial and a name.
pub open spec fn spec_sink(o: PwObject) -> Option<Sink> {
    if text_is(o.media_class, "Audio/Sink"@) {
        match (o.id, o.serial, o.node_name) {
            (Some(id), Some(serial), Some(name)) => Some(Sink { id, serial, name }),
            _ => None,
        }
    } else {
        None
    }
}

pub fn sink_of(o: &PwObject) -> (r: Option<Sink>)
    ensures
        r == spec_sink(*o),
{
    if !text_equals(&o.media_class, "Audio/Sink") {
        return None;
    }
    match (&o.id, &o.serial, &o.node_name) {
        (Some(id), Some(serial), Some(name)) => Some(Sink { id: *id, serial: *serial, name: name.clone() }),
        _ => None,
    }
}

/// The metadata entry that names the default output.
pub open spec fn is_default_entry(e: MetadataEntry) -> bool {
    text_is(e.key, "default.audio.sink"@) && e.subject == Some(0u64)
}

pub open spec fn first_default_in(list: Seq<MetadataEntry>) -> Option<MetadataEntry>
    decreases list.len(),
{
    if list.len() == 0 {
        None
    } else if is_default_entry(list[0]) {
        Some(list[0])
    } else {
        first_default_in(list.drop_first())
    }
}

/// The first entry naming the default output, over the metadata of all
/// objects in order.
pub open spec fn first_default_entry(objs: Seq<PwObject>) -> Option<MetadataEntry>
    decreases objs.len(),
{
    if objs.len() == 0 {
        None
    } else {
        match objs[0].metadata {
            Some(list) => match first_default_in(list@) {
                Some(e) => Some(e),
                None => first_default_entry(objs.drop_first()),
            },
            None => first_default_entry(objs.drop_first()),
        }
    }
}

/// The first sink named `name` that belongs to the address, searching `rest`.
pub open spec fn first_sink_named(
    all: Seq<PwObject>,
    rest: Seq<PwObject>,
    name: Seq<char>,
    address: Seq<char>,
) -> Option<Sink>
    decreases rest.len(),
{
    if rest.len() == 0 {
        None
    } else {
        match spec_sink(rest[0]) {
            Some(s) => if s.name@ == name && spec_belongs(all, rest[0], address) {
                Some(s)
            } else {
                first_sink_named(all, rest.drop_first(), name, address)
            },
            None => first_sink_named(all, rest.drop_first(), name, address),
        }
    }
}

/// The default output, when it belongs to the address.
pub open spec fn spec_default_sink(objs: Seq<PwObject>, address: Seq<char>) -> Option<Sink> {
    match first_default_entry(objs) {
        Some(e) => match e.value_name {
            Some(name) => first_sink_named(objs, objs, name@, address),
            None => None,
        },
        None => None,
    }
}

fn find_default_entry(objs: &Vec<PwObject>) -> (r: Option<&MetadataEntry>)
    ensures
        match r {
            Some(e) => first_default_entry(objs@) == Some(*e),
            None => first_default_entry(objs@) is None,
        },
{
    let mut k: usize = 0;
    assert(objs@.skip(0) =~= objs@);
    while k < objs.len()
        invariant
            k <= objs@.len(),
            first_default_entry(objs@) == first_default_entry(objs@.skip(k as int)),
        decreases objs@.len() - k,
    {
        assert(objs@.skip(k as int)[0] == objs@[k as int]);
        assert(objs@.skip(k as int).drop_first() =~= objs@.skip(k + 1));
        if let Some(list) = &objs[k].metadata {
            let mut i: usize = 0;
            assert(list@.skip(0) =~= list@);
            while i < list.len()
                invariant
                    k < objs@.len(),
                    i <= list@.len(),
                    objs@[k as int].metadata == Some(*list),
                    objs@.skip(k as int)[0] == objs@[k as int],
                    first_default_entry(objs@) == first_default_entry(objs@.skip(k as int)),
                    first_default_in(list@) == first_default_in(list@.skip(i as int)),
                decreases list@.len() - i,
            {
                assert(list@.skip(i as int)[0] == list@[i as int]);
                assert(list@.skip(i as int).drop_first() =~= list@.skip(i + 1));
                let e = &list[i];
                if text_equals(&e.key, "default.audio.sink") && e.subject == Some(0u64) {
                    return Some(e);
                }
                i = i + 1;
            }
            assert(list@.skip(list@.len() as int).len() == 0);
        }
        k = k + 1;
    }
    None
}

pub fn default_sink(objs: &Vec<PwObject>, address: &str) -> (r: Option<Sink>)
    ensures
        r == spec_default_sink(objs@, address@),
{
    let entry = match find_default_entry(objs) {
        Some(e) => e,
        None => return None,
    };
    let name = match &entry.value_name {
        Some(n) => n,
        None => return None,
    };
    let mut k: usize = 0;
    assert(objs@.skip(0) =~= objs@);
    while k < objs.len()
        invariant
            k <= objs@.len(),
            spec_default_sink(objs@, address@) == first_sink_named(
                objs@,
                objs@.skip(k as int),
                name@,
                address@,
            ),
        decreases objs@.len() - k,
    {
        assert(objs@.skip(k as int)[0] == objs@[k as int]);
        assert(objs@.skip(k as int).drop_first() =~= objs@.skip(k + 1));
        if let Some(sink) = sink_of(&objs[k]) {
            if str_equal(sink.name.as_str(), name.as_str()) && belongs(objs, &objs[k], address) {
                return Some(sink);
            }
        }
        k = k + 1;
    }
    None
}

/// The first sink with the identity of `expected` (serial and name; the id
/// may have been reused by another node).
pub open spec fn first_same_sink(objs: Seq<PwObject>, expected: Sink) -> Option<Sink>
    decreases objs.len(),
{
    if objs.len() == 0 {
        None
    } else {
        match spec_sink(objs[0]) {
            Some(s) => if s.serial == expected.serial && s.name@ == expected.name@ {
                Some(s)
            } else {
                first_same_sink(objs.drop_first(), expected)
            },
            None => first_same_sink(objs.drop_first(), expected),
        }
    }
}

pub fn same_sink(objs: &Vec<PwObject>, expected: &Sink) -> (r: Option<Sink>)
    ensures
        r == first_same_sink(objs@, *expected),
{
    let mut k: usize = 0;
    assert(objs@.skip(0) =~= objs@);
    while k < objs.len()
        invariant
            k <= objs@.len(),
            first_same_sink(objs@, *expected) == first_same_sink(objs@.skip(k as int), *expected),
        decreases objs@.len() - k,
    {
        assert(objs@.skip(k as int)[0] == objs@[k as int]);
        assert(objs@.skip(k as int).drop_first() =~= objs@.skip(k + 1));
        if let Some(sink) = sink_of(&objs[k]) {
            if sink.serial == expected.serial && str_equal(sink.name.as_str(), expected.name.as_str()) {
                return Some(sink);
            }
        }
        k = k + 1;
    }
    None
}

/// A microphone of the address.
pub open spec fn is_source(objs: Seq<PwObject>, o: PwObject, address: Seq<char>) -> bool {
    text_is(o.media_class, "Audio/Source"@) && spec_belongs(objs, o, address)
}

/// Some microphone of the address has node id `id`.
pub open spec fn source_with_id(objs: Seq<PwObject>, address: Seq<char>, id: u64) -> bool {
    exists|k: int|
        0 <= k < objs.len() && is_source(objs, #[trigger] objs[k], address) && objs[k].id == Some(id)
}

/// Some running recording stream has node id `input` (a missing id matches a
/// node without id).
pub open spec fn running_input(objs: Seq<PwObject>, input: Option<u64>) -> bool {
    exists|m: int|
        0 <= m < objs.len() && (#[trigger] objs[m]).id == input && text_is(
            objs[m].media_class,
            "Stream/Input/Audio"@,
        ) && text_is(objs[m].state, "running"@)
}

/// A link from a microphone of the address into a running recording stream.
pub open spec fn capturing_link(objs: Seq<PwObject>, l: PwObject, address: Seq<char>) -> bool {
    &&& text_is(l.object_type, "PipeWire:Interface:Link"@)
    &&& match l.output_node {
        Some(id) => source_with_id(objs, address, id),
        None => false,
    }
    &&& running_input(objs, l.input_node)
}

/// A call or recording uses the address's microphone.
pub open spec fn spec_capturing(objs: Seq<PwObject>, address: Seq<char>) -> bool {
    exists|l: int| 0 <= l < objs.len() && capturing_link(objs, #[trigger] objs[l], address)
}

fn has_running_input(objs: &Vec<PwObject>, input: Option<u64>) -> (r: bool)
    ensures
        r == running_input(objs@, input),
{
    let mut m: usize = 0;
    while m < objs.len()
        invariant
            m <= objs@.len(),
            forall|j: int|
                0 <= j < m ==> !((#[trigger] objs@[j]).id == input && text_is(
                    objs@[j].media_class,
                    "Stream/Input/Audio"@,
                ) && text_is(objs@[j].state, "running"@)),
        decreases objs@.len() - m,
    {
        let n = &objs[m];
        if n.id == input && text_equals(&n.media_class, "Stream/Input/Audio") && text_equals(
            &n.state,
            "running",
        ) {
            return true;
        }
        m = m + 1;
    }
    false
}

pub fn capturing(objs: &Vec<PwObject>, address: &str) -> (r: bool)
    ensures
        r == spec_capturing(objs@, address@),
{
    let mut sources: Vec<u64> = Vec::new();
    let mut k: usize = 0;
    while k < objs.len()
        invariant
            k <= objs@.len(),
            forall|id: u64|
                sources@.contains(id) <==> exists|j: int|
                    0 <= j < k && is_source(objs@, #[trigger] objs@[j], address@) && objs@[j].id
                        == Some(id),
        decreases objs@.len() - k,
    {
        let o = &objs[k];
        let ghost before = sources@;
        if text_equals(&o.media_class, "Audio/Source") && belongs(objs, o, address) {
            if let Some(id) = o.id {
                sources.push(id);
            }
        }
        proof {
            assert forall|id: u64|
                sources@.contains(id) <==> exists|j: int|
                    0 <= j < k + 1 && is_source(objs@, #[trigger] objs@[j], address@) && objs@[j].id
                        == Some(id) by {
                if sources@.contains(id) {
                    let p = choose|p: int| 0 <= p < sources@.len() && sources@[p] == id;
                    if p < before.len() {
                        assert(before[p] == id);
                        assert(before.contains(id));
                    }
                }
                if exists|j: int|
                    0 <= j < k + 1 && is_source(objs@, #[trigger] objs@[j], address@) && objs@[j].id
                        == Some(id) {
                    let j = choose|j: int|
                        0 <= j < k + 1 && is_source(objs@, #[trigger] objs@[j], address@)
                            && objs@[j].id == Some(id);
                    if j < k {
                        assert(before.contains(id));
                        let p = choose|p: int| 0 <= p < before.len() && before[p] == id;
                        assert(sources@[p] == id);
                    } else {
                        assert(sources@[before.len() as int] == id);
                    }
                }
            }
        }
        k = k + 1;
    }
    let mut l: usize = 0;
    while l < objs.len()
        invariant
            l <= objs@.len(),
            forall|id: u64|
                sources@.contains(id) <==> source_with_id(objs@, address@, id),
            forall|j: int| 0 <= j < l ==> !capturing_link(objs@, #[trigger] objs@[j], address@),
        decreases objs@.len() - l,
    {
        let link = &objs[l];
        if text_equals(&link.object_type, "PipeWire:Interface:Link") {
            if let Some(out) = link.output_node {
                let mut known = false;
                let mut i: usize = 0;
                while i < sources.len()
                    invariant
                        i <= sources@.len(),
                        known <==> exists|p: int| 0 <= p < i && sources@[p] == out,
                    decreases sources@.len() - i,
                {
                    if sources[i] == out {
                        known = true;
                    }
                    i = i + 1;
                }
                assert(known == sources@.contains(out));
                if known && has_running_input(objs, link.input_node) {
                    assert(capturing_link(objs@, objs@[l as int], address@));
                    return true;
                }
            }
        }
        l = l + 1;
    }
    false
}

/// ASCII upper-case letters in lower case; everything else unchanged.
pub open spec fn ascii_lower_char(c: char) -> char {
    if 'A' <= c <= 'Z' {
        ((c as u32) + 32) as char
    } else {
        c
    }
}

/// A character of a profile name or description as the codec ranking reads
/// it: lower case, and for names `_` written as `-`.
pub open spec fn fold_char(c: char, dash: bool) -> char {
    if dash && ascii_lower_char(c) == '_' {
        '-'
    } else {
        ascii_lower_char(c)
    }
}

pub open spec fn folded(s: Seq<char>, dash: bool) -> Seq<char> {
    Seq::new(s.len(), |i: int| fold_char(s[i], dash))
}

pub open spec fn ends_with(s: Seq<char>, t: Seq<char>) -> bool {
    t.len() <= s.len() && s.subrange(s.len() - t.len(), s.len() as int) == t
}

pub open spec fn contains_text(s: Seq<char>, t: Seq<char>) -> bool {
    exists|i: int| 0 <= i && i + t.len() <= s.len() && #[trigger] s.subrange(i, i + t.len()) == t
}

pub open spec fn text_or_empty(v: Option<String>) -> Seq<char> {
    match v {
        Some(s) => s@,
        None => Seq::empty(),
    }
}

/// How much a playback profile's codec is preferred: SBC-XQ, then SBC, then
/// AAC, then anything else, by the end of the name or the codec in the
/// description.
pub open spec fn spec_codec_rank(p: ProfileEntry) -> u16 {
    let name = folded(text_or_empty(p.name), true);
    let description = folded(text_or_empty(p.description), false);
    if ends_with(name, "sbc-xq"@) || contains_text(description, "codec sbc-xq"@) {
        453
    } else if ends_with(name, "sbc"@) || contains_text(description, "codec sbc"@) {
        328
    } else if ends_with(name, "aac"@) || contains_text(description, "codec aac"@) {
        256
    } else {
        0
    }
}

fn lower_char(c: char) -> (r: char)
    ensures
        r == ascii_lower_char(c),
{
    if 'A' <= c && c <= 'Z' {
        let u: u8 = ((c as u32) + 32) as u8;
        u as char
    } else {
        c
    }
}

fn fold_text(v: &Option<String>, dash: bool) -> (r: Vec<char>)
    ensures
        r@ == folded(text_or_empty(*v), dash),
{
    let chars = match v {
        Some(s) => chars_of(s.as_str()),
        None => Vec::new(),
    };
    let mut out: Vec<char> = Vec::new();
    let mut i: usize = 0;
    while i < chars.len()
        invariant
            chars@ == text_or_empty(*v),
            i <= chars@.len(),
            out@ == folded(chars@, dash).take(i as int),
        decreases chars@.len() - i,
    {
        let l = lower_char(chars[i]);
        let c = if dash && l == '_' {
            '-'
        } else {
            l
        };
        out.push(c);
        assert(out@ =~= folded(chars@, dash).take(i + 1));
        i = i + 1;
    }
    assert(out@ =~= folded(chars@, dash));
    out
}

fn text_ends_with(s: &Vec<char>, t: &Vec<char>) -> (r: bool)
    ensures
        r == ends_with(s@, t@),
{
    if t.len() > s.len() {
        return false;
    }
    chars_equal(s, s.len() - t.len(), s.len(), t)
}

fn text_contains(s: &Vec<char>, t: &Vec<char>) -> (r: bool)
    ensures
        r == contains_text(s@, t@),
{
    if t.len() > s.len() {
        return false;
    }
    let last = s.len() - t.len();
    let mut i: usize = 0;
    loop
        invariant
            t@.len() <= s@.len(),
            last == s@.len() - t@.len(),
            i <= last,
            i + t@.len() <= s@.len(),
            forall|j: int| 0 <= j < i ==> #[trigger] s@.subrange(j, j + t@.len()) != t@,
        decreases last - i,
    {
        let end: usize = s.len() - (last - i);
        if chars_equal(s, i, end, t) {
            assert(end == i + t@.len());
            assert(s@.subrange(i as int, i + t@.len()) == t@);
            return true;
        }
        if i == last {
            return false;
        }
        i = i + 1;
    }
}

pub fn codec_rank(p: &ProfileEntry) -> (r: u16)
    ensures
        r == spec_codec_rank(*p),
{
    let name = fold_text(&p.name, true);
    let description = fold_text(&p.description, false);
    if text_ends_with(&name, &chars_of("sbc-xq")) || text_contains(&description, &chars_of("codec sbc-xq")) {
        453
    } else if text_ends_with(&name, &chars_of("sbc")) || text_contains(&description, &chars_of("codec sbc")) {
        328
    } else if text_ends_with(&name, &chars_of("aac")) || text_contains(&description, &chars_of("codec aac")) {
        256
    } else {
        0
    }
}

/// A profile that can be chosen: not marked unavailable, and named `off` for
/// releasing the device or starting with `a2dp-sink` for playback.
pub open spec fn eligible(p: ProfileEntry, off: bool) -> bool {
    &&& !text_is(p.available, "no"@)
    &&& if off {
        text_or_empty(p.name) == "off"@
    } else {
        "a2dp-sink"@.len() <= text_or_empty(p.name).len() && text_or_empty(p.name).take(
            "a2dp-sink"@.len() as int,
        ) == "a2dp-sink"@
    }
}

/// The order of preference: by codec rank, then by priority (0 when missing).
pub open spec fn preferred_over(a: ProfileEntry, b: ProfileEntry) -> bool {
    let pa = match a.priority {
        Some(x) => x,
        None => 0,
    };
    let pb = match b.priority {
        Some(x) => x,
        None => 0,
    };
    spec_codec_rank(a) > spec_codec_rank(b) || (spec_codec_rank(a) == spec_codec_rank(b) && pa > pb)
}

/// `i` is the most preferred eligible profile, the last one among equals.
pub open spec fn best_profile_at(list: Seq<ProfileEntry>, off: bool, i: int) -> bool {
    &&& 0 <= i < list.len()
    &&& eligible(list[i], off)
    &&& forall|j: int|
        0 <= j < list.len() && eligible(#[trigger] list[j], off) ==> {
            &&& j < i ==> !preferred_over(list[j], list[i])
            &&& j > i ==> preferred_over(list[i], list[j])
        }
}

/// The first object with the given id.
pub open spec fn first_with_id(objs: Seq<PwObject>, id: u64) -> Option<PwObject>
    decreases objs.len(),
{
    if objs.len() == 0 {
        None
    } else if objs[0].id == Some(id) {
        Some(objs[0])
    } else {
        first_with_id(objs.drop_first(), id)
    }
}

/// The device of the address and its preferred profile for playback (or the
/// off profile), with whether that profile is the active one.
pub open spec fn spec_profile(objs: Seq<PwObject>, address: Seq<char>, off: bool) -> Option<DeviceProfile> {
    match spec_device_id(objs, address) {
        None => None,
        Some(id) => match first_with_id(objs, id) {
            None => None,
            Some(device) => match device.profiles {
                None => None,
                Some(list) => if exists|i: int| best_profile_at(list@, off, i) {
                    let i = choose|i: int| best_profile_at(list@, off, i);
                    match list@[i].index {
                        None => None,
                        Some(index) => match device.active_profiles {
                            None => None,
                            Some(active) => Some(
                                DeviceProfile {
                                    device: id,
                                    index,
                                    active: exists|k: int|
                                        0 <= k < active@.len() && active@[k] == Some(index),
                                },
                            ),
                        },
                    }
                } else {
                    None
                },
            },
        },
    }
}

fn find_with_id(objs: &Vec<PwObject>, id: u64) -> (r: Option<&PwObject>)
    ensures
        match r {
            Some(o) => first_with_id(objs@, id) == Some(*o),
            None => first_with_id(objs@, id) is None,
        },
{
    let mut k: usize = 0;
    assert(objs@.skip(0) =~= objs@);
    while k < objs.len()
        invariant
            k <= objs@.len(),
            first_with_id(objs@, id) == first_with_id(objs@.skip(k as int), id),
        decreases objs@.len() - k,
    {
        assert(objs@.skip(k as int)[0] == objs@[k as int]);
        assert(objs@.skip(k as int).drop_first() =~= objs@.skip(k + 1));
        if objs[k].id == Some(id) {
            return Some(&objs[k]);
        }
        k = k + 1;
    }
    None
}

fn is_eligible(p: &ProfileEntry, off: bool) -> (r: bool)
    ensures
        r == eligible(*p, off),
{
    if text_equals(&p.available, "no") {
        return false;
    }
    let name = match &p.name {
        Some(n) => chars_of(n.as_str()),
        None => Vec::new(),
    };
    if off {
        let expected = chars_of("off");
        let r = chars_equal(&name, 0, name.len(), &expected);
        assert(name@.subrange(0, name@.len() as int) =~= name@);
        r
    } else {
        let prefix = chars_of("a2dp-sink");
        if prefix.len() > name.len() {
            return false;
        }
        let r = chars_equal(&name, 0, prefix.len(), &prefix);
        assert(name@.subrange(0, prefix@.len() as int) =~= name@.take(prefix@.len() as int));
        r
    }
}

proof fn lemma_best_unique(list: Seq<ProfileEntry>, off: bool, a: int, b: int)
    requires
        best_profile_at(list, off, a),
        best_profile_at(list, off, b),
    ensures
        a == b,
{
    if a < b {
        assert(eligible(list[b], off));
        assert(preferred_over(list[a], list[b]));
        assert(eligible(list[a], off));
    } else if b < a {
        assert(eligible(list[a], off));
        assert(preferred_over(list[b], list[a]));
        assert(eligible(list[b], off));
    }
}

/// The index of the most preferred eligible profile, the last among equals.
fn best_profile(list: &Vec<ProfileEntry>, off: bool) -> (r: Option<usize>)
    ensures
        match r {
            Some(i) => best_profile_at(list@, off, i as int),
            None => !exists|i: int| best_profile_at(list@, off, i),
        },
{
    let mut best: Option<usize> = None;
    let mut best_rank: u16 = 0;
    let mut best_priority: u64 = 0;
    let mut k: usize = 0;
    while k < list.len()
        invariant
            k <= list@.len(),
            best is None ==> forall|j: int| 0 <= j < k ==> !eligible(#[trigger] list@[j], off),
            best matches Some(b) ==> {
                &&& b < k
                &&& eligible(list@[b as int], off)
                &&& best_rank == spec_codec_rank(list@[b as int])
                &&& best_priority == (match list@[b as int].priority {
                    Some(x) => x,
                    None => 0,
                })
                &&& forall|j: int|
                    0 <= j < k && eligible(#[trigger] list@[j], off) ==> {
                        &&& j <= b ==> !preferred_over(list@[j], list@[b as int])
                        &&& j > b ==> preferred_over(list@[b as int], list@[j])
                    }
            },
        decreases list@.len() - k,
    {
        let p = &list[k];
        if is_eligible(p, off) {
            let rank = codec_rank(p);
            let priority = match p.priority {
                Some(x) => x,
                None => 0,
            };
            let take = match best {
                None => true,
                Some(_) => rank > best_rank || (rank == best_rank && priority >= best_priority),
            };
            if take {
                best = Some(k);
                best_rank = rank;
                best_priority = priority;
            }
        }
        k = k + 1;
    }
    match best {
        Some(b) => Some(b),
        None => None,
    }
}

pub fn profile(objs: &Vec<PwObject>, address: &str, off: bool) -> (r: Option<DeviceProfile>)
    ensures
        r == spec_profile(objs@, address@, off),
{
    let id = match device_id(objs, address) {
        Some(id) => id,
        None => return None,
    };
    let device = match find_with_id(objs, id) {
        Some(d) => d,
        None => return None,
    };
    let list = match &device.profiles {
        Some(l) => l,
        None => return None,
    };
    let i = match best_profile(list, off) {
        Some(i) => i,
        None => return None,
    };
    proof {
        let c = choose|c: int| best_profile_at(list@, off, c);
        lemma_best_unique(list@, off, c, i as int);
    }
    let index = match list[i].index {
        Some(index) => index,
        None => return None,
    };
    let active_list = match &device.active_profiles {
        Some(a) => a,
        None => return None,
    };
    let mut active = false;
    let mut k: usize = 0;
    while k < active_list.len()
        invariant
            k <= active_list@.len(),
            active <==> exists|j: int| 0 <= j < k && active_list@[j] == Some(index),
        decreases active_list@.len() - k,
    {
        if active_list[k] == Some(index) {
            active = true;
        }
        k = k + 1;
    }
    Some(DeviceProfile { device: id, index, active })
}

/// A volume is only ever restored on the same output: what the search finds
/// has the serial and name of the output that was lowered.
pub proof fn law_same_sink_identity(objs: Seq<PwObject>, expected: Sink)
    ensures
        first_same_sink(objs, expected) matches Some(s) ==> s.serial == expected.serial
            && s.name@ == expected.name@,
    decreases objs.len(),
{
    if objs.len() > 0 {
        law_same_sink_identity(objs.drop_first(), expected);
    }
}

proof fn lemma_sink_named(all: Seq<PwObject>, rest: Seq<PwObject>, name: Seq<char>, address: Seq<char>)
    ensures
        first_sink_named(all, rest, name, address) matches Some(s) ==> s.name@ == name
            && exists|i: int|
            0 <= i < rest.len() && spec_sink(#[trigger] rest[i]) == Some(s) && spec_belongs(
                all,
                rest[i],
                address,
            ),
    decreases rest.len(),
{
    if rest.len() > 0 {
        lemma_sink_named(all, rest.drop_first(), name, address);
        if let Some(s) = first_sink_named(all, rest, name, address) {
            if !(spec_sink(rest[0]) == Some(s) && spec_belongs(all, rest[0], address)) {
                let i = choose|i: int|
                    0 <= i < rest.drop_first().len() && spec_sink(#[trigger] rest.drop_first()[i])
                        == Some(s) && spec_belongs(all, rest.drop_first()[i], address);
                assert(rest[i + 1] == rest.drop_first()[i]);
            }
        }
    }
}

/// The default output found for an address is an audio sink of the snapshot
/// that belongs to the address.
pub proof fn law_default_sink_belongs(objs: Seq<PwObject>, address: Seq<char>)
    ensures
        spec_default_sink(objs, address) matches Some(s) ==> exists|i: int|
            0 <= i < objs.len() && spec_sink(#[trigger] objs[i]) == Some(s) && spec_belongs(
                objs,
                objs[i],
                address,
            ),
{
    if let Some(e) = first_default_entry(objs) {
        if let Some(name) = e.value_name {
            lemma_sink_named(objs, objs, name@, address);
        }
    }
}

} // verus!
