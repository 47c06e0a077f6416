use airpods_gnome_daemon::pipewire::{
    capturing, codec_rank, default_sink, device_id, profile, same_sink, MetadataEntry,
    ProfileEntry, PwObject,
};

fn object(id: u64, object_type: &str) -> PwObject {
    PwObject {
        id: Some(id),
        object_type: Some(object_type.to_owned()),
        address: None,
        device_id: None,
        media_class: None,
        node_name: None,
        serial: None,
        state: None,
        output_node: None,
        input_node: None,
        metadata: None,
        profiles: None,
        active_profiles: None,
    }
}

fn entry(index: u64, name: &str, description: Option<&str>, priority: Option<u64>) -> ProfileEntry {
    ProfileEntry {
        index: Some(index),
        name: Some(name.to_owned()),
        description: description.map(str::to_owned),
        available: Some("yes".to_owned()),
        priority,
    }
}

fn fixture() -> Vec<PwObject> {
    let mut device = object(1, "PipeWire:Interface:Device");
    device.address = Some("AA:BB:CC:DD:EE:FF".to_owned());
    device.profiles = Some(vec![
        entry(0, "off", None, None),
        entry(10, "a2dp-sink", Some("Playback (codec AAC)"), Some(134)),
        entry(11, "a2dp-sink-sbc", None, Some(133)),
        entry(12, "a2dp-sink-sbc_xq", None, Some(132)),
        entry(13, "headset-head-unit-msbc", None, Some(999)),
    ]);
    device.active_profiles = Some(vec![Some(12)]);
    let mut sink = object(2, "PipeWire:Interface:Node");
    sink.device_id = Some(1);
    sink.media_class = Some("Audio/Sink".to_owned());
    sink.node_name = Some("pods".to_owned());
    sink.serial = Some(22);
    let mut mic = object(3, "PipeWire:Interface:Node");
    mic.device_id = Some(1);
    mic.media_class = Some("Audio/Source".to_owned());
    mic.node_name = Some("pods-mic".to_owned());
    let mut stream = object(4, "PipeWire:Interface:Node");
    stream.state = Some("running".to_owned());
    stream.media_class = Some("Stream/Input/Audio".to_owned());
    let mut metadata = object(5, "PipeWire:Interface:Metadata");
    metadata.metadata = Some(vec![MetadataEntry {
        subject: Some(0),
        key: Some("default.audio.sink".to_owned()),
        value_name: Some("pods".to_owned()),
    }]);
    vec![device, sink, mic, stream, metadata]
}

fn link(output: u64, input: u64) -> PwObject {
    let mut link = object(6, "PipeWire:Interface:Link");
    link.id = None;
    link.output_node = Some(output);
    link.input_node = Some(input);
    link
}

#[test]
fn profile_selection_preserves_codec_order_and_does_not_reapply_active_profile() {
    let snapshot = fixture();
    let chosen = profile(&snapshot, "AABBCCDDEEFF", false).unwrap();
    assert_eq!(chosen.device, 1);
    assert_eq!(chosen.index, 12);
    assert!(chosen.active);
    assert_eq!(profile(&snapshot, "AABBCCDDEEFF", true).unwrap().index, 0);
    assert!(profile(&snapshot, "AABBCCDDEE00", false).is_none());
}

#[test]
fn capture_requires_a_running_stream_attached_to_this_device_microphone() {
    let mut snapshot = fixture();
    assert!(!capturing(&snapshot, "AABBCCDDEEFF"));
    snapshot.push(link(3, 4));
    assert!(capturing(&snapshot, "AABBCCDDEEFF"));
    assert!(!capturing(&snapshot, "001122334455"));
    snapshot[3].state = Some("idle".to_owned());
    assert!(!capturing(&snapshot, "AABBCCDDEEFF"));
    snapshot[3].state = Some("running".to_owned());
    snapshot.last_mut().unwrap().output_node = Some(2);
    assert!(!capturing(&snapshot, "AABBCCDDEEFF"));
}

#[test]
fn volume_restore_cannot_touch_a_reused_node_id() {
    let mut snapshot = fixture();
    let sink = default_sink(&snapshot, "AABBCCDDEEFF").unwrap();
    assert!(same_sink(&snapshot, &sink).is_some());
    assert!(default_sink(&snapshot, "001122334455").is_none());
    snapshot[1].serial = Some(23);
    assert!(same_sink(&snapshot, &sink).is_none());
}

#[test]
fn codec_ranks_prefer_sbc_xq_then_sbc_then_aac() {
    assert_eq!(codec_rank(&entry(0, "a2dp-sink-sbc_xq", None, None)), 453);
    assert_eq!(codec_rank(&entry(0, "A2DP-SINK-SBC-XQ", None, None)), 453);
    assert_eq!(codec_rank(&entry(0, "a2dp-sink", Some("Playback (codec SBC-XQ)"), None)), 453);
    assert_eq!(codec_rank(&entry(0, "a2dp-sink-sbc", None, None)), 328);
    assert_eq!(codec_rank(&entry(0, "a2dp-sink", Some("Playback (codec AAC)"), None)), 256);
    assert_eq!(codec_rank(&entry(0, "a2dp-sink-aac", None, None)), 256);
    assert_eq!(codec_rank(&entry(0, "a2dp-sink", None, None)), 0);
    let unnamed = ProfileEntry { index: None, name: None, description: None, available: None, priority: None };
    assert_eq!(codec_rank(&unnamed), 0);
}

#[test]
fn unavailable_profiles_are_skipped_and_ties_take_the_last() {
    let mut snapshot = fixture();
    let profiles = snapshot[0].profiles.as_mut().unwrap();
    profiles[3].available = Some("no".to_owned());
    let chosen = profile(&snapshot, "AABBCCDDEEFF", false).unwrap();
    assert_eq!(chosen.index, 11);
    assert!(!chosen.active);
    let profiles = snapshot[0].profiles.as_mut().unwrap();
    profiles.push(entry(14, "a2dp-sink-sbc", None, Some(133)));
    assert_eq!(profile(&snapshot, "AABBCCDDEEFF", false).unwrap().index, 14);
}

#[test]
fn device_ids_match_normalized_addresses() {
    let snapshot = fixture();
    assert_eq!(device_id(&snapshot, "AABBCCDDEEFF"), Some(1));
    assert_eq!(device_id(&snapshot, "AA:BB:CC:DD:EE:FF"), None);
    assert_eq!(device_id(&snapshot, "001122334455"), None);
}

#[test]
fn default_output_must_be_named_by_the_metadata() {
    let mut snapshot = fixture();
    snapshot[4].metadata = Some(vec![MetadataEntry {
        subject: Some(0),
        key: Some("default.audio.sink".to_owned()),
        value_name: Some("speakers".to_owned()),
    }]);
    assert!(default_sink(&snapshot, "AABBCCDDEEFF").is_none());
    snapshot[4].metadata = Some(vec![MetadataEntry {
        subject: Some(1),
        key: Some("default.audio.sink".to_owned()),
        value_name: Some("pods".to_owned()),
    }]);
    assert!(default_sink(&snapshot, "AABBCCDDEEFF").is_none());
}
