use airpods_gnome_daemon::protocol::{
    adaptive_packet, control_packet, conversation_packet, decrypt_battery, noise_packet,
    parse_advertisement, parse_packet, verify_rpa, Component, Event, MagicKeys, FEATURES,
    HANDSHAKE, MAGIC_KEYS_HEADER, NOTIFICATIONS, REQUEST_MAGIC_KEYS,
};

fn bytes(hex: &str) -> Vec<u8> {
    hex.as_bytes()
        .chunks(2)
        .map(|s| u8::from_str_radix(std::str::from_utf8(s).unwrap(), 16).unwrap())
        .collect()
}

#[test]
fn battery_preserves_distinct_components() {
    let packet = bytes("040004000400030401420201020157020108011e0101");
    let Some(Event::Battery(values)) = parse_packet(&packet).unwrap() else {
        panic!("battery event");
    };
    assert_eq!(
        values
            .iter()
            .map(|r| (r.component, r.level))
            .collect::<Vec<_>>(),
        vec![
            (Component::Left, 66),
            (Component::Right, 87),
            (Component::Case, 30)
        ]
    );
}

#[test]
fn truncated_and_malformed_packets_never_parse_as_complete_updates() {
    let battery = bytes("040004000400030401420201020157020108011e0101");
    for n in 0..battery.len() {
        assert!(!matches!(
            parse_packet(&battery[..n]),
            Ok(Some(Event::Battery(_)))
        ));
    }
    for index in [6, 8, 9, 10, 11] {
        let mut bad = battery.clone();
        bad[index] = 255;
        assert!(parse_packet(&bad).is_err());
    }
    assert!(parse_packet(&bytes("0400040004000204014202010401570201")).is_err());
    assert_eq!(parse_packet(&[0xff; 40]).unwrap(), None);
}

#[test]
fn control_values_and_ui_mode_mapping() {
    assert_eq!(HANDSHAKE.to_vec(), bytes("00000400010002000000000000000000"));
    assert_eq!(FEATURES.to_vec(), bytes("040004004d00d700000000000000"));
    assert_eq!(NOTIFICATIONS.to_vec(), bytes("040004000f00ffffffffff"));
    assert_eq!(REQUEST_MAGIC_KEYS.to_vec(), bytes("0400040030000500"));
    for mode in 0..4 {
        let packet = noise_packet(mode).unwrap();
        assert_eq!(packet[7], mode as u8 + 1);
        assert_eq!(parse_packet(&packet).unwrap(), Some(Event::NoiseMode(mode)));
    }
    assert!(noise_packet(-1).is_none());
    assert!(noise_packet(4).is_none());
    assert_eq!(
        parse_packet(&conversation_packet(false)).unwrap(),
        Some(Event::Conversation(false))
    );
    assert_eq!(
        parse_packet(&adaptive_packet(100).unwrap()).unwrap(),
        Some(Event::AdaptiveLevel(100))
    );
    assert!(adaptive_packet(101).is_none());
    assert!(parse_packet(&control_packet(0x28, 9)).is_err());
    assert!(parse_packet(&control_packet(0x0d, 0)).is_err());
}

#[test]
fn metadata_requires_complete_utf8_fields() {
    let mut packet = bytes("040004001d000000000000");
    packet.extend_from_slice(b"AirPods\0A3064\0Apple\0");
    assert_eq!(
        parse_packet(&packet).unwrap(),
        Some(Event::Metadata {
            name: "AirPods".into(),
            model_number: "A3064".into()
        })
    );
    packet.pop();
    assert!(parse_packet(&packet).is_err());
    packet.extend_from_slice(&[255, 0]);
    assert!(parse_packet(&packet).is_err());
}

#[test]
fn magic_keys_require_both_complete_records_and_redact_debug() {
    let mut packet = bytes("0400040031000201001000");
    packet.extend_from_slice(&[3; 16]);
    packet.extend_from_slice(&[4, 0, 16, 0]);
    packet.extend_from_slice(&[9; 16]);
    let event = parse_packet(&packet).unwrap().unwrap();
    assert!(format!("{event:?}").contains("<redacted>"));
    assert_eq!(
        event,
        Event::MagicKeys(MagicKeys {
            irk: [3; 16],
            key: [9; 16]
        })
    );
    for n in MAGIC_KEYS_HEADER.len()..packet.len() {
        assert!(parse_packet(&packet[..n]).is_err());
    }
}

#[test]
fn captured_ble_frame_and_case_unknown() {
    let packet = bytes("071901272021888f110004b48a83d66c322a4745cb15da3fd6ab2b");
    let adv = parse_advertisement(&packet).unwrap();
    assert_eq!(adv.model_id, 0x2720);
    assert_eq!(adv.case_level, None);
    assert!(adv.primary_left);
    for n in 0..packet.len() {
        assert!(parse_advertisement(&packet[..n]).is_none());
    }
    let mut docked = packet;
    docked[5] |= 0x40;
    docked[7] = 0x46;
    let adv = parse_advertisement(&docked).unwrap();
    assert_eq!(adv.case_level, Some(60));
    assert!(adv.case_charging);
    assert_eq!(adv.lid_state, 0);
}

#[test]
fn single_block_decryption_matches_nist_aes_vector() {
    let key: [u8; 16] = bytes("000102030405060708090a0b0c0d0e0f")
        .try_into()
        .unwrap();
    let ciphertext = bytes("69c4e0d86a7b0430d8cdb78070b4c55a");
    assert_eq!(
        decrypt_battery(&ciphertext, &key).unwrap().to_vec(),
        bytes("00112233445566778899aabbccddeeff")
    );
    assert!(decrypt_battery(&ciphertext[..15], &key).is_none());
}

#[test]
fn rpa_identity_matches_bluetooth_core_sample() {
    // Bluetooth Core ah() sample: IRK ec0234...7d9b, prand 708194,
    // hash 0dfbaa. Our stored IRK uses the protocol's little endian order.
    let key: [u8; 16] = bytes("9b7d390aa610103405adc857a33402ec")
        .try_into()
        .unwrap();
    assert!(verify_rpa("70:81:94:0D:FB:AA", &key));
    assert!(!verify_rpa("70:81:94:0D:FB:AB", &key));
    for malformed in [
        "",
        "70:81:94:0D:FB",
        "70:81:94:0D:FB:100",
        "70:81:94:0D:FB:GG",
    ] {
        assert!(!verify_rpa(malformed, &key));
    }
}
