use airpods_gnome_daemon::model::Status;
use airpods_gnome_daemon::protocol::{Advertisement, Component, ComponentReading, EarState, Event};

fn adv(primary_left: bool, pod_in_case: bool, case_level: Option<u8>) -> Advertisement {
    Advertisement {
        model_id: 0x2720,
        primary_left,
        pod_in_case,
        left_in_ear: true,
        right_in_ear: false,
        case_level,
        case_charging: true,
        lid_state: 0,
        encrypted_payload: [0; 16],
    }
}

#[test]
fn independent_batteries_and_primary_ear_mapping() {
    let mut s = Status::default();
    s.apply(&Event::Ear {
        primary: EarState::InEar,
        secondary: EarState::Out,
    });
    s.apply(&Event::Battery(vec![
        ComponentReading {
            component: Component::Right,
            level: 87,
            charging: false,
            available: true,
        },
        ComponentReading {
            component: Component::Left,
            level: 66,
            charging: false,
            available: true,
        },
    ]));
    assert_eq!((s.left.level, s.right.level), (66, 87));
    assert_eq!(s.ears_in(), (false, true));
    s.apply(&Event::Battery(vec![ComponentReading {
        component: Component::Left,
        level: 255,
        charging: false,
        available: false,
    }]));
    assert_eq!(s.left.level, 66);
}

#[test]
fn encrypted_batteries_follow_primary_flip_without_rounding() {
    let mut s = Status::default();
    let mut data = [0; 16];
    data[1] = 71;
    data[2] = 83;
    data[3] = 0x80 | 46;
    s.apply_ble(&adv(true, false, Some(50)), &data);
    assert_eq!((s.left.level, s.right.level, s.case.level), (71, 83, 46));
    assert!(s.case.charging);
    s.apply_ble(&adv(false, false, None), &data);
    assert_eq!((s.left.level, s.right.level), (83, 71));
    assert_eq!(s.ears_in(), (true, false));
}

#[test]
fn case_falls_back_to_broadcast_without_overwriting_exact_data() {
    let mut s = Status::default();
    let mut data = [0x7f; 16];
    data[3] = 0;
    s.apply_ble(&adv(true, false, Some(60)), &data);
    assert!(s.case.available);
    assert_eq!(s.case.level, 60);
    assert!(!s.left.available);
    s.apply_ble(&adv(true, false, Some(70)), &data);
    assert_eq!(s.case.level, 70);
    data[3] = 63;
    s.apply_ble(&adv(true, false, Some(60)), &data);
    assert_eq!(s.case.level, 63);
    data[3] = 0x7f;
    s.apply_ble(&adv(true, false, Some(60)), &data);
    assert_eq!(s.case.level, 63);
    data[3] = 0;
    s.apply_ble(&adv(true, true, Some(0)), &data);
    assert_eq!(s.case.level, 0); // Docked 0 is a measured empty case.
}

#[test]
fn unknown_and_invalid_decrypted_levels_preserve_last_known_values() {
    let mut s = Status::default();
    let mut data = [0; 16];
    data[1] = 41;
    data[2] = 63;
    data[3] = 54;
    s.apply_ble(&adv(true, false, None), &data);
    data[1] = 0xff;
    data[2] = 101;
    data[3] = 0;
    s.apply_ble(&adv(true, false, None), &data);
    assert_eq!((s.left.level, s.right.level, s.case.level), (41, 63, 54));
}

#[test]
fn headset_never_gets_a_case_or_duplicate_pod_batteries() {
    let mut s = Status::default();
    let mut advertisement = adv(false, false, Some(0));
    advertisement.model_id = 0x0a20;
    let mut data = [0; 16];
    data[1] = 78;
    data[2] = 23;
    s.apply_ble(&advertisement, &data);
    assert_eq!(s.headset.level, 78);
    assert!(!s.left.available && !s.right.available && !s.case.available);
}

#[test]
fn capability_matrix_and_unknown_ble_preserve_metadata_identity() {
    let mut s = Status::default();
    for (number, noise, adaptive, headset, off) in [
        ("A3064", true, true, false, false),
        ("A2084", true, false, false, true),
        ("A3053", false, false, false, true),
        ("A3056", true, true, false, true),
        ("A3454", true, true, true, true),
        ("A2096", true, false, true, true),
    ] {
        s.set_model_number(number);
        assert_eq!(
            (
                s.supports_noise_control,
                s.supports_adaptive,
                s.is_headset,
                s.supports_noise_off
            ),
            (noise, adaptive, headset, off)
        );
    }
    s.set_model_number("A3064");
    let mut unknown = adv(true, false, None);
    unknown.model_id = 0xffff;
    s.apply_ble(&unknown, &[0x7f; 16]);
    assert_eq!(s.model_int, 11);
}

#[test]
fn forgetting_measurements_leaves_no_ear_in() {
    let mut s = Status::default();
    s.apply(&Event::Ear {
        primary: EarState::InEar,
        secondary: EarState::InEar,
    });
    assert_eq!(s.ears_in(), (true, true));
    s.reset_measurements();
    assert_eq!(s.ears_in(), (false, false));
    assert!(!s.case_is_exact);
    assert_eq!(s.lid_state, 2);
}
