use airpods_gnome_daemon::settings::Settings;

#[test]
fn malformed_legacy_keys_are_not_discarded() {
    for contents in [
        "[DeviceInfo]\nmagicAccIRK=@ByteArray(\\xgg)",
        "[DeviceInfo]\nmagicAccIRK=@ByteArray(short)",
    ] {
        assert!(Settings::from_legacy(contents).is_err());
    }
}

#[test]
fn legacy_preferences_are_migrated() {
    let contents = "[earDetection]\nsetting=1\n[DeviceInfo]\n\
        deviceName=\"AirPods, Pro\"\nmodelNumber=A3048\nmodel=6\n\
        conversationalAwareness=true\noneBudANCMode=false\nadaptiveNoiseLevel=75\n\
        magicAccEncKey=@ByteArray(0123456789abcdef)\n[crossdevice]\nenabled=true\n";
    let settings = Settings::from_legacy(contents).unwrap();
    assert_eq!(settings.ear_detection_behavior, 1);
    assert_eq!(settings.device_name, "AirPods, Pro");
    assert_eq!(settings.model_number, "A3048");
    assert_eq!(settings.model, 6);
    assert!(settings.conversational_awareness);
    assert!(!settings.one_bud_anc);
    assert_eq!(settings.adaptive_noise_level, 75);
    assert_eq!(settings.magic_acc_enc_key, b"0123456789abcdef".to_vec());
    assert!(settings.magic_acc_irk.is_empty());
}

#[test]
fn out_of_range_legacy_values_are_errors() {
    assert_eq!(
        Settings::from_legacy("[earDetection]\nsetting=9").unwrap_err().message(),
        "saved AirPods preference is out of range"
    );
    assert_eq!(
        Settings::from_legacy("[earDetection]\nsetting=256").unwrap_err().message(),
        "number too large to fit in target type"
    );
    assert_eq!(
        Settings::from_legacy("[DeviceInfo]\nadaptiveNoiseLevel=x").unwrap_err().message(),
        "invalid digit found in string"
    );
    assert_eq!(
        Settings::from_legacy("[DeviceInfo]\nconversationalAwareness=maybe").unwrap_err().message(),
        "invalid legacy boolean preference"
    );
}

#[test]
fn comments_unknown_keys_and_empty_files_keep_defaults() {
    let settings = Settings::from_legacy("; comment\n# other\n[crossdevice]\nenabled=true\nnonsense\n").unwrap();
    assert_eq!(settings, Settings::default());
    assert_eq!(Settings::from_legacy("").unwrap(), Settings::default());
}

#[test]
fn validation_rejects_out_of_range_preferences_and_bad_keys() {
    let mut settings = Settings::default();
    assert!(settings.validate().is_ok());
    settings.adaptive_noise_level = 101;
    assert_eq!(settings.validate().unwrap_err().message(), "saved AirPods preference is out of range");
    settings.adaptive_noise_level = 20;
    settings.magic_acc_irk = vec![1];
    assert_eq!(settings.validate().unwrap_err().message(), "saved AirPods pairing key has invalid length");
    settings.magic_acc_irk = vec![0; 16];
    assert!(settings.validate().is_ok());
}
