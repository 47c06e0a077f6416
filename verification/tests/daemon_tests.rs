use airpods_gnome_daemon::daemon::{
    confirms_noise_mode, CommandError, CommandKind, CommandPlan, Daemon, Effect,
    NotificationAction,
};
use airpods_gnome_daemon::protocol::{
    adaptive_packet, conversation_packet, noise_packet, FEATURES, HANDSHAKE, NOTIFICATIONS,
    REQUEST_MAGIC_KEYS,
};
use airpods_gnome_daemon::settings::Settings;

const HANDSHAKE_ACK: [u8; 4] = [1, 0, 4, 0];
const FEATURES_ACK: [u8; 6] = [4, 0, 4, 0, 0x2b, 0];

fn bytes(hex: &str) -> Vec<u8> {
    hex.as_bytes()
        .chunks(2)
        .map(|s| u8::from_str_radix(std::str::from_utf8(s).unwrap(), 16).unwrap())
        .collect()
}

fn connected(model_number: &str) -> Daemon {
    let mut settings = Settings::default();
    settings.model_number = model_number.to_owned();
    let mut daemon = Daemon::new(settings);
    assert_eq!(
        daemon.on_connected("AA:BB:CC:DD:EE:FF", "AirPods"),
        vec![Effect::Send(HANDSHAKE.to_vec())]
    );
    assert_eq!(daemon.on_packet(&HANDSHAKE_ACK), vec![Effect::Send(FEATURES.to_vec())]);
    assert!(daemon.status.connected);
    daemon
}

fn change(plan: Result<CommandPlan, CommandError>) -> (CommandKind, Settings, Option<Vec<u8>>, Option<i32>) {
    match plan {
        Ok(CommandPlan::Change { kind, settings, packet, noise }) => (kind, settings, packet, noise),
        other => panic!("expected a change, got {other:?}"),
    }
}

#[test]
fn startup_restores_saved_preferences() {
    let mut settings = Settings::default();
    settings.ear_detection_behavior = 2;
    settings.conversational_awareness = true;
    settings.adaptive_noise_level = 30;
    settings.model_number = "A3056".to_owned();
    settings.device_name = "Pods".to_owned();
    let daemon = Daemon::new(settings);
    assert_eq!(daemon.status.ear_detection_behavior, 2);
    assert!(daemon.status.conversational_awareness);
    assert_eq!(daemon.status.adaptive_noise_level, 30);
    assert_eq!(daemon.status.device_name, "Pods");
    assert_eq!(daemon.status.model_number, "A3056");
    assert!(daemon.status.supports_adaptive && daemon.status.supports_noise_off);
    assert!(!daemon.status.connected);
    assert_eq!(daemon.status.noise_mode, -1);
    assert_eq!(daemon.media.behavior, 2);
    assert_eq!(daemon.media.device, None);
}

#[test]
fn simple_commands_are_planned_without_side_effects() {
    let daemon = Daemon::new(Settings::default());
    assert_eq!(daemon.plan_command("status"), Ok(CommandPlan::Status));
    assert_eq!(daemon.plan_command("connect"), Ok(CommandPlan::Device { connect: true }));
    assert_eq!(daemon.plan_command("disconnect"), Ok(CommandPlan::Device { connect: false }));
    assert_eq!(daemon.plan_command("bogus"), Err(CommandError("Unknown command")));
    assert_eq!(
        daemon.plan_command("onebud:on"),
        Err(CommandError("One-bud ANC is unavailable for this model"))
    );
    let capable = connected("A3064");
    assert_eq!(
        capable.plan_command("onebud:off"),
        Err(CommandError("One-bud ANC control is not implemented"))
    );
    assert_eq!(
        daemon.plan_command("reopen"),
        Err(CommandError("this daemon runs headless and has no window"))
    );
    assert_eq!(
        daemon.plan_command("noise:anc"),
        Err(CommandError("AirPods are disconnected"))
    );
    let (kind, settings, packet, noise) = change(daemon.plan_command("ear:off"));
    assert_eq!(kind, CommandKind::Ear);
    assert_eq!(settings.ear_detection_behavior, 2);
    assert_eq!((packet, noise), (None, None));
    assert_eq!(daemon.settings.ear_detection_behavior, 0);
}

#[test]
fn listening_modes_follow_the_model() {
    let mut daemon = connected("A3064");
    assert_eq!(
        daemon.plan_command("noise:off"),
        Err(CommandError("Off mode is unavailable for this model"))
    );
    let (kind, _, packet, noise) = change(daemon.plan_command("noise:anc"));
    assert_eq!(kind, CommandKind::Noise);
    assert_eq!(packet, Some(noise_packet(1).unwrap().to_vec()));
    assert_eq!(noise, Some(1));
    daemon.status.noise_mode = 1;
    assert_eq!(daemon.plan_command("noise:anc"), Ok(CommandPlan::AlreadySet));
    assert_eq!(change(daemon.plan_command("noise:cycle")).3, Some(2));
    daemon.status.noise_mode = 3;
    assert_eq!(change(daemon.plan_command("noise:cycle")).3, Some(1));
    daemon.status.noise_mode = -1;
    assert_eq!(change(daemon.plan_command("noise:cycle")).3, Some(1));
    let mut basic = connected("A3053");
    assert_eq!(
        basic.plan_command("noise:cycle"),
        Err(CommandError("Listening modes are unavailable for this model"))
    );
    basic.status.connected = false;
    assert_eq!(
        basic.plan_command("noise:cycle"),
        Err(CommandError("AirPods are disconnected"))
    );
}

#[test]
fn cycling_visits_every_offered_mode() {
    let mut daemon = connected("A3056");
    daemon.status.noise_mode = 0;
    let mut seen = vec![];
    for _ in 0..4 {
        let mode = change(daemon.plan_command("noise:cycle")).3.unwrap();
        seen.push(mode);
        daemon.status.noise_mode = mode;
    }
    assert_eq!(seen, vec![1, 2, 3, 0]);
}

#[test]
fn adaptive_levels_must_be_written_exactly() {
    let mut daemon = connected("A3064");
    daemon.status.noise_mode = 2;
    assert_eq!(
        daemon.plan_command("adaptive:50"),
        Err(CommandError("Adaptive listening mode is not active"))
    );
    daemon.status.noise_mode = 3;
    let (kind, settings, packet, _) = change(daemon.plan_command("adaptive:50"));
    assert_eq!(kind, CommandKind::Adaptive);
    assert_eq!(settings.adaptive_noise_level, 50);
    assert_eq!(packet, Some(adaptive_packet(50).unwrap().to_vec()));
    assert_eq!(change(daemon.plan_command("adaptive:adaptive:7")).1.adaptive_noise_level, 7);
    assert_eq!(change(daemon.plan_command("adaptive:100")).1.adaptive_noise_level, 100);
    for bad in ["adaptive:050", "adaptive:101", "adaptive:", "adaptive:+5", "adaptive:5 ", "adaptive:256"] {
        assert_eq!(
            daemon.plan_command(bad),
            Err(CommandError("Adaptive level must be 0–100")),
            "{bad}"
        );
    }
}

#[test]
fn conversation_awareness_needs_a_capable_model() {
    let basic = connected("A3053");
    assert_eq!(
        basic.plan_command("ca:on"),
        Err(CommandError("Conversation Awareness is unavailable for this model"))
    );
    let daemon = connected("A3064");
    let (kind, settings, packet, _) = change(daemon.plan_command("ca:off"));
    assert_eq!(kind, CommandKind::Conversation);
    assert!(!settings.conversational_awareness);
    assert_eq!(packet, Some(conversation_packet(false).to_vec()));
}

#[test]
fn recorded_commands_update_status_and_media() {
    let mut daemon = connected("A3064");
    let (kind, settings, _, noise) = change(daemon.plan_command("ear:one"));
    assert!(!daemon.settings_changed(&settings));
    let (kind2, settings2, _, noise2) = change(daemon.plan_command("ear:off"));
    assert!(daemon.settings_changed(&settings2));
    daemon.settings = settings2;
    daemon.record_command(kind2, noise2);
    assert_eq!(daemon.status.ear_detection_behavior, 2);
    assert_eq!(daemon.status.ear_detection_changes_total, 1);
    assert_eq!(daemon.media.behavior, 2);
    daemon.record_command(kind, noise);
    assert_eq!(daemon.status.ear_detection_changes_total, 2);
    let (kind, settings, _, noise) = change(daemon.plan_command("ca:off"));
    daemon.settings = settings;
    daemon.record_command(kind, noise);
    assert_eq!(daemon.status.ca_changes_total, 1);
    assert!(!daemon.status.conversational_awareness);
    assert_eq!(daemon.media.conversation, Some(8));
    let (kind, _, _, noise) = change(daemon.plan_command("noise:transparency"));
    daemon.record_command(kind, noise);
    assert_eq!(daemon.status.noise_mode, 2);
    assert_eq!(daemon.status.noise_control_changes_total, 1);
}

#[test]
fn another_device_forgets_the_pairing_and_the_same_one_keeps_it() {
    let mut settings = Settings::default();
    settings.bluetooth_address = "AA:BB:CC:DD:EE:FF".to_owned();
    settings.magic_acc_irk = vec![1; 16];
    settings.magic_acc_enc_key = vec![2; 16];
    settings.model = 6;
    settings.model_number = "A3048".to_owned();
    settings.ear_detection_behavior = 1;
    let mut daemon = Daemon::new(settings);
    daemon.on_connected("aa:bb:cc:dd:ee:ff", "Pods");
    assert_eq!(daemon.settings.magic_acc_irk, vec![1; 16]);
    assert_eq!(daemon.settings.model, 6);
    assert_eq!(daemon.settings.bluetooth_address, "aa:bb:cc:dd:ee:ff");
    assert_eq!(daemon.status.device_name, "Pods");
    assert_eq!(daemon.media.device.as_deref(), Some("aa:bb:cc:dd:ee:ff"));
    daemon.on_connected("11:22:33:44:55:66", "Other");
    assert!(daemon.settings.magic_acc_irk.is_empty());
    assert!(daemon.settings.magic_acc_enc_key.is_empty());
    assert_eq!(daemon.settings.model, 0);
    assert_eq!(daemon.settings.model_number, "");
    assert_eq!(daemon.status.model_int, 0);
    assert_eq!(daemon.status.model_number, "");
    assert_eq!(daemon.settings.ear_detection_behavior, 1);
    assert_eq!(daemon.status.noise_mode, -1);
}

#[test]
fn reports_drive_the_handshake_and_the_saved_identity() {
    let mut daemon = connected("");
    assert_eq!(
        daemon.on_packet(&FEATURES_ACK),
        vec![Effect::Send(NOTIFICATIONS.to_vec()), Effect::Send(REQUEST_MAGIC_KEYS.to_vec())]
    );
    let mut metadata = bytes("040004001d000000000000");
    metadata.extend_from_slice(b"AirPods\0A3064\0Apple\0");
    assert_eq!(
        daemon.on_packet(&metadata),
        vec![Effect::SaveSettings, Effect::Send(REQUEST_MAGIC_KEYS.to_vec())]
    );
    assert_eq!(daemon.settings.device_name, "AirPods");
    assert_eq!(daemon.settings.model_number, "A3064");
    assert_eq!(daemon.settings.model, 11);
    assert_eq!(daemon.on_packet(&noise_packet(2).unwrap()), vec![]);
    assert_eq!(daemon.status.noise_mode, 2);
    assert_eq!(daemon.on_packet(&[0xff; 40]), vec![]);
    assert_eq!(daemon.media.ears, None);
    daemon.on_packet(&bytes("040004000400030401420201020157020108011e0101"));
    assert_eq!(daemon.media.ears, Some((false, false)));
    daemon.on_packet(&conversation_packet(false));
    assert_eq!(daemon.media.conversation, Some(8));
    daemon.on_disconnected();
    assert!(!daemon.status.connected);
    assert_eq!(daemon.media.device, None);
    assert_eq!(daemon.notifications_due, None);
}

#[test]
fn notification_timer_reconnects_or_asks_for_batteries() {
    let mut daemon = Daemon::new(Settings::default());
    assert_eq!(daemon.notification_action(), NotificationAction::Reconnect);
    daemon.on_connected("AA:BB:CC:DD:EE:FF", "AirPods");
    daemon.handshake_sent(1000);
    assert_eq!(daemon.notifications_due, Some(4000));
    daemon.on_packet(&HANDSHAKE_ACK);
    assert_eq!(daemon.notification_action(), NotificationAction::RequestNotifications);
    daemon.on_packet(&bytes("040004000400030401420201020157020108011e0101"));
    assert_eq!(daemon.notification_action(), NotificationAction::Nothing);
    daemon.notifications_fired();
    assert_eq!(daemon.notifications_due, None);
}

#[test]
fn only_the_requested_mode_confirms_a_change() {
    let packet = noise_packet(2).unwrap();
    assert!(confirms_noise_mode(&packet, 2));
    assert!(!confirms_noise_mode(&packet, 1));
    assert!(!confirms_noise_mode(&[0xff; 40], 2));
}

#[test]
fn advertisements_need_the_stored_keys() {
    let mut daemon = connected("A3064");
    let frame = bytes("071901272021888f110004b48a83d66c322a4745cb15da3fd6ab2b");
    assert!(!daemon.on_advertisement("70:81:94:0D:FB:AA", &frame));
    daemon.settings.magic_acc_irk = bytes("9b7d390aa610103405adc857a33402ec");
    daemon.settings.magic_acc_enc_key = vec![0; 16];
    assert!(!daemon.on_advertisement("70:81:94:0D:FB:AB", &frame));
    assert!(!daemon.on_advertisement("70:81:94:0D:FB:AA", &frame[..20]));
    daemon.status.set_model_id(0);
    assert_eq!(daemon.status.model_name, "");
    assert!(daemon.on_advertisement("70:81:94:0D:FB:AA", &frame));
    assert_eq!(daemon.status.model_int, 11);
    assert_eq!(daemon.status.model_name, "AirPods Pro 3");
    let mut unknown = frame.clone();
    unknown[3] = 0xff;
    unknown[4] = 0xff;
    assert!(daemon.on_advertisement("70:81:94:0D:FB:AA", &unknown));
    assert_eq!(daemon.status.model_name, "AirPods Pro 3");
}

#[test]
fn held_preferences_always_validate() {
    let mut daemon = connected("A3064");
    daemon.status.noise_mode = 3;
    for command in ["ear:one", "ear:both", "ear:off", "ca:on", "ca:off", "adaptive:0", "adaptive:100", "noise:anc"] {
        if let Ok(CommandPlan::Change { settings, .. }) = daemon.plan_command(command) {
            assert!(settings.validate().is_ok(), "{command}");
        }
    }
    let mut keys = bytes("0400040031000201001000");
    keys.extend_from_slice(&[3; 16]);
    keys.extend_from_slice(&[4, 0, 16, 0]);
    keys.extend_from_slice(&[9; 16]);
    assert_eq!(daemon.on_packet(&keys), vec![Effect::SaveSettings]);
    assert_eq!(daemon.settings.magic_acc_irk, vec![3; 16]);
    assert_eq!(daemon.settings.magic_acc_enc_key, vec![9; 16]);
    assert!(daemon.settings.validate().is_ok());
    daemon.on_connected("11:22:33:44:55:66", "Other");
    assert!(daemon.settings.validate().is_ok());
}
