use airpods_gnome_daemon::media::{normalize_address, EarAction, EarPolicy, BOTH_OUT_SETTLE_MS};
use airpods_gnome_daemon::playback::{
    ear_steps, ConversationStep, PlaybackControl, ProfileFacts, ProfileStep, Sink,
    CAPTURE_RECHECK_MS, MAX_PROFILE_ATTEMPTS, MAX_VOLUME_RETRIES, PROFILE_RETRY_MS,
    VOLUME_RETRY_MS,
};

#[test]
fn both_out_debounce_cancels_transients_and_keeps_first_deadline() {
    let start: u64 = 0;
    let mut ears = EarPolicy::default();
    assert_eq!(ears.update(true, true, start), Some(EarAction::Resume));
    assert_eq!(ears.update(false, false, start), None);
    assert_eq!(ears.update(false, false, start + 1100), None);
    assert_eq!(ears.settle(start + BOTH_OUT_SETTLE_MS), Some(EarAction::Release));
    assert_eq!(ears.settle(start + BOTH_OUT_SETTLE_MS), None);
    ears.update(true, true, start);
    ears.update(false, false, start);
    ears.update(true, true, start + 900);
    assert_eq!(ears.settle(start + BOTH_OUT_SETTLE_MS), None);
}

#[test]
fn ear_modes_match_legacy_values_and_disable_pending_work() {
    let now: u64 = 0;
    let mut ears = EarPolicy::default();
    assert_eq!(ears.update(true, false, now), Some(EarAction::Pause));
    ears.set_behavior(1);
    assert_eq!(ears.update(true, false, now), Some(EarAction::Resume));
    ears.update(false, false, now);
    ears.set_behavior(2);
    assert_eq!(ears.settle(now + BOTH_OUT_SETTLE_MS), None);
    assert_eq!(ears.update(true, false, now), None);
}

#[test]
fn repeated_ear_report_does_nothing() {
    let mut ears = EarPolicy::default();
    assert_eq!(ears.update(true, false, 5), Some(EarAction::Pause));
    assert_eq!(ears.update(true, false, 6), None);
}

#[test]
fn off_never_acts_and_out_of_range_behavior_means_off() {
    let mut ears = EarPolicy::default();
    ears.set_behavior(7);
    assert_eq!(ears.behavior, 2);
    assert_eq!(ears.update(false, false, 0), None);
    assert_eq!(ears.both_out, None);
    assert_eq!(ears.settle(u64::MAX), None);
}

#[test]
fn release_is_given_once_at_the_first_deadline() {
    let mut ears = EarPolicy::default();
    ears.update(false, false, 100);
    assert_eq!(ears.both_out, Some(100 + BOTH_OUT_SETTLE_MS));
    assert_eq!(ears.settle(100 + BOTH_OUT_SETTLE_MS - 1), None);
    assert_eq!(ears.settle(100 + BOTH_OUT_SETTLE_MS), Some(EarAction::Release));
    assert_eq!(ears.settle(100 + BOTH_OUT_SETTLE_MS + 1), None);
}

#[test]
fn addresses_are_normalized() {
    assert_eq!(normalize_address("aa:bb-cc_dd:ee:ff"), "AABBCCDDEEFF");
    assert_eq!(normalize_address("AABBCCDDEEFF"), "AABBCCDDEEFF");
    assert_eq!(normalize_address(""), "");
    assert_eq!(normalize_address("0a:Zz"), "0AZZ");
}

#[test]
fn new_device_forgets_pending_work_and_schedules_a_profile_check() {
    let mut c = PlaybackControl::new();
    assert!(c.set_device(Some("aa:bb:cc:dd:ee:ff"), 1000));
    assert_eq!(c.device.as_deref(), Some("AABBCCDDEEFF"));
    assert_eq!(c.profile_due, Some(1000 + PROFILE_RETRY_MS));
    assert!(!c.set_device(Some("AA-BB-CC-DD-EE-FF"), 2000));
    assert_eq!(c.profile_due, Some(1000 + PROFILE_RETRY_MS));
    c.record_paused("player:1".to_owned());
    c.pending_resume = true;
    assert!(c.set_device(None, 3000));
    assert!(c.paused.is_empty());
    assert!(!c.pending_resume);
    assert_eq!(c.profile_due, None);
    assert_eq!(c.profile_attempts, 0);
}

#[test]
fn ears_without_a_device_do_nothing() {
    let mut c = PlaybackControl::new();
    assert_eq!(c.update_ears(true, false, 0), None);
    assert_eq!(c.ears.ears, None);
    c.set_device(Some("AABBCCDDEEFF"), 0);
    assert_eq!(c.update_ears(true, false, 0), Some(EarAction::Pause));
}

#[test]
fn paused_players_are_a_set() {
    let mut c = PlaybackControl::new();
    c.record_paused(":1.5".to_owned());
    c.record_paused(":1.5".to_owned());
    c.record_paused(":1.7".to_owned());
    assert_eq!(c.paused_players(), vec![":1.5".to_owned(), ":1.7".to_owned()]);
    c.forget_paused(":1.5");
    assert_eq!(c.paused_players(), vec![":1.7".to_owned()]);
    c.forget_paused(":1.9");
    assert_eq!(c.paused.len(), 1);
}

#[test]
fn disabling_ear_detection_forgets_paused_players() {
    let mut c = PlaybackControl::new();
    c.set_device(Some("AABBCCDDEEFF"), 0);
    c.record_paused(":1.5".to_owned());
    c.pending_resume = true;
    c.set_ear_detection(1);
    assert!(!c.pending_resume);
    assert_eq!(c.paused.len(), 1);
    c.set_ear_detection(2);
    assert!(c.paused.is_empty());
    assert_eq!(c.ears.behavior, 2);
}

#[test]
fn resume_is_pending_only_when_something_was_paused() {
    let mut c = PlaybackControl::new();
    c.set_device(Some("AABBCCDDEEFF"), 0);
    assert!(c.begin_ear_action(EarAction::Resume, 50));
    assert!(!c.pending_resume);
    assert_eq!(c.profile_due, Some(50));
    c.record_paused(":1.5".to_owned());
    assert!(c.begin_ear_action(EarAction::Resume, 60));
    assert!(c.pending_resume);
    assert!(c.begin_ear_action(EarAction::Release, 70));
    assert!(!c.pending_resume);
    assert_eq!(c.profile_due, None);
    let mut idle = PlaybackControl::new();
    assert!(!idle.begin_ear_action(EarAction::Pause, 0));
}

#[test]
fn ear_work_follows_the_audio_graph() {
    let steps = ear_steps(EarAction::Pause, true, false, None);
    assert!(steps.pause && !steps.release && steps.set_profile.is_none());
    let steps = ear_steps(EarAction::Resume, true, false, None);
    assert!(!steps.pause);
    let steps = ear_steps(EarAction::Release, false, false, Some((1, 0, false)));
    assert!(!steps.pause && steps.release);
    assert_eq!(steps.set_profile, Some((1, 0)));
    let steps = ear_steps(EarAction::Release, true, false, Some((1, 0, true)));
    assert!(steps.pause && steps.release && steps.set_profile.is_none());
    let steps = ear_steps(EarAction::Release, true, true, Some((1, 0, false)));
    assert!(steps.pause && !steps.release && steps.set_profile.is_none());
}

#[test]
fn speech_lowers_once_and_cancels_a_queued_restore() {
    let mut c = PlaybackControl::new();
    assert_eq!(c.conversation_step(1), ConversationStep::Nothing);
    c.set_device(Some("AABBCCDDEEFF"), 0);
    c.duck_restore_due = Some(10);
    assert_eq!(c.conversation_step(1), ConversationStep::Duck);
    assert_eq!(c.duck_restore_due, None);
    c.ducked(Sink { id: 2, serial: 22, name: "pods".to_owned() });
    assert_eq!(c.conversation_step(1), ConversationStep::Nothing);
    assert_eq!(c.conversation_step(9), ConversationStep::Nothing);
    assert_eq!(c.conversation_step(0), ConversationStep::Restore);
    assert_eq!(c.conversation_step(8), ConversationStep::Restore);
}

#[test]
fn volume_restoration_retries_are_bounded() {
    let mut c = PlaybackControl::new();
    c.ducked(Sink { id: 2, serial: 22, name: "pods".to_owned() });
    c.begin_restore();
    for round in 0..MAX_VOLUME_RETRIES {
        let sink = c.begin_restore_attempt();
        assert_eq!(sink.map(|s| s.serial), Some(22));
        c.restore_finished(false, 100);
        assert_eq!(c.duck_restore_due, Some(100 + VOLUME_RETRY_MS), "round {round}");
        assert!(c.restore_due(100 + VOLUME_RETRY_MS));
        assert!(!c.restore_due(100));
    }
    c.begin_restore_attempt();
    c.restore_finished(false, 100);
    assert_eq!(c.duck_restore_due, None);
    assert_eq!(c.next_deadline(), None);
    assert!(c.duck.is_some());
    c.begin_restore();
    c.begin_restore_attempt();
    c.restore_finished(true, 100);
    assert!(c.duck.is_none());
    assert_eq!(c.begin_restore_attempt(), None);
}

#[test]
fn profile_checks_follow_the_audio_graph() {
    let mut c = PlaybackControl::new();
    c.set_device(Some("AABBCCDDEEFF"), 0);
    let call = ProfileFacts { capturing: true, playback: Some((1, 12, false)), has_default_sink: true };
    assert_eq!(c.profile_step(call, 100), ProfileStep::Deferred);
    assert_eq!(c.profile_due, Some(100 + CAPTURE_RECHECK_MS));
    let missing = ProfileFacts { capturing: false, playback: None, has_default_sink: false };
    assert_eq!(c.profile_step(missing, 200), ProfileStep::Unavailable);
    let inactive = ProfileFacts { capturing: false, playback: Some((1, 12, false)), has_default_sink: false };
    c.profile_due = None;
    assert_eq!(c.profile_step(inactive, 300), ProfileStep::SetProfile { device: 1, index: 12 });
    assert_eq!(c.profile_due, None);
    c.pending_resume = true;
    assert_eq!(c.profile_step(inactive, 300), ProfileStep::SetProfile { device: 1, index: 12 });
    assert_eq!(c.profile_due, Some(300 + PROFILE_RETRY_MS));
    let ready = ProfileFacts { capturing: false, playback: Some((1, 12, true)), has_default_sink: true };
    assert_eq!(c.profile_step(ready, 400), ProfileStep::Resume);
    c.resume_finished(400);
    assert!(!c.pending_resume);
    let no_sink = ProfileFacts { capturing: false, playback: Some((1, 12, true)), has_default_sink: false };
    assert_eq!(c.profile_step(no_sink, 500), ProfileStep::Done);
}

#[test]
fn failed_profile_checks_stop_after_the_limit() {
    let mut c = PlaybackControl::new();
    c.set_device(Some("AABBCCDDEEFF"), 0);
    for attempt in 1..MAX_PROFILE_ATTEMPTS {
        c.profile_finished(false, 10);
        assert_eq!(c.profile_attempts, attempt);
        assert_eq!(c.profile_due, Some(10 + PROFILE_RETRY_MS));
        assert!(c.take_profile_check(10 + PROFILE_RETRY_MS));
        assert_eq!(c.profile_due, None);
    }
    c.profile_finished(false, 10);
    assert_eq!(c.profile_attempts, MAX_PROFILE_ATTEMPTS);
    assert_eq!(c.profile_due, None);
    assert!(!c.take_profile_check(u64::MAX));
}

#[test]
fn next_deadline_is_the_earliest_pending_time() {
    let mut c = PlaybackControl::new();
    assert_eq!(c.next_deadline(), None);
    c.profile_due = Some(500);
    c.duck_restore_due = Some(300);
    assert_eq!(c.next_deadline(), Some(300));
    c.ears.both_out = Some(200);
    assert_eq!(c.next_deadline(), Some(200));
    c.shutdown();
    assert_eq!(c.next_deadline(), Some(300));
    assert!(c.paused.is_empty());
}
