use airpods_gnome_daemon::bluetooth::{
    candidate, command_target, discovery_call, discovery_recorded, discovery_wanted,
    has_aap_service, select_device, wanted_device, Backoff, BluezObject, DeviceProperties,
    AAP_UUID,
};

const PODS: &str = "/org/bluez/hci0/dev_AA_BB_CC_DD_EE_FF";
const OTHER: &str = "/org/bluez/hci0/dev_00_11_22_33_44_55";

fn pods(path: &str, address: &str) -> BluezObject {
    BluezObject {
        path: path.to_owned(),
        device: Some(DeviceProperties {
            connected: Some(true),
            uuids: Some(vec![Some(AAP_UUID.to_uppercase())]),
            address: Some(address.to_owned()),
            alias: None,
            name: None,
        }),
    }
}

#[test]
fn selection_keeps_current_airpods_and_falls_back_by_address() {
    let mut cache = vec![pods(PODS, "AA:BB:CC:DD:EE:FF"), pods(OTHER, "00:11:22:33:44:55")];
    assert_eq!(select_device(&cache, None).unwrap().path, OTHER);
    let current = candidate(&cache[0]).unwrap();
    cache[0].device.as_mut().unwrap().alias = Some("Updated name".to_owned());
    let selected = select_device(&cache, Some(&current)).unwrap();
    assert_eq!(selected.path, PODS);
    assert_eq!(selected.name, "Updated name");
    cache[0].device.as_mut().unwrap().connected = Some(false);
    assert_eq!(select_device(&cache, Some(&current)).unwrap().path, OTHER);
    cache.remove(1);
    assert!(select_device(&cache, Some(&current)).is_none());
}

#[test]
fn candidates_need_the_service_a_connection_and_an_address() {
    let mut object = pods(PODS, "AA:BB:CC:DD:EE:FF");
    let device = candidate(&object).unwrap();
    assert_eq!(device.name, "AirPods");
    assert_eq!(device.address, "AA:BB:CC:DD:EE:FF");
    object.device.as_mut().unwrap().name = Some("Pods".to_owned());
    assert_eq!(candidate(&object).unwrap().name, "Pods");
    object.device.as_mut().unwrap().alias = Some("Alias".to_owned());
    assert_eq!(candidate(&object).unwrap().name, "Alias");
    object.device.as_mut().unwrap().connected = None;
    assert!(candidate(&object).is_none());
    let mut no_address = pods(PODS, "x");
    no_address.device.as_mut().unwrap().address = None;
    assert!(candidate(&no_address).is_none());
    let adapter = BluezObject { path: "/org/bluez/hci0".to_owned(), device: None };
    assert!(candidate(&adapter).is_none());
}

#[test]
fn service_lists_must_hold_only_strings() {
    let mut props = DeviceProperties {
        connected: Some(true),
        uuids: Some(vec![Some("0000110b-0000-1000-8000-00805f9b34fb".to_owned()), Some(AAP_UUID.to_owned())]),
        address: None,
        alias: None,
        name: None,
    };
    assert!(has_aap_service(&props));
    props.uuids.as_mut().unwrap().push(None);
    assert!(!has_aap_service(&props));
    props.uuids = Some(vec![Some("0000110b-0000-1000-8000-00805f9b34fb".to_owned())]);
    assert!(!has_aap_service(&props));
    props.uuids = None;
    assert!(!has_aap_service(&props));
}

#[test]
fn smallest_address_wins_in_byte_order() {
    let cache = vec![
        pods("/b", "BB:00:00:00:00:00"),
        pods("/a", "AA:00:00:00:00:00"),
        pods("/a2", "AA:00:00:00:00:00"),
        pods("/c", "aa:00:00:00:00:00"),
    ];
    assert_eq!(select_device(&cache, None).unwrap().path, "/a");
    assert!(wanted_device(true, &cache, None).is_none());
    assert_eq!(wanted_device(false, &cache, None).unwrap().path, "/a");
}

#[test]
fn device_requests_address_the_remembered_airpods() {
    let mut cache = vec![pods(OTHER, "00:11:22:33:44:55"), pods(PODS, "AA:BB:CC:DD:EE:FF")];
    cache[0].device.as_mut().unwrap().connected = Some(false);
    assert_eq!(command_target(&cache, Some("aa:bb:cc:dd:ee:ff")).as_deref(), Some(PODS));
    assert_eq!(command_target(&cache, None).as_deref(), Some(OTHER));
    assert_eq!(command_target(&cache, Some("")).as_deref(), Some(OTHER));
    assert_eq!(command_target(&cache, Some("11:11:11:11:11:11")), None);
}

#[test]
fn reconnection_backs_off_up_to_sixteen_seconds() {
    let mut backoff = Backoff::new();
    assert_eq!(backoff.delay_secs(), 1);
    assert!(backoff.failed());
    assert_eq!(backoff.delay_secs(), 2);
    assert!(!backoff.failed());
    assert_eq!(backoff.delay_secs(), 4);
    backoff.failed();
    assert_eq!(backoff.delay_secs(), 8);
    backoff.failed();
    assert_eq!(backoff.delay_secs(), 16);
    backoff.failed();
    assert_eq!(backoff.delay_secs(), 16);
    backoff.failures = u32::MAX;
    backoff.failed();
    assert_eq!(backoff.failures, u32::MAX);
    backoff.reset();
    assert_eq!(backoff.delay_secs(), 1);
}

#[test]
fn discovery_follows_power_sleep_and_what_was_recorded() {
    assert!(discovery_wanted(true, false, Some(true)));
    assert!(!discovery_wanted(true, true, Some(true)));
    assert!(!discovery_wanted(true, false, None));
    assert!(!discovery_wanted(false, false, Some(true)));
    assert_eq!(discovery_call(true, Some(true)), None);
    assert_eq!(discovery_call(true, Some(false)), Some(true));
    assert_eq!(discovery_call(false, None), Some(false));
    assert!(discovery_recorded(true, true));
    assert!(!discovery_recorded(true, false));
    assert!(discovery_recorded(false, false));
}
