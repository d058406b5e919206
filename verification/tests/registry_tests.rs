use servo_core::codec::ReadOutcome;
use servo_core::servo::{reset_devices, LocalServo, ServoList};
use servo_core::ServoError;

fn sample_devices() -> Vec<LocalServo> {
    vec![
        LocalServo::new(
            "Servo V4".to_string(),
            "SERVOV4-1".to_string(),
            "/sys/bus/usb/devices/1-2".to_string(),
            vec![
                ("EC".to_string(), "ttyUSB0".to_string()),
                ("Servo EC Shell".to_string(), "ttyUSB1".to_string()),
            ],
            Some("00:1A:2B:3C:4D:5E".to_string()),
            Some("v2.4.0".to_string()),
        ),
        LocalServo::new(
            "Cr50".to_string(),
            "CR50-7".to_string(),
            "/sys/bus/usb/devices/1-3".to_string(),
            vec![],
            None,
            None,
        ),
    ]
}

fn assert_same_devices(a: &LocalServo, b: &LocalServo) {
    assert_eq!(a.product(), b.product());
    assert_eq!(a.serial(), b.serial());
    assert_eq!(a.usb_sysfs_path(), b.usb_sysfs_path());
    assert_eq!(a.tty_list(), b.tty_list());
    assert_eq!(a.mac_addr(), b.mac_addr());
    assert_eq!(a.ec_version(), b.ec_version());
}

#[test]
fn registry_round_trip_keeps_records_and_absent_fields() {
    let list = ServoList::new(sample_devices());
    let text = list.to_json();
    match ServoList::read(Some(&text)).unwrap() {
        ReadOutcome::Loaded(back) => {
            assert_eq!(back.devices().len(), 2);
            for (a, b) in list.devices().iter().zip(back.devices().iter()) {
                assert_same_devices(a, b);
            }
            assert_eq!(back.devices()[1].mac_addr(), &None);
        }
        ReadOutcome::Created(..) => panic!("a persisted registry must not be recreated"),
    }
}

#[test]
fn registry_round_trip_with_escaped_characters() {
    let odd = LocalServo::new(
        "Servo \"quoted\" \\ back".to_string(),
        "SER\nIAL".to_string(),
        "/sys/x".to_string(),
        vec![("E\"C".to_string(), "ttyUSB0".to_string())],
        None,
        None,
    );
    let list = ServoList::new(vec![odd]);
    let text = list.to_json();
    match ServoList::read(Some(&text)).unwrap() {
        ReadOutcome::Loaded(back) => {
            assert_same_devices(&list.devices()[0], &back.devices()[0]);
        }
        ReadOutcome::Created(..) => panic!("a persisted registry must not be recreated"),
    }
}

#[test]
fn registry_document_is_real_json_with_optional_fields_omitted() {
    let list = ServoList::new(sample_devices());
    let text = list.to_json();
    let value: serde_json::Value = serde_json::from_str(&text).unwrap();
    let devices = value.get("devices").unwrap().as_array().unwrap();
    assert_eq!(devices.len(), 2);
    assert_eq!(
        devices[0].get("product").unwrap().as_str().unwrap(),
        "Servo V4"
    );
    assert_eq!(
        devices[0].get("mac_addr").unwrap().as_str().unwrap(),
        "00:1A:2B:3C:4D:5E"
    );
    assert_eq!(
        devices[0]
            .get("tty_list")
            .unwrap()
            .get("EC")
            .unwrap()
            .as_str()
            .unwrap(),
        "ttyUSB0"
    );
    assert!(devices[1].get("mac_addr").is_none());
    assert!(devices[1].get("ec_version").is_none());
}

#[test]
fn bootstrap_creates_an_empty_registry_exactly_once() {
    // A read with no file creates and asks to persist an empty registry.
    let mut store: Option<String> = None;
    let first = match ServoList::read(store.as_deref()).unwrap() {
        ReadOutcome::Created(list, text) => {
            assert_eq!(list.devices().len(), 0);
            store = Some(text);
            list
        }
        ReadOutcome::Loaded(_) => panic!("there was no registry to load"),
    };
    let persisted = store.clone().unwrap();
    // A second read finds the created document and must not recreate it.
    match ServoList::read(store.as_deref()).unwrap() {
        ReadOutcome::Loaded(second) => {
            assert_eq!(second.devices().len(), first.devices().len());
        }
        ReadOutcome::Created(..) => panic!("the bootstrap must happen exactly once"),
    }
    assert_eq!(store.unwrap(), persisted);
}

#[test]
fn unparsable_registry_is_a_fatal_read_error() {
    assert!(matches!(
        ServoList::read(Some("not a registry")),
        Err(ServoError::InvalidRegistry)
    ));
    assert!(matches!(
        ServoList::read(Some("")),
        Err(ServoError::InvalidRegistry)
    ));
}

#[test]
fn update_replaces_the_registry_wholesale() {
    let (list, text) = ServoList::update(sample_devices());
    assert_eq!(list.devices().len(), 2);
    assert_eq!(text, list.to_json());
    let (emptied, _) = ServoList::update(Vec::new());
    assert_eq!(emptied.devices().len(), 0);
}

#[test]
fn find_by_serial_finds_or_reports_not_found() {
    let list = ServoList::new(sample_devices());
    let d = list.find_by_serial("CR50-7").unwrap();
    assert_eq!(d.product(), "Cr50");
    match list.find_by_serial("MISSING") {
        Err(ServoError::NotFound) => {}
        other => panic!("a missing serial must report NotFound, got {:?}", other.map(|d| d.serial().to_string())),
    }
    assert_eq!(
        ServoError::NotFound.message(),
        "servo not found with a given serial"
    );
}

#[test]
fn local_servo_from_serial_searches_a_discovered_set() {
    let devices = sample_devices();
    let d = LocalServo::from_serial(&devices, "SERVOV4-1").unwrap();
    assert_eq!(d.product(), "Servo V4");
    assert!(matches!(
        LocalServo::from_serial(&devices, "nope"),
        Err(ServoError::NotFound)
    ));
}

#[test]
fn reset_devices_respects_the_serial_filter() {
    let devices = sample_devices();
    // An empty filter resets every discovered device, in order.
    let all = reset_devices(&devices, &Vec::new());
    let serials: Vec<&str> = all.iter().map(|d| d.serial()).collect();
    assert_eq!(serials, vec!["SERVOV4-1", "CR50-7"]);
    // A filter resets exactly the named devices and leaves others untouched.
    let only = reset_devices(&devices, &vec!["CR50-7".to_string()]);
    let serials: Vec<&str> = only.iter().map(|d| d.serial()).collect();
    assert_eq!(serials, vec!["CR50-7"]);
    // Unknown serials in the filter are silently ignored.
    let none = reset_devices(&devices, &vec!["UNKNOWN".to_string()]);
    assert_eq!(none.len(), 0);
}
