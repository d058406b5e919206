use servo_core::discovery::{discover_from, enrich, extract_ec_version, extract_mac, UsbDeviceEntry, UsbInterface};
use servo_core::servo::LocalServo;

fn iface(name: Option<&str>, entries: &[&str]) -> UsbInterface {
    UsbInterface {
        name: name.map(|s| s.to_string()),
        entries: entries.iter().map(|s| s.to_string()).collect(),
    }
}

fn entry(
    path: &str,
    product: Option<&str>,
    serial: Option<&str>,
    interfaces: Option<Vec<UsbInterface>>,
) -> UsbDeviceEntry {
    UsbDeviceEntry {
        sysfs_path: path.to_string(),
        product: product.map(|s| s.to_string()),
        serial: serial.map(|s| s.to_string()),
        interfaces,
    }
}

#[test]
fn discovery_filters_by_product_prefix() {
    let entries = vec![
        entry("/sys/a", Some("Servo V4p1"), Some("S1"), Some(vec![])),
        entry("/sys/b", Some("Mouse"), Some("S2"), Some(vec![])),
        entry("/sys/c", Some("Cr50"), Some("S3"), Some(vec![])),
        entry("/sys/d", Some("Ti50"), Some("S4"), Some(vec![])),
        entry("/sys/e", Some("servo lowercase"), Some("S5"), Some(vec![])),
    ];
    let found = discover_from(&entries);
    let products: Vec<&str> = found.iter().map(|d| d.product()).collect();
    assert_eq!(products, vec!["Servo V4p1", "Cr50", "Ti50"]);
    for d in &found {
        assert!(
            d.product().starts_with("Servo")
                || d.product().starts_with("Cr50")
                || d.product().starts_with("Ti50")
        );
    }
}

#[test]
fn discovery_excludes_unreadable_devices() {
    let entries = vec![
        entry("/sys/a", None, Some("S1"), Some(vec![])),
        entry("/sys/b", Some("Servo"), None, Some(vec![])),
        entry("/sys/c", Some("Servo"), Some("S3"), None),
        entry("/sys/d", Some("Servo"), Some("S4"), Some(vec![])),
    ];
    let found = discover_from(&entries);
    assert_eq!(found.len(), 1);
    assert_eq!(found[0].serial(), "S4");
    assert_eq!(found[0].usb_sysfs_path(), "/sys/d");
}

#[test]
fn tty_list_holds_only_found_ttys() {
    let entries = vec![entry(
        "/sys/a",
        Some("Servo V4"),
        Some("S1"),
        Some(vec![
            iface(Some("EC"), &["power", "ttyUSB0"]),
            iface(Some("AP"), &["nothing", "here"]),
            iface(None, &["ttyUSB9"]),
            iface(Some("Servo EC Shell"), &["ttyUSB1", "ttyUSB2"]),
        ]),
    )];
    let found = discover_from(&entries);
    assert_eq!(found.len(), 1);
    let ttys = found[0].tty_list();
    assert_eq!(
        ttys,
        &vec![
            ("EC".to_string(), "ttyUSB0".to_string()),
            ("Servo EC Shell".to_string(), "ttyUSB1".to_string()),
        ]
    );
    for (_, tty) in ttys.iter() {
        assert!(tty.starts_with("ttyUSB"));
    }
}

#[test]
fn tty_list_last_write_wins_on_duplicate_names() {
    let entries = vec![entry(
        "/sys/a",
        Some("Servo V4"),
        Some("S1"),
        Some(vec![
            iface(Some("EC"), &["ttyUSB0"]),
            iface(Some("AP"), &["ttyUSB1"]),
            iface(Some("EC"), &["ttyUSB5"]),
        ]),
    )];
    let found = discover_from(&entries);
    let ttys = found[0].tty_list();
    assert_eq!(
        ttys,
        &vec![
            ("EC".to_string(), "ttyUSB5".to_string()),
            ("AP".to_string(), "ttyUSB1".to_string()),
        ]
    );
}

#[test]
fn tty_path_and_is_cr50() {
    let d = LocalServo::new(
        "Cr50".to_string(),
        "S1".to_string(),
        "/sys/a".to_string(),
        vec![("EC".to_string(), "ttyUSB3".to_string())],
        None,
        None,
    );
    assert_eq!(d.tty_path("EC").unwrap(), "/dev/ttyUSB3");
    assert_eq!(
        d.tty_path("AP"),
        Err(servo_core::ServoError::TtyNotFound)
    );
    assert!(d.is_cr50());
    let s = LocalServo::new(
        "Servo V4".to_string(),
        "S2".to_string(),
        "/sys/b".to_string(),
        vec![],
        None,
        None,
    );
    assert!(!s.is_cr50());
    assert_eq!(s.authorized_path(), "/sys/b/authorized");
}

#[test]
fn extract_mac_takes_first_shaped_token() {
    let resp = "junk AB:CD -> 00:1A:2B:3C:4D:5E and FF:EE:DD:CC:BB:AA later";
    assert_eq!(extract_mac(resp), Some("00:1A:2B:3C:4D:5E".to_string()));
    assert_eq!(extract_mac("no token here"), None);
    assert_eq!(extract_mac("lowercase aa:bb:cc:dd:ee:ff"), None);
    assert_eq!(extract_mac(""), None);
}

#[test]
fn extract_ec_version_reads_marker_line() {
    let resp = "boot ok\nRO:   cr50_v1.9.4\nRW: other\n";
    assert_eq!(extract_ec_version(resp), Some("cr50_v1.9.4".to_string()));
    assert_eq!(extract_ec_version("nothing relevant"), None);
    assert_eq!(extract_ec_version("RO:\n"), None);
    assert_eq!(extract_ec_version("RO:   \n"), None);
    assert_eq!(extract_ec_version("mid RO: not at start\n"), None);
}

#[test]
fn enrichment_needs_the_channel_and_a_response() {
    let with_channels = LocalServo::new(
        "Servo V4".to_string(),
        "S1".to_string(),
        "/sys/a".to_string(),
        vec![
            ("Servo EC Shell".to_string(), "ttyUSB0".to_string()),
            ("EC".to_string(), "ttyUSB1".to_string()),
        ],
        None,
        None,
    );
    let enriched = enrich(
        &with_channels,
        Some("mac 00:1A:2B:3C:4D:5E\n"),
        Some("RO: v2.4\n"),
    );
    assert_eq!(enriched.mac_addr(), &Some("00:1A:2B:3C:4D:5E".to_string()));
    assert_eq!(enriched.ec_version(), &Some("v2.4".to_string()));
    assert_eq!(enriched.serial(), "S1");

    // A failed query degrades to absence.
    let failed = enrich(&with_channels, None, None);
    assert_eq!(failed.mac_addr(), &None);
    assert_eq!(failed.ec_version(), &None);

    // Without the channels, responses are not even consulted.
    let bare = LocalServo::new(
        "Servo V4".to_string(),
        "S2".to_string(),
        "/sys/b".to_string(),
        vec![],
        None,
        None,
    );
    let still_bare = enrich(&bare, Some("00:1A:2B:3C:4D:5E"), Some("RO: v9"));
    assert_eq!(still_bare.mac_addr(), &None);
    assert_eq!(still_bare.ec_version(), &None);
}

#[test]
fn enrich_devices_is_per_device() {
    let a = LocalServo::new(
        "Servo V4".to_string(),
        "A".to_string(),
        "/sys/a".to_string(),
        vec![("Servo EC Shell".to_string(), "ttyUSB0".to_string())],
        None,
        None,
    );
    let b = LocalServo::new(
        "Cr50".to_string(),
        "B".to_string(),
        "/sys/b".to_string(),
        vec![("EC".to_string(), "ttyUSB1".to_string())],
        None,
        None,
    );
    let devices = vec![a, b];
    let responses = vec![
        (Some("00:1A:2B:3C:4D:5E".to_string()), None),
        (None, Some("garbage".to_string())),
    ];
    let enriched = servo_core::discovery::enrich_devices(&devices, &responses);
    assert_eq!(enriched.len(), 2);
    assert_eq!(enriched[0].mac_addr(), &Some("00:1A:2B:3C:4D:5E".to_string()));
    assert_eq!(enriched[0].ec_version(), &None);
    assert_eq!(enriched[1].mac_addr(), &None);
    assert_eq!(enriched[1].ec_version(), &None);
}
