//! Devices, volume and battery.

use sennheiser_core::battery_ble::{
    find_battery_characteristic, peripheral_name, read_battery_percentage, take_peripheral,
    BatteryError, PeripheralSearch, BATTERY_LEVEL_CHARACTERISTIC_UUID,
};
use sennheiser_core::bluez::{
    as_bool, as_object_path, as_string, device_address, device_display_name, find_connected_device,
    find_target, get_battery, get_volume, list_all_connected_devices, list_candidates,
    open_gaia_connection, set_volume, BluezError, Interface, ManagedObject, Property,
    PropertyValue, DEVICE_IFACE, MAX_VOLUME, TRANSPORT_IFACE,
};

fn property(name: &str, value: PropertyValue) -> Property {
    Property { name: name.to_string(), value }
}

fn text(s: &str) -> PropertyValue {
    PropertyValue::Text(s.to_string())
}

fn device(path: &str, address: &str, alias: &str, connected: bool) -> ManagedObject {
    ManagedObject {
        path: path.to_string(),
        interfaces: vec![
            Interface { name: "org.freedesktop.DBus.Properties".to_string(), properties: vec![] },
            Interface {
                name: DEVICE_IFACE.to_string(),
                properties: vec![
                    property("Address", text(address)),
                    property("Alias", text(alias)),
                    property("Connected", PropertyValue::Flag(connected)),
                ],
            },
        ],
    }
}

fn transport(path: &str, device: &str) -> ManagedObject {
    ManagedObject {
        path: path.to_string(),
        interfaces: vec![Interface {
            name: TRANSPORT_IFACE.to_string(),
            properties: vec![property("Device", PropertyValue::Path(device.to_string()))],
        }],
    }
}

fn objects() -> Vec<ManagedObject> {
    vec![
        transport("/dev_1/fd0", "/dev_1"),
        transport("/dev_2/fd1", "/dev_2"),
        transport("/dev_3/fd2", "/dev_3"),
        transport("/dev_9/fd3", "/dev_9"),
        device("/dev_1", "00:1B:66:AA:00:01", "Speaker", false),
        device("/dev_2", "00:1B:66:AA:00:02", "HDB 630", true),
        device("/dev_3", "80:C3:BA:00:00:03", "Momentum", true),
        device("/dev_4", "80:C3:BA:00:00:04", "Mouse", true),
        ManagedObject { path: "/".to_string(), interfaces: vec![] },
    ]
}

#[test]
fn property_values() {
    assert_eq!(as_string(&text("a")).as_deref(), Some("a"));
    assert_eq!(as_string(&PropertyValue::Path("a".to_string())), None);
    assert_eq!(as_bool(&PropertyValue::Flag(true)), Some(true));
    assert_eq!(as_bool(&PropertyValue::Byte(1)), None);
    assert_eq!(as_object_path(&PropertyValue::Path("/x".to_string())).as_deref(), Some("/x"));
    assert_eq!(as_object_path(&text("/x")), None);
}

#[test]
fn display_names() {
    let alias = property("Alias", text("My Phones"));
    let name = property("Name", text("HDB 630"));
    assert_eq!(device_display_name("/d", &vec![name.clone(), alias]), "My Phones");
    assert_eq!(device_display_name("/d", &vec![property("Alias", PropertyValue::Other), name]), "HDB 630");
    assert_eq!(device_display_name("/d", &vec![]), "/d");
}

#[test]
fn candidates_are_transports_of_connected_devices() {
    let found: Vec<_> =
        list_candidates(&objects()).into_iter().map(|c| (c.transport_path, c.display_name)).collect();
    assert_eq!(
        found,
        vec![
            ("/dev_2/fd1".to_string(), "HDB 630".to_string()),
            ("/dev_3/fd2".to_string(), "Momentum".to_string()),
        ]
    );
    let mut reversed = objects();
    reversed.reverse();
    assert_eq!(list_candidates(&reversed).len(), 2);
    assert!(list_candidates(&vec![]).is_empty());
}

#[test]
fn a_target_is_found_by_name_or_path() {
    assert_eq!(find_target(&objects(), None).unwrap().display_name, "HDB 630");
    assert_eq!(find_target(&objects(), Some("MOMEN")).unwrap().display_name, "Momentum");
    assert_eq!(find_target(&objects(), Some("DEV_3")).unwrap().transport_path, "/dev_3/fd2");
    assert_eq!(find_target(&objects(), Some("")).unwrap().display_name, "HDB 630");
    assert_eq!(
        find_target(&objects(), Some("Speaker")).unwrap_err().message(),
        "No connected Bluetooth device with an active AVRCP audio transport was found matching 'Speaker'. Make sure the headset is connected and actively streaming audio (or has recently been used for playback), then try again."
    );
    assert_eq!(
        find_target(&vec![], None).unwrap_err().message(),
        "No connected Bluetooth device with an active AVRCP audio transport was found. Make sure the headset is connected and actively streaming audio (or has recently been used for playback), then try again."
    );
}

#[test]
fn a_target_is_found_by_address() {
    let path = "/org/bluez/hci0/dev_80_C3_BA_11_22_33";
    let headset = vec![
        transport(&format!("{path}/fd0"), path),
        device(path, "80:C3:BA:11:22:33", "HDB 630", true),
    ];
    for filter in ["80:c3:ba", "80:C3:BA", "ba:11:22", "80:C3:BA:11:22:33", "80_c3_ba", "hdb"] {
        assert_eq!(find_target(&headset, Some(filter)).unwrap().display_name, "HDB 630", "{filter}");
    }
    assert!(matches!(find_target(&headset, Some("80:c3:bb")), Err(BluezError::NoTransport(Some(_)))));
    assert_eq!(find_target(&objects(), Some("80:c3:ba")).unwrap().display_name, "Momentum");
    assert_eq!(find_target(&objects(), Some("00:1b:66")).unwrap().transport_path, "/dev_2/fd1");
    for c in list_candidates(&objects()) {
        assert_eq!(find_target(&objects(), Some(&c.transport_path)).unwrap().display_name, c.display_name);
    }
}

#[test]
fn connected_devices_need_no_transport() {
    let found: Vec<_> =
        list_all_connected_devices(&objects()).into_iter().map(|d| (d.path, d.address, d.name)).collect();
    assert_eq!(
        found,
        vec![
            ("/dev_2".to_string(), "00:1B:66:AA:00:02".to_string(), "HDB 630".to_string()),
            ("/dev_3".to_string(), "80:C3:BA:00:00:03".to_string(), "Momentum".to_string()),
            ("/dev_4".to_string(), "80:C3:BA:00:00:04".to_string(), "Mouse".to_string()),
        ]
    );
    let unnamed = ManagedObject {
        path: "/dev_5".to_string(),
        interfaces: vec![Interface {
            name: DEVICE_IFACE.to_string(),
            properties: vec![property("Connected", PropertyValue::Flag(true))],
        }],
    };
    let d = list_all_connected_devices(&vec![unnamed]).remove(0);
    assert_eq!((d.name.as_str(), d.address.as_str()), ("/dev_5", ""));
}

#[test]
fn a_connected_device_is_found_by_name_or_address() {
    assert_eq!(find_connected_device(&objects(), None).unwrap().name, "HDB 630");
    assert_eq!(find_connected_device(&objects(), Some("80:c3")).unwrap().name, "Momentum");
    assert_eq!(find_connected_device(&objects(), Some("mouse")).unwrap().path, "/dev_4");
    for d in list_all_connected_devices(&objects()) {
        assert_eq!(find_connected_device(&objects(), Some(&d.address)).unwrap().path, d.path);
        assert_eq!(find_connected_device(&objects(), Some(&d.name)).unwrap().path, d.path);
    }
    let e = find_connected_device(&objects(), Some("Speaker")).unwrap_err();
    assert!(matches!(e, BluezError::NoDevice(Some(_))));
    assert_eq!(e.message(), "No connected Bluetooth device was found matching 'Speaker'");
    assert_eq!(
        find_connected_device(&vec![], None).unwrap_err().message(),
        "No connected Bluetooth device was found"
    );
}

#[test]
fn addresses() {
    assert_eq!(device_address("00:1B:66:aa:0f:FF").unwrap(), [0, 0x1b, 0x66, 0xaa, 0x0f, 0xff]);
    assert_eq!(device_address("1:2:3:4:5:+6").unwrap(), [1, 2, 3, 4, 5, 6]);
    for (address, part) in [
        ("", ""),
        ("00:1B:66:AA:00", "00:1B:66:AA:00"),
        ("00:1B:66:AA:00:01:02", "00:1B:66:AA:00:01:02"),
        ("00:1B:XX:AA:YY:01", "XX"),
        ("00:100:66:AA:00:01", "100"),
        ("00::66:AA:00:01", ""),
    ] {
        assert_eq!(
            device_address(address).unwrap_err().message(),
            format!("device address '{address}' was not a valid Bluetooth address: invalid Bluetooth address: {part}")
        );
    }
}

#[test]
fn addresses_of_the_system_are_read_back() {
    for bytes in [[0u8; 6], [255; 6], [0x80, 0xc3, 0xba, 0x00, 0x1f, 0xa9]] {
        let shown = peripheral_name(None, bytes);
        assert_eq!(device_address(&shown).unwrap(), bytes);
    }
}

#[test]
fn the_device_to_connect_to() {
    let (name, address) = open_gaia_connection(&objects(), Some("hdb")).unwrap();
    assert_eq!((name.as_str(), address), ("HDB 630", [0x00, 0x1b, 0x66, 0xaa, 0x00, 0x02]));
    assert!(matches!(open_gaia_connection(&objects(), Some("none")), Err(BluezError::NoDevice(_))));
    let broken = vec![device("/d", "no address", "Odd", true)];
    let e = open_gaia_connection(&broken, None).unwrap_err();
    assert!(matches!(&e, BluezError::BadAddress { address, part } if address == "no address" && part == "no address"));
}

#[test]
fn reported_values() {
    assert_eq!(get_battery(&PropertyValue::Byte(80)).unwrap(), 80);
    assert_eq!(get_battery(&PropertyValue::Word(80)).unwrap_err().message(), "Percentage property was not a u8");
    assert_eq!(get_volume(&PropertyValue::Word(64)).unwrap(), 64);
    assert_eq!(get_volume(&PropertyValue::Byte(64)).unwrap_err().message(), "Volume property was not a u16");
    assert_eq!(set_volume(64), 64);
    assert_eq!(set_volume(MAX_VOLUME), 127);
    assert_eq!(set_volume(u16::MAX), 127);
}

#[test]
fn peripherals() {
    let address = [0x00, 0x1b, 0x66, 0xaa, 0x0f, 0x02];
    assert_eq!(peripheral_name(Some("LE_HDB".to_string()), address), "LE_HDB");
    assert_eq!(peripheral_name(None, address), "00:1B:66:AA:0F:02");
    assert_eq!(take_peripheral(Some("LE_HDB".to_string()), address, Some("hdb")).as_deref(), Some("LE_HDB"));
    assert_eq!(take_peripheral(None, address, Some("66:aa")).as_deref(), Some("00:1B:66:AA:0F:02"));
    assert_eq!(take_peripheral(Some("LE_HDB".to_string()), address, Some("66:aa")).as_deref(), Some("LE_HDB"));
    assert_eq!(take_peripheral(Some("LE_HDB".to_string()), address, Some("67:aa")), None);
    assert_eq!(take_peripheral(None, address, None).as_deref(), Some("00:1B:66:AA:0F:02"));
}

#[test]
fn the_first_peripheral_that_passes_is_read() {
    let known = [
        (Some("Mouse"), [0x00, 0x1b, 0x66, 0xaa, 0x0f, 0x01]),
        (Some("LE_HDB 630"), [0x80, 0xc3, 0xba, 0x11, 0x22, 0x33]),
        (None, [0x80, 0xc3, 0xba, 0x44, 0x55, 0x66]),
        (Some("LE_HDB old"), [0x00, 0x1b, 0x66, 0xaa, 0x0f, 0x02]),
    ];
    let search = |filter: Option<&str>| {
        let mut search = PeripheralSearch::new(filter);
        let mut visited = 0;
        for (i, (name, address)) in known.iter().enumerate() {
            visited += 1;
            if search.visit(i, name.map(str::to_string), *address) {
                break;
            }
        }
        (visited, search.result().map_err(|e| e.message()))
    };
    assert_eq!(search(None), (1, Ok((0, "Mouse".to_string()))));
    assert_eq!(search(Some("hdb")), (2, Ok((1, "LE_HDB 630".to_string()))));
    assert_eq!(search(Some("80:c3:ba")), (2, Ok((1, "LE_HDB 630".to_string()))));
    assert_eq!(search(Some("44:55")), (3, Ok((2, "80:C3:BA:44:55:66".to_string()))));
    assert_eq!(search(Some("tv")), (4, Err("no known BLE device found matching 'tv'".to_string())));
    let mut found = PeripheralSearch::new(None);
    assert!(found.visit(7, Some("A".to_string()), [0; 6]));
    assert!(found.visit(8, Some("B".to_string()), [0; 6]));
    assert_eq!(found.result().unwrap(), (7, "A".to_string()));
    assert!(matches!(PeripheralSearch::new(None).result(), Err(BatteryError::NoDevice(None))));
}

#[test]
fn the_battery_characteristic() {
    let battery = uuid::Uuid::parse_str("00002a19-0000-1000-8000-00805f9b34fb").unwrap().as_u128();
    assert_eq!(BATTERY_LEVEL_CHARACTERISTIC_UUID, battery);
    assert_eq!(find_battery_characteristic(&vec![1, battery, battery]).unwrap(), 1);
    let e = find_battery_characteristic(&vec![1, 2]).unwrap_err();
    assert_eq!(e.message(), "device does not expose the standard Battery Level (0x2A19) characteristic");
    assert_eq!(read_battery_percentage("HDB".to_string(), &[85, 1]).unwrap(), ("HDB".to_string(), 85));
    let e = read_battery_percentage("HDB".to_string(), &[]).unwrap_err();
    assert_eq!(e.message(), "empty Battery Level response");
    assert_eq!(BatteryError::NoAdapter.message(), "no Bluetooth adapter available");
    assert_eq!(BatteryError::NoDevice(None).message(), "no known BLE device found");
    assert_eq!(
        BatteryError::NoDevice(Some("x".to_string())).message(),
        "no known BLE device found matching 'x'"
    );
}
