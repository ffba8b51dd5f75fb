use hal9001::bluetooth::{DiscoveryTimer, RescanStep};
use hal9001::bluetooth::{
    arrange_devices, derive_device_type, device_type_from_lowered, BluetoothAdapter,
    BluetoothDevice, BluetoothDeviceType, BluetoothSnapshot,
};

#[test]
fn kinds_from_icons_classes_appearance_and_uuids() {
    assert_eq!(derive_device_type(Some("audio-headset"), None, None, &[]), BluetoothDeviceType::Audio);
    assert_eq!(derive_device_type(Some("Input-Gaming"), None, None, &[]), BluetoothDeviceType::Gamepad);
    assert_eq!(derive_device_type(Some("INPUT-KEYBOARD"), None, None, &[]), BluetoothDeviceType::Keyboard);
    assert_eq!(derive_device_type(None, Some(0x200404), None, &[]), BluetoothDeviceType::Audio);
    assert_eq!(derive_device_type(None, Some(0x000540), None, &[]), BluetoothDeviceType::Keyboard);
    assert_eq!(derive_device_type(None, Some(0x000580), None, &[]), BluetoothDeviceType::Mouse);
    assert_eq!(derive_device_type(None, Some(0x000508), None, &[]), BluetoothDeviceType::Gamepad);
    assert_eq!(derive_device_type(None, Some(0x000704), None, &[]), BluetoothDeviceType::Wearable);
    assert_eq!(derive_device_type(None, None, Some(900), &[]), BluetoothDeviceType::Keyboard);
    assert_eq!(derive_device_type(None, None, Some(1024), &[]), BluetoothDeviceType::Mouse);
    let uuids = vec!["0000110B-0000-1000-8000-00805F9B34FB".to_string()];
    assert_eq!(derive_device_type(None, None, None, &uuids), BluetoothDeviceType::Audio);
    assert_eq!(device_type_from_lowered(None, None, None, &["00001124-0000".to_string()]), BluetoothDeviceType::Keyboard);
    assert_eq!(derive_device_type(Some("unknown"), Some(0x1f00), None, &[]), BluetoothDeviceType::Other);
}

#[test]
fn kind_labels() {
    assert_eq!(BluetoothDeviceType::Audio.ascii_label(), "[FONE]");
    assert_eq!(BluetoothDeviceType::Other.ascii_label(), "[DEV ]");
    assert_eq!(BluetoothDeviceType::Keyboard.nerd_glyph(), "\u{f030c}");
}

fn dev(path: &str, alias: &str, connected: bool, paired: bool, rssi: Option<i16>) -> BluetoothDevice {
    BluetoothDevice::from_properties(
        path,
        Some("AA:BB".to_string()),
        Some(alias.to_string()),
        None,
        [Some(connected), Some(paired), None, None],
        rssi,
        None,
        None,
        None,
        &vec![],
    )
}

#[test]
fn device_defaults_and_order() {
    let d = BluetoothDevice::from_properties("/p", Some("11:22".to_string()), None, None, [None, None, None, None], None, None, None, None, &vec![]);
    assert_eq!(d.alias, "11:22");
    assert_eq!(d.name, "11:22");
    assert!(!d.connected);
    let devices = vec![
        dev("/a", "Zed", false, true, Some(-40)),
        dev("/b", "Buds", true, true, Some(-70)),
        dev("/c", "Mouse", false, true, Some(-30)),
        dev("/d", "Alpha", false, false, None),
        dev("/e", "Beta", false, false, Some(-90)),
    ];
    let batteries = vec![("/b".to_string(), 80u8), ("/b".to_string(), 75u8)];
    let out = arrange_devices(devices, &batteries);
    let aliases: Vec<&str> = out.iter().map(|d| d.alias.as_str()).collect();
    assert_eq!(aliases, vec!["Buds", "Mouse", "Zed", "Beta", "Alpha"]);
    assert_eq!(out[0].battery_percentage, Some(75));
    assert_eq!(out[1].battery_percentage, None);
}

#[test]
fn adapter_and_snapshot() {
    let a = BluetoothAdapter::from_properties("/org/bluez/hci0", None, None, Some("Laptop".to_string()), Some(true), None, None, Some(false));
    assert_eq!(a.name, "Laptop");
    assert!(a.powered);
    assert!(!a.pairable);
    let b = BluetoothAdapter::from_properties("/org/bluez/hci0", None, None, None, None, None, None, None);
    assert_eq!(b.name, "Bluetooth Adapter");
    let s = BluetoothSnapshot::unavailable();
    assert!(!s.bluez_available);
    assert!(s.devices.is_empty());
}

#[test]
fn device_scan_stops_after_thirty_seconds_or_on_rescan() {
    let mut t = DiscoveryTimer::idle();
    assert!(!t.on_tick(1_000));
    assert_eq!(t.on_rescan(), RescanStep::Start);
    t.started(1_000);
    assert!(!t.on_tick(31_000));
    assert!(t.on_tick(31_001));
    assert_eq!(t.started_ms, None);
    t.started(40_000);
    assert_eq!(t.on_rescan(), RescanStep::Stop);
    assert_eq!(t.started_ms, None);
}
