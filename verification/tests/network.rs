use hal9001::events::DeviceId;
use hal9001::network::{
    band_of, derive_security, order_access_points, AccessPoint, AccessPointProperties,
    ActiveConnectionInfo, Security, WifiBand, WifiDevice,
};

fn ap(ssid: &str, strength: u8, active: bool, saved: bool) -> AccessPoint {
    AccessPoint {
        id: DeviceId(format!("/ap/{ssid}/{strength}")),
        ssid: ssid.to_string(),
        ssid_raw: ssid.as_bytes().to_vec(),
        bssid: String::new(),
        strength,
        frequency: 2412,
        band: WifiBand::Ghz24,
        max_bitrate_kbps: 0,
        security: Security::Wpa2,
        is_active: active,
        is_saved: saved,
        saved_conn_path: None,
    }
}

#[test]
fn security_from_flags() {
    assert_eq!(derive_security(0, 0, 0x400 | 0x100), Security::Wpa3);
    assert_eq!(derive_security(0, 0, 0x800), Security::Owe);
    assert_eq!(derive_security(0, 0x200, 0), Security::Wpa2Enterprise);
    assert_eq!(derive_security(1, 0, 0x100), Security::Wpa2);
    assert_eq!(derive_security(0, 0x8, 0), Security::Wpa);
    assert_eq!(derive_security(1, 0, 0), Security::Wep);
    assert_eq!(derive_security(0, 0, 0), Security::Open);
}

#[test]
fn security_labels_and_keys() {
    assert_eq!(Security::Open.label(), "Aberta");
    assert_eq!(Security::Wpa3.label(), "WPA3-SAE");
    assert!(Security::Wep.needs_password());
    assert!(!Security::Owe.needs_password());
    assert!(!Security::Wpa2Enterprise.needs_password());
    assert_eq!(Security::Wpa.key_mgmt(), Some("wpa-psk"));
    assert_eq!(Security::Wpa3.key_mgmt(), Some("sae"));
    assert_eq!(Security::Open.key_mgmt(), None);
}

#[test]
fn bands() {
    assert_eq!(band_of(2437), WifiBand::Ghz24);
    assert_eq!(band_of(5180), WifiBand::Ghz5);
    assert_eq!(band_of(5955), WifiBand::Ghz6);
    assert_eq!(band_of(5910), WifiBand::Unknown);
    assert_eq!(WifiBand::Ghz5.label(), "5 GHz");
    assert_eq!(WifiBand::Unknown.label(), "Wi-Fi");
}

#[test]
fn one_entry_per_network_in_display_order() {
    let raw = vec![
        ap("cafe", 40, false, false),
        ap("home", 30, false, true),
        ap("cafe", 70, false, false),
        ap("office", 90, false, false),
        ap("work", 10, true, false),
        ap("work", 95, false, false),
        ap("bar", 40, false, false),
    ];
    let out = order_access_points(raw);
    let names: Vec<(&str, u8)> = out.iter().map(|a| (a.ssid.as_str(), a.strength)).collect();
    assert_eq!(names, vec![("work", 10), ("home", 30), ("office", 90), ("cafe", 70), ("bar", 40)]);
}

#[test]
fn access_point_from_properties() {
    let props = AccessPointProperties {
        path: "/ap/1".to_string(),
        ssid_raw: b"Home".to_vec(),
        strength: 80,
        frequency: 5200,
        bssid: "AA:BB".to_string(),
        max_bitrate_kbps: 866000,
        flags: 1,
        wpa_flags: 0,
        rsn_flags: 0x100,
    };
    let saved = vec![("Home".to_string(), "/conn/1".to_string()), ("Home".to_string(), "/conn/2".to_string())];
    let a = AccessPoint::from_properties(props, "/ap/1", &saved).unwrap();
    assert_eq!(a.ssid, "Home");
    assert_eq!(a.band, WifiBand::Ghz5);
    assert_eq!(a.security, Security::Wpa2);
    assert!(a.is_active);
    assert!(a.is_saved);
    assert_eq!(a.saved_conn_path, Some("/conn/2".to_string()));
    let hidden = AccessPointProperties {
        path: "/ap/2".to_string(),
        ssid_raw: vec![],
        strength: 1,
        frequency: 2412,
        bssid: String::new(),
        max_bitrate_kbps: 0,
        flags: 0,
        wpa_flags: 0,
        rsn_flags: 0,
    };
    assert!(AccessPoint::from_properties(hidden, "/", &vec![]).is_none());
}

#[test]
fn device_and_connection_paths() {
    let d = WifiDevice::from_properties("/dev/1", "wlan0".to_string(), "aa".to_string(), 100, 54000, "/", 123);
    assert!(d.active_ap.is_none());
    assert_eq!(d.id.0, "/dev/1");
    let d = WifiDevice::from_properties("/dev/1", "wlan0".to_string(), "aa".to_string(), 100, 54000, "/ap/3", 123);
    assert_eq!(d.active_ap.unwrap().0, "/ap/3");
    let c = ActiveConnectionInfo::from_properties("/active/1", "Home".to_string(), 2, "/");
    assert!(c.connection_path.is_none());
    let c = ActiveConnectionInfo::from_properties("/active/1", "Home".to_string(), 2, "/conn/9");
    assert_eq!(c.connection_path, Some("/conn/9".to_string()));
}
