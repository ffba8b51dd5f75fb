use hal9001::i18n::Language;
use hal9001::system::{
    read_governor_profile,
    count_installed_dpkg, count_nonempty_lines, count_packages, delta_arg, pactl_delta_arg,
    host_model, parse_lspci_gpu, profile_from_busctl, profile_from_dbus_send, read_dmi, BatteryStatus,
    PowerProfile,
};
use hal9001::updates::Distro;

#[test]
fn battery_status_round_trips_through_its_tag() {
    for s in [BatteryStatus::Charging, BatteryStatus::Discharging, BatteryStatus::Full, BatteryStatus::NotCharging, BatteryStatus::Unknown] {
        assert_eq!(BatteryStatus::parse(s.tag()), s);
    }
    assert_eq!(BatteryStatus::parse(" Not charging\n"), BatteryStatus::NotCharging);
    assert_eq!(BatteryStatus::parse("weird"), BatteryStatus::Unknown);
    assert_eq!(BatteryStatus::Charging.power_sign(), "+");
    assert_eq!(BatteryStatus::Full.power_sign(), "");
    assert_eq!(BatteryStatus::Discharging.label(), "Descarregando");
}

#[test]
fn power_profiles_parse_their_names() {
    for p in [PowerProfile::PowerSaver, PowerProfile::Balanced, PowerProfile::Performance] {
        assert_eq!(PowerProfile::parse(p.id()), Some(p));
        assert_eq!(PowerProfile::parse(p.governor()), Some(p));
        assert_eq!(p.next().next().next(), p);
        assert_ne!(p.next(), p);
    }
    assert_eq!(PowerProfile::parse(" ondemand\n"), Some(PowerProfile::Balanced));
    assert_eq!(PowerProfile::parse("Economia"), Some(PowerProfile::PowerSaver));
    assert_eq!(PowerProfile::parse("turbo"), None);
    assert_eq!(PowerProfile::Balanced.tag(), "[BALANCED]");
    assert_eq!(PowerProfile::PowerSaver.label(), "Economia");
    assert_eq!(PowerProfile::Performance.label_in(Language::EnUs), "Performance");
    assert_eq!(PowerProfile::Performance.label_in(Language::EsEs), "Rendimiento");
}

#[test]
fn package_summary() {
    let p = count_packages(Some(1200), None, None, Some(30)).unwrap();
    assert_eq!(p.total, 1230);
    assert_eq!(p.summary(), "1230 (pacman+flatpak)");
    assert!(count_packages(None, None, None, None).is_none());
    let q = count_packages(None, Some(7), None, None).unwrap();
    assert_eq!(q.summary(), "7 (dpkg)");
}

#[test]
fn lspci_gpu_line() {
    let out = "00:02.0 Host bridge: Intel\n00:02.0 VGA compatible controller: Intel Corporation UHD Graphics 620 (rev 07)\n01:00.0 3D controller: NVIDIA GP108M\n";
    assert_eq!(parse_lspci_gpu(out), Some("Intel Corporation UHD Graphics 620 (rev 07)".to_string()));
    assert_eq!(parse_lspci_gpu("01:00.0 Display controller:   \n"), None);
    assert_eq!(parse_lspci_gpu("nothing here"), None);
}

#[test]
fn line_counters() {
    assert_eq!(count_nonempty_lines("a\n\n  \nb\r\nc"), 3);
    assert_eq!(count_installed_dpkg("ii  bash\nrc  old\n  ii zsh\n"), 2);
}

#[test]
fn control_step_arguments() {
    assert_eq!(delta_arg(5), "5%+");
    assert_eq!(delta_arg(-5), "5%-");
    assert_eq!(pactl_delta_arg(5), "+5%");
    assert_eq!(pactl_delta_arg(-10), "-10%");
    assert_eq!(delta_arg(0), "0%+");
}

#[test]
fn dmi_placeholders_are_dropped() {
    assert_eq!(read_dmi("To be filled by O.E.M.\n"), None);
    assert_eq!(read_dmi("  \n"), None);
    assert_eq!(read_dmi(" ASUSTeK \n"), Some("ASUSTeK".to_string()));
}

#[test]
fn distro_from_os_release() {
    assert_eq!(Distro::from_os_release("NAME=\"Arch Linux\"\nID=arch\n"), Distro::Arch);
    assert_eq!(Distro::from_os_release("NAME=Ubuntu\n"), Distro::Debian);
    assert_eq!(Distro::from_os_release("NAME=Fedora\n"), Distro::Unknown);
    assert_eq!(Distro::from_os_release("NAME=ARCHCRAFT"), Distro::Arch);
    assert_eq!(Distro::from_lowered("debian"), Distro::Debian);
}

#[test]
fn power_profile_from_busctl_and_dbus_send() {
    assert_eq!(profile_from_busctl("s \"balanced\"\n"), Some(PowerProfile::Balanced));
    assert_eq!(profile_from_busctl("s \"power-saver\""), Some(PowerProfile::PowerSaver));
    assert_eq!(profile_from_busctl("s \"turbo\""), None);
    let reply = "method return time=1.0 sender=:1.5 -> destination=:1.9 serial=12 reply_serial=2\n   variant       string \"performance\"\n";
    assert_eq!(profile_from_dbus_send(reply), Some(PowerProfile::Performance));
    assert_eq!(profile_from_dbus_send("no profile here"), None);
}

#[test]
fn host_model_trims_and_drops_placeholders() {
    assert_eq!(host_model("ThinkPad X1 Carbon Gen 9\n"), Some("ThinkPad X1 Carbon Gen 9".to_string()));
    assert_eq!(host_model("Raspberry Pi 4 Model B Rev 1.4\0"), Some("Raspberry Pi 4 Model B Rev 1.4".to_string()));
    assert_eq!(host_model("To be filled by O.E.M.\n"), None);
    assert_eq!(host_model("System Product Name"), None);
    assert_eq!(host_model(" \0\n"), None);
}

#[test]
fn governor_file_names_profile() {
    assert_eq!(read_governor_profile(Some("powersave\n")), Some(PowerProfile::PowerSaver));
    assert_eq!(read_governor_profile(Some("schedutil\n")), Some(PowerProfile::Balanced));
    assert_eq!(read_governor_profile(Some("performance")), Some(PowerProfile::Performance));
    assert_eq!(read_governor_profile(Some("   \n")), None);
    assert_eq!(read_governor_profile(None), None);
}
