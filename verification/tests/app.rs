use hal9001::app::{
    access_point_enter, attached_drive_notice, audio_enter, battery_notice, bluetooth_notice,
    clamp_selection, connectivity_notice, dispatch_file_picker, dispatch_flasher,
    dispatch_format, dispatch_iso_manager, dispatch_sudo_prompt, dispatch_wifi_prompt,
    finish_pick, key_target, storage_key, AudioCommand, FileEntry, FilePickerPurpose,
    FilePickerState, FlasherError, FlasherModalState, FlasherNotice, FlasherStage, FlasherStep,
    FormatField, FormatModalState, FormatStep, FsChoice, IsoManagerStep, JumpTarget, KeyTarget,
    ModalKey, MultibootIsoManagerStage, MultibootIsoManagerState, NetworkNotice, PanelKey,
    PanelState, PathMeta, PickerStep, PowerNotice, StorageCommand, StorageEffect, StorageKey,
    StorageModal, StorageUiStep, SudoPromptState, SudoStep, Tab, WifiPasswordPromptState,
    WifiStep,
};
use hal9001::audio::AudioCategory;
use hal9001::bluetooth::BluetoothDevice;
use hal9001::events::DeviceId;
use hal9001::i18n::Language;
use hal9001::network::{AccessPoint, Security, WifiBand};
use hal9001::storage::{BusType, DriveInfo, FsKind, PartitionInfo, StorageSnapshot, VentoyIsoEntry};
use hal9001::system::BatteryStatus;

#[test]
fn tabs_cycle_and_round_trip() {
    for t in Tab::all() {
        assert_eq!(Tab::from_index(t.index()), t);
        assert_eq!(t.next().prev(), t);
    }
    assert_eq!(Tab::Displays.next(), Tab::Overview);
    assert_eq!(Tab::Overview.prev(), Tab::Displays);
    assert_eq!(Tab::from_index(42), Tab::Overview);
    assert_eq!(Tab::Storage.title(), "Discos");
    assert_eq!(Tab::Network.title_in(Language::EnUs), "Network");
}

#[test]
fn fs_choices() {
    assert_eq!(FsChoice::all()[0], FsChoice::Vfat);
    assert_eq!(FsChoice::Vfat.udisks_type(), "vfat");
    assert_eq!(FsChoice::Vfat.label(), "FAT32 (vfat)");
    assert_eq!(FsChoice::Ntfs.label(), "NTFS");
}

fn format_state() -> FormatModalState {
    FormatModalState::opening("/dev/sdb".to_string(), "PEN".to_string())
}

#[test]
fn format_dialog() {
    let s = format_state();
    let s = match dispatch_format(s, ModalKey::Left) {
        FormatStep::Open { state, quit } => {
            assert!(!quit);
            assert_eq!(state.fs_idx, 4);
            state
        }
        _ => panic!(),
    };
    let s = match dispatch_format(s, ModalKey::Down) {
        FormatStep::Open { state, .. } => state,
        _ => panic!(),
    };
    assert_eq!(s.field, FormatField::Label);
    let mut s = s;
    for _ in 0..8 {
        s = match dispatch_format(s, ModalKey::Backspace) {
            FormatStep::Open { state, .. } => state,
            _ => panic!(),
        };
    }
    assert_eq!(s.label, "");
    s = match dispatch_format(s, ModalKey::Char('\u{7}')) {
        FormatStep::Open { state, .. } => state,
        _ => panic!(),
    };
    assert_eq!(s.label, "");
    match dispatch_format(s, ModalKey::Enter) {
        FormatStep::Submitted(req) => {
            assert_eq!(req.fs_type, "btrfs");
            assert_eq!(req.label, "PENDRIVE");
            assert_eq!(req.device_id, "/dev/sdb");
        }
        _ => panic!(),
    }
    assert!(matches!(dispatch_format(format_state(), ModalKey::Cancel), FormatStep::Closed));
}

#[test]
fn format_label_is_limited() {
    let mut s = format_state();
    s.field = FormatField::Label;
    s.label = "x".repeat(32);
    match dispatch_format(s, ModalKey::Char('y')) {
        FormatStep::Open { state, .. } => assert_eq!(state.label.chars().count(), 32),
        _ => panic!(),
    }
}

#[test]
fn prompts() {
    let s = SudoPromptState::opening("Formatar".to_string(), None);
    let s = match dispatch_sudo_prompt(s, ModalKey::Char('p')) {
        SudoStep::Open { state, .. } => state,
        _ => panic!(),
    };
    match dispatch_sudo_prompt(s.clone(), ModalKey::Enter) {
        SudoStep::Submitted(p) => assert_eq!(p, "p"),
        _ => panic!(),
    }
    assert!(matches!(dispatch_sudo_prompt(s, ModalKey::Cancel), SudoStep::Cancelled));
    let w = WifiPasswordPromptState { ap_id: "/ap".to_string(), ssid: "Home".to_string(), password: "abc".to_string(), error: None };
    match dispatch_wifi_prompt(w, ModalKey::Enter) {
        WifiStep::Connect(c) => assert_eq!(c.password, Some("abc".to_string())),
        _ => panic!(),
    }
}

fn flasher(stage: FlasherStage) -> FlasherModalState {
    FlasherModalState {
        device_id: "/drive".to_string(),
        target_label: "PEN".to_string(),
        target_dev_node: "/dev/sdb".to_string(),
        target_size: 1000,
        iso_path: "/tmp/a.iso".to_string(),
        iso_size: 500,
        stage,
    }
}

#[test]
fn flashing_needs_the_exact_device_node() {
    let s = flasher(FlasherStage::Confirm2 { typed: " /dev/sdb ".to_string() });
    match dispatch_flasher(s, ModalKey::Enter, PathMeta::Missing) {
        FlasherStep::Open { state, effect: Some(StorageEffect::FlashIso { device_id, iso_path }), .. } => {
            assert_eq!(device_id, "/drive");
            assert_eq!(iso_path, "/tmp/a.iso");
            assert!(matches!(state.stage, FlasherStage::Flashing { bytes_written: 0, total_bytes: 500, eta_secs: 0 }));
        }
        _ => panic!(),
    }
    let s = flasher(FlasherStage::Confirm2 { typed: "/dev/sda".to_string() });
    match dispatch_flasher(s, ModalKey::Enter, PathMeta::Missing) {
        FlasherStep::Open { effect, notice, .. } => {
            assert!(effect.is_none());
            assert_eq!(notice, Some(FlasherNotice::Mismatch));
        }
        _ => panic!(),
    }
}

#[test]
fn flasher_wizard_steps() {
    let s = flasher(FlasherStage::SelectIso { input: " /tmp/b.iso ".to_string(), error: None });
    assert_eq!(s.typed_path(), Some("/tmp/b.iso".to_string()));
    match dispatch_flasher(s.clone(), ModalKey::Enter, PathMeta::Found { is_file: true, len: 2000 }) {
        FlasherStep::Open { state, .. } => assert!(matches!(state.stage, FlasherStage::SelectIso { error: Some(FlasherError::TooBig), .. })),
        _ => panic!(),
    }
    match dispatch_flasher(s.clone(), ModalKey::Enter, PathMeta::Found { is_file: false, len: 20 }) {
        FlasherStep::Open { state, .. } => assert!(matches!(state.stage, FlasherStage::SelectIso { error: Some(FlasherError::NotFile), .. })),
        _ => panic!(),
    }
    match dispatch_flasher(s.clone(), ModalKey::Enter, PathMeta::Found { is_file: true, len: 700 }) {
        FlasherStep::Open { state, .. } => {
            assert_eq!(state.iso_path, "/tmp/b.iso");
            assert_eq!(state.iso_size, 700);
            assert!(matches!(state.stage, FlasherStage::Ready { sha256: None }));
        }
        _ => panic!(),
    }
    match dispatch_flasher(flasher(FlasherStage::Ready { sha256: None }), ModalKey::Char('c'), PathMeta::Missing) {
        FlasherStep::Open { effect: Some(StorageEffect::ChecksumIso(p)), state, .. } => {
            assert_eq!(p, "/tmp/a.iso");
            assert!(matches!(state.stage, FlasherStage::Checksumming));
        }
        _ => panic!(),
    }
    match dispatch_flasher(flasher(FlasherStage::Flashing { bytes_written: 1, total_bytes: 2, eta_secs: 3 }), ModalKey::Cancel, PathMeta::Missing) {
        FlasherStep::Closed { effect: Some(StorageEffect::FlashCancel { device_id }) } => assert_eq!(device_id, "/drive"),
        _ => panic!(),
    }
    assert!(matches!(dispatch_flasher(s, ModalKey::OpenPicker, PathMeta::Missing), FlasherStep::OpenPicker(_)));
}

fn entry(name: &str, dir: bool) -> FileEntry {
    FileEntry { name: name.to_string(), path: format!("/home/u/{name}"), is_dir: dir }
}

#[test]
fn file_picker() {
    let purpose = FilePickerPurpose::MultibootAddIso { device_id: "/p".to_string(), target_label: "PEN".to_string() };
    let mut s = FilePickerState::opening("/home/u".to_string(), purpose.clone());
    s.reload(Ok(vec![entry("Downloads", true), entry("notes.txt", false), entry("debian.iso", false)]));
    s.move_down();
    s.move_down();
    s.move_down();
    assert_eq!(s.selected, 2);
    match dispatch_file_picker(s.clone(), ModalKey::Enter) {
        PickerStep::Picked { path, .. } => assert_eq!(path, "/home/u/debian.iso"),
        _ => panic!(),
    }
    s.move_up();
    match dispatch_file_picker(s.clone(), ModalKey::Char('l')) {
        PickerStep::Open { state, reload, .. } => {
            assert!(!reload);
            assert!(state.error.is_some());
        }
        _ => panic!(),
    }
    s.move_up();
    match dispatch_file_picker(s.clone(), ModalKey::Right) {
        PickerStep::Open { state, reload, .. } => {
            assert!(reload);
            assert_eq!(state.cwd, "/home/u/Downloads");
            assert_eq!(state.selected, 0);
        }
        _ => panic!(),
    }
    assert!(matches!(dispatch_file_picker(s.clone(), ModalKey::Char('~')), PickerStep::Jump(_, JumpTarget::Home)));
    assert!(matches!(dispatch_file_picker(s.clone(), ModalKey::Backspace), PickerStep::GoUp(_)));
    s.reload(Err("sem permissão".to_string()));
    assert!(s.entries.is_empty());
    assert_eq!(s.error, Some("sem permissão".to_string()));
    assert!(!s.jump_to("/nope".to_string(), false));
    assert_eq!(s.error, Some("/nope".to_string()));
    assert!(s.go_up(Some("/home".to_string())));
    assert_eq!(s.cwd, "/home");
}

#[test]
fn picked_files_continue_the_wizards() {
    let purpose = FilePickerPurpose::FlasherIso { device_id: "/d".to_string(), target_label: "PEN".to_string(), target_dev_node: "/dev/sdb".to_string(), target_size: 100 };
    match finish_pick(purpose.clone(), "/x.iso".to_string(), "x.iso".to_string(), 200) {
        (StorageModal::Flasher(f), None) => assert!(matches!(f.stage, FlasherStage::SelectIso { error: Some(FlasherError::TooBig), .. })),
        _ => panic!(),
    }
    match finish_pick(purpose, "/x.iso".to_string(), "x.iso".to_string(), 50) {
        (StorageModal::Flasher(f), None) => {
            assert_eq!(f.iso_size, 50);
            assert!(matches!(f.stage, FlasherStage::Ready { sha256: None }));
        }
        _ => panic!(),
    }
    let purpose = FilePickerPurpose::MultibootAddIso { device_id: "/p".to_string(), target_label: "PEN".to_string() };
    match finish_pick(purpose, "/x.iso".to_string(), "x.iso".to_string(), 50) {
        (StorageModal::MultibootIsoManager(m), Some(StorageEffect::MultibootAddIso { device_id, src_path })) => {
            assert_eq!(device_id, "/p");
            assert_eq!(src_path, "/x.iso");
            assert!(matches!(m.stage, MultibootIsoManagerStage::Copying { bytes_written: 0, total_bytes: 50, .. }));
        }
        _ => panic!(),
    }
}

fn iso(name: &str) -> VentoyIsoEntry {
    VentoyIsoEntry { name: name.to_string(), size: 1, modified: None }
}

#[test]
fn iso_manager() {
    let s = MultibootIsoManagerState {
        device_id: "/p".to_string(),
        target_label: "PEN".to_string(),
        stage: MultibootIsoManagerStage::Listing { entries: vec![iso("a.iso"), iso("b.iso")], selected: 0, free_bytes: Some(10) },
    };
    let s = match dispatch_iso_manager(s, ModalKey::Char('j')) {
        IsoManagerStep::Open { state, .. } => state,
        _ => panic!(),
    };
    let s = match dispatch_iso_manager(s, ModalKey::Delete) {
        IsoManagerStep::Open { state, .. } => state,
        _ => panic!(),
    };
    assert!(matches!(&s.stage, MultibootIsoManagerStage::ConfirmRemove { file_name } if file_name == "b.iso"));
    match dispatch_iso_manager(s.clone(), ModalKey::Char('y')) {
        IsoManagerStep::Open { state, effect: Some(StorageEffect::MultibootRemoveIso { device_id, file_name }), .. } => {
            assert_eq!(device_id, "/p");
            assert_eq!(file_name, "b.iso");
            assert!(matches!(state.stage, MultibootIsoManagerStage::Removing { .. }));
        }
        _ => panic!(),
    }
    match dispatch_iso_manager(s, ModalKey::Char('n')) {
        IsoManagerStep::Open { state, effect: Some(StorageEffect::MultibootListIsos { .. }), .. } => {
            assert!(matches!(state.stage, MultibootIsoManagerStage::Loading));
        }
        _ => panic!(),
    }
    let mut m = MultibootIsoManagerState { device_id: "/p".to_string(), target_label: "PEN".to_string(), stage: MultibootIsoManagerStage::Loading };
    m.on_iso_list(&"/other".to_string(), vec![iso("z.iso")], None);
    assert!(matches!(m.stage, MultibootIsoManagerStage::Loading));
    m.on_iso_list(&"/p".to_string(), vec![iso("z.iso")], None);
    assert!(matches!(m.stage, MultibootIsoManagerStage::Listing { selected: 0, .. }));
    assert!(m.on_operation_done(&"/p".to_string(), Err("falhou".to_string())).is_none());
    assert!(matches!(&m.stage, MultibootIsoManagerStage::Error { message } if message == "falhou"));
}

#[test]
fn panels_navigation() {
    let mut p = PanelState::new(true);
    p.handle_key(PanelKey::PrevTab);
    assert_eq!(p.active, Tab::Displays);
    p.handle_key(PanelKey::Up);
    assert_eq!(p.display_res_selected, 0);
    p.handle_key(PanelKey::Down);
    assert_eq!(p.display_res_selected, 1);
    p.handle_key(PanelKey::Right);
    assert_eq!(p.display_selected, 1);
    assert_eq!(p.display_res_selected, 0);
    p.handle_key(PanelKey::SelectTab(3));
    assert_eq!(p.active, Tab::Storage);
    p.handle_key(PanelKey::ToggleHelp);
    p.handle_key(PanelKey::ToggleConfig);
    assert!(p.show_config && !p.show_help);
    p.handle_key(PanelKey::AudioSelectCategory(98));
    assert_eq!(p.audio_category, 2);
    p.handle_key(PanelKey::AudioSelectCategory(7));
    assert_eq!(p.audio_category, 2);
    p.handle_key(PanelKey::Quit);
    assert!(p.should_quit);
    assert_eq!(key_target(false, true, true, false, true), KeyTarget::WifiPrompt);
    assert_eq!(key_target(false, false, false, false, false), KeyTarget::Panels);
    assert_eq!(clamp_selection(9, 3), 2);
    assert_eq!(clamp_selection(9, 0), 9);
}

fn part(id: &str, mounts: &[&str], system: bool) -> PartitionInfo {
    PartitionInfo {
        id: DeviceId(id.to_string()),
        dev_node: "/dev/sdb1".to_string(),
        label: "PEN".to_string(),
        fs: FsKind::Vfat,
        size: 10,
        used: None,
        mount_points: mounts.iter().map(|m| m.to_string()).collect(),
        is_swap: false,
        is_system: system,
    }
}

fn drv(id: &str, system: bool, parts: Vec<PartitionInfo>) -> DriveInfo {
    DriveInfo {
        id: DeviceId(id.to_string()),
        dev_node: "/dev/sdb".to_string(),
        block_path: None,
        model: "M".to_string(),
        vendor: "V".to_string(),
        size: 99,
        removable: !system,
        ejectable: true,
        can_power_off: true,
        bus: BusType::Usb,
        rotational: false,
        is_system: system,
        is_ventoy: false,
        partitions: parts,
    }
}

#[test]
fn storage_keys_respect_the_system_lock() {
    let snap = Some(StorageSnapshot { udisks_available: true, drives: vec![drv("/sys", true, vec![part("/sys1", &["/"], true)]), drv("/usb", false, vec![part("/usb1", &["/media/x"], false)])] });
    assert!(matches!(storage_key(&snap, 0, StorageKey::Eject), StorageUiStep::SystemLocked));
    assert!(matches!(storage_key(&snap, 0, StorageKey::FormatOpen), StorageUiStep::SystemLocked));
    assert!(matches!(storage_key(&snap, 9, StorageKey::Eject), StorageUiStep::Send(StorageCommand::Eject(id)) if id.0 == "/usb"));
    assert!(matches!(storage_key(&snap, 1, StorageKey::MountToggle), StorageUiStep::Send(StorageCommand::Unmount(id)) if id.0 == "/usb1"));
    match storage_key(&snap, 1, StorageKey::FormatOpen) {
        StorageUiStep::OpenModal(StorageModal::Format(f)) => {
            assert_eq!(f.target_label, "PEN");
            assert_eq!(f.label, "PENDRIVE");
        }
        _ => panic!(),
    }
    assert!(matches!(storage_key(&None, 0, StorageKey::Eject), StorageUiStep::Nothing));
    let empty = Some(StorageSnapshot { udisks_available: true, drives: vec![drv("/usb", false, vec![])] });
    assert!(matches!(storage_key(&empty, 0, StorageKey::IsoManagerOpen), StorageUiStep::NoPartition));
}

fn ap(security: Security, saved: bool) -> AccessPoint {
    AccessPoint {
        id: DeviceId("/ap".to_string()),
        ssid: "Home".to_string(),
        ssid_raw: b"Home".to_vec(),
        bssid: String::new(),
        strength: 50,
        frequency: 2412,
        band: WifiBand::Ghz24,
        max_bitrate_kbps: 0,
        security,
        is_active: false,
        is_saved: saved,
        saved_conn_path: None,
    }
}

#[test]
fn enter_decisions_and_notices() {
    assert!(access_point_enter(&ap(Security::Wpa2, false)).is_err());
    assert!(access_point_enter(&ap(Security::Wpa2, true)).is_ok());
    assert!(access_point_enter(&ap(Security::Open, false)).is_ok());
    assert_eq!(audio_enter(AudioCategory::AppStream, 7), AudioCommand::ToggleMute(7));
    assert_eq!(audio_enter(AudioCategory::Sink, 7), AudioCommand::SetDefault(7));
    assert_eq!(battery_notice(BatteryStatus::Discharging, BatteryStatus::Charging), Some(PowerNotice::ChargerConnected));
    assert_eq!(battery_notice(BatteryStatus::Charging, BatteryStatus::Full), Some(PowerNotice::OnBattery));
    assert_eq!(battery_notice(BatteryStatus::Full, BatteryStatus::Full), None);
    assert_eq!(connectivity_notice(false, true), Some(NetworkNotice::Connected));
    assert_eq!(connectivity_notice(true, true), None);
    let old = vec![drv("/a", false, vec![])];
    let mut b = drv("/b", false, vec![]);
    b.dev_node = "/dev/sdc".to_string();
    let new = vec![drv("/a", false, vec![]), b];
    assert_eq!(attached_drive_notice(&old, &new), Some("/dev/sdc".to_string()));
    assert_eq!(attached_drive_notice(&new, &new), None);
    let d = |c: bool| BluetoothDevice::from_properties("/d", None, Some("Buds".to_string()), None, [Some(c), None, None, None], None, None, None, None, &vec![]);
    let n = bluetooth_notice(&vec![d(false)], &vec![d(true)]).unwrap();
    assert!(n.connected);
    assert_eq!(n.name, "Buds");
    assert!(bluetooth_notice(&vec![d(true)], &vec![d(true)]).is_none());
}

#[test]
fn continuous_tick_only_when_something_moves() {
    let splash = PanelState::new(true);
    assert!(splash.needs_continuous_tick(false, false));
    let mut p = PanelState::new(false);
    assert!(p.needs_continuous_tick(false, false));
    p.handle_key(PanelKey::SelectTab(2));
    assert!(!p.needs_continuous_tick(false, false));
    assert!(p.needs_continuous_tick(true, false));
    assert!(p.needs_continuous_tick(false, true));
}
