use hal9001::app::{
    audio_enter_selected, bluetooth_enter_selected, display_enter, route_volume_key, AppState,
    AudioCommand, BluetoothCommand, DialogEvent, DialogOutput, DisplayCommand, FlasherModalState,
    FlasherStage, FormatModalState, ModalKey, MultibootIsoManagerStage,
    MultibootIsoManagerState, PanelState, PathMeta, Phase, StorageEffect, StorageModal,
    SudoPromptState, Tab, VolumeKey, VolumeRoute,
};
use hal9001::audio::{AudioCategory, AudioNode, AudioSnapshot};
use hal9001::bluetooth::{BluetoothDevice, BluetoothSnapshot};
use hal9001::display::{DisplayMode, DisplayNode, DisplaySnapshot};
use hal9001::events::ToastLevel;
use hal9001::network::{
    addresses_from_ip4_config, network_follow_up, network_poll_interval_ms, NetworkReport,
    NetworkRequest,
};
use hal9001::storage::{
    after_builtin_fat32, after_format, format_done_toast, mount_toast, partition_unmount_toast,
    unmount_toast, FormatNext,
};

fn node(id: u32, category: AudioCategory) -> AudioNode {
    AudioNode {
        id,
        name: format!("n{id}"),
        description: String::new(),
        category,
        volume: None,
        is_muted: false,
        is_default: false,
        icon_name: None,
    }
}

fn audio() -> Option<AudioSnapshot> {
    Some(AudioSnapshot {
        server_name: "PipeWire".to_string(),
        sinks: vec![node(40, AudioCategory::Sink), node(41, AudioCategory::Sink)],
        apps: vec![node(70, AudioCategory::AppStream)],
        sources: vec![],
        default_sink_id: Some(40),
        default_source_id: None,
    })
}

#[test]
fn audio_tab_enter_and_volume_keys() {
    assert_eq!(audio_enter_selected(&audio(), 0, 1), Some(AudioCommand::SetDefault(41)));
    assert_eq!(audio_enter_selected(&audio(), 1, 0), Some(AudioCommand::ToggleMute(70)));
    assert_eq!(audio_enter_selected(&audio(), 2, 0), None);
    assert_eq!(audio_enter_selected(&None, 0, 0), None);
    assert_eq!(route_volume_key(Tab::Audio, &audio(), 0, 0, VolumeKey::Up), VolumeRoute::NodeUp(40));
    assert_eq!(route_volume_key(Tab::Audio, &audio(), 1, 0, VolumeKey::Mute), VolumeRoute::NodeMute(70));
    assert_eq!(route_volume_key(Tab::Audio, &audio(), 0, 5, VolumeKey::Down), VolumeRoute::Nothing);
    assert_eq!(route_volume_key(Tab::Overview, &audio(), 0, 0, VolumeKey::Down), VolumeRoute::System(VolumeKey::Down));
}

#[test]
fn bluetooth_tab_enter() {
    let d = |c: bool| BluetoothDevice::from_properties("/d", None, Some("Buds".to_string()), None, [Some(c), None, None, None], None, None, None, None, &vec![]);
    let snap = Some(BluetoothSnapshot { bluez_available: true, adapter: None, devices: vec![d(true), d(false)] });
    assert!(matches!(bluetooth_enter_selected(&snap, 0), Some(BluetoothCommand::Disconnect(_))));
    assert!(matches!(bluetooth_enter_selected(&snap, 1), Some(BluetoothCommand::Connect(_))));
    assert!(bluetooth_enter_selected(&snap, 2).is_none());
    assert!(bluetooth_enter_selected(&None, 0).is_none());
}

#[test]
fn displays_tab_enter() {
    let mode = DisplayMode { width: 1920, height: 1080, rate_text: "60.00".to_string(), is_current: true, is_preferred: true };
    let d = DisplayNode {
        name: "HDMI-1".to_string(),
        is_connected: true,
        is_primary: false,
        is_active: true,
        current_mode: None,
        supported_modes: vec![mode],
        pos_x: 0,
        pos_y: 0,
        rotation: "normal".to_string(),
        is_internal: false,
    };
    let snap = Some(DisplaySnapshot {
        displays: vec![d],
        primary_name: None,
        connected_count: 1,
        current_layout: None,
        server_type: "x11".to_string(),
    });
    match display_enter(&snap, 0, 0) {
        Some(DisplayCommand::SetResolution { display, mode, rate_text }) => {
            assert_eq!(display, "HDMI-1");
            assert_eq!(mode, "1920x1080");
            assert_eq!(rate_text, "60.00");
        }
        _ => panic!(),
    }
    assert!(matches!(display_enter(&snap, 0, 3), Some(DisplayCommand::SetPrimary(n)) if n == "HDMI-1"));
    assert!(display_enter(&snap, 1, 0).is_none());
}

fn flasher(stage: FlasherStage) -> FlasherModalState {
    FlasherModalState {
        device_id: "/drive".to_string(),
        target_label: "PEN".to_string(),
        target_dev_node: "/dev/sdb".to_string(),
        target_size: 1000,
        iso_path: "/tmp/a.iso".to_string(),
        iso_size: 500,
        stage,
    }
}

fn app(modal: StorageModal) -> AppState {
    AppState {
        panels: PanelState::new(true),
        sudo_prompt: None,
        wifi_prompt: None,
        storage_modal: modal,
        analyzer: None,
    }
}

#[test]
fn quit_keeps_every_dialog() {
    let mut a = app(StorageModal::Flasher(flasher(FlasherStage::Confirm2 { typed: "/dev/s".to_string() })));
    a.sudo_prompt = Some(SudoPromptState::opening("formatar".to_string(), None));
    assert!(matches!(a.dispatch(ModalKey::Quit, PathMeta::Missing), DialogOutput::Nothing));
    assert!(a.panels.should_quit);
    assert_eq!(a.panels.phase, Phase::Running);
    assert!(a.sudo_prompt.is_some());
    match &a.storage_modal {
        StorageModal::Flasher(f) => assert!(matches!(&f.stage, FlasherStage::Confirm2 { typed } if typed == "/dev/s")),
        _ => panic!(),
    }
    let mut b = app(StorageModal::Closed);
    assert!(matches!(b.dispatch(ModalKey::Quit, PathMeta::Missing), DialogOutput::Nothing));
    assert!(b.panels.should_quit);
}

#[test]
fn keys_reach_the_open_dialog() {
    let mut a = app(StorageModal::Flasher(flasher(FlasherStage::Confirm2 { typed: "/dev/sd".to_string() })));
    a.dispatch(ModalKey::Char('b'), PathMeta::Missing);
    match &a.storage_modal {
        StorageModal::Flasher(f) => assert!(matches!(&f.stage, FlasherStage::Confirm2 { typed } if typed == "/dev/sdb")),
        _ => panic!(),
    }
    match a.dispatch(ModalKey::Enter, PathMeta::Missing) {
        DialogOutput::Effect(StorageEffect::FlashIso { device_id, iso_path }) => {
            assert_eq!(device_id, "/drive");
            assert_eq!(iso_path, "/tmp/a.iso");
        }
        _ => panic!(),
    }
    let mut f = app(StorageModal::Format(FormatModalState::opening("/p".to_string(), "PEN".to_string())));
    assert!(matches!(f.dispatch(ModalKey::Cancel, PathMeta::Missing), DialogOutput::Nothing));
    assert!(matches!(f.storage_modal, StorageModal::Closed));
    let mut p = app(StorageModal::Closed);
    assert!(matches!(p.dispatch(ModalKey::Down, PathMeta::Missing), DialogOutput::Panels(ModalKey::Down)));
    assert!(!p.panels.should_quit);
}

#[test]
fn flasher_typing_edits_the_fields() {
    let mut a = app(StorageModal::Flasher(flasher(FlasherStage::SelectIso { input: "/tmp/x.is".to_string(), error: None })));
    a.dispatch(ModalKey::Char('o'), PathMeta::Missing);
    a.dispatch(ModalKey::Backspace, PathMeta::Missing);
    a.dispatch(ModalKey::Char('o'), PathMeta::Missing);
    match &a.storage_modal {
        StorageModal::Flasher(f) => {
            assert!(matches!(&f.stage, FlasherStage::SelectIso { input, error: None } if input == "/tmp/x.iso"));
            assert_eq!(f.target_dev_node, "/dev/sdb");
        }
        _ => panic!(),
    }
}

#[test]
fn only_completed_iso_operations_relist() {
    let manager = |stage| StorageModal::MultibootIsoManager(MultibootIsoManagerState {
        device_id: "/p1".to_string(),
        target_label: "PEN".to_string(),
        stage,
    });
    let mut m = manager(MultibootIsoManagerStage::Removing { file_name: "a.iso".to_string() });
    let (effect, shown) = m.on_event(DialogEvent::IsoRemoveDone { device_id: "/p1".to_string(), result: Ok(String::new()) });
    assert!(matches!(effect, Some(StorageEffect::MultibootListIsos { device_id }) if device_id == "/p1"));
    assert!(!shown);
    assert!(matches!(&m, StorageModal::MultibootIsoManager(s) if matches!(s.stage, MultibootIsoManagerStage::Loading)));
    let mut other = manager(MultibootIsoManagerStage::Loading);
    let (effect, _) = other.on_event(DialogEvent::IsoCopyDone { device_id: "/p2".to_string(), result: Ok(String::new()) });
    assert!(effect.is_none());
    let mut failed = manager(MultibootIsoManagerStage::Loading);
    let (effect, _) = failed.on_event(DialogEvent::IsoCopyDone { device_id: "/p1".to_string(), result: Err("cheio".to_string()) });
    assert!(effect.is_none());
    let mut f = StorageModal::Flasher(flasher(FlasherStage::Flashing { bytes_written: 0, total_bytes: 500, eta_secs: 0 }));
    let (effect, shown) = f.on_event(DialogEvent::FlashDone { device_id: "/drive".to_string(), result: Ok(String::new()), success_message: "ok".to_string() });
    assert!(effect.is_none());
    assert!(shown);
    let mut closed = StorageModal::Closed;
    let (effect, shown) = closed.on_event(DialogEvent::IsoCopyDone { device_id: "/p1".to_string(), result: Ok(String::new()) });
    assert!(effect.is_none() && !shown);
}

#[test]
fn storage_result_notices() {
    let t = mount_toast(&vec![], Some("busy".to_string()));
    assert_eq!((t.level, t.text.as_str()), (ToastLevel::Error, "Falha ao montar: busy"));
    let t = mount_toast(&vec![], None);
    assert_eq!(t.text, "Dispositivo sem partição montável — formate com [f] primeiro");
    let t = mount_toast(&vec!["/media/u/A".to_string()], Some("x".to_string()));
    assert_eq!((t.level, t.text.as_str()), (ToastLevel::Info, "Partição montada em /media/u/A"));
    let t = mount_toast(&vec!["/m/a".to_string(), "/m/b".to_string(), "/m/c".to_string()], None);
    assert_eq!(t.text, "3 partição(ões) montada(s) em: /m/a, /m/b, /m/c");
    let t = unmount_toast(0, Some("busy".to_string()));
    assert_eq!((t.level, t.text.as_str()), (ToastLevel::Error, "Falha ao desmontar (dispositivo em uso?): busy"));
    assert_eq!(unmount_toast(0, None).text, "nenhuma partição montada");
    assert_eq!(unmount_toast(12, Some("x".to_string())).text, "12 partição(ões) desmontada(s)");
    assert_eq!(partition_unmount_toast(Ok(())).text, "Dispositivo desmontado");
    assert_eq!(partition_unmount_toast(Err("e".to_string())).level, ToastLevel::Error);
}

#[test]
fn format_fallback_order() {
    assert_eq!(after_format("vfat", &Ok(())), FormatNext::Done);
    let missing = Err("Error formatting: Executable mkfs.vfat not found".to_string());
    assert_eq!(after_format("vfat", &missing), FormatNext::TryBuiltinFat32);
    assert_eq!(after_format("ext4", &missing), FormatNext::SudoFallback);
    assert_eq!(after_format("vfat", &Err("Not authorized".to_string())), FormatNext::SudoFallback);
    assert_eq!(after_builtin_fat32(true), FormatNext::DoneBuiltinFat32);
    assert_eq!(after_builtin_fat32(false), FormatNext::SudoFallback);
    assert_eq!(format_done_toast(false).text, "Formatação concluída");
    assert_eq!(format_done_toast(true).text, "Formatação concluída (FAT32 Rust puro)");
}

#[test]
fn network_loop_decisions() {
    assert_eq!(network_poll_interval_ms(500), 2000);
    assert_eq!(network_poll_interval_ms(5000), 5000);
    let f = network_follow_up(NetworkRequest::Rescan, Ok(true));
    assert_eq!((f.report, f.wait_ms, f.refresh), (NetworkReport::ScanStarted, 1500, true));
    let f = network_follow_up(NetworkRequest::ToggleRadio, Err("x".to_string()));
    assert_eq!((f.report, f.refresh), (NetworkReport::RadioFailed("x".to_string()), false));
    let f = network_follow_up(NetworkRequest::ToggleRadio, Ok(false));
    assert_eq!((f.report, f.refresh), (NetworkReport::RadioState(false), true));
    let f = network_follow_up(NetworkRequest::Connect("Casa".to_string()), Ok(true));
    assert_eq!((f.report, f.wait_ms), (NetworkReport::ConnectStarted("Casa".to_string()), 1000));
    let f = network_follow_up(NetworkRequest::Forget, Err("e".to_string()));
    assert_eq!((f.report, f.refresh), (NetworkReport::ForgetFailed("e".to_string()), true));
}

#[test]
fn link_addresses() {
    let a = addresses_from_ip4_config("/org/freedesktop/NetworkManager/IP4Config/3", "192.168.0.1".to_string(), vec![Some("192.168.0.20".to_string()), Some("10.0.0.2".to_string())]);
    assert_eq!(a.ipv4.as_deref(), Some("192.168.0.20"));
    assert_eq!(a.gateway.as_deref(), Some("192.168.0.1"));
    let b = addresses_from_ip4_config("/org/x", String::new(), vec![None]);
    assert!(b.ipv4.is_none() && b.gateway.is_none());
    let c = addresses_from_ip4_config("/", "1.1.1.1".to_string(), vec![Some("2.2.2.2".to_string())]);
    assert!(c.ipv4.is_none() && c.gateway.is_none());
}

#[test]
fn panels_keep_what_a_key_does_not_touch() {
    let mut p = PanelState::new(false);
    p.storage_selected = 3;
    p.handle_key(hal9001::app::PanelKey::NextTab);
    assert_eq!(p.storage_selected, 3);
    assert!(!p.show_config && !p.show_help);
    assert_eq!(p.active, Tab::Network);
}

#[test]
fn sudo_prompt_enter_and_cancel() {
    let mut a = app(StorageModal::Closed);
    a.sudo_prompt = Some(SudoPromptState::opening("formatar".to_string(), None));
    a.dispatch(ModalKey::Char('x'), PathMeta::Missing);
    assert!(matches!(a.dispatch(ModalKey::Enter, PathMeta::Missing), DialogOutput::SudoPassword(p) if p == "x"));
    assert!(a.sudo_prompt.is_none());
    a.sudo_prompt = Some(SudoPromptState::opening("formatar".to_string(), None));
    assert!(matches!(a.dispatch(ModalKey::Cancel, PathMeta::Missing), DialogOutput::SudoCancelled));
    assert!(a.sudo_prompt.is_none());
}

#[test]
fn tick_ends_splash_and_expires_toasts() {
    let mut a = app(StorageModal::Closed);
    assert!(a.on_tick(100, 1400, Some(3)));
    assert_eq!(a.panels.phase, Phase::Splash);
    assert!(!a.on_tick(1500, 1400, Some(4)));
    assert_eq!(a.panels.phase, Phase::Running);
    assert!(!a.on_tick(1500, 1400, None));
}

#[test]
fn manager_takes_listing_and_progress() {
    let mut m = StorageModal::MultibootIsoManager(MultibootIsoManagerState {
        device_id: "/p1".to_string(),
        target_label: "PEN".to_string(),
        stage: MultibootIsoManagerStage::Loading,
    });
    m.on_event(DialogEvent::IsoList { device_id: "/p1".to_string(), entries: vec![], free_bytes: Some(7) });
    assert!(matches!(&m, StorageModal::MultibootIsoManager(s) if matches!(s.stage, MultibootIsoManagerStage::Listing { selected: 0, free_bytes: Some(7), .. })));
    let mut f = StorageModal::Flasher(flasher(FlasherStage::Flashing { bytes_written: 0, total_bytes: 500, eta_secs: 0 }));
    f.on_event(DialogEvent::FlashProgress { bytes_written: 100, total_bytes: 500, eta_secs: 9 });
    assert!(matches!(&f, StorageModal::Flasher(s) if matches!(s.stage, FlasherStage::Flashing { bytes_written: 100, total_bytes: 500, eta_secs: 9 })));
    let mut g = StorageModal::Flasher(flasher(FlasherStage::Checksumming));
    g.on_event(DialogEvent::ChecksumDone { path: "/tmp/a.iso".to_string(), sha256: "ab".to_string() });
    assert!(matches!(&g, StorageModal::Flasher(s) if matches!(&s.stage, FlasherStage::Ready { sha256: Some(h) } if h == "ab")));
    let (_, shown) = g.on_event(DialogEvent::FlashDone { device_id: "/other".to_string(), result: Ok(String::new()), success_message: "ok".to_string() });
    assert!(!shown);
}
