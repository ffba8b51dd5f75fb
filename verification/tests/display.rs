use hal9001::display::{
    display_poll_interval_ms, hotplug_step, DisplaySnapshot,
    connected_output_names, count_connected, hotplug_changes, infer_layout, layout_commands,
    snapshot_of, DisplayLayoutMode, DisplayNode,
};
use hal9001::randr::{parse_hyprctl_monitors, parse_wlr_randr, parse_xrandr_query};

fn out(name: &str, connected: bool, active: bool, internal: bool, x: i32, y: i32) -> DisplayNode {
    DisplayNode {
        name: name.to_string(),
        is_connected: connected,
        is_primary: false,
        is_active: active,
        current_mode: None,
        supported_modes: Vec::new(),
        pos_x: x,
        pos_y: y,
        rotation: "normal".to_string(),
        is_internal: internal,
    }
}

fn cmd(program: &str, args: &[&str]) -> (String, Vec<String>) {
    (program.to_string(), args.iter().map(|a| a.to_string()).collect())
}

#[test]
fn layout_titles() {
    assert_eq!(DisplayLayoutMode::ExtendRight.title(), "Expandir à Direita");
    assert_eq!(DisplayLayoutMode::Mirror.ascii_badge(), "[ESPELHO   ]");
    assert_eq!(DisplayLayoutMode::all().len(), 5);
}

#[test]
fn inferred_layouts() {
    assert_eq!(infer_layout(&[]), None);
    assert_eq!(infer_layout(&[out("eDP-1", true, true, true, 0, 0)]), Some(DisplayLayoutMode::InternalOnly));
    assert_eq!(infer_layout(&[out("eDP-1", true, false, true, 0, 0), out("HDMI-1", true, true, false, 0, 0)]), Some(DisplayLayoutMode::ExternalOnly));
    assert_eq!(infer_layout(&[out("eDP-1", true, true, true, 0, 0), out("HDMI-1", true, true, false, 0, 0)]), Some(DisplayLayoutMode::Mirror));
    assert_eq!(infer_layout(&[out("eDP-1", true, true, true, 0, 0), out("HDMI-1", true, true, false, 1920, 0)]), Some(DisplayLayoutMode::ExtendRight));
    assert_eq!(infer_layout(&[out("eDP-1", true, true, true, 1920, 0), out("HDMI-1", true, true, false, 0, 0)]), Some(DisplayLayoutMode::ExtendLeft));
    assert_eq!(infer_layout(&[out("HDMI-1", true, true, false, 1920, 0), out("eDP-1", true, true, true, 0, 0)]), Some(DisplayLayoutMode::ExtendRight));
}

#[test]
fn xrandr_commands() {
    assert_eq!(
        layout_commands(DisplayLayoutMode::ExtendRight, "eDP-1", "HDMI-1", "X11 (RandR)"),
        vec![cmd("xrandr", &["--output", "eDP-1", "--auto", "--primary", "--output", "HDMI-1", "--auto", "--right-of", "eDP-1"])]
    );
    assert_eq!(
        layout_commands(DisplayLayoutMode::ExternalOnly, "eDP-1", "HDMI-1", "X11 (RandR)"),
        vec![cmd("xrandr", &["--output", "HDMI-1", "--auto", "--primary", "--output", "eDP-1", "--off"])]
    );
    assert!(layout_commands(DisplayLayoutMode::Custom, "eDP-1", "HDMI-1", "X11").is_empty());
}

#[test]
fn wayland_commands() {
    assert_eq!(
        layout_commands(DisplayLayoutMode::Mirror, "eDP-1", "DP-2", "Wayland (wlr-randr)"),
        vec![cmd("wlr-randr", &["--output", "eDP-1", "--on", "--output", "DP-2", "--on"])]
    );
    assert_eq!(
        layout_commands(DisplayLayoutMode::Mirror, "eDP-1", "DP-2", "Wayland (Hyprland)"),
        vec![cmd("hyprctl", &["keyword", "monitor", "DP-2,auto,auto,1,mirror,eDP-1"])]
    );
    assert_eq!(
        layout_commands(DisplayLayoutMode::InternalOnly, "eDP-1", "DP-2", "Wayland (Hyprland)"),
        vec![
            cmd("hyprctl", &["keyword", "monitor", "DP-2,disable"]),
            cmd("hyprctl", &["keyword", "monitor", "eDP-1,auto,auto,1"]),
        ]
    );
}

#[test]
fn hotplug() {
    let names = connected_output_names(&[out("eDP-1", true, true, true, 0, 0), out("HDMI-1", false, false, false, 0, 0), out("DP-1", true, false, false, 0, 0)]);
    assert_eq!(names, vec!["eDP-1".to_string(), "DP-1".to_string()]);
    let before = vec!["eDP-1".to_string(), "HDMI-1".to_string()];
    let after = vec!["eDP-1".to_string(), "DP-1".to_string()];
    let c = hotplug_changes(&before, &after, false);
    assert_eq!(c.connected, vec!["DP-1".to_string()]);
    assert_eq!(c.disconnected, vec!["HDMI-1".to_string()]);
    let c = hotplug_changes(&vec![], &after, true);
    assert!(c.connected.is_empty() && c.disconnected.is_empty());
}

#[test]
fn snapshot_queries() {
    let snap = snapshot_of(
        vec![
            out("HDMI-1", false, false, false, 0, 0),
            out("DP-1", true, true, false, 1920, 0),
            out("eDP-1", true, true, true, 0, 0),
        ],
        None,
    );
    assert_eq!(snap.connected_count, 2);
    assert_eq!(snap.current_layout, Some(DisplayLayoutMode::ExtendRight));
    assert_eq!(snap.server_type, "");
    assert_eq!(snap.internal_display().map(|d| d.name.as_str()), Some("eDP-1"));
    assert_eq!(snap.external_display().map(|d| d.name.as_str()), Some("DP-1"));
    let names: Vec<&str> = snap.connected_displays().iter().map(|d| d.name.as_str()).collect();
    assert_eq!(names, vec!["DP-1", "eDP-1"]);
    assert_eq!(count_connected(&snap.displays), 2);
}

const XRANDR: &str = "Screen 0: minimum 320 x 200, current 3286 x 1080, maximum 16384 x 16384
eDP-1 connected primary 1366x768+0+0 (normal left inverted right x axis y axis) 344mm x 193mm
   1366x768      60.00*+  48.00
   1280x720      59.86
HDMI-1 connected 1920x1080+1366+0 left (normal left inverted right x axis y axis) 527mm x 296mm
   1920x1080     60.00 +  50.00*
   1280x1024     75.02
DP-1 disconnected (normal left inverted right x axis y axis)
";

#[test]
fn xrandr_report() {
    let snap = parse_xrandr_query(XRANDR);
    assert_eq!(snap.displays.len(), 3);
    let e = &snap.displays[0];
    assert_eq!(e.name, "eDP-1");
    assert!(e.is_connected && e.is_primary && e.is_active && e.is_internal);
    assert_eq!((e.pos_x, e.pos_y), (0, 0));
    assert_eq!(e.rotation, "right");
    assert_eq!(e.supported_modes.len(), 2);
    let cur = e.current_mode.as_ref().unwrap();
    assert_eq!((cur.width, cur.height, cur.rate_text.as_str()), (1366, 768, "60.00"));
    assert!(cur.is_current && cur.is_preferred);
    let h = &snap.displays[1];
    assert_eq!((h.pos_x, h.pos_y), (1366, 0));
    assert!(!h.is_primary && !h.is_internal);
    assert_eq!(h.rotation, "right");
    assert_eq!(h.supported_modes[0].rate_text, "60.00");
    assert!(!h.supported_modes[0].is_preferred && !h.supported_modes[0].is_current);
    assert!(h.current_mode.is_none());
    let d = &snap.displays[2];
    assert!(!d.is_connected && !d.is_active);
    assert_eq!(snap.primary_name.as_deref(), Some("eDP-1"));
    assert_eq!(snap.connected_count, 2);
    assert_eq!(snap.current_layout, Some(DisplayLayoutMode::ExtendRight));
}

#[test]
fn xrandr_mode_without_rate_or_with_bad_size() {
    let snap = parse_xrandr_query("VGA-1 connected 800x600+0+0\n   800x600\n   axb     60.00\n");
    let v = &snap.displays[0];
    assert_eq!(v.supported_modes.len(), 1);
    assert_eq!(v.supported_modes[0].rate_text, "");
    assert_eq!(v.rotation, "normal");
    assert_eq!(snap.current_layout, Some(DisplayLayoutMode::ExternalOnly));
}

const WLR: &str = "eDP-1 \"Sharp Corporation 0x14D0 (eDP-1)\"
  Physical size: 290x170 mm
  Enabled: yes
  Modes:
    1920x1080 px, 60.002998 Hz (preferred, current)
    1280x720 px, 59.855000 Hz
  Position: 0,0
  Transform: normal
HDMI-A-1 \"Dell Inc. DELL U2419H\"
  Enabled: yes
  Modes:
    1920x1080 px, 60.000000 Hz (current)
  Position: 1920,0
  Transform: 90
";

#[test]
fn wlr_randr_report() {
    let snap = parse_wlr_randr(WLR);
    assert_eq!(snap.displays.len(), 2);
    let e = &snap.displays[0];
    assert!(e.is_primary && e.is_active && e.is_internal);
    assert_eq!(e.supported_modes.len(), 2);
    let cur = e.current_mode.as_ref().unwrap();
    assert_eq!((cur.width, cur.height, cur.rate_text.as_str()), (1920, 1080, "60.002998"));
    assert!(cur.is_preferred);
    let h = &snap.displays[1];
    assert!(!h.is_primary && !h.is_internal);
    assert_eq!((h.pos_x, h.pos_y), (1920, 0));
    assert_eq!(h.rotation, "90");
    assert_eq!(snap.primary_name.as_deref(), Some("eDP-1"));
    assert_eq!(snap.current_layout, Some(DisplayLayoutMode::ExtendRight));
}

const HYPR: &str = "Monitor eDP-1 (ID 0):
\t1920x1080@60.00000 at 0x0
\tdescription: Sharp
\ttransform: 0
\tdisabled: false
\tavailableModes: 1920x1080@60.00Hz 1280x720@59.94Hz bogus
Monitor HDMI-A-1 (ID 1):
\t2560x1440@144.00000 at -2560x0
\ttransform: 1
\tdisabled: true
";

#[test]
fn hyprctl_report() {
    let snap = parse_hyprctl_monitors(HYPR);
    assert_eq!(snap.displays.len(), 2);
    let e = &snap.displays[0];
    assert!(e.is_primary && e.is_active && e.is_internal);
    assert_eq!(e.rotation, "normal");
    assert_eq!(e.supported_modes.len(), 3);
    assert_eq!(e.supported_modes[1].rate_text, "60.00Hz");
    assert!(!e.supported_modes[1].is_current);
    let cur = e.current_mode.as_ref().unwrap();
    assert_eq!((cur.width, cur.height, cur.rate_text.as_str()), (1920, 1080, "60.00000"));
    let h = &snap.displays[1];
    assert_eq!((h.pos_x, h.pos_y), (-2560, 0));
    assert_eq!(h.rotation, "left");
    assert!(!h.is_active);
    assert_eq!(snap.primary_name.as_deref(), Some("eDP-1"));
    assert_eq!(snap.current_layout, Some(DisplayLayoutMode::InternalOnly));
}

#[test]
fn hotplug_extends_onto_a_new_monitor() {
    let snap = DisplaySnapshot {
        displays: vec![out("eDP-1", true, true, true, 0, 0), out("HDMI-1", true, true, false, 1920, 0)],
        primary_name: None,
        connected_count: 2,
        current_layout: None,
        server_type: "x11".to_string(),
    };
    let (changes, cmds, current) = hotplug_step(&vec!["eDP-1".to_string()], &snap, false);
    assert_eq!(changes.connected, vec!["HDMI-1".to_string()]);
    assert_eq!(current, vec!["eDP-1".to_string(), "HDMI-1".to_string()]);
    assert_eq!(cmds, Some(layout_commands(DisplayLayoutMode::ExtendRight, "eDP-1", "HDMI-1", "x11")));
    let (_, none, _) = hotplug_step(&vec![], &snap, true);
    assert!(none.is_none());
    let (_, same, _) = hotplug_step(&current, &snap, false);
    assert!(same.is_none());
    assert_eq!(display_poll_interval_ms(200), 1000);
}
