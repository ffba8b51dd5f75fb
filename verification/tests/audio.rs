use hal9001::audio::{
    parse_pactl_nodes, parse_pactl_output, parse_wpctl_reading, parse_wpctl_status, AudioCategory, VolumeText,
};

const WPCTL: &str = "PipeWire 'pipewire-0' [1.0.5, user@host, cookie:123]
 \u{2514}\u{2500} Clients:
        33. WirePlumber                         [1.0.5, user@host, pid:1234]

Audio
 \u{251c}\u{2500} Devices:
 \u{2502}      45. Built-in Audio                      [alsa]
 \u{2502}
 \u{251c}\u{2500} Sinks:
 \u{2502}  *   52. Built-in Audio Analog Stereo        [vol: 0.55]
 \u{2502}      60. HDMI Output                         [vol: 1.00 MUTED]
 \u{2502}
 \u{251c}\u{2500} Sink endpoints:
 \u{2502}
 \u{251c}\u{2500} Sources:
 \u{2502}  *   53. Built-in Audio Analog Stereo        [vol: abc]
 \u{2502}
 \u{251c}\u{2500} Filters:
 \u{2502}
 \u{2514}\u{2500} Streams:
        70. Firefox
             71. output_FL       > alsa_output:playback_FL
        72. Spotify                             [vol: 0.80]

Video
 \u{251c}\u{2500} Sinks:
";

#[test]
fn wpctl_status_report() {
    let snap = parse_wpctl_status(WPCTL);
    assert_eq!(snap.server_name, "PipeWire (WirePlumber)");
    assert_eq!(snap.sinks.len(), 2);
    let s = &snap.sinks[0];
    assert_eq!((s.id, s.name.as_str(), s.description.as_str()), (52, "Built-in Audio Analog Stereo", "Built-in Audio Analog Stereo"));
    assert!(s.is_default && !s.is_muted);
    assert_eq!(s.volume, Some(VolumeText { text: "0.55".to_string(), percent: false }));
    assert_eq!(s.category, AudioCategory::Sink);
    let h = &snap.sinks[1];
    assert!(h.is_muted && !h.is_default);
    assert_eq!(h.volume.as_ref().map(|v| v.text.as_str()), Some("1.00"));
    assert_eq!(snap.default_sink_id, Some(52));
    assert_eq!(snap.sources.len(), 1);
    assert_eq!(snap.sources[0].volume, None);
    assert_eq!(snap.default_source_id, Some(53));
    let apps: Vec<(u32, &str)> = snap.apps.iter().map(|a| (a.id, a.name.as_str())).collect();
    assert_eq!(apps, vec![(70, "Firefox"), (72, "Spotify")]);
    assert_eq!(snap.apps[0].volume, None);
    assert!(snap.apps.iter().all(|a| a.category == AudioCategory::AppStream));
}

#[test]
fn wpctl_nameless_node_gets_generic_name() {
    let snap = parse_wpctl_status("Audio\n \u{251c}\u{2500} Sinks:\n \u{2502}      9. [vol: 0.10]\n");
    assert_eq!(snap.sinks.len(), 1);
    assert_eq!(snap.sinks[0].name, "Dispositivo de \u{c1}udio");
    assert_eq!(snap.sinks[0].description, "");
}

const PACTL_SINKS: &str = "Sink #0
\tState: RUNNING
\tName: alsa_output.pci
\tDescription: Built-in Audio Analog Stereo
\tMute: no
\tVolume: front-left: 32768 /  50% / -18.06 dB,   front-right: 32768 /  50% / -18.06 dB
\t        balance 0.00

Sink #3
\tMute: yes
\tVolume: front-left: 65536 / 100% / 0.00 dB
";

#[test]
fn pactl_sinks_report() {
    let nodes = parse_pactl_nodes(PACTL_SINKS, AudioCategory::Sink);
    assert_eq!(nodes.len(), 2);
    assert_eq!(nodes[0].id, 0);
    assert_eq!(nodes[0].name, "Built-in Audio Analog Stereo");
    assert_eq!(nodes[0].description, "Built-in Audio Analog Stereo");
    assert!(!nodes[0].is_muted);
    assert_eq!(nodes[0].volume, Some(VolumeText { text: "50".to_string(), percent: true }));
    assert_eq!(nodes[1].id, 3);
    assert_eq!(nodes[1].name, "Audio Node 3");
    assert_eq!(nodes[1].description, "");
    assert!(nodes[1].is_muted);
    assert_eq!(nodes[1].volume.as_ref().map(|v| v.text.as_str()), Some("100"));
}

#[test]
fn pactl_output_defaults_are_first_nodes() {
    let apps = "Sink Input #12\n\tproperties:\n\t\tapplication.name = \"Firefox\"\n";
    let snap = parse_pactl_output(PACTL_SINKS, apps, "Source #7\n\tDescription: Mic\n");
    assert_eq!(snap.server_name, "PulseAudio");
    assert_eq!(snap.default_sink_id, Some(0));
    assert_eq!(snap.default_source_id, Some(7));
    assert_eq!(snap.apps.len(), 1);
    assert_eq!(snap.apps[0].name, "Firefox");
    assert_eq!(snap.apps[0].category, AudioCategory::AppStream);
    assert_eq!(snap.sources[0].name, "Mic");
    assert_eq!(snap.nodes_for_category(AudioCategory::Source).len(), 1);
    let empty = parse_pactl_output("", "", "");
    assert_eq!(empty.default_sink_id, None);
    assert!(empty.sinks.is_empty());
}

#[test]
fn parses_wpctl_volume() {
    assert_eq!(parse_wpctl_reading("Volume: 0.55\n"), Some(("0.55".to_string(), false)));
    assert_eq!(parse_wpctl_reading("Volume: 0.55 [MUTED]\n"), Some(("0.55".to_string(), true)));
    assert_eq!(parse_wpctl_reading("Volume: 1.00 [MUTED]\n"), Some(("1.00".to_string(), true)));
    assert_eq!(parse_wpctl_reading("lixo"), None);
    assert_eq!(parse_wpctl_reading("Volume:   \n"), None);
}
