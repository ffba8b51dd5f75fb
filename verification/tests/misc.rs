use hal9001::audio::AudioCategory;
use hal9001::events::{DeviceId, Toast, ToastLevel};

#[test]
fn toasts() {
    let t = Toast::warn("cuidado".to_string());
    assert_eq!(t.level, ToastLevel::Warning);
    assert_eq!(t.text, "cuidado");
    assert_eq!(Toast::error("x".to_string()).level, ToastLevel::Error);
    assert_eq!(DeviceId("/a".to_string()).duplicate(), DeviceId("/a".to_string()));
}

#[test]
fn audio_categories() {
    assert_eq!(AudioCategory::all(), [AudioCategory::Sink, AudioCategory::AppStream, AudioCategory::Source]);
    assert_eq!(AudioCategory::Sink.title(), "Saídas de Som");
    assert_eq!(AudioCategory::Source.ascii_badge(), "[MIC ]");
    assert_eq!(AudioCategory::AppStream.nerd_glyph(), "\u{f0614}");
}
