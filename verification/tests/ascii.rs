use hal9001::ascii::{glyph_runs, Glyph, GlyphRun, choose_size, select, LogoSize};

#[test]
fn logo_dimensions() {
    assert_eq!(LogoSize::Main.width(), 33);
    assert_eq!(LogoSize::Main.height(), 17);
    assert_eq!(LogoSize::Medium.width(), 27);
    assert_eq!(LogoSize::Medium.height(), 13);
    assert_eq!(LogoSize::Compact.width(), 20);
    assert_eq!(LogoSize::Compact.height(), 9);
}

#[test]
fn logo_selection() {
    assert_eq!(select("main", 0), Some(LogoSize::Main));
    assert_eq!(select("B", 100), Some(LogoSize::Compact));
    assert_eq!(select("off", 100), None);
    assert_eq!(select("auto", 40), Some(LogoSize::Main));
    assert_eq!(select("auto", 30), Some(LogoSize::Medium));
    assert_eq!(select("auto", 20), Some(LogoSize::Compact));
    assert_eq!(select("whatever", 19), None);
    assert_eq!(choose_size("auto", 10, [12, 10, 8]), Some(LogoSize::Medium));
}

#[test]
fn logo_line_runs() {
    let runs = glyph_runs("  ==##xx.o O");
    let expect = vec![
        GlyphRun { start: 0, end: 2, glyph: None },
        GlyphRun { start: 2, end: 4, glyph: Some(Glyph::RingGap) },
        GlyphRun { start: 4, end: 6, glyph: Some(Glyph::RingTeeth) },
        GlyphRun { start: 6, end: 8, glyph: Some(Glyph::HubTeeth) },
        GlyphRun { start: 8, end: 9, glyph: Some(Glyph::EyeHalo) },
        GlyphRun { start: 9, end: 10, glyph: Some(Glyph::EyeIris) },
        GlyphRun { start: 10, end: 11, glyph: None },
        GlyphRun { start: 11, end: 12, glyph: Some(Glyph::EyeCore) },
    ];
    assert_eq!(runs, expect);
    assert!(glyph_runs("").is_empty());
    assert_eq!(glyph_runs("+++"), vec![GlyphRun { start: 0, end: 3, glyph: Some(Glyph::HubGap) }]);
}
