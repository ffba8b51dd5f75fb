use hal9001::config::{Config, ConfigPanel, UiConfig};
use hal9001::i18n::Language;

#[test]
fn languages_parse_their_codes() {
    for l in [Language::PtBr, Language::EnUs, Language::EsEs] {
        assert_eq!(Language::parse(l.code()), Some(l));
    }
    assert_eq!(Language::parse(" EN_us "), Some(Language::EnUs));
    assert_eq!(Language::parse("pt"), Some(Language::PtBr));
    assert_eq!(Language::parse("fr-FR"), None);
    assert_eq!(Language::parse("ÉS"), None);
    assert_eq!(Language::from_clean_tag("es-mx"), Some(Language::EsEs));
    assert_eq!(Language::default(), Language::PtBr);
}

#[test]
fn language_names_and_catalogue() {
    assert_eq!(Language::EsEs.name(), "Español");
    assert_eq!(Language::PtBr.messages().tab_storage, "Discos");
    assert_eq!(Language::EnUs.messages().tab_storage, "Storage");
    assert_eq!(Language::EnUs.messages().profile_balanced, "Balanced");
}

fn ui(language: &str) -> UiConfig {
    UiConfig { frame_ms: 33, icons: true, language: language.to_string() }
}

#[test]
fn configured_language() {
    assert_eq!(ui("auto").resolved_language(Language::EsEs), Language::EsEs);
    assert_eq!(ui(" AUTO ").resolved_language(Language::EnUs), Language::EnUs);
    assert_eq!(ui("").resolved_language(Language::EnUs), Language::EnUs);
    assert_eq!(ui("en").resolved_language(Language::PtBr), Language::EnUs);
    assert_eq!(ui("klingon").resolved_language(Language::EsEs), Language::EsEs);
}

#[test]
fn default_configuration() {
    let c = Config::default();
    assert_eq!(c.ui.frame_ms, 33);
    assert!(c.ui.icons);
    assert_eq!(c.ui.language, "auto");
    assert_eq!(c.theme.name, "hal");
    assert_eq!(c.polling.storage_ms, 8000);
    assert_eq!(c.splash.min_ms, 1400);
    assert_eq!(c.overview.ascii, "auto");
}

#[test]
fn settings_panel_cycles_values() {
    let mut p = ConfigPanel { config: Config::default(), cursor: 0, lang: Language::PtBr };
    p.next_value(Language::EsEs);
    assert_eq!(p.config.ui.language, "pt-BR");
    p.next_value(Language::EsEs);
    assert_eq!(p.config.ui.language, "en-US");
    assert_eq!(p.lang, Language::EnUs);
    p.prev_value(Language::EsEs);
    p.prev_value(Language::EsEs);
    assert_eq!(p.config.ui.language, "auto");
    assert_eq!(p.lang, Language::EsEs);
    p.prev_value(Language::EsEs);
    assert_eq!(p.config.ui.language, "es-ES");

    p.cursor = 1;
    p.config.theme.name = "NORD".to_string();
    p.next_value(Language::PtBr);
    assert_eq!(p.config.theme.name, "gruvbox");

    p.cursor = 6;
    p.next_value(Language::PtBr);
    assert_eq!(p.config.polling.system_ms, 750);
    assert_eq!(p.config.polling.bluetooth_ms, 1500);
    assert_eq!(p.config.polling.network_ms, 2250);
    assert_eq!(p.config.polling.display_ms, 1250);
    assert_eq!(p.config.polling.storage_ms, 3000);
    assert_eq!(p.config.polling.power_ms, 5000);

    p.cursor = 4;
    p.config.ui.frame_ms = 99;
    p.prev_value(Language::PtBr);
    assert_eq!(p.config.ui.frame_ms, 66);
}

#[test]
fn settings_cursor_wraps() {
    let mut p = ConfigPanel { config: Config::default(), cursor: 0, lang: Language::PtBr };
    p.prev_field();
    assert_eq!(p.cursor, 6);
    p.next_field();
    assert_eq!(p.cursor, 0);
}
