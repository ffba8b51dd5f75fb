//! User configuration: its sections, their defaults, the language it selects,
//! and the editor panel that cycles each setting through its choices.

use vstd::prelude::*;
use crate::i18n::{Language, language_of_tag};
use crate::text::{
    chars_of, eq_ascii_ci, eq_ignore_ascii_case, eq_ignore_ascii_case_str, trim, trim_of,
    unicode_lower,
};

verus! {

/// The whole configuration file.
#[derive(Debug, Clone)]
pub struct Config {
    pub ui: UiConfig,
    pub theme: ThemeConfig,
    pub polling: PollingConfig,
    pub splash: SplashConfig,
    pub overview: OverviewConfig,
}

/// Interface settings.
#[derive(Debug, Clone)]
pub struct UiConfig {
    pub frame_ms: u64,
    pub icons: bool,
    pub language: String,
}

/// Colour theme.
#[derive(Debug, Clone)]
pub struct ThemeConfig {
    pub name: String,
}

/// How often each panel's backend refreshes, in milliseconds.
#[derive(Debug, Clone, Copy, PartialEq, Eq, Structural)]
pub struct PollingConfig {
    pub system_ms: u64,
    pub network_ms: u64,
    pub bluetooth_ms: u64,
    pub audio_ms: u64,
    pub display_ms: u64,
    pub power_ms: u64,
    pub storage_ms: u64,
}

/// The start-up splash screen.
#[derive(Debug, Clone, Copy, PartialEq, Eq, Structural)]
pub struct SplashConfig {
    pub min_ms: u64,
    pub enabled: bool,
}

/// The overview panel's ASCII logo choice.
#[derive(Debug, Clone)]
pub struct OverviewConfig {
    pub ascii: String,
}

/// The values of a configuration, strings taken as character sequences.
pub struct ConfigView {
    pub frame_ms: u64,
    pub icons: bool,
    pub language: Seq<char>,
    pub theme: Seq<char>,
    pub polling: PollingConfig,
    pub splash: SplashConfig,
    pub ascii: Seq<char>,
}

impl View for Config {
    type V = ConfigView;

    open spec fn view(&self) -> ConfigView {
        ConfigView {
            frame_ms: self.ui.frame_ms,
            icons: self.ui.icons,
            language: self.ui.language@,
            theme: self.theme.name@,
            polling: self.polling,
            splash: self.splash,
            ascii: self.overview.ascii@,
        }
    }
}

impl Default for UiConfig {
    fn default() -> (r: UiConfig)
        ensures
            r.frame_ms == 33,
            r.icons,
            r.language@ == "auto"@,
    {
        UiConfig { frame_ms: 33, icons: true, language: String::from_str("auto") }
    }
}

impl Default for ThemeConfig {
    fn default() -> (r: ThemeConfig)
        ensures
            r.name@ == "hal"@,
    {
        ThemeConfig { name: String::from_str("hal") }
    }
}

pub open spec fn default_polling() -> PollingConfig {
    PollingConfig {
        system_ms: 1500,
        network_ms: 5000,
        bluetooth_ms: 3000,
        audio_ms: 1500,
        display_ms: 2000,
        power_ms: 5000,
        storage_ms: 8000,
    }
}

impl Default for PollingConfig {
    fn default() -> (r: PollingConfig)
        ensures
            r == default_polling(),
    {
        PollingConfig {
            system_ms: 1500,
            network_ms: 5000,
            bluetooth_ms: 3000,
            audio_ms: 1500,
            display_ms: 2000,
            power_ms: 5000,
            storage_ms: 8000,
        }
    }
}

impl Default for SplashConfig {
    fn default() -> (r: SplashConfig)
        ensures
            r == (SplashConfig { min_ms: 1400, enabled: true }),
    {
        SplashConfig { min_ms: 1400, enabled: true }
    }
}

impl Default for OverviewConfig {
    fn default() -> (r: OverviewConfig)
        ensures
            r.ascii@ == "auto"@,
    {
        OverviewConfig { ascii: String::from_str("auto") }
    }
}

/// The configuration used when no file is found.
pub open spec fn default_config() -> ConfigView {
    ConfigView {
        frame_ms: 33,
        icons: true,
        language: "auto"@,
        theme: "hal"@,
        polling: default_polling(),
        splash: SplashConfig { min_ms: 1400, enabled: true },
        ascii: "auto"@,
    }
}

impl Default for Config {
    fn default() -> (r: Config)
        ensures
            r@ == default_config(),
    {
        Config {
            ui: UiConfig::default(),
            theme: ThemeConfig::default(),
            polling: PollingConfig::default(),
            splash: SplashConfig::default(),
            overview: OverviewConfig::default(),
        }
    }
}

/// The language a configured value selects: `"auto"` (any case) or blank
/// means the one detected from the environment, and so does a value that
/// names no known language.
pub open spec fn resolved(language: Seq<char>, detected: Language) -> Language {
    if eq_ascii_ci(trim(language), "auto"@) || trim(language).len() == 0 {
        detected
    } else {
        match language_of_tag(unicode_lower(trim(language))) {
            Some(l) => l,
            None => detected,
        }
    }
}

impl UiConfig {
    /// The interface language this configuration selects, given the one the
    /// environment asks for.
    pub fn resolved_language(&self, detected: Language) -> (r: Language)
        ensures
            r == resolved(self.language@, detected),
    {
        let lv = chars_of(self.language.as_str());
        let t = trim_of(&lv);
        if eq_ignore_ascii_case_str(&t, "auto") || t.len() == 0 {
            detected
        } else {
            match Language::parse(self.language.as_str()) {
                Some(l) => l,
                None => detected,
            }
        }
    }
}

/// The choices of the language setting.
pub open spec fn language_choices() -> Seq<Seq<char>> {
    seq!["auto"@, "pt-BR"@, "en-US"@, "es-ES"@]
}

/// The choices of the theme setting.
pub open spec fn theme_choices() -> Seq<Seq<char>> {
    seq!["hal"@, "catppuccin"@, "tokyo-night"@, "nord"@, "gruvbox"@, "cyberpunk"@, "dracula"@, "mono"@]
}

/// The choices of the logo setting.
pub open spec fn ascii_choices() -> Seq<Seq<char>> {
    seq!["auto"@, "main"@, "medium"@, "compact"@, "none"@]
}

/// The choices of the frame interval, in milliseconds.
pub open spec fn frame_choices() -> Seq<u64> {
    seq![33u64, 16u64, 66u64]
}

/// The choices of the base refresh interval, in milliseconds.
pub open spec fn polling_choices() -> Seq<u64> {
    seq![1500u64, 750u64, 3000u64]
}

/// Position of the first choice equal to `v` ignoring ASCII case, else 0.
pub open spec fn position_ci(opts: Seq<Seq<char>>, v: Seq<char>) -> int {
    if exists|i: int| 0 <= i < opts.len() && eq_ascii_ci(opts[i], v) {
        choose|i: int|
            0 <= i < opts.len() && eq_ascii_ci(opts[i], v) && forall|j: int|
                0 <= j < i ==> !eq_ascii_ci(opts[j], v)
    } else {
        0
    }
}

/// Position of the first choice equal to `v`, else 0.
pub open spec fn position_eq(opts: Seq<u64>, v: u64) -> int {
    if exists|i: int| 0 <= i < opts.len() && opts[i] == v {
        choose|i: int| 0 <= i < opts.len() && opts[i] == v && forall|j: int| 0 <= j < i ==> opts[j] != v
    } else {
        0
    }
}

/// One step forwards or backwards in a ring of `n` choices.
pub open spec fn step(cur: int, n: int, forward: bool) -> int {
    if forward {
        (cur + 1) % n
    } else {
        (cur + n - 1) % n
    }
}

/// The refresh intervals derived from a base interval.
pub open spec fn polling_from_base(p: PollingConfig, base: u64) -> PollingConfig {
    PollingConfig {
        system_ms: base,
        audio_ms: base,
        bluetooth_ms: (base * 2) as u64,
        network_ms: (base * 3) as u64,
        display_ms: (base + 500) as u64,
        storage_ms: (base * 4) as u64,
        power_ms: p.power_ms,
    }
}

/// The configuration after the setting at `cursor` moved one choice.
pub open spec fn cycled(c: ConfigView, cursor: int, forward: bool) -> ConfigView {
    if cursor == 0 {
        ConfigView {
            language: language_choices()[step(position_ci(language_choices(), c.language), 4, forward)],
            ..c
        }
    } else if cursor == 1 {
        ConfigView { theme: theme_choices()[step(position_ci(theme_choices(), c.theme), 8, forward)], ..c }
    } else if cursor == 2 {
        ConfigView { ascii: ascii_choices()[step(position_ci(ascii_choices(), c.ascii), 5, forward)], ..c }
    } else if cursor == 3 {
        ConfigView { icons: !c.icons, ..c }
    } else if cursor == 4 {
        ConfigView { frame_ms: frame_choices()[step(position_eq(frame_choices(), c.frame_ms), 3, forward)], ..c }
    } else if cursor == 5 {
        ConfigView { splash: SplashConfig { enabled: !c.splash.enabled, ..c.splash }, ..c }
    } else if cursor == 6 {
        ConfigView {
            polling: polling_from_base(
                c.polling,
                polling_choices()[step(position_eq(polling_choices(), c.polling.system_ms), 3, forward)],
            ),
            ..c
        }
    } else {
        c
    }
}

fn position_ci_of(opts: &[&'static str], v: &[char]) -> (r: usize)
    requires
        opts@.len() > 0,
    ensures
        r == position_ci(opts@.map_values(|s: &'static str| s@), v@),
        r < opts@.len(),
{
    let ghost names = opts@.map_values(|s: &'static str| s@);
    let mut i: usize = 0;
    while i < opts.len()
        invariant
            i <= opts@.len(),
            names == opts@.map_values(|s: &'static str| s@),
            forall|j: int| 0 <= j < i ==> !eq_ascii_ci(#[trigger] names[j], v@),
        decreases opts@.len() - i,
    {
        let ov = chars_of(opts[i]);
        if eq_ignore_ascii_case(&ov, v) {
            proof {
                assert(eq_ascii_ci(names[i as int], v@));
                let k = choose|k: int|
                    0 <= k < names.len() && eq_ascii_ci(names[k], v@) && forall|j: int|
                        0 <= j < k ==> !eq_ascii_ci(names[j], v@);
                if k < i {
                    assert(!eq_ascii_ci(names[k], v@));
                }
                if (i as int) < k {
                    assert(!eq_ascii_ci(names[i as int], v@));
                }
            }
            return i;
        }
        i = i + 1;
    }
    0
}

fn position_eq_of(opts: &[u64], v: u64) -> (r: usize)
    requires
        opts@.len() > 0,
    ensures
        r == position_eq(opts@, v),
        r < opts@.len(),
{
    let mut i: usize = 0;
    while i < opts.len()
        invariant
            i <= opts@.len(),
            forall|j: int| 0 <= j < i ==> opts@[j] != v,
        decreases opts@.len() - i,
    {
        if opts[i] == v {
            proof {
                let k = choose|k: int| 0 <= k < opts@.len() && opts@[k] == v && forall|j: int| 0 <= j < k ==> opts@[j] != v;
                if k < i {
                    assert(opts@[k] != v);
                }
                if (i as int) < k {
                    assert(opts@[i as int] != v);
                }
            }
            return i;
        }
        i = i + 1;
    }
    0
}

fn step_of(cur: usize, n: usize, forward: bool) -> (r: usize)
    requires
        cur < n,
        n < 100,
    ensures
        r == step(cur as int, n as int, forward),
        r < n,
{
    if forward {
        (cur + 1) % n
    } else {
        (cur + n - 1) % n
    }
}

/// The settings panel: the configuration being edited, the setting under the
/// cursor (one of seven) and the interface language in effect.
pub struct ConfigPanel {
    pub config: Config,
    pub cursor: usize,
    pub lang: Language,
}

impl ConfigPanel {
    /// Moves the cursor to the previous setting, wrapping to the last.
    pub fn prev_field(&mut self)
        ensures
            final(self).cursor == if old(self).cursor == 0 { 6 } else { (old(self).cursor - 1) as usize },
            final(self).config@ == old(self).config@,
            final(self).lang == old(self).lang,
    {
        self.cursor = if self.cursor == 0 { 6 } else { self.cursor - 1 };
    }

    /// Moves the cursor to the next setting, wrapping to the first.
    pub fn next_field(&mut self)
        requires
            old(self).cursor < usize::MAX,
        ensures
            final(self).cursor == (old(self).cursor + 1) % 7,
            final(self).config@ == old(self).config@,
            final(self).lang == old(self).lang,
    {
        self.cursor = (self.cursor + 1) % 7;
    }

    /// Moves the setting under the cursor one choice back.
    pub fn prev_value(&mut self, detected: Language)
        ensures
            final(self).config@ == cycled(old(self).config@, old(self).cursor as int, false),
            final(self).cursor == old(self).cursor,
            final(self).lang == if old(self).cursor == 0 {
                resolved(final(self).config@.language, detected)
            } else {
                old(self).lang
            },
    {
        self.cycle_value(false, detected)
    }

    /// Moves the setting under the cursor one choice forward.
    pub fn next_value(&mut self, detected: Language)
        ensures
            final(self).config@ == cycled(old(self).config@, old(self).cursor as int, true),
            final(self).cursor == old(self).cursor,
            final(self).lang == if old(self).cursor == 0 {
                resolved(final(self).config@.language, detected)
            } else {
                old(self).lang
            },
    {
        self.cycle_value(true, detected)
    }

    /// Moves the setting under the cursor one choice; a new language setting
    /// takes effect at once (with `detected` standing for `"auto"`).
    pub fn cycle_value(&mut self, forward: bool, detected: Language)
        ensures
            final(self).config@ == cycled(old(self).config@, old(self).cursor as int, forward),
            final(self).cursor == old(self).cursor,
            final(self).lang == if old(self).cursor == 0 {
                resolved(final(self).config@.language, detected)
            } else {
                old(self).lang
            },
    {
        let cursor = self.cursor;
        if cursor == 0 {
            let options: [&'static str; 4] = ["auto", "pt-BR", "en-US", "es-ES"];
            let lv = chars_of(self.config.ui.language.as_str());
            let cur = position_ci_of(&options, &lv);
            let next = step_of(cur, 4, forward);
            self.config.ui.language = String::from_str(options[next]);
            self.lang = self.config.ui.resolved_language(detected);
            proof {
                assert(options@.map_values(|s: &'static str| s@) =~= language_choices());
            }
        } else if cursor == 1 {
            let options: [&'static str; 8] = ["hal", "catppuccin", "tokyo-night", "nord", "gruvbox", "cyberpunk", "dracula", "mono"];
            let tv = chars_of(self.config.theme.name.as_str());
            let cur = position_ci_of(&options, &tv);
            let next = step_of(cur, 8, forward);
            self.config.theme.name = String::from_str(options[next]);
            proof {
                assert(options@.map_values(|s: &'static str| s@) =~= theme_choices());
            }
        } else if cursor == 2 {
            let options: [&'static str; 5] = ["auto", "main", "medium", "compact", "none"];
            let av = chars_of(self.config.overview.ascii.as_str());
            let cur = position_ci_of(&options, &av);
            let next = step_of(cur, 5, forward);
            self.config.overview.ascii = String::from_str(options[next]);
            proof {
                assert(options@.map_values(|s: &'static str| s@) =~= ascii_choices());
            }
        } else if cursor == 3 {
            self.config.ui.icons = !self.config.ui.icons;
        } else if cursor == 4 {
            let options: [u64; 3] = [33, 16, 66];
            let cur = position_eq_of(&options, self.config.ui.frame_ms);
            let next = step_of(cur, 3, forward);
            self.config.ui.frame_ms = options[next];
            proof {
                assert(options@ =~= frame_choices());
            }
        } else if cursor == 5 {
            self.config.splash.enabled = !self.config.splash.enabled;
        } else if cursor == 6 {
            let options: [u64; 3] = [1500, 750, 3000];
            let cur = position_eq_of(&options, self.config.polling.system_ms);
            let next = step_of(cur, 3, forward);
            let base = options[next];
            proof {
                assert(options@ =~= polling_choices());
            }
            self.config.polling.system_ms = base;
            self.config.polling.audio_ms = base;
            self.config.polling.bluetooth_ms = base * 2;
            self.config.polling.network_ms = base * 3;
            self.config.polling.display_ms = base + 500;
            self.config.polling.storage_ms = base * 4;
        }
    }
}

} // verus!
