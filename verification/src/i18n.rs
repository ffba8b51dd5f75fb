//! Interface languages and the message catalogue of each.

use vstd::prelude::*;
use crate::text::{trim_start, trim_end, lower_char, trim, trim_of, string_of, to_lowercase, unicode_lower, has_prefix, starts_with_str, chars_of, lower, all_ascii, is_ws};

verus! {

/// Languages the interface can be shown in.
#[derive(Debug, Clone, Copy, PartialEq, Eq, Structural)]
pub enum Language {
    /// Brazilian Portuguese, the default.
    PtBr,
    /// English (US).
    EnUs,
    /// Spanish.
    EsEs,
}

impl Default for Language {
    fn default() -> (r: Language)
        ensures
            r == Language::PtBr,
    {
        Language::PtBr
    }
}

/// The language a (trimmed, lower-cased) tag selects: the first two letters decide.
pub open spec fn language_of_tag(clean: Seq<char>) -> Option<Language> {
    if has_prefix(clean, "pt"@) {
        Some(Language::PtBr)
    } else if has_prefix(clean, "en"@) {
        Some(Language::EnUs)
    } else if has_prefix(clean, "es"@) {
        Some(Language::EsEs)
    } else {
        None
    }
}

pub open spec fn code_of(lang: Language) -> Seq<char> {
    match lang {
        Language::PtBr => "pt-BR"@,
        Language::EnUs => "en-US"@,
        Language::EsEs => "es-ES"@,
    }
}

pub open spec fn name_of(lang: Language) -> Seq<char> {
    match lang {
        Language::PtBr => "Português (Brasil)"@,
        Language::EnUs => "English (US)"@,
        Language::EsEs => "Español"@,
    }
}

impl Language {
    /// Reads a language tag such as `"pt-BR"`, `"en_US"` or `"es"`: surrounding
    /// whitespace is ignored, case does not matter, and the first two letters decide.
    pub fn parse(raw: &str) -> (r: Option<Language>)
        ensures
            r == language_of_tag(unicode_lower(trim(raw@))),
            all_ascii(trim(raw@)) ==> r == language_of_tag(lower(trim(raw@))),
    {
        let rv = chars_of(raw);
        let tv = trim_of(&rv);
        let ts = string_of(&tv);
        let low = to_lowercase(ts.as_str());
        Language::from_clean_tag(low.as_str())
    }

    /// The language a trimmed, lower-cased tag selects.
    pub fn from_clean_tag(clean: &str) -> (r: Option<Language>)
        ensures
            r == language_of_tag(clean@),
    {
        let lv = chars_of(clean);
        if starts_with_str(&lv, "pt") {
            Some(Language::PtBr)
        } else if starts_with_str(&lv, "en") {
            Some(Language::EnUs)
        } else if starts_with_str(&lv, "es") {
            Some(Language::EsEs)
        } else {
            None
        }
    }

    /// The language's tag: `"pt-BR"`, `"en-US"` or `"es-ES"`.
    pub fn code(self) -> (r: &'static str)
        ensures
            r@ == code_of(self),
    {
        match self {
            Language::PtBr => "pt-BR",
            Language::EnUs => "en-US",
            Language::EsEs => "es-ES",
        }
    }

    /// The language's name, written in that language.
    pub fn name(self) -> (r: &'static str)
        ensures
            r@ == name_of(self),
    {
        match self {
            Language::PtBr => "Português (Brasil)",
            Language::EnUs => "English (US)",
            Language::EsEs => "Español",
        }
    }

    /// The message catalogue of the language.
    pub fn messages(self) -> (r: Messages)
        ensures
            r == catalogue(self),
    {
        match self {
            Language::PtBr => Messages {
                app_title_suffix: "Assistente de Sistema",
                splash_title: "HAL-9001 · Assistente de Sistema",
                splash_loading: "CARREGANDO",
                splash_welcome: "Bem-vindo",
                tab_overview: "Overview",
                tab_network: "Rede",
                tab_bluetooth: "Bluetooth",
                tab_storage: "Discos",
                tab_power: "Energia",
                tab_updates: "Atualizações",
                tab_files: "Arquivos",
                tab_terminal: "Terminal",
                tab_audio: "Áudio",
                tab_displays: "Telas",
                sec_compute: "Available Compute / Hardware",
                sec_system: "System & Platform",
                sec_peripherals: "Peripherals & Power",
                sec_palette: "Color Palette",
                label_host: "Host",
                label_os: "SO",
                label_kernel: "Kernel",
                label_uptime: "Uptime",
                label_shell: "Shell",
                label_packages: "Pacotes",
                label_battery: "Bateria",
                label_brightness: "Brilho",
                label_volume: "Volume",
                label_ram: "RAM",
                label_swap: "Swap",
                label_disk_root: "Disco (/)",
                label_cpu_usage: "Uso CPU",
                label_power_profile: "Perfil",
                label_board: "Placa-Mãe",
                label_bios: "BIOS",
                label_gpu: "GPU",
                label_cpu_cores: "CPU Núcleos",
                label_cpu_freq: "Frequência",
                label_temperature: "Temperatura",
                label_desktop: "Desktop/WM",
                profile_power_saver: "Economia",
                profile_balanced: "Equilibrado",
                profile_performance: "Desempenho",
                battery_charging: "Carregando",
                battery_discharging: "Descarregando",
                battery_full: "Completa",
                battery_not_charging: "Sem carga",
                battery_unknown: "Desconhecido",
                hint_mode_detailed: "[.] Detalhes",
                hint_mode_normal: "[.] Normal",
                hint_profile: "[p] Perfil",
                hint_brightness: "[b/B] Brilho",
                hint_volume: "[v/V] Volume",
                hint_mute: "[m] Mudo",
                hint_config: "[c] Config",
                hint_quit: "[q] Sair",
                hint_help: "[?] Ajuda",
                toast_profile_prefix: "Perfil de Energia",
                toast_brightness_prefix: "Brilho",
                toast_volume_prefix: "Volume",
                toast_muted: "Áudio mudo",
                toast_unmuted: "Áudio ativo",
                toast_unavailable: "indisponível",
            },
            Language::EnUs => Messages {
                app_title_suffix: "System Assistant",
                splash_title: "HAL-9001 · System Assistant",
                splash_loading: "LOADING",
                splash_welcome: "Welcome",
                tab_overview: "Overview",
                tab_network: "Network",
                tab_bluetooth: "Bluetooth",
                tab_storage: "Storage",
                tab_power: "Power",
                tab_updates: "Updates",
                tab_files: "Files",
                tab_terminal: "Terminal",
                tab_audio: "Audio",
                tab_displays: "Displays",
                sec_compute: "Available Compute / Hardware",
                sec_system: "System & Platform",
                sec_peripherals: "Peripherals & Power",
                sec_palette: "Color Palette",
                label_host: "Host",
                label_os: "OS",
                label_kernel: "Kernel",
                label_uptime: "Uptime",
                label_shell: "Shell",
                label_packages: "Packages",
                label_battery: "Battery",
                label_brightness: "Brightness",
                label_volume: "Volume",
                label_ram: "RAM",
                label_swap: "Swap",
                label_disk_root: "Disk (/)",
                label_cpu_usage: "CPU Load",
                label_power_profile: "Profile",
                label_board: "Motherboard",
                label_bios: "BIOS",
                label_gpu: "GPU",
                label_cpu_cores: "CPU Cores",
                label_cpu_freq: "Frequency",
                label_temperature: "Temperature",
                label_desktop: "Desktop/WM",
                profile_power_saver: "Power Saver",
                profile_balanced: "Balanced",
                profile_performance: "Performance",
                battery_charging: "Charging",
                battery_discharging: "Discharging",
                battery_full: "Full",
                battery_not_charging: "Not Charging",
                battery_unknown: "Unknown",
                hint_mode_detailed: "[.] Details",
                hint_mode_normal: "[.] Normal",
                hint_profile: "[p] Profile",
                hint_brightness: "[b/B] Brightness",
                hint_volume: "[v/V] Volume",
                hint_mute: "[m] Mute",
                hint_config: "[c] Config",
                hint_quit: "[q] Quit",
                hint_help: "[?] Help",
                toast_profile_prefix: "Power Profile",
                toast_brightness_prefix: "Brightness",
                toast_volume_prefix: "Volume",
                toast_muted: "Audio muted",
                toast_unmuted: "Audio unmuted",
                toast_unavailable: "unavailable",
            },
            Language::EsEs => Messages {
                app_title_suffix: "Asistente de Sistema",
                splash_title: "HAL-9001 · Asistente de Sistema",
                splash_loading: "CARGANDO",
                splash_welcome: "Bienvenido",
                tab_overview: "Visión General",
                tab_network: "Red",
                tab_bluetooth: "Bluetooth",
                tab_storage: "Discos",
                tab_power: "Energía",
                tab_updates: "Actualizaciones",
                tab_files: "Archivos",
                tab_terminal: "Terminal",
                tab_audio: "Audio",
                tab_displays: "Pantallas",
                sec_compute: "Disponibilidade de Hardware",
                sec_system: "Sistema y Plataforma",
                sec_peripherals: "Periféricos y Energía",
                sec_palette: "Paleta de Colores",
                label_host: "Host",
                label_os: "SO",
                label_kernel: "Kernel",
                label_uptime: "Tiempo activo",
                label_shell: "Shell",
                label_packages: "Paquetes",
                label_battery: "Batería",
                label_brightness: "Brillo",
                label_volume: "Volumen",
                label_ram: "RAM",
                label_swap: "Swap",
                label_disk_root: "Disco (/)",
                label_cpu_usage: "Uso CPU",
                label_power_profile: "Perfil",
                label_board: "Placa Base",
                label_bios: "BIOS",
                label_gpu: "GPU",
                label_cpu_cores: "Núcleos CPU",
                label_cpu_freq: "Frecuencia",
                label_temperature: "Temperatura",
                label_desktop: "Entorno/WM",
                profile_power_saver: "Ahorro",
                profile_balanced: "Equilibrado",
                profile_performance: "Rendimiento",
                battery_charging: "Cargando",
                battery_discharging: "Descargando",
                battery_full: "Completa",
                battery_not_charging: "Sin carga",
                battery_unknown: "Desconocido",
                hint_mode_detailed: "[.] Detalles",
                hint_mode_normal: "[.] Normal",
                hint_profile: "[p] Perfil",
                hint_brightness: "[b/B] Brillo",
                hint_volume: "[v/V] Volumen",
                hint_mute: "[m] Silenciar",
                hint_config: "[c] Config",
                hint_quit: "[q] Salir",
                hint_help: "[?] Ayuda",
                toast_profile_prefix: "Perfil de Energía",
                toast_brightness_prefix: "Brillo",
                toast_volume_prefix: "Volumen",
                toast_muted: "Audio silenciado",
                toast_unmuted: "Audio activo",
                toast_unavailable: "no disponible",
            },
        }
    }
}

/// Reading a language's own tag gives that language back: the tag is ASCII,
/// has no surrounding whitespace, and its lower-cased form starts with the
/// two letters that select the language.
pub proof fn lemma_parse_code(lang: Language)
    ensures
        trim(code_of(lang)) == code_of(lang),
        all_ascii(code_of(lang)),
        language_of_tag(lower(trim(code_of(lang)))) == Some(lang),
{
    reveal_strlit("pt-BR");
    reveal_strlit("en-US");
    reveal_strlit("es-ES");
    reveal_strlit("pt");
    reveal_strlit("en");
    reveal_strlit("es");
    let c = code_of(lang);
    assert(!is_ws(c[0]));
    assert(!is_ws(c[c.len() - 1]));
    assert(trim_start(c) == c);
    assert(trim_end(c) == c);
    let l = lower(c);
    let head = l.subrange(0, 2);
    assert(head =~= seq![lower_char(c[0]), lower_char(c[1])]);
    assert(head[0] != 'p' ==> head != "pt"@);
    assert(head[0] != 'e' ==> head != "en"@ && head != "es"@);
    assert(head[1] != 'n' ==> head != "en"@);
    match lang {
        Language::PtBr => assert(head =~= "pt"@),
        Language::EnUs => assert(head =~= "en"@),
        Language::EsEs => assert(head =~= "es"@),
    }
}

/// The text of every element of the interface, in one language.
#[derive(Debug, Clone, Copy)]
pub struct Messages {
    pub app_title_suffix: &'static str,
    pub splash_title: &'static str,
    pub splash_loading: &'static str,
    pub splash_welcome: &'static str,
    pub tab_overview: &'static str,
    pub tab_network: &'static str,
    pub tab_bluetooth: &'static str,
    pub tab_storage: &'static str,
    pub tab_power: &'static str,
    pub tab_updates: &'static str,
    pub tab_files: &'static str,
    pub tab_terminal: &'static str,
    pub tab_audio: &'static str,
    pub tab_displays: &'static str,
    pub sec_compute: &'static str,
    pub sec_system: &'static str,
    pub sec_peripherals: &'static str,
    pub sec_palette: &'static str,
    pub label_host: &'static str,
    pub label_os: &'static str,
    pub label_kernel: &'static str,
    pub label_uptime: &'static str,
    pub label_shell: &'static str,
    pub label_packages: &'static str,
    pub label_battery: &'static str,
    pub label_brightness: &'static str,
    pub label_volume: &'static str,
    pub label_ram: &'static str,
    pub label_swap: &'static str,
    pub label_disk_root: &'static str,
    pub label_cpu_usage: &'static str,
    pub label_power_profile: &'static str,
    pub label_board: &'static str,
    pub label_bios: &'static str,
    pub label_gpu: &'static str,
    pub label_cpu_cores: &'static str,
    pub label_cpu_freq: &'static str,
    pub label_temperature: &'static str,
    pub label_desktop: &'static str,
    pub profile_power_saver: &'static str,
    pub profile_balanced: &'static str,
    pub profile_performance: &'static str,
    pub battery_charging: &'static str,
    pub battery_discharging: &'static str,
    pub battery_full: &'static str,
    pub battery_not_charging: &'static str,
    pub battery_unknown: &'static str,
    pub hint_mode_detailed: &'static str,
    pub hint_mode_normal: &'static str,
    pub hint_profile: &'static str,
    pub hint_brightness: &'static str,
    pub hint_volume: &'static str,
    pub hint_mute: &'static str,
    pub hint_config: &'static str,
    pub hint_quit: &'static str,
    pub hint_help: &'static str,
    pub toast_profile_prefix: &'static str,
    pub toast_brightness_prefix: &'static str,
    pub toast_volume_prefix: &'static str,
    pub toast_muted: &'static str,
    pub toast_unmuted: &'static str,
    pub toast_unavailable: &'static str,
}

/// The catalogue of each language.
pub open spec fn catalogue(lang: Language) -> Messages {
    match lang {
        Language::PtBr => Messages {
            app_title_suffix: "Assistente de Sistema",
            splash_title: "HAL-9001 · Assistente de Sistema",
            splash_loading: "CARREGANDO",
            splash_welcome: "Bem-vindo",
            tab_overview: "Overview",
            tab_network: "Rede",
            tab_bluetooth: "Bluetooth",
            tab_storage: "Discos",
            tab_power: "Energia",
            tab_updates: "Atualizações",
            tab_files: "Arquivos",
            tab_terminal: "Terminal",
            tab_audio: "Áudio",
            tab_displays: "Telas",
            sec_compute: "Available Compute / Hardware",
            sec_system: "System & Platform",
            sec_peripherals: "Peripherals & Power",
            sec_palette: "Color Palette",
            label_host: "Host",
            label_os: "SO",
            label_kernel: "Kernel",
            label_uptime: "Uptime",
            label_shell: "Shell",
            label_packages: "Pacotes",
            label_battery: "Bateria",
            label_brightness: "Brilho",
            label_volume: "Volume",
            label_ram: "RAM",
            label_swap: "Swap",
            label_disk_root: "Disco (/)",
            label_cpu_usage: "Uso CPU",
            label_power_profile: "Perfil",
            label_board: "Placa-Mãe",
            label_bios: "BIOS",
            label_gpu: "GPU",
            label_cpu_cores: "CPU Núcleos",
            label_cpu_freq: "Frequência",
            label_temperature: "Temperatura",
            label_desktop: "Desktop/WM",
            profile_power_saver: "Economia",
            profile_balanced: "Equilibrado",
            profile_performance: "Desempenho",
            battery_charging: "Carregando",
            battery_discharging: "Descarregando",
            battery_full: "Completa",
            battery_not_charging: "Sem carga",
            battery_unknown: "Desconhecido",
            hint_mode_detailed: "[.] Detalhes",
            hint_mode_normal: "[.] Normal",
            hint_profile: "[p] Perfil",
            hint_brightness: "[b/B] Brilho",
            hint_volume: "[v/V] Volume",
            hint_mute: "[m] Mudo",
            hint_config: "[c] Config",
            hint_quit: "[q] Sair",
            hint_help: "[?] Ajuda",
            toast_profile_prefix: "Perfil de Energia",
            toast_brightness_prefix: "Brilho",
            toast_volume_prefix: "Volume",
            toast_muted: "Áudio mudo",
            toast_unmuted: "Áudio ativo",
            toast_unavailable: "indisponível",
        },
        Language::EnUs => Messages {
            app_title_suffix: "System Assistant",
            splash_title: "HAL-9001 · System Assistant",
            splash_loading: "LOADING",
            splash_welcome: "Welcome",
            tab_overview: "Overview",
            tab_network: "Network",
            tab_bluetooth: "Bluetooth",
            tab_storage: "Storage",
            tab_power: "Power",
            tab_updates: "Updates",
            tab_files: "Files",
            tab_terminal: "Terminal",
            tab_audio: "Audio",
            tab_displays: "Displays",
            sec_compute: "Available Compute / Hardware",
            sec_system: "System & Platform",
            sec_peripherals: "Peripherals & Power",
            sec_palette: "Color Palette",
            label_host: "Host",
            label_os: "OS",
            label_kernel: "Kernel",
            label_uptime: "Uptime",
            label_shell: "Shell",
            label_packages: "Packages",
            label_battery: "Battery",
            label_brightness: "Brightness",
            label_volume: "Volume",
            label_ram: "RAM",
            label_swap: "Swap",
            label_disk_root: "Disk (/)",
            label_cpu_usage: "CPU Load",
            label_power_profile: "Profile",
            label_board: "Motherboard",
            label_bios: "BIOS",
            label_gpu: "GPU",
            label_cpu_cores: "CPU Cores",
            label_cpu_freq: "Frequency",
            label_temperature: "Temperature",
            label_desktop: "Desktop/WM",
            profile_power_saver: "Power Saver",
            profile_balanced: "Balanced",
            profile_performance: "Performance",
            battery_charging: "Charging",
            battery_discharging: "Discharging",
            battery_full: "Full",
            battery_not_charging: "Not Charging",
            battery_unknown: "Unknown",
            hint_mode_detailed: "[.] Details",
            hint_mode_normal: "[.] Normal",
            hint_profile: "[p] Profile",
            hint_brightness: "[b/B] Brightness",
            hint_volume: "[v/V] Volume",
            hint_mute: "[m] Mute",
            hint_config: "[c] Config",
            hint_quit: "[q] Quit",
            hint_help: "[?] Help",
            toast_profile_prefix: "Power Profile",
            toast_brightness_prefix: "Brightness",
            toast_volume_prefix: "Volume",
            toast_muted: "Audio muted",
            toast_unmuted: "Audio unmuted",
            toast_unavailable: "unavailable",
        },
        Language::EsEs => Messages {
            app_title_suffix: "Asistente de Sistema",
            splash_title: "HAL-9001 · Asistente de Sistema",
            splash_loading: "CARGANDO",
            splash_welcome: "Bienvenido",
            tab_overview: "Visión General",
            tab_network: "Red",
            tab_bluetooth: "Bluetooth",
            tab_storage: "Discos",
            tab_power: "Energía",
            tab_updates: "Actualizaciones",
            tab_files: "Archivos",
            tab_terminal: "Terminal",
            tab_audio: "Audio",
            tab_displays: "Pantallas",
            sec_compute: "Disponibilidade de Hardware",
            sec_system: "Sistema y Plataforma",
            sec_peripherals: "Periféricos y Energía",
            sec_palette: "Paleta de Colores",
            label_host: "Host",
            label_os: "SO",
            label_kernel: "Kernel",
            label_uptime: "Tiempo activo",
            label_shell: "Shell",
            label_packages: "Paquetes",
            label_battery: "Batería",
            label_brightness: "Brillo",
            label_volume: "Volumen",
            label_ram: "RAM",
            label_swap: "Swap",
            label_disk_root: "Disco (/)",
            label_cpu_usage: "Uso CPU",
            label_power_profile: "Perfil",
            label_board: "Placa Base",
            label_bios: "BIOS",
            label_gpu: "GPU",
            label_cpu_cores: "Núcleos CPU",
            label_cpu_freq: "Frecuencia",
            label_temperature: "Temperatura",
            label_desktop: "Entorno/WM",
            profile_power_saver: "Ahorro",
            profile_balanced: "Equilibrado",
            profile_performance: "Rendimiento",
            battery_charging: "Cargando",
            battery_discharging: "Descargando",
            battery_full: "Completa",
            battery_not_charging: "Sin carga",
            battery_unknown: "Desconocido",
            hint_mode_detailed: "[.] Detalles",
            hint_mode_normal: "[.] Normal",
            hint_profile: "[p] Perfil",
            hint_brightness: "[b/B] Brillo",
            hint_volume: "[v/V] Volumen",
            hint_mute: "[m] Silenciar",
            hint_config: "[c] Config",
            hint_quit: "[q] Salir",
            hint_help: "[?] Ayuda",
            toast_profile_prefix: "Perfil de Energía",
            toast_brightness_prefix: "Brillo",
            toast_volume_prefix: "Volumen",
            toast_muted: "Audio silenciado",
            toast_unmuted: "Audio activo",
            toast_unavailable: "no disponible",
        },
    }
}

} // verus!
