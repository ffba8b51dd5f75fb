//! The keyboard map: which action a key press asks for, given the active
//! tab and the dialogs that are open.

use vstd::prelude::*;
use crate::app::Tab;
use crate::display::DisplayLayoutMode;

verus! {

/// A key, as the terminal reports it.
#[derive(Debug, Clone, Copy, PartialEq, Eq, Structural)]
pub enum KeyCode {
    Char(char),
    F(u8),
    Up,
    Down,
    Left,
    Right,
    Enter,
    Esc,
    Backspace,
    Tab,
    BackTab,
    Delete,
    Other,
}

/// A key press: the key and whether Control was held.
#[derive(Debug, Clone, Copy, PartialEq, Eq, Structural)]
pub struct KeyPress {
    pub code: KeyCode,
    pub ctrl: bool,
}

/// What a key press asks of the application.
#[derive(Debug, Clone, Copy, PartialEq, Eq, Structural)]
pub enum KeyAction {
    Quit,
    NextTab,
    PrevTab,
    SelectTab(usize),
    Up,
    Down,
    Left,
    Right,
    Enter,
    Refresh,
    CheckUpdates,
    ToggleHelp,
    ToggleConfig,
    SaveConfig,
    ToggleDetail,
    KillTopProcess,
    BrightnessUp,
    BrightnessDown,
    ToggleAirplaneMode,
    VolumeUp,
    VolumeDown,
    ToggleMute,
    CyclePowerProfile,
    StorageRefresh,
    StorageMountToggleSelected,
    StorageEjectSelected,
    StorageFormatOpen,
    StorageFlasherOpen,
    StorageMultibootPrepareOpen,
    StorageMultibootIsoManagerOpen,
    StorageOpenAnalyzer,
    StorageModalChar(char),
    StorageModalBackspace,
    StorageModalDelete,
    StorageModalOpenPicker,
    StorageAnalyzerDrillDown,
    StorageAnalyzerGoUp,
    StorageAnalyzerRescan,
    StorageAnalyzerClose,
    NetworkRescan,
    NetworkToggleRadio,
    NetworkDisconnectSelected,
    NetworkForgetSelected,
    NetworkModalChar(char),
    NetworkModalBackspace,
    BluetoothRescan,
    BluetoothToggleRadio,
    BluetoothPairSelected,
    BluetoothForgetSelected,
    BluetoothToggleBlockSelected,
    /// An audio category: an index, or 99 for the next and 98 for the previous.
    AudioSelectCategory(usize),
    DisplaySetLayout(DisplayLayoutMode),
    DisplaySetPrimarySelected,
}

/// The keys of the disk analyzer.
pub open spec fn analyzer_key(code: KeyCode) -> Option<KeyAction> {
    match code {
        KeyCode::Up | KeyCode::Char('k') => Some(KeyAction::Up),
        KeyCode::Down | KeyCode::Char('j') => Some(KeyAction::Down),
        KeyCode::Enter | KeyCode::Right | KeyCode::Char('l') => Some(KeyAction::StorageAnalyzerDrillDown),
        KeyCode::Backspace | KeyCode::Left | KeyCode::Char('h') => Some(KeyAction::StorageAnalyzerGoUp),
        KeyCode::Char('r') => Some(KeyAction::StorageAnalyzerRescan),
        KeyCode::Esc => Some(KeyAction::StorageAnalyzerClose),
        _ => None,
    }
}

/// The keys of the password prompt.
pub open spec fn sudo_key(code: KeyCode) -> Option<KeyAction> {
    match code {
        KeyCode::Char(c) => Some(KeyAction::StorageModalChar(c)),
        KeyCode::Backspace => Some(KeyAction::StorageModalBackspace),
        KeyCode::Enter => Some(KeyAction::Enter),
        KeyCode::Esc => Some(KeyAction::ToggleConfig),
        _ => None,
    }
}

/// The keys of the Wi-Fi password prompt.
pub open spec fn network_text_key(code: KeyCode) -> Option<KeyAction> {
    match code {
        KeyCode::Char(c) => Some(KeyAction::NetworkModalChar(c)),
        KeyCode::Backspace => Some(KeyAction::NetworkModalBackspace),
        KeyCode::Enter => Some(KeyAction::Enter),
        KeyCode::Esc => Some(KeyAction::ToggleConfig),
        _ => None,
    }
}

/// The keys of a storage dialog's text field.
pub open spec fn storage_text_key(code: KeyCode) -> Option<KeyAction> {
    match code {
        KeyCode::Char(c) => Some(KeyAction::StorageModalChar(c)),
        KeyCode::Backspace => Some(KeyAction::StorageModalBackspace),
        KeyCode::Enter => Some(KeyAction::Enter),
        KeyCode::Esc => Some(KeyAction::ToggleConfig),
        KeyCode::Up => Some(KeyAction::Up),
        KeyCode::Down => Some(KeyAction::Down),
        KeyCode::Tab => Some(KeyAction::NextTab),
        KeyCode::BackTab => Some(KeyAction::PrevTab),
        _ => None,
    }
}

/// The keys particular to a tab (`None`: the key falls through to the
/// global keys).
pub open spec fn tab_key(code: KeyCode, active: Tab, storage_modal_open: bool) -> Option<KeyAction> {
    match active {
        Tab::Network => match code {
            KeyCode::Char('r') => Some(KeyAction::NetworkRescan),
            KeyCode::Char('t') => Some(KeyAction::NetworkToggleRadio),
            KeyCode::Char('d') => Some(KeyAction::NetworkDisconnectSelected),
            KeyCode::Char('f') => Some(KeyAction::NetworkForgetSelected),
            _ => None,
        },
        Tab::Overview => match code {
            KeyCode::Char('k') | KeyCode::Char('K') => Some(KeyAction::KillTopProcess),
            KeyCode::Char('A') => Some(KeyAction::ToggleAirplaneMode),
            _ => None,
        },
        Tab::Bluetooth => match code {
            KeyCode::Char('r') => Some(KeyAction::BluetoothRescan),
            KeyCode::Char('t') => Some(KeyAction::BluetoothToggleRadio),
            KeyCode::Char('p') => Some(KeyAction::BluetoothPairSelected),
            KeyCode::Char('f') => Some(KeyAction::BluetoothForgetSelected),
            KeyCode::Char('b') => Some(KeyAction::BluetoothToggleBlockSelected),
            _ => None,
        },
        Tab::Audio => match code {
            KeyCode::Char('+') | KeyCode::Char('=') | KeyCode::Right | KeyCode::Char('l') => Some(
                KeyAction::VolumeUp,
            ),
            KeyCode::Char('-') | KeyCode::Left | KeyCode::Char('h') => Some(KeyAction::VolumeDown),
            KeyCode::Char('m') => Some(KeyAction::ToggleMute),
            KeyCode::Tab => Some(KeyAction::AudioSelectCategory(99)),
            KeyCode::BackTab => Some(KeyAction::AudioSelectCategory(98)),
            _ => None,
        },
        Tab::Displays => match code {
            KeyCode::Char('e') => Some(KeyAction::DisplaySetLayout(DisplayLayoutMode::ExtendRight)),
            KeyCode::Char('E') => Some(KeyAction::DisplaySetLayout(DisplayLayoutMode::ExtendLeft)),
            KeyCode::Char('m') => Some(KeyAction::DisplaySetLayout(DisplayLayoutMode::Mirror)),
            KeyCode::Char('x') => Some(KeyAction::DisplaySetLayout(DisplayLayoutMode::ExternalOnly)),
            KeyCode::Char('i') => Some(KeyAction::DisplaySetLayout(DisplayLayoutMode::InternalOnly)),
            KeyCode::Char('p') | KeyCode::Char('P') => Some(KeyAction::DisplaySetPrimarySelected),
            _ => None,
        },
        Tab::Storage => if storage_modal_open {
            match code {
                KeyCode::Delete => Some(KeyAction::StorageModalDelete),
                KeyCode::Char(c) => Some(KeyAction::StorageModalChar(c)),
                _ => None,
            }
        } else {
            match code {
                KeyCode::Char('f') => Some(KeyAction::StorageFormatOpen),
                KeyCode::Char('g') | KeyCode::Char('b') => Some(KeyAction::StorageFlasherOpen),
                KeyCode::Char('B') => Some(KeyAction::StorageMultibootPrepareOpen),
                KeyCode::Char('G') => Some(KeyAction::StorageMultibootIsoManagerOpen),
                KeyCode::Char('a') => Some(KeyAction::StorageOpenAnalyzer),
                KeyCode::Char('m') => Some(KeyAction::StorageMountToggleSelected),
                KeyCode::Char('e') => Some(KeyAction::StorageEjectSelected),
                KeyCode::Char('r') => Some(KeyAction::StorageRefresh),
                _ => None,
            }
        },
    }
}

/// The keys that mean the same on every tab.
pub open spec fn global_key(key: KeyPress) -> Option<KeyAction> {
    match key.code {
        KeyCode::Char('c') if key.ctrl => Some(KeyAction::Quit),
        KeyCode::Char('q') => Some(KeyAction::Quit),
        KeyCode::Tab => Some(KeyAction::NextTab),
        KeyCode::BackTab => Some(KeyAction::PrevTab),
        KeyCode::Char(c) if '1' <= c && c <= '6' => Some(KeyAction::SelectTab((c as u32 - 49) as usize)),
        KeyCode::F(n) if 1 <= n && n <= 6 => Some(KeyAction::SelectTab((n - 1) as usize)),
        KeyCode::Down | KeyCode::Char('j') => Some(KeyAction::Down),
        KeyCode::Up | KeyCode::Char('k') => Some(KeyAction::Up),
        KeyCode::Left | KeyCode::Char('h') => Some(KeyAction::Left),
        KeyCode::Right | KeyCode::Char('l') => Some(KeyAction::Right),
        KeyCode::Enter => Some(KeyAction::Enter),
        KeyCode::Char('r') => Some(KeyAction::Refresh),
        KeyCode::Char('U') => Some(KeyAction::CheckUpdates),
        KeyCode::Char('.') => Some(KeyAction::ToggleDetail),
        KeyCode::Char('c') | KeyCode::Char('C') => Some(KeyAction::ToggleConfig),
        KeyCode::Char('s') | KeyCode::Char('S') => Some(KeyAction::SaveConfig),
        KeyCode::Char('b') | KeyCode::Char('-') => Some(KeyAction::BrightnessDown),
        KeyCode::Char('B') | KeyCode::Char('+') | KeyCode::Char('=') => Some(KeyAction::BrightnessUp),
        KeyCode::Char('v') | KeyCode::Char('[') => Some(KeyAction::VolumeDown),
        KeyCode::Char('V') | KeyCode::Char(']') => Some(KeyAction::VolumeUp),
        KeyCode::Char('m') => Some(KeyAction::ToggleMute),
        KeyCode::Char('p') | KeyCode::Char('P') => Some(KeyAction::CyclePowerProfile),
        KeyCode::Char('?') => Some(KeyAction::ToggleHelp),
        KeyCode::Esc => Some(KeyAction::ToggleConfig),
        _ => None,
    }
}

/// The action of a key press: Control-C quits anywhere; then the open
/// analyzer, the password prompt, the Wi-Fi prompt, the file picker key of
/// a storage dialog, a storage text field, the active tab's keys, and last
/// the global keys, each taking the key first.
pub open spec fn key_action(
    key: KeyPress,
    active: Tab,
    storage_modal_open: bool,
    text_mode: bool,
    sudo_prompt_open: bool,
    storage_analyzer_open: bool,
) -> Option<KeyAction> {
    if key.ctrl && key.code == KeyCode::Char('c') {
        Some(KeyAction::Quit)
    } else if active == Tab::Storage && storage_analyzer_open {
        analyzer_key(key.code)
    } else if sudo_prompt_open {
        sudo_key(key.code)
    } else if active == Tab::Network && text_mode {
        network_text_key(key.code)
    } else if active == Tab::Storage && storage_modal_open && key.code == KeyCode::F(3) {
        Some(KeyAction::StorageModalOpenPicker)
    } else if active == Tab::Storage && text_mode {
        storage_text_key(key.code)
    } else {
        match tab_key(key.code, active, storage_modal_open) {
            Some(a) => Some(a),
            None => global_key(key),
        }
    }
}

fn analyzer_key_of(code: KeyCode) -> (r: Option<KeyAction>)
    ensures
        r == analyzer_key(code),
{
    match code {
        KeyCode::Up | KeyCode::Char('k') => Some(KeyAction::Up),
        KeyCode::Down | KeyCode::Char('j') => Some(KeyAction::Down),
        KeyCode::Enter | KeyCode::Right | KeyCode::Char('l') => Some(KeyAction::StorageAnalyzerDrillDown),
        KeyCode::Backspace | KeyCode::Left | KeyCode::Char('h') => Some(KeyAction::StorageAnalyzerGoUp),
        KeyCode::Char('r') => Some(KeyAction::StorageAnalyzerRescan),
        KeyCode::Esc => Some(KeyAction::StorageAnalyzerClose),
        _ => None,
    }
}

fn sudo_key_of(code: KeyCode) -> (r: Option<KeyAction>)
    ensures
        r == sudo_key(code),
{
    match code {
        KeyCode::Char(c) => Some(KeyAction::StorageModalChar(c)),
        KeyCode::Backspace => Some(KeyAction::StorageModalBackspace),
        KeyCode::Enter => Some(KeyAction::Enter),
        KeyCode::Esc => Some(KeyAction::ToggleConfig),
        _ => None,
    }
}

fn network_text_key_of(code: KeyCode) -> (r: Option<KeyAction>)
    ensures
        r == network_text_key(code),
{
    match code {
        KeyCode::Char(c) => Some(KeyAction::NetworkModalChar(c)),
        KeyCode::Backspace => Some(KeyAction::NetworkModalBackspace),
        KeyCode::Enter => Some(KeyAction::Enter),
        KeyCode::Esc => Some(KeyAction::ToggleConfig),
        _ => None,
    }
}

fn storage_text_key_of(code: KeyCode) -> (r: Option<KeyAction>)
    ensures
        r == storage_text_key(code),
{
    match code {
        KeyCode::Char(c) => Some(KeyAction::StorageModalChar(c)),
        KeyCode::Backspace => Some(KeyAction::StorageModalBackspace),
        KeyCode::Enter => Some(KeyAction::Enter),
        KeyCode::Esc => Some(KeyAction::ToggleConfig),
        KeyCode::Up => Some(KeyAction::Up),
        KeyCode::Down => Some(KeyAction::Down),
        KeyCode::Tab => Some(KeyAction::NextTab),
        KeyCode::BackTab => Some(KeyAction::PrevTab),
        _ => None,
    }
}

fn tab_key_of(code: KeyCode, active: Tab, storage_modal_open: bool) -> (r: Option<KeyAction>)
    ensures
        r == tab_key(code, active, storage_modal_open),
{
    match active {
        Tab::Network => match code {
            KeyCode::Char('r') => Some(KeyAction::NetworkRescan),
            KeyCode::Char('t') => Some(KeyAction::NetworkToggleRadio),
            KeyCode::Char('d') => Some(KeyAction::NetworkDisconnectSelected),
            KeyCode::Char('f') => Some(KeyAction::NetworkForgetSelected),
            _ => None,
        },
        Tab::Overview => match code {
            KeyCode::Char('k') | KeyCode::Char('K') => Some(KeyAction::KillTopProcess),
            KeyCode::Char('A') => Some(KeyAction::ToggleAirplaneMode),
            _ => None,
        },
        Tab::Bluetooth => match code {
            KeyCode::Char('r') => Some(KeyAction::BluetoothRescan),
            KeyCode::Char('t') => Some(KeyAction::BluetoothToggleRadio),
            KeyCode::Char('p') => Some(KeyAction::BluetoothPairSelected),
            KeyCode::Char('f') => Some(KeyAction::BluetoothForgetSelected),
            KeyCode::Char('b') => Some(KeyAction::BluetoothToggleBlockSelected),
            _ => None,
        },
        Tab::Audio => match code {
            KeyCode::Char('+') | KeyCode::Char('=') | KeyCode::Right | KeyCode::Char('l') => Some(
                KeyAction::VolumeUp,
            ),
            KeyCode::Char('-') | KeyCode::Left | KeyCode::Char('h') => Some(KeyAction::VolumeDown),
            KeyCode::Char('m') => Some(KeyAction::ToggleMute),
            KeyCode::Tab => Some(KeyAction::AudioSelectCategory(99)),
            KeyCode::BackTab => Some(KeyAction::AudioSelectCategory(98)),
            _ => None,
        },
        Tab::Displays => match code {
            KeyCode::Char('e') => Some(KeyAction::DisplaySetLayout(DisplayLayoutMode::ExtendRight)),
            KeyCode::Char('E') => Some(KeyAction::DisplaySetLayout(DisplayLayoutMode::ExtendLeft)),
            KeyCode::Char('m') => Some(KeyAction::DisplaySetLayout(DisplayLayoutMode::Mirror)),
            KeyCode::Char('x') => Some(KeyAction::DisplaySetLayout(DisplayLayoutMode::ExternalOnly)),
            KeyCode::Char('i') => Some(KeyAction::DisplaySetLayout(DisplayLayoutMode::InternalOnly)),
            KeyCode::Char('p') | KeyCode::Char('P') => Some(KeyAction::DisplaySetPrimarySelected),
            _ => None,
        },
        Tab::Storage => if storage_modal_open {
            match code {
                KeyCode::Delete => Some(KeyAction::StorageModalDelete),
                KeyCode::Char(c) => Some(KeyAction::StorageModalChar(c)),
                _ => None,
            }
        } else {
            match code {
                KeyCode::Char('f') => Some(KeyAction::StorageFormatOpen),
                KeyCode::Char('g') | KeyCode::Char('b') => Some(KeyAction::StorageFlasherOpen),
                KeyCode::Char('B') => Some(KeyAction::StorageMultibootPrepareOpen),
                KeyCode::Char('G') => Some(KeyAction::StorageMultibootIsoManagerOpen),
                KeyCode::Char('a') => Some(KeyAction::StorageOpenAnalyzer),
                KeyCode::Char('m') => Some(KeyAction::StorageMountToggleSelected),
                KeyCode::Char('e') => Some(KeyAction::StorageEjectSelected),
                KeyCode::Char('r') => Some(KeyAction::StorageRefresh),
                _ => None,
            }
        },
    }
}

fn global_key_of(key: KeyPress) -> (r: Option<KeyAction>)
    ensures
        r == global_key(key),
{
    match key.code {
        KeyCode::Char('c') if key.ctrl => Some(KeyAction::Quit),
        KeyCode::Char('q') => Some(KeyAction::Quit),
        KeyCode::Tab => Some(KeyAction::NextTab),
        KeyCode::BackTab => Some(KeyAction::PrevTab),
        KeyCode::Char(c) if '1' <= c && c <= '6' => Some(KeyAction::SelectTab((c as u32 - 49) as usize)),
        KeyCode::F(n) if 1 <= n && n <= 6 => Some(KeyAction::SelectTab((n - 1) as usize)),
        KeyCode::Down | KeyCode::Char('j') => Some(KeyAction::Down),
        KeyCode::Up | KeyCode::Char('k') => Some(KeyAction::Up),
        KeyCode::Left | KeyCode::Char('h') => Some(KeyAction::Left),
        KeyCode::Right | KeyCode::Char('l') => Some(KeyAction::Right),
        KeyCode::Enter => Some(KeyAction::Enter),
        KeyCode::Char('r') => Some(KeyAction::Refresh),
        KeyCode::Char('U') => Some(KeyAction::CheckUpdates),
        KeyCode::Char('.') => Some(KeyAction::ToggleDetail),
        KeyCode::Char('c') | KeyCode::Char('C') => Some(KeyAction::ToggleConfig),
        KeyCode::Char('s') | KeyCode::Char('S') => Some(KeyAction::SaveConfig),
        KeyCode::Char('b') | KeyCode::Char('-') => Some(KeyAction::BrightnessDown),
        KeyCode::Char('B') | KeyCode::Char('+') | KeyCode::Char('=') => Some(KeyAction::BrightnessUp),
        KeyCode::Char('v') | KeyCode::Char('[') => Some(KeyAction::VolumeDown),
        KeyCode::Char('V') | KeyCode::Char(']') => Some(KeyAction::VolumeUp),
        KeyCode::Char('m') => Some(KeyAction::ToggleMute),
        KeyCode::Char('p') | KeyCode::Char('P') => Some(KeyAction::CyclePowerProfile),
        KeyCode::Char('?') => Some(KeyAction::ToggleHelp),
        KeyCode::Esc => Some(KeyAction::ToggleConfig),
        _ => None,
    }
}

/// The action a key press asks for.
pub fn map_key(
    key: KeyPress,
    active: Tab,
    storage_modal_open: bool,
    text_mode: bool,
    sudo_prompt_open: bool,
    storage_analyzer_open: bool,
) -> (r: Option<KeyAction>)
    ensures
        r == key_action(key, active, storage_modal_open, text_mode, sudo_prompt_open, storage_analyzer_open),
{
    if key.ctrl && key.code == KeyCode::Char('c') {
        Some(KeyAction::Quit)
    } else if active == Tab::Storage && storage_analyzer_open {
        analyzer_key_of(key.code)
    } else if sudo_prompt_open {
        sudo_key_of(key.code)
    } else if active == Tab::Network && text_mode {
        network_text_key_of(key.code)
    } else if active == Tab::Storage && storage_modal_open && key.code == KeyCode::F(3) {
        Some(KeyAction::StorageModalOpenPicker)
    } else if active == Tab::Storage && text_mode {
        storage_text_key_of(key.code)
    } else {
        match tab_key_of(key.code, active, storage_modal_open) {
            Some(a) => Some(a),
            None => global_key_of(key),
        }
    }
}

/// Control-C quits whatever is open.
pub proof fn lemma_ctrl_c_quits(
    active: Tab,
    storage_modal_open: bool,
    text_mode: bool,
    sudo_prompt_open: bool,
    storage_analyzer_open: bool,
)
    ensures
        key_action(
            KeyPress { code: KeyCode::Char('c'), ctrl: true },
            active,
            storage_modal_open,
            text_mode,
            sudo_prompt_open,
            storage_analyzer_open,
        ) == Some(KeyAction::Quit),
{
}

} // verus!
