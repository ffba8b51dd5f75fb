use hal9001::app::Tab;
use hal9001::display::DisplayLayoutMode;
use hal9001::keymap::{map_key, KeyAction, KeyCode, KeyPress};

fn key(code: KeyCode) -> KeyPress {
    KeyPress { code, ctrl: false }
}

fn plain(code: KeyCode, tab: Tab) -> Option<KeyAction> {
    map_key(key(code), tab, false, false, false, false)
}

#[test]
fn ctrl_c_quits_everywhere() {
    let k = KeyPress { code: KeyCode::Char('c'), ctrl: true };
    assert_eq!(map_key(k, Tab::Storage, true, true, true, true), Some(KeyAction::Quit));
    assert_eq!(map_key(k, Tab::Network, false, true, false, false), Some(KeyAction::Quit));
}

#[test]
fn global_keys() {
    assert_eq!(plain(KeyCode::Char('q'), Tab::Overview), Some(KeyAction::Quit));
    assert_eq!(plain(KeyCode::Char('3'), Tab::Overview), Some(KeyAction::SelectTab(2)));
    assert_eq!(plain(KeyCode::F(6), Tab::Overview), Some(KeyAction::SelectTab(5)));
    assert_eq!(plain(KeyCode::F(7), Tab::Overview), None);
    assert_eq!(plain(KeyCode::Char('7'), Tab::Overview), None);
    assert_eq!(plain(KeyCode::Char('c'), Tab::Overview), Some(KeyAction::ToggleConfig));
    assert_eq!(plain(KeyCode::Esc, Tab::Overview), Some(KeyAction::ToggleConfig));
    assert_eq!(plain(KeyCode::Char('p'), Tab::Overview), Some(KeyAction::CyclePowerProfile));
    assert_eq!(plain(KeyCode::Char('b'), Tab::Overview), Some(KeyAction::BrightnessDown));
}

#[test]
fn tab_keys_come_first() {
    assert_eq!(plain(KeyCode::Char('k'), Tab::Overview), Some(KeyAction::KillTopProcess));
    assert_eq!(plain(KeyCode::Char('k'), Tab::Network), Some(KeyAction::Up));
    assert_eq!(plain(KeyCode::Char('r'), Tab::Network), Some(KeyAction::NetworkRescan));
    assert_eq!(plain(KeyCode::Char('b'), Tab::Bluetooth), Some(KeyAction::BluetoothToggleBlockSelected));
    assert_eq!(plain(KeyCode::Tab, Tab::Audio), Some(KeyAction::AudioSelectCategory(99)));
    assert_eq!(plain(KeyCode::Left, Tab::Audio), Some(KeyAction::VolumeDown));
    assert_eq!(plain(KeyCode::Char('x'), Tab::Displays), Some(KeyAction::DisplaySetLayout(DisplayLayoutMode::ExternalOnly)));
    assert_eq!(plain(KeyCode::Char('p'), Tab::Displays), Some(KeyAction::DisplaySetPrimarySelected));
    assert_eq!(plain(KeyCode::Char('b'), Tab::Storage), Some(KeyAction::StorageFlasherOpen));
    assert_eq!(plain(KeyCode::Char('G'), Tab::Storage), Some(KeyAction::StorageMultibootIsoManagerOpen));
}

#[test]
fn dialogs_take_the_keys() {
    assert_eq!(map_key(key(KeyCode::Backspace), Tab::Storage, false, false, false, true), Some(KeyAction::StorageAnalyzerGoUp));
    assert_eq!(map_key(key(KeyCode::Char('q')), Tab::Storage, false, false, false, true), None);
    assert_eq!(map_key(key(KeyCode::Char('q')), Tab::Audio, false, false, true, false), Some(KeyAction::StorageModalChar('q')));
    assert_eq!(map_key(key(KeyCode::Char('x')), Tab::Network, false, true, false, false), Some(KeyAction::NetworkModalChar('x')));
    assert_eq!(map_key(key(KeyCode::F(3)), Tab::Storage, true, true, false, false), Some(KeyAction::StorageModalOpenPicker));
    assert_eq!(map_key(key(KeyCode::Tab), Tab::Storage, true, true, false, false), Some(KeyAction::NextTab));
    assert_eq!(map_key(key(KeyCode::Char('f')), Tab::Storage, true, false, false, false), Some(KeyAction::StorageModalChar('f')));
    assert_eq!(map_key(key(KeyCode::Delete), Tab::Storage, true, false, false, false), Some(KeyAction::StorageModalDelete));
    assert_eq!(map_key(key(KeyCode::Enter), Tab::Storage, true, false, false, false), Some(KeyAction::Enter));
}
