//! The interface state machines: tabs, the storage dialogs (format, ISO
//! flasher, file picker, multi-boot ISO manager), the password prompts, and
//! the key handling that moves between them. Each step takes the current
//! state and a key and gives the next state and what must be done outside.

use vstd::prelude::*;
use crate::i18n::{Language, catalogue};
use crate::storage::{VentoyIsoEntry, is_iso_or_img};
use crate::text::{append, append_str, chars_of, decimal, decimal_of, has_suffix, lower, push_char, string_of, trim, trim_of, seq_eq};

verus! {

/// The panels of the interface, in tab order.
#[derive(Debug, Clone, Copy, PartialEq, Eq, Structural)]
pub enum Tab {
    Overview,
    Network,
    Bluetooth,
    Storage,
    Audio,
    Displays,
}

/// Number of tabs.
pub open spec fn tab_count() -> nat {
    6
}

pub open spec fn tab_index(t: Tab) -> int {
    match t {
        Tab::Overview => 0,
        Tab::Network => 1,
        Tab::Bluetooth => 2,
        Tab::Storage => 3,
        Tab::Audio => 4,
        Tab::Displays => 5,
    }
}

/// The tab at a position; positions past the last give the first tab.
pub open spec fn tab_at(i: int) -> Tab {
    if i == 1 {
        Tab::Network
    } else if i == 2 {
        Tab::Bluetooth
    } else if i == 3 {
        Tab::Storage
    } else if i == 4 {
        Tab::Audio
    } else if i == 5 {
        Tab::Displays
    } else {
        Tab::Overview
    }
}

pub open spec fn tab_title(t: Tab, lang: Language) -> &'static str {
    match t {
        Tab::Overview => catalogue(lang).tab_overview,
        Tab::Network => catalogue(lang).tab_network,
        Tab::Bluetooth => catalogue(lang).tab_bluetooth,
        Tab::Storage => catalogue(lang).tab_storage,
        Tab::Audio => catalogue(lang).tab_audio,
        Tab::Displays => catalogue(lang).tab_displays,
    }
}

impl Default for Tab {
    fn default() -> (r: Tab)
        ensures
            r == Tab::Overview,
    {
        Tab::Overview
    }
}

impl Tab {
    /// The tabs in order.
    pub fn all() -> (r: [Tab; 6])
        ensures
            forall|i: int| 0 <= i < 6 ==> #[trigger] r@[i] == tab_at(i),
    {
        [Tab::Overview, Tab::Network, Tab::Bluetooth, Tab::Storage, Tab::Audio, Tab::Displays]
    }

    /// The tab's position.
    pub fn index(self) -> (r: usize)
        ensures
            r == tab_index(self),
    {
        match self {
            Tab::Overview => 0,
            Tab::Network => 1,
            Tab::Bluetooth => 2,
            Tab::Storage => 3,
            Tab::Audio => 4,
            Tab::Displays => 5,
        }
    }

    /// The tab at position `i`; out of range gives `Overview`.
    pub fn from_index(i: usize) -> (r: Tab)
        ensures
            r == tab_at(i as int),
    {
        if i == 1 {
            Tab::Network
        } else if i == 2 {
            Tab::Bluetooth
        } else if i == 3 {
            Tab::Storage
        } else if i == 4 {
            Tab::Audio
        } else if i == 5 {
            Tab::Displays
        } else {
            Tab::Overview
        }
    }

    /// The tab's title in `lang`.
    pub fn title_in(self, lang: Language) -> (r: &'static str)
        ensures
            r == tab_title(self, lang),
    {
        let m = lang.messages();
        match self {
            Tab::Overview => m.tab_overview,
            Tab::Network => m.tab_network,
            Tab::Bluetooth => m.tab_bluetooth,
            Tab::Storage => m.tab_storage,
            Tab::Audio => m.tab_audio,
            Tab::Displays => m.tab_displays,
        }
    }

    /// The tab's title in the default language.
    pub fn title(self) -> (r: &'static str)
        ensures
            r == tab_title(self, Language::PtBr),
    {
        self.title_in(Language::PtBr)
    }

    /// The tab after this one, wrapping to the first.
    pub fn next(self) -> (r: Tab)
        ensures
            r == tab_at((tab_index(self) + 1) % 6),
    {
        Tab::from_index((self.index() + 1) % 6)
    }

    /// The tab before this one, wrapping to the last.
    pub fn prev(self) -> (r: Tab)
        ensures
            r == tab_at((tab_index(self) + 5) % 6),
    {
        Tab::from_index((self.index() + 6 - 1) % 6)
    }
}

/// A tab's position leads back to the tab; going forward then back (or back
/// then forward) returns to the same tab; six steps forward come back round.
pub proof fn lemma_tab_navigation(t: Tab)
    ensures
        tab_at(tab_index(t) as int) == t,
        tab_at((tab_index(tab_at((tab_index(t) + 1) % 6)) + 5) % 6) == t,
        tab_at((tab_index(tab_at((tab_index(t) + 5) % 6)) + 1) % 6) == t,
        tab_index(t) < tab_count(),
{
}

/// Whether the interface shows the splash screen or the panels.
#[derive(Debug, Clone, Copy, PartialEq, Eq, Structural)]
pub enum Phase {
    Splash,
    Running,
}

/// A backend that reported itself unavailable, and why.
#[derive(Debug, Clone)]
pub struct ServiceStatus {
    pub degraded: Option<String>,
}

/// A key as the dialogs see it.
#[derive(Debug, Clone, Copy, PartialEq, Eq, Structural)]
pub enum ModalKey {
    Quit,
    /// Close the dialog (the settings key doubles as "cancel").
    Cancel,
    Up,
    Down,
    Left,
    Right,
    NextField,
    PrevField,
    Enter,
    Char(char),
    Backspace,
    Delete,
    OpenPicker,
    Other,
}

/// `char::is_control`: the Unicode control characters (category Cc).
pub open spec fn is_control(c: char) -> bool {
    (c as u32) < 0x20 || (0x7f <= (c as u32) && (c as u32) <= 0x9f)
}

pub fn char_is_control(c: char) -> (r: bool)
    ensures
        r == is_control(c),
{
    let u = c as u32;
    u < 0x20 || (0x7f <= u && u <= 0x9f)
}

/// File systems the format dialog offers.
#[derive(Debug, Clone, Copy, PartialEq, Eq, Structural)]
pub enum FsChoice {
    Vfat,
    Exfat,
    Ext4,
    Ntfs,
    Btrfs,
}

pub open spec fn fs_choice_at(i: int) -> FsChoice {
    if i == 0 {
        FsChoice::Vfat
    } else if i == 1 {
        FsChoice::Exfat
    } else if i == 2 {
        FsChoice::Ext4
    } else if i == 3 {
        FsChoice::Ntfs
    } else {
        FsChoice::Btrfs
    }
}

pub open spec fn fs_type_name(f: FsChoice) -> Seq<char> {
    match f {
        FsChoice::Vfat => "vfat"@,
        FsChoice::Exfat => "exfat"@,
        FsChoice::Ext4 => "ext4"@,
        FsChoice::Ntfs => "ntfs"@,
        FsChoice::Btrfs => "btrfs"@,
    }
}

pub open spec fn fs_choice_label(f: FsChoice) -> Seq<char> {
    match f {
        FsChoice::Vfat => "FAT32 (vfat)"@,
        FsChoice::Exfat => "exFAT"@,
        FsChoice::Ext4 => "ext4"@,
        FsChoice::Ntfs => "NTFS"@,
        FsChoice::Btrfs => "btrfs"@,
    }
}

impl FsChoice {
    /// The choices in the order offered.
    pub fn all() -> (r: [FsChoice; 5])
        ensures
            forall|i: int| 0 <= i < 5 ==> #[trigger] r@[i] == fs_choice_at(i),
    {
        [FsChoice::Vfat, FsChoice::Exfat, FsChoice::Ext4, FsChoice::Ntfs, FsChoice::Btrfs]
    }

    fn at(i: usize) -> (r: FsChoice)
        requires
            i < 5,
        ensures
            r == fs_choice_at(i as int),
    {
        if i == 0 {
            FsChoice::Vfat
        } else if i == 1 {
            FsChoice::Exfat
        } else if i == 2 {
            FsChoice::Ext4
        } else if i == 3 {
            FsChoice::Ntfs
        } else {
            FsChoice::Btrfs
        }
    }

    /// The file-system name UDisks2 is asked for.
    pub fn udisks_type(self) -> (r: &'static str)
        ensures
            r@ == fs_type_name(self),
    {
        match self {
            FsChoice::Vfat => "vfat",
            FsChoice::Exfat => "exfat",
            FsChoice::Ext4 => "ext4",
            FsChoice::Ntfs => "ntfs",
            FsChoice::Btrfs => "btrfs",
        }
    }

    /// The name shown in the dialog.
    pub fn label(self) -> (r: &'static str)
        ensures
            r@ == fs_choice_label(self),
    {
        match self {
            FsChoice::Vfat => "FAT32 (vfat)",
            FsChoice::Exfat => "exFAT",
            FsChoice::Ext4 => "ext4",
            FsChoice::Ntfs => "NTFS",
            FsChoice::Btrfs => "btrfs",
        }
    }
}

/// The field of the format dialog that has the focus.
#[derive(Debug, Clone, Copy, PartialEq, Eq, Structural)]
pub enum FormatField {
    Fs,
    Label,
    Confirm,
}

/// The format dialog.
#[derive(Debug, Clone)]
pub struct FormatModalState {
    pub device_id: String,
    pub target_label: String,
    pub fs_idx: usize,
    pub label: String,
    pub field: FormatField,
}

/// The longest volume label the dialog accepts, in characters.
pub open spec fn max_label_chars() -> nat {
    32
}

/// The request the format dialog sends when confirmed.
#[derive(Debug, Clone)]
pub struct FormatRequest {
    pub device_id: String,
    pub fs_type: &'static str,
    pub label: String,
    /// For the notice: the drive's name and the chosen file system's name.
    pub target_label: String,
    pub fs_label: &'static str,
}

/// The format dialog after a key.
#[derive(Debug, Clone)]
pub enum FormatStep {
    /// Still open, in this state (`quit` asks the whole program to end).
    Open { state: FormatModalState, quit: bool },
    Closed,
    Submitted(FormatRequest),
}

pub open spec fn field_after_up(f: FormatField) -> FormatField {
    match f {
        FormatField::Label => FormatField::Fs,
        FormatField::Confirm => FormatField::Label,
        FormatField::Fs => FormatField::Fs,
    }
}

pub open spec fn field_after_down(f: FormatField) -> FormatField {
    match f {
        FormatField::Fs => FormatField::Label,
        FormatField::Label => FormatField::Confirm,
        FormatField::Confirm => FormatField::Confirm,
    }
}

pub open spec fn field_after_next(f: FormatField) -> FormatField {
    match f {
        FormatField::Fs => FormatField::Label,
        FormatField::Label => FormatField::Confirm,
        FormatField::Confirm => FormatField::Fs,
    }
}

pub open spec fn field_after_prev(f: FormatField) -> FormatField {
    match f {
        FormatField::Fs => FormatField::Confirm,
        FormatField::Label => FormatField::Fs,
        FormatField::Confirm => FormatField::Label,
    }
}

/// The label the format request carries: the typed one, or `"PENDRIVE"` when blank.
pub open spec fn effective_label(label: Seq<char>) -> Seq<char> {
    if trim(label).len() == 0 {
        "PENDRIVE"@
    } else {
        label
    }
}

/// The state a key leaves the open format dialog in (for keys that keep it open).
pub open spec fn format_after(s: FormatModalState, key: ModalKey) -> (usize, Seq<char>, FormatField) {
    let label = s.label@;
    match key {
        ModalKey::Up => (s.fs_idx, label, field_after_up(s.field)),
        ModalKey::Down => (s.fs_idx, label, field_after_down(s.field)),
        ModalKey::NextField => (s.fs_idx, label, field_after_next(s.field)),
        ModalKey::PrevField => (s.fs_idx, label, field_after_prev(s.field)),
        ModalKey::Left => (if s.field == FormatField::Fs { ((s.fs_idx + 4) % 5) as usize } else { s.fs_idx }, label, s.field),
        ModalKey::Right => (if s.field == FormatField::Fs { ((s.fs_idx + 1) % 5) as usize } else { s.fs_idx }, label, s.field),
        ModalKey::Char(c) => (
            s.fs_idx,
            if s.field == FormatField::Label && !is_control(c) && label.len() < max_label_chars() {
                label.push(c)
            } else {
                label
            },
            s.field,
        ),
        ModalKey::Backspace => (
            s.fs_idx,
            if s.field == FormatField::Label && label.len() > 0 { label.drop_last() } else { label },
            s.field,
        ),
        _ => (s.fs_idx, label, s.field),
    }
}

/// Removes the last character of a `String` (`String::pop`).
#[verifier::external_body]
fn pop_char(s: &mut String)
    ensures
        old(s)@.len() > 0 ==> final(s)@ == old(s)@.drop_last(),
        old(s)@.len() == 0 ==> final(s)@ == old(s)@,
{
    s.pop();
}

impl FormatModalState {
    /// The dialog as it opens for a drive: FAT32, label `"PENDRIVE"`, focus
    /// on the file system.
    pub fn opening(device_id: String, target_label: String) -> (r: FormatModalState)
        ensures
            r.device_id == device_id,
            r.target_label == target_label,
            r.fs_idx == 0,
            r.label@ == "PENDRIVE"@,
            r.field == FormatField::Fs,
    {
        FormatModalState { device_id, target_label, fs_idx: 0, label: String::from_str("PENDRIVE"), field: FormatField::Fs }
    }
}

/// The result of `dispatch_format` on the dialog state and the key.
pub open spec fn format_step(s: FormatModalState, key: ModalKey, r: FormatStep) -> bool {
    &&& (key == ModalKey::Quit ==> (r matches FormatStep::Open { state, quit } && quit && state == s))
    &&& (key == ModalKey::Cancel ==> r is Closed)
    &&& (key == ModalKey::Enter ==> (r matches FormatStep::Submitted(req) && {
        &&& req.device_id == s.device_id
        &&& req.fs_type@ == fs_type_name(fs_choice_at(s.fs_idx as int))
        &&& req.fs_label@ == fs_choice_label(fs_choice_at(s.fs_idx as int))
        &&& req.label@ == effective_label(s.label@)
        &&& req.target_label == s.target_label
        }))
    &&& (key != ModalKey::Cancel && key != ModalKey::Enter ==> (r matches FormatStep::Open { state, quit } && {
        &&& quit == (key == ModalKey::Quit)
        &&& state.device_id == s.device_id
        &&& state.target_label == s.target_label
        &&& (state.fs_idx, state.label@, state.field) == format_after(s, key)
        &&& state.fs_idx < 5
        }))
}

/// Handles a key in the format dialog: arrows move the focus and, on the
/// file-system field, the choice (wrapping); typing edits the label (at most
/// 32 characters, control characters ignored); `Enter` sends the request;
/// cancel closes the dialog.
pub fn dispatch_format(s: FormatModalState, key: ModalKey) -> (r: FormatStep)
    requires
        s.fs_idx < 5,
    ensures
        format_step(s, key, r),
{
    let mut s = s;
    match key {
        ModalKey::Quit => {
            return FormatStep::Open { state: s, quit: true };
        },
        ModalKey::Cancel => {
            return FormatStep::Closed;
        },
        ModalKey::Up => {
            s.field = match s.field {
                FormatField::Label => FormatField::Fs,
                FormatField::Confirm => FormatField::Label,
                FormatField::Fs => FormatField::Fs,
            };
        },
        ModalKey::Down => {
            s.field = match s.field {
                FormatField::Fs => FormatField::Label,
                FormatField::Label => FormatField::Confirm,
                FormatField::Confirm => FormatField::Confirm,
            };
        },
        ModalKey::NextField => {
            s.field = match s.field {
                FormatField::Fs => FormatField::Label,
                FormatField::Label => FormatField::Confirm,
                FormatField::Confirm => FormatField::Fs,
            };
        },
        ModalKey::PrevField => {
            s.field = match s.field {
                FormatField::Fs => FormatField::Confirm,
                FormatField::Label => FormatField::Fs,
                FormatField::Confirm => FormatField::Label,
            };
        },
        ModalKey::Left => {
            if s.field == FormatField::Fs {
                s.fs_idx = (s.fs_idx + 5 - 1) % 5;
            }
        },
        ModalKey::Right => {
            if s.field == FormatField::Fs {
                s.fs_idx = (s.fs_idx + 1) % 5;
            }
        },
        ModalKey::Char(c) => {
            let n = chars_of(s.label.as_str()).len();
            if s.field == FormatField::Label && !char_is_control(c) && n < 32 {
                push_char(&mut s.label, c);
            }
        },
        ModalKey::Backspace => {
            if s.field == FormatField::Label {
                pop_char(&mut s.label);
            }
        },
        ModalKey::Enter => {
            let fs = FsChoice::at(s.fs_idx);
            let lv = chars_of(s.label.as_str());
            let t = trim_of(&lv);
            let label = if t.len() == 0 {
                String::from_str("PENDRIVE")
            } else {
                s.label.clone()
            };
            return FormatStep::Submitted(FormatRequest {
                device_id: s.device_id,
                fs_type: fs.udisks_type(),
                label,
                target_label: s.target_label,
                fs_label: fs.label(),
            });
        },
        _ => {},
    }
    FormatStep::Open { state: s, quit: false }
}

/// The masked password prompt that privileged storage operations open.
#[derive(Debug, Clone)]
pub struct SudoPromptState {
    pub label: String,
    pub password: String,
    pub error: Option<String>,
}

/// The password prompt after a key.
#[derive(Debug, Clone)]
pub enum SudoStep {
    Open { state: SudoPromptState, quit: bool },
    /// Confirmed: the typed password is handed to the waiting operation.
    Submitted(String),
    /// Cancelled: the waiting operation is told so.
    Cancelled,
}

/// A text field after a key: printable characters are appended, backspace
/// removes the last one, anything else leaves it alone.
pub open spec fn edited(text: Seq<char>, key: ModalKey) -> Seq<char> {
    match key {
        ModalKey::Char(c) => if !is_control(c) { text.push(c) } else { text },
        ModalKey::Backspace => if text.len() > 0 { text.drop_last() } else { text },
        _ => text,
    }
}

fn edit(text: &mut String, key: ModalKey)
    ensures
        final(text)@ == edited(old(text)@, key),
{
    match key {
        ModalKey::Char(c) => {
            if !char_is_control(c) {
                push_char(text, c);
            }
        },
        ModalKey::Backspace => {
            pop_char(text);
        },
        _ => {},
    }
}

impl SudoPromptState {
    /// The prompt as it opens for an operation; `retry_error` explains a
    /// previous wrong password.
    pub fn opening(label: String, retry_error: Option<String>) -> (r: SudoPromptState)
        ensures
            r.label == label,
            r.password@.len() == 0,
            r.error == retry_error,
    {
        SudoPromptState { label, password: String::new(), error: retry_error }
    }
}

/// The result of `dispatch_sudo_prompt` on the dialog state and the key.
pub open spec fn sudo_prompt_step(s: SudoPromptState, key: ModalKey, r: SudoStep) -> bool {
    &&& (key == ModalKey::Quit ==> (r matches SudoStep::Open { state, quit } && quit && state == s))
    &&& (key == ModalKey::Enter ==> (r matches SudoStep::Submitted(p) && p@ == s.password@))
    &&& (key == ModalKey::Cancel ==> r is Cancelled)
    &&& (key != ModalKey::Enter && key != ModalKey::Cancel ==> (r matches SudoStep::Open { state, quit } && {
        &&& quit == (key == ModalKey::Quit)
        &&& state.label == s.label
        &&& state.error == s.error
        &&& state.password@ == edited(s.password@, key)
        }))
}

/// Handles a key in the password prompt: typing edits the password, `Enter`
/// submits it, cancel withdraws it.
pub fn dispatch_sudo_prompt(s: SudoPromptState, key: ModalKey) -> (r: SudoStep)
    ensures
        sudo_prompt_step(s, key, r),
{
    let mut s = s;
    match key {
        ModalKey::Quit => SudoStep::Open { state: s, quit: true },
        ModalKey::Enter => SudoStep::Submitted(s.password),
        ModalKey::Cancel => SudoStep::Cancelled,
        _ => {
            edit(&mut s.password, key);
            SudoStep::Open { state: s, quit: false }
        },
    }
}

/// The password prompt of a protected Wi-Fi network.
#[derive(Debug, Clone)]
pub struct WifiPasswordPromptState {
    pub ap_id: String,
    pub ssid: String,
    pub password: String,
    pub error: Option<String>,
}

/// A request to join a network.
#[derive(Debug, Clone)]
pub struct ConnectRequest {
    pub ap_id: String,
    pub ssid: String,
    pub password: Option<String>,
}

/// The Wi-Fi prompt after a key.
#[derive(Debug, Clone)]
pub enum WifiStep {
    Open { state: WifiPasswordPromptState, quit: bool },
    Connect(ConnectRequest),
    Closed,
}

/// The result of `dispatch_wifi_prompt` on the dialog state and the key.
pub open spec fn wifi_prompt_step(s: WifiPasswordPromptState, key: ModalKey, r: WifiStep) -> bool {
    &&& (key == ModalKey::Quit ==> (r matches WifiStep::Open { state, quit } && quit && state == s))
    &&& (key == ModalKey::Enter ==> (r matches WifiStep::Connect(c) && c.ap_id == s.ap_id && c.ssid == s.ssid
        && (c.password matches Some(p) && p@ == s.password@)))
    &&& (key == ModalKey::Cancel ==> r is Closed)
    &&& (key != ModalKey::Enter && key != ModalKey::Cancel ==> (r matches WifiStep::Open { state, quit } && {
        &&& quit == (key == ModalKey::Quit)
        &&& state.ap_id == s.ap_id
        &&& state.ssid == s.ssid
        &&& state.error == s.error
        &&& state.password@ == edited(s.password@, key)
        }))
}

/// Handles a key in the Wi-Fi password prompt: `Enter` asks to join with the
/// typed password, cancel closes the prompt.
pub fn dispatch_wifi_prompt(s: WifiPasswordPromptState, key: ModalKey) -> (r: WifiStep)
    ensures
        wifi_prompt_step(s, key, r),
{
    let mut s = s;
    match key {
        ModalKey::Quit => WifiStep::Open { state: s, quit: true },
        ModalKey::Enter => WifiStep::Connect(ConnectRequest { ap_id: s.ap_id, ssid: s.ssid, password: Some(s.password) }),
        ModalKey::Cancel => WifiStep::Closed,
        _ => {
            edit(&mut s.password, key);
            WifiStep::Open { state: s, quit: false }
        },
    }
}

/// A request the storage dialogs send to the storage backend.
#[derive(Debug, Clone)]
pub enum StorageEffect {
    ChecksumIso(String),
    FlashIso { device_id: String, iso_path: String },
    FlashCancel { device_id: String },
    MultibootListIsos { device_id: String },
    MultibootAddIso { device_id: String, src_path: String },
    MultibootRemoveIso { device_id: String, file_name: String },
}

/// One entry of a directory listing in the file picker.
#[derive(Debug, Clone)]
pub struct FileEntry {
    pub name: String,
    pub path: String,
    pub is_dir: bool,
}

/// What the picked file is for.
#[derive(Debug, Clone)]
pub enum FilePickerPurpose {
    FlasherIso { device_id: String, target_label: String, target_dev_node: String, target_size: u64 },
    MultibootAddIso { device_id: String, target_label: String },
}

/// What choosing an entry came to.
#[derive(Debug, Clone)]
pub enum FilePickerOutcome {
    /// Nothing picked (an empty list, or a directory was entered).
    Nothing,
    Picked(String),
    /// The file is not of a kind this purpose accepts.
    Unsupported,
}

/// The file picker.
#[derive(Debug, Clone)]
pub struct FilePickerState {
    pub cwd: String,
    pub entries: Vec<FileEntry>,
    pub selected: usize,
    pub error: Option<String>,
    pub purpose: FilePickerPurpose,
}

/// Files the picker accepts: disk images (`.iso`, `.img`, any case), for
/// either purpose.
pub open spec fn pickable(name: Seq<char>) -> bool {
    has_suffix(lower(name), ".iso"@) || has_suffix(lower(name), ".img"@)
}

/// Whether a file of this name can be picked for `purpose`.
pub fn is_pickable_for(purpose: &FilePickerPurpose, name: &str) -> (r: bool)
    ensures
        r == pickable(name@),
{
    is_iso_or_img(name)
}

impl FilePickerState {
    /// A picker in `cwd` with nothing listed yet.
    pub fn opening(cwd: String, purpose: FilePickerPurpose) -> (r: FilePickerState)
        ensures
            r.cwd == cwd,
            r.entries@.len() == 0,
            r.selected == 0,
            r.error is None,
            r.purpose == purpose,
    {
        FilePickerState { cwd, entries: Vec::new(), selected: 0, error: None, purpose }
    }

    /// Takes in a new listing of the current directory: the selection is
    /// kept where it still points into the list; a failed listing empties
    /// the list and shows the error.
    pub fn reload(&mut self, listing: Result<Vec<FileEntry>, String>)
        ensures
            final(self).cwd == old(self).cwd,
            final(self).purpose == old(self).purpose,
            match listing {
                Ok(entries) => {
                    &&& final(self).entries == entries
                    &&& final(self).error is None
                    &&& final(self).selected == if entries@.len() == 0 { 0 } else if old(self).selected
                        < entries@.len() - 1 { old(self).selected } else { (entries@.len() - 1) as usize }
                },
                Err(e) => {
                    &&& final(self).entries@.len() == 0
                    &&& final(self).selected == 0
                    &&& final(self).error == Some(e)
                },
            },
    {
        match listing {
            Ok(entries) => {
                self.selected = if entries.len() == 0 {
                    0
                } else if self.selected < entries.len() - 1 {
                    self.selected
                } else {
                    entries.len() - 1
                };
                self.entries = entries;
                self.error = None;
            },
            Err(e) => {
                self.entries = Vec::new();
                self.selected = 0;
                self.error = Some(e);
            },
        }
    }

    pub fn move_up(&mut self)
        ensures
            final(self).selected == if old(self).selected > 0 { (old(self).selected - 1) as usize } else { 0 },
            final(self).entries == old(self).entries,
            final(self).cwd == old(self).cwd,
            final(self).error == old(self).error,
            final(self).purpose == old(self).purpose,
    {
        if self.selected > 0 {
            self.selected = self.selected - 1;
        }
    }

    pub fn move_down(&mut self)
        ensures
            final(self).selected == if old(self).selected + 1 < old(self).entries@.len() {
                (old(self).selected + 1) as usize
            } else {
                old(self).selected
            },
            final(self).entries == old(self).entries,
            final(self).cwd == old(self).cwd,
            final(self).error == old(self).error,
            final(self).purpose == old(self).purpose,
    {
        if self.selected < self.entries.len() && self.selected + 1 < self.entries.len() {
            self.selected = self.selected + 1;
        }
    }

    /// Moves to the parent directory (`parent` is the current directory's
    /// parent, if it has one); `true` when the listing must be reloaded.
    pub fn go_up(&mut self, parent: Option<String>) -> (r: bool)
        ensures
            r == parent is Some,
            match parent {
                Some(p) => final(self).cwd == p && final(self).selected == 0,
                None => final(self).cwd == old(self).cwd && final(self).selected == old(self).selected,
            },
            final(self).entries == old(self).entries,
            final(self).error == old(self).error,
            final(self).purpose == old(self).purpose,
    {
        match parent {
            Some(p) => {
                self.cwd = p;
                self.selected = 0;
                true
            },
            None => false,
        }
    }

    /// Jumps to `path` if it is a directory (`true`: reload); otherwise
    /// shows the path as the error.
    pub fn jump_to(&mut self, path: String, is_dir: bool) -> (r: bool)
        ensures
            r == is_dir,
            is_dir ==> final(self).cwd == path && final(self).selected == 0 && final(self).error == old(self).error,
            !is_dir ==> final(self).cwd == old(self).cwd && final(self).selected == old(self).selected
                && final(self).error == Some(path),
            final(self).entries == old(self).entries,
            final(self).purpose == old(self).purpose,
    {
        if is_dir {
            self.cwd = path;
            self.selected = 0;
            true
        } else {
            self.error = Some(path);
            false
        }
    }

    /// Chooses the selected entry: a directory is entered (the second
    /// result asks for a reload); a file is picked if its kind suits the
    /// purpose, else refused.
    pub fn enter_selected(&mut self) -> (r: (FilePickerOutcome, bool))
        ensures
            old(self).selected >= old(self).entries@.len() ==> r.0 is Nothing && !r.1 && final(self).cwd == old(self).cwd
                && final(self).selected == old(self).selected,
            old(self).selected < old(self).entries@.len() ==> {
                let e = old(self).entries@[old(self).selected as int];
                &&& e.is_dir ==> r.0 is Nothing && r.1 && final(self).cwd == e.path && final(self).selected == 0
                &&& !e.is_dir && pickable(e.name@) ==> (r.0 matches FilePickerOutcome::Picked(p) && p == e.path)
                    && !r.1 && final(self).cwd == old(self).cwd && final(self).selected == old(self).selected
                &&& !e.is_dir && !pickable(e.name@) ==> r.0 is Unsupported && !r.1 && final(self).cwd == old(self).cwd
                    && final(self).selected == old(self).selected
            },
            final(self).entries == old(self).entries,
            final(self).error == old(self).error,
            final(self).purpose == old(self).purpose,
    {
        if self.selected >= self.entries.len() {
            return (FilePickerOutcome::Nothing, false);
        }
        let is_dir = self.entries[self.selected].is_dir;
        if is_dir {
            let path = self.entries[self.selected].path.clone();
            self.cwd = path;
            self.selected = 0;
            (FilePickerOutcome::Nothing, true)
        } else if is_pickable_for(&self.purpose, self.entries[self.selected].name.as_str()) {
            (FilePickerOutcome::Picked(self.entries[self.selected].path.clone()), false)
        } else {
            (FilePickerOutcome::Unsupported, false)
        }
    }
}

/// Where the picker's shortcut keys jump.
#[derive(Debug, Clone, Copy, PartialEq, Eq, Structural)]
pub enum JumpTarget {
    Home,
    Downloads,
    Media,
    Root,
}

/// The picker after a key; the outside work it asks for comes with it.
#[derive(Debug, Clone)]
pub enum PickerStep {
    /// Still open; `reload` asks for a new listing of `state.cwd`.
    Open { state: FilePickerState, quit: bool, reload: bool },
    /// Asks for the parent of `state.cwd`, to be passed to `go_up`.
    GoUp(FilePickerState),
    /// Asks whether the target is a directory, to be passed to `jump_to`.
    Jump(FilePickerState, JumpTarget),
    /// A file was picked; its size is needed to continue (`finish_pick`).
    Picked { purpose: FilePickerPurpose, path: String },
    Closed,
}

/// The keys the file picker acts on (others leave it as it is).
pub open spec fn picker_key(key: ModalKey) -> bool {
    ||| key == ModalKey::Quit || key == ModalKey::Cancel || key == ModalKey::Down || key == ModalKey::Up
    ||| key == ModalKey::Left || key == ModalKey::Right || key == ModalKey::Enter || key == ModalKey::Backspace
    ||| key == ModalKey::Char('j') || key == ModalKey::Char('k') || key == ModalKey::Char('h') || key == ModalKey::Char('l')
    ||| key == ModalKey::Char('~') || key == ModalKey::Char('d') || key == ModalKey::Char('D') || key == ModalKey::Char('M')
    ||| key == ModalKey::Char('/')
}

/// The result of `dispatch_file_picker` on the dialog state and the key.
pub open spec fn file_picker_step(s: FilePickerState, key: ModalKey, r: PickerStep) -> bool {
    &&& (key == ModalKey::Quit ==> (r matches PickerStep::Open { state, quit, reload } && quit && !reload
        && state == s))
    &&& (key == ModalKey::Cancel ==> r is Closed)
    &&& ((key == ModalKey::Down || key == ModalKey::Char('j')) ==> (r matches PickerStep::Open { state, quit, reload }
        && !quit && !reload && state == (FilePickerState {
            selected: if s.selected + 1 < s.entries@.len() { (s.selected + 1) as usize } else { s.selected },
            ..s
        })))
    &&& ((key == ModalKey::Up || key == ModalKey::Char('k')) ==> (r matches PickerStep::Open { state, quit, reload }
        && !quit && !reload && state == (FilePickerState { selected: if s.selected > 0 { (s.selected - 1) as usize } else { 0 }, ..s })))
    &&& ((key == ModalKey::Left || key == ModalKey::Char('h') || key == ModalKey::Backspace) ==> (r matches PickerStep::GoUp(st) && st == s))
    &&& (key == ModalKey::Char('~') ==> (r matches PickerStep::Jump(st, t) && st == s && t == JumpTarget::Home))
    &&& ((key == ModalKey::Char('d') || key == ModalKey::Char('D')) ==> (r matches PickerStep::Jump(st, t) && st == s && t == JumpTarget::Downloads))
    &&& (key == ModalKey::Char('M') ==> (r matches PickerStep::Jump(st, t) && st == s && t == JumpTarget::Media))
    &&& (key == ModalKey::Char('/') ==> (r matches PickerStep::Jump(st, t) && st == s && t == JumpTarget::Root))
    &&& (!picker_key(key) ==> (r matches PickerStep::Open { state, quit, reload } && !quit && !reload && state == s))
    &&& ((key == ModalKey::Right || key == ModalKey::Char('l') || key == ModalKey::Enter) ==> {
        &&& s.selected >= s.entries@.len() ==> (r matches PickerStep::Open { state, quit, reload } && !quit && !reload && state == s)
        &&& s.selected < s.entries@.len() && !s.entries@[s.selected as int].is_dir
        && pickable(s.entries@[s.selected as int].name@) ==> (r matches PickerStep::Picked { purpose, path }
        && path == s.entries@[s.selected as int].path && purpose == s.purpose)
        &&& s.selected < s.entries@.len() && s.entries@[s.selected as int].is_dir ==> (r matches PickerStep::Open { state, quit, reload }
        && reload && !quit && state == (FilePickerState { cwd: s.entries@[s.selected as int].path, selected: 0, ..s }))
        &&& s.selected < s.entries@.len() && !s.entries@[s.selected as int].is_dir
        && !pickable(s.entries@[s.selected as int].name@) ==> (r matches PickerStep::Open { state, quit, reload }
        && !reload && !quit && (state.error matches Some(e) && e@ == "arquivo não suportado"@)
        && state.cwd == s.cwd && state.entries == s.entries && state.selected == s.selected && state.purpose == s.purpose)
        })
}

/// Handles a key in the file picker: `j`/`k` or the arrows move, `h`,
/// left or backspace go up, `l`, right or `Enter` choose, `~`, `d`, `M`
/// and `/` jump to home, downloads, `/media` and `/`.
pub fn dispatch_file_picker(s: FilePickerState, key: ModalKey) -> (r: PickerStep)
    requires
        s.selected < usize::MAX,
    ensures
        file_picker_step(s, key, r),
{
    let mut s = s;
    match key {
        ModalKey::Quit => PickerStep::Open { state: s, quit: true, reload: false },
        ModalKey::Cancel => PickerStep::Closed,
        ModalKey::Down | ModalKey::Char('j') => {
            s.move_down();
            PickerStep::Open { state: s, quit: false, reload: false }
        },
        ModalKey::Up | ModalKey::Char('k') => {
            s.move_up();
            PickerStep::Open { state: s, quit: false, reload: false }
        },
        ModalKey::Left | ModalKey::Char('h') | ModalKey::Backspace => PickerStep::GoUp(s),
        ModalKey::Right | ModalKey::Char('l') | ModalKey::Enter => {
            let (outcome, reload) = s.enter_selected();
            match outcome {
                FilePickerOutcome::Nothing => PickerStep::Open { state: s, quit: false, reload },
                FilePickerOutcome::Unsupported => {
                    s.error = Some(String::from_str("arquivo não suportado"));
                    PickerStep::Open { state: s, quit: false, reload: false }
                },
                FilePickerOutcome::Picked(path) => PickerStep::Picked { purpose: s.purpose, path },
            }
        },
        ModalKey::Char('~') => PickerStep::Jump(s, JumpTarget::Home),
        ModalKey::Char('d') | ModalKey::Char('D') => PickerStep::Jump(s, JumpTarget::Downloads),
        ModalKey::Char('M') => PickerStep::Jump(s, JumpTarget::Media),
        ModalKey::Char('/') => PickerStep::Jump(s, JumpTarget::Root),
        _ => PickerStep::Open { state: s, quit: false, reload: false },
    }
}

/// Why the image typed into the flasher cannot be used.
#[derive(Debug, Clone, Copy, PartialEq, Eq, Structural)]
pub enum FlasherError {
    /// Larger than the target drive.
    TooBig,
    /// Not a regular, non-empty file.
    NotFile,
    /// Nothing at that path.
    NotFound,
}

/// The steps of the ISO flasher wizard.
#[derive(Debug, Clone)]
pub enum FlasherStage {
    /// Typing (or picking) the image path.
    SelectIso { input: String, error: Option<FlasherError> },
    /// Computing the image's SHA-256.
    Checksumming,
    /// The image is chosen; its checksum, once computed.
    Ready { sha256: Option<String> },
    /// First confirmation.
    Confirm1,
    /// Second confirmation: the target's device node must be typed.
    Confirm2 { typed: String },
    /// Writing.
    Flashing { bytes_written: u64, total_bytes: u64, eta_secs: u64 },
    /// Finished, successfully or not.
    Done { ok: bool, message: String },
}

/// The ISO flasher wizard.
#[derive(Debug, Clone)]
pub struct FlasherModalState {
    pub device_id: String,
    pub target_label: String,
    pub target_dev_node: String,
    pub target_size: u64,
    pub iso_path: String,
    pub iso_size: u64,
    pub stage: FlasherStage,
}

/// What is known of the path typed into the flasher.
#[derive(Debug, Clone, Copy, PartialEq, Eq, Structural)]
pub enum PathMeta {
    Missing,
    Found { is_file: bool, len: u64 },
}

/// Notices the flasher raises.
#[derive(Debug, Clone, Copy, PartialEq, Eq, Structural)]
pub enum FlasherNotice {
    /// The typed device node is not the target's.
    Mismatch,
}

/// The flasher after a key.
#[derive(Debug, Clone)]
pub enum FlasherStep {
    Open { state: FlasherModalState, quit: bool, effect: Option<StorageEffect>, notice: Option<FlasherNotice> },
    Closed { effect: Option<StorageEffect> },
    OpenPicker(FilePickerPurpose),
}

impl FlasherModalState {
    /// The path whose metadata `dispatch_flasher` needs on `Enter` while an
    /// image path is being typed: the typed text, trimmed.
    pub fn typed_path(&self) -> (r: Option<String>)
        ensures
            match self.stage {
                FlasherStage::SelectIso { input, .. } => r matches Some(p) && p@ == trim(input@),
                _ => r is None,
            },
    {
        match &self.stage {
            FlasherStage::SelectIso { input, .. } => {
                let v = chars_of(input.as_str());
                let t = trim_of(&v);
                Some(string_of(&t))
            },
            _ => None,
        }
    }
}

/// The stage the flasher reaches on `Enter` while selecting an image, and
/// the error shown if it stays there.
pub open spec fn select_enter(target_size: u64, meta: PathMeta) -> Option<FlasherError> {
    match meta {
        PathMeta::Found { is_file, len } => if is_file && len > 0 {
            if len > target_size { Some(FlasherError::TooBig) } else { None }
        } else {
            Some(FlasherError::NotFile)
        },
        PathMeta::Missing => Some(FlasherError::NotFound),
    }
}

/// The flasher's target drive and chosen image are the same in both states.
pub open spec fn same_image_and_target(a: FlasherModalState, b: FlasherModalState) -> bool {
    &&& a.device_id == b.device_id
    &&& a.target_label == b.target_label
    &&& a.target_dev_node == b.target_dev_node
    &&& a.target_size == b.target_size
    &&& a.iso_path == b.iso_path
    &&& a.iso_size == b.iso_size
}

/// The keys the flasher acts on in each stage, besides quit and cancel
/// (others leave it as it is).
pub open spec fn flasher_acts(stage: FlasherStage, key: ModalKey) -> bool {
    match stage {
        FlasherStage::SelectIso { .. } => key is Char || key is Backspace || key == ModalKey::Enter || key == ModalKey::OpenPicker,
        FlasherStage::Ready { sha256 } => key == ModalKey::Enter || (key == ModalKey::Char('c') && sha256 is None),
        FlasherStage::Confirm1 => key == ModalKey::Enter,
        FlasherStage::Confirm2 { .. } => key is Char || key is Backspace || key == ModalKey::Enter,
        FlasherStage::Done { .. } => key == ModalKey::Enter,
        _ => false,
    }
}

/// The result of `dispatch_flasher` on the dialog state, the key and what
/// is known of the typed path.
pub open spec fn flasher_step(s: FlasherModalState, key: ModalKey, meta: PathMeta, r: FlasherStep) -> bool {
    &&& (key == ModalKey::Quit ==> (r matches FlasherStep::Open { state, quit, effect, notice } && quit && effect is None
        && notice is None && state == s))
    &&& (key == ModalKey::Cancel ==> (r matches FlasherStep::Closed { effect } && (s.stage is Flashing ==> (effect matches Some(StorageEffect::FlashCancel { device_id })
        && device_id == s.device_id)) && (!(s.stage is Flashing) ==> effect is None)))
    &&& (match r {
        FlasherStep::Open { effect: Some(StorageEffect::FlashIso { device_id, iso_path }), .. } => {
        &&& key == ModalKey::Enter
        &&& (s.stage matches FlasherStage::Confirm2 { typed } && trim(typed@) == s.target_dev_node@)
        &&& device_id == s.device_id
        &&& iso_path == s.iso_path
        },
        _ => true,
        })
    &&& (key == ModalKey::Enter ==> match s.stage {
        FlasherStage::Confirm2 { typed } => (r matches FlasherStep::Open { state, effect, notice, .. } && (
        if trim(typed@) == s.target_dev_node@ {
        (state.stage matches FlasherStage::Flashing { bytes_written, total_bytes, eta_secs }
        && bytes_written == 0 && total_bytes == s.iso_size && eta_secs == 0) && effect is Some && notice is None
        } else {
        notice == Some(FlasherNotice::Mismatch) && effect is None
        })),
        _ => true,
        })
    &&& (key == ModalKey::Enter && (s.stage matches FlasherStage::SelectIso { .. }) ==> (r matches FlasherStep::Open { state, effect, .. } && effect is None && (
        match select_enter(s.target_size, meta) {
        None => (state.stage matches FlasherStage::Ready { sha256 } && sha256 is None)
        && (meta matches PathMeta::Found { len, .. } && state.iso_size == len)
        && (s.stage matches FlasherStage::SelectIso { input, .. } && state.iso_path@ == trim(input@)),
        Some(e) => state.stage matches FlasherStage::SelectIso { error, .. } && error == Some(e),
        })))
    &&& (key == ModalKey::OpenPicker && (s.stage matches FlasherStage::SelectIso { .. }) ==> (r matches FlasherStep::OpenPicker(p)
        && (p matches FilePickerPurpose::FlasherIso { device_id, target_label, target_dev_node, target_size }
        && device_id == s.device_id && target_label == s.target_label && target_dev_node == s.target_dev_node
        && target_size == s.target_size)))
    &&& (key == ModalKey::Enter && (s.stage is Ready) ==> (r matches FlasherStep::Open { state, effect, .. } && state.stage is Confirm1 && effect is None))
    &&& (key == ModalKey::Enter && (s.stage is Confirm1) ==> (r matches FlasherStep::Open { state, effect, .. }
        && (state.stage matches FlasherStage::Confirm2 { typed } && typed@.len() == 0) && effect is None))
    &&& (key == ModalKey::Char('c') && (s.stage matches FlasherStage::Ready { sha256 } && sha256 is None) ==> (r matches FlasherStep::Open { state, effect, .. }
        && state.stage is Checksumming && (effect matches Some(StorageEffect::ChecksumIso(p)) && p == s.iso_path)))
    &&& (key == ModalKey::Enter && (s.stage is Done) ==> (r matches FlasherStep::Closed { effect } && effect is None))
    &&& ((key is Char || key is Backspace) ==> match s.stage {
        FlasherStage::SelectIso { input, error } => (
        r matches FlasherStep::Open { state, quit, effect, notice } && !quit && effect is None && notice is None
        && same_image_and_target(state, s)
        && (state.stage matches FlasherStage::SelectIso { input: i2, error: e2 } && i2@ == edited(input@, key)
        && e2 == error)),
        FlasherStage::Confirm2 { typed } => (
        r matches FlasherStep::Open { state, quit, effect, notice } && !quit && effect is None && notice is None
        && same_image_and_target(state, s)
        && (state.stage matches FlasherStage::Confirm2 { typed: t } && t@ == edited(typed@, key))),
        _ => true,
        })
    &&& (key != ModalKey::Quit && key != ModalKey::Cancel && !flasher_acts(s.stage, key) ==> (
        r matches FlasherStep::Open { state, quit, effect, notice } && !quit && effect is None && notice is None
        && state == s))
}

/// Handles a key in the flasher. Writing starts only from the second
/// confirmation, and only when the typed text (trimmed) is exactly the
/// target's device node; cancelling while writing asks the backend to stop.
/// `meta` describes the typed path (see `typed_path`) and is read only on
/// `Enter` while selecting the image.
pub fn dispatch_flasher(s: FlasherModalState, key: ModalKey, meta: PathMeta) -> (r: FlasherStep)
    ensures
        flasher_step(s, key, meta, r),
{
    let mut s = s;
    if key == ModalKey::Quit {
        return FlasherStep::Open { state: s, quit: true, effect: None, notice: None };
    }
    if key == ModalKey::Cancel {
        let flashing = match &s.stage {
            FlasherStage::Flashing { .. } => true,
            _ => false,
        };
        if flashing {
            return FlasherStep::Closed { effect: Some(StorageEffect::FlashCancel { device_id: s.device_id }) };
        }
        return FlasherStep::Closed { effect: None };
    }
    match &s.stage {
        FlasherStage::SelectIso { input, error } => {
            let input = input.clone();
            let error = *error;
            match key {
                ModalKey::OpenPicker => {
                    return FlasherStep::OpenPicker(FilePickerPurpose::FlasherIso {
                        device_id: s.device_id,
                        target_label: s.target_label,
                        target_dev_node: s.target_dev_node,
                        target_size: s.target_size,
                    });
                },
                ModalKey::Char(_) | ModalKey::Backspace => {
                    let mut input = input;
                    edit(&mut input, key);
                    s.stage = FlasherStage::SelectIso { input, error };
                },
                ModalKey::Enter => {
                    match meta {
                        PathMeta::Found { is_file, len } => {
                            if is_file && len > 0 {
                                if len > s.target_size {
                                    s.stage = FlasherStage::SelectIso { input, error: Some(FlasherError::TooBig) };
                                } else {
                                    let v = chars_of(input.as_str());
                                    let t = trim_of(&v);
                                    s.iso_path = string_of(&t);
                                    s.iso_size = len;
                                    s.stage = FlasherStage::Ready { sha256: None };
                                }
                            } else {
                                s.stage = FlasherStage::SelectIso { input, error: Some(FlasherError::NotFile) };
                            }
                        },
                        PathMeta::Missing => {
                            s.stage = FlasherStage::SelectIso { input, error: Some(FlasherError::NotFound) };
                        },
                    }
                },
                _ => {},
            }
            FlasherStep::Open { state: s, quit: false, effect: None, notice: None }
        },
        FlasherStage::Checksumming => FlasherStep::Open { state: s, quit: false, effect: None, notice: None },
        FlasherStage::Ready { sha256 } => {
            let no_checksum = sha256.is_none();
            match key {
                ModalKey::Char(c) => {
                    if c == 'c' && no_checksum {
                        let effect = StorageEffect::ChecksumIso(s.iso_path.clone());
                        s.stage = FlasherStage::Checksumming;
                        return FlasherStep::Open { state: s, quit: false, effect: Some(effect), notice: None };
                    }
                },
                ModalKey::Enter => {
                    s.stage = FlasherStage::Confirm1;
                },
                _ => {},
            }
            FlasherStep::Open { state: s, quit: false, effect: None, notice: None }
        },
        FlasherStage::Confirm1 => {
            if key == ModalKey::Enter {
                s.stage = FlasherStage::Confirm2 { typed: String::new() };
            }
            FlasherStep::Open { state: s, quit: false, effect: None, notice: None }
        },
        FlasherStage::Confirm2 { typed } => {
            let typed = typed.clone();
            match key {
                ModalKey::Char(_) | ModalKey::Backspace => {
                    let mut typed = typed;
                    edit(&mut typed, key);
                    s.stage = FlasherStage::Confirm2 { typed };
                    FlasherStep::Open { state: s, quit: false, effect: None, notice: None }
                },
                ModalKey::Enter => {
                    let tv = chars_of(typed.as_str());
                    let t = trim_of(&tv);
                    let nv = chars_of(s.target_dev_node.as_str());
                    if seq_eq(&t, &nv) {
                        let effect = StorageEffect::FlashIso { device_id: s.device_id.clone(), iso_path: s.iso_path.clone() };
                        s.stage = FlasherStage::Flashing { bytes_written: 0, total_bytes: s.iso_size, eta_secs: 0 };
                        FlasherStep::Open { state: s, quit: false, effect: Some(effect), notice: None }
                    } else {
                        FlasherStep::Open { state: s, quit: false, effect: None, notice: Some(FlasherNotice::Mismatch) }
                    }
                },
                _ => FlasherStep::Open { state: s, quit: false, effect: None, notice: None },
            }
        },
        FlasherStage::Flashing { .. } => FlasherStep::Open { state: s, quit: false, effect: None, notice: None },
        FlasherStage::Done { .. } => {
            if key == ModalKey::Enter {
                return FlasherStep::Closed { effect: None };
            }
            FlasherStep::Open { state: s, quit: false, effect: None, notice: None }
        },
    }
}

/// The stages of the multi-boot ISO manager.
#[derive(Debug, Clone)]
pub enum MultibootIsoManagerStage {
    Loading,
    Listing { entries: Vec<VentoyIsoEntry>, selected: usize, free_bytes: Option<u64> },
    ConfirmRemove { file_name: String },
    Copying { bytes_written: u64, total_bytes: u64, file_name: String },
    Removing { file_name: String },
    Error { message: String },
}

/// The multi-boot ISO manager of one data partition.
#[derive(Debug, Clone)]
pub struct MultibootIsoManagerState {
    pub device_id: String,
    pub target_label: String,
    pub stage: MultibootIsoManagerStage,
}

/// The ISO manager after a key.
#[derive(Debug, Clone)]
pub enum IsoManagerStep {
    Open { state: MultibootIsoManagerState, quit: bool, effect: Option<StorageEffect> },
    Closed,
    OpenPicker(FilePickerPurpose),
}

/// Keys that confirm or refuse a removal, and that ask for one.
pub open spec fn is_yes(key: ModalKey) -> bool {
    key == ModalKey::Enter || key == ModalKey::Char('y') || key == ModalKey::Char('Y')
}

pub open spec fn is_no(key: ModalKey) -> bool {
    key == ModalKey::Cancel || key == ModalKey::Char('n') || key == ModalKey::Char('N')
}

pub open spec fn is_remove_key(key: ModalKey) -> bool {
    key == ModalKey::Char('d') || key == ModalKey::Char('x') || key == ModalKey::Delete
}

/// The keys the ISO manager acts on in each stage (others leave it as it is).
pub open spec fn iso_manager_acts(stage: MultibootIsoManagerStage, key: ModalKey) -> bool {
    match stage {
        MultibootIsoManagerStage::Listing { entries, selected, .. } => {
            ||| key == ModalKey::Cancel || key == ModalKey::Down || key == ModalKey::Char('j')
            ||| key == ModalKey::Up || key == ModalKey::Char('k') || key == ModalKey::Char('a') || key == ModalKey::Char('A')
            ||| is_remove_key(key) && selected < entries@.len()
        },
        MultibootIsoManagerStage::ConfirmRemove { .. } => is_yes(key) || is_no(key),
        MultibootIsoManagerStage::Error { .. } => key == ModalKey::Cancel || key == ModalKey::Enter,
        _ => key == ModalKey::Cancel,
    }
}

/// The result of `dispatch_iso_manager` on the dialog state and the key.
pub open spec fn iso_manager_step(s: MultibootIsoManagerState, key: ModalKey, r: IsoManagerStep) -> bool {
    &&& (key == ModalKey::Quit ==> (r matches IsoManagerStep::Open { state, quit, effect } && quit && effect is None
        && state == s))
    &&& (match s.stage {
        MultibootIsoManagerStage::Listing { entries, selected, free_bytes } => {
        &&& key == ModalKey::Cancel ==> r is Closed
        &&& (key == ModalKey::Down || key == ModalKey::Char('j')) ==> (r matches IsoManagerStep::Open { state, quit, effect }
        && !quit && effect is None && (state.stage matches MultibootIsoManagerStage::Listing { entries: e2, selected: s2, free_bytes: f2 }
        && e2 == entries && f2 == free_bytes && s2 == if selected + 1 < entries@.len() { (selected + 1) as usize } else { selected }))
        &&& (key == ModalKey::Up || key == ModalKey::Char('k')) ==> (r matches IsoManagerStep::Open { state, quit, effect }
        && !quit && effect is None && (state.stage matches MultibootIsoManagerStage::Listing { entries: e2, selected: s2, free_bytes: f2 }
        && e2 == entries && f2 == free_bytes && s2 == if selected > 0 { (selected - 1) as usize } else { 0 }))
        &&& (key == ModalKey::Char('a') || key == ModalKey::Char('A')) ==> (r matches IsoManagerStep::OpenPicker(p)
        && (p matches FilePickerPurpose::MultibootAddIso { device_id, target_label } && device_id == s.device_id
        && target_label == s.target_label))
        &&& is_remove_key(key) && selected < entries@.len() ==> (r matches IsoManagerStep::Open { state, quit, effect }
        && !quit && effect is None && (state.stage matches MultibootIsoManagerStage::ConfirmRemove { file_name }
        && file_name == entries@[selected as int].name))
        },
        MultibootIsoManagerStage::ConfirmRemove { file_name } => {
        &&& is_yes(key) ==> (r matches IsoManagerStep::Open { state, quit, effect } && !quit
        && (effect matches Some(StorageEffect::MultibootRemoveIso { device_id, file_name: f }) && device_id == s.device_id && f == file_name)
        && (state.stage matches MultibootIsoManagerStage::Removing { file_name: f2 } && f2 == file_name))
        &&& is_no(key) ==> (r matches IsoManagerStep::Open { state, quit, effect } && !quit
        && (effect matches Some(StorageEffect::MultibootListIsos { device_id }) && device_id == s.device_id)
        && state.stage is Loading)
        },
        MultibootIsoManagerStage::Error { .. } => (key == ModalKey::Cancel || key == ModalKey::Enter) ==> r is Closed,
        _ => key == ModalKey::Cancel ==> r is Closed,
        })
    &&& (r matches IsoManagerStep::Open { state, .. } ==> state.device_id == s.device_id && state.target_label == s.target_label)
    &&& (key != ModalKey::Quit && !iso_manager_acts(s.stage, key) ==> (r matches IsoManagerStep::Open { state, quit, effect }
        && !quit && effect is None && state == s))
}

/// Handles a key in the ISO manager: in the list, `j`/`k` move, `a` adds an
/// image (through the file picker), `d`/`x`/Delete ask to remove the
/// selected one; a removal is confirmed with `Enter`/`y` and refused with
/// `n` or cancel (which lists again); cancel closes the manager from the
/// other stages (and `Enter` too from an error).
pub fn dispatch_iso_manager(s: MultibootIsoManagerState, key: ModalKey) -> (r: IsoManagerStep)
    ensures
        iso_manager_step(s, key, r),
{
    let mut s = s;
    if key == ModalKey::Quit {
        return IsoManagerStep::Open { state: s, quit: true, effect: None };
    }
    let mut stage = MultibootIsoManagerStage::Loading;
    std::mem::swap(&mut stage, &mut s.stage);
    match stage {
        MultibootIsoManagerStage::Listing { entries, selected, free_bytes } => {
            let n = entries.len();
            match key {
                ModalKey::Cancel => IsoManagerStep::Closed,
                ModalKey::Down | ModalKey::Char('j') => {
                    let next = if selected < n && selected + 1 < n { selected + 1 } else { selected };
                    s.stage = MultibootIsoManagerStage::Listing { entries, selected: next, free_bytes };
                    IsoManagerStep::Open { state: s, quit: false, effect: None }
                },
                ModalKey::Up | ModalKey::Char('k') => {
                    let next = if selected > 0 { selected - 1 } else { 0 };
                    s.stage = MultibootIsoManagerStage::Listing { entries, selected: next, free_bytes };
                    IsoManagerStep::Open { state: s, quit: false, effect: None }
                },
                ModalKey::Char('a') | ModalKey::Char('A') => IsoManagerStep::OpenPicker(
                    FilePickerPurpose::MultibootAddIso { device_id: s.device_id, target_label: s.target_label },
                ),
                ModalKey::Char('d') | ModalKey::Char('x') | ModalKey::Delete => {
                    if selected < n {
                        let file_name = entries[selected].name.clone();
                        s.stage = MultibootIsoManagerStage::ConfirmRemove { file_name };
                    } else {
                        s.stage = MultibootIsoManagerStage::Listing { entries, selected, free_bytes };
                    }
                    IsoManagerStep::Open { state: s, quit: false, effect: None }
                },
                _ => {
                    s.stage = MultibootIsoManagerStage::Listing { entries, selected, free_bytes };
                    IsoManagerStep::Open { state: s, quit: false, effect: None }
                },
            }
        },
        MultibootIsoManagerStage::ConfirmRemove { file_name } => {
            match key {
                ModalKey::Enter | ModalKey::Char('y') | ModalKey::Char('Y') => {
                    let effect = StorageEffect::MultibootRemoveIso { device_id: s.device_id.clone(), file_name: file_name.clone() };
                    s.stage = MultibootIsoManagerStage::Removing { file_name };
                    IsoManagerStep::Open { state: s, quit: false, effect: Some(effect) }
                },
                ModalKey::Cancel | ModalKey::Char('n') | ModalKey::Char('N') => {
                    let effect = StorageEffect::MultibootListIsos { device_id: s.device_id.clone() };
                    s.stage = MultibootIsoManagerStage::Loading;
                    IsoManagerStep::Open { state: s, quit: false, effect: Some(effect) }
                },
                _ => {
                    s.stage = MultibootIsoManagerStage::ConfirmRemove { file_name };
                    IsoManagerStep::Open { state: s, quit: false, effect: None }
                },
            }
        },
        MultibootIsoManagerStage::Error { message } => {
            if key == ModalKey::Cancel || key == ModalKey::Enter {
                IsoManagerStep::Closed
            } else {
                s.stage = MultibootIsoManagerStage::Error { message };
                IsoManagerStep::Open { state: s, quit: false, effect: None }
            }
        },
        other => {
            if key == ModalKey::Cancel {
                IsoManagerStep::Closed
            } else {
                s.stage = other;
                IsoManagerStep::Open { state: s, quit: false, effect: None }
            }
        },
    }
}

/// A dialog of the storage panel.
#[derive(Debug, Clone)]
pub enum StorageModal {
    Closed,
    Format(FormatModalState),
    Flasher(FlasherModalState),
    FilePicker(FilePickerState),
    MultibootIsoManager(MultibootIsoManagerState),
}

/// Continues after a file was picked and its size read: for the flasher,
/// an image larger than the target goes back to the path field with an
/// error, else the wizard is ready; for the multi-boot manager, copying
/// starts (`file_name` is the picked file's name).
pub fn finish_pick(purpose: FilePickerPurpose, path: String, file_name: String, size: u64) -> (r: (StorageModal, Option<StorageEffect>))
    ensures
        match purpose {
            FilePickerPurpose::FlasherIso { device_id, target_label, target_dev_node, target_size } => {
                &&& r.1 is None
                &&& r.0 matches StorageModal::Flasher(f)
                &&& (r.0 matches StorageModal::Flasher(f) && f.device_id == device_id && f.target_label == target_label
                    && f.target_dev_node == target_dev_node && f.target_size == target_size)
                &&& size > target_size ==> (r.0 matches StorageModal::Flasher(f) && f.iso_size == 0 && f.iso_path@.len() == 0
                    && (f.stage matches FlasherStage::SelectIso { input, error } && input == path && error == Some(FlasherError::TooBig)))
                &&& size <= target_size ==> (r.0 matches StorageModal::Flasher(f) && f.iso_size == size && f.iso_path == path
                    && (f.stage matches FlasherStage::Ready { sha256 } && sha256 is None))
            },
            FilePickerPurpose::MultibootAddIso { device_id, target_label } => {
                &&& (r.1 matches Some(StorageEffect::MultibootAddIso { device_id: d, src_path }) && d == device_id && src_path == path)
                &&& (r.0 matches StorageModal::MultibootIsoManager(m) && m.device_id == device_id && m.target_label == target_label
                    && (m.stage matches MultibootIsoManagerStage::Copying { bytes_written, total_bytes, file_name: f }
                    && bytes_written == 0 && total_bytes == size && f == file_name))
            },
        },
{
    match purpose {
        FilePickerPurpose::FlasherIso { device_id, target_label, target_dev_node, target_size } => {
            if size > target_size {
                (StorageModal::Flasher(FlasherModalState {
                    device_id,
                    target_label,
                    target_dev_node,
                    target_size,
                    iso_path: String::new(),
                    iso_size: 0,
                    stage: FlasherStage::SelectIso { input: path, error: Some(FlasherError::TooBig) },
                }), None)
            } else {
                (StorageModal::Flasher(FlasherModalState {
                    device_id,
                    target_label,
                    target_dev_node,
                    target_size,
                    iso_path: path,
                    iso_size: size,
                    stage: FlasherStage::Ready { sha256: None },
                }), None)
            }
        },
        FilePickerPurpose::MultibootAddIso { device_id, target_label } => {
            let effect = StorageEffect::MultibootAddIso { device_id: device_id.clone(), src_path: path };
            (StorageModal::MultibootIsoManager(MultibootIsoManagerState {
                device_id,
                target_label,
                stage: MultibootIsoManagerStage::Copying { bytes_written: 0, total_bytes: size, file_name },
            }), Some(effect))
        },
    }
}

fn same_text(a: &String, b: &String) -> (r: bool)
    ensures
        r == (a@ == b@),
{
    let av = chars_of(a.as_str());
    let bv = chars_of(b.as_str());
    seq_eq(&av, &bv)
}

impl MultibootIsoManagerState {
    /// A listing of the partition's images arrived: it is shown, first
    /// entry selected (listings for another partition are ignored).
    pub fn on_iso_list(&mut self, device_id: &String, entries: Vec<VentoyIsoEntry>, free_bytes: Option<u64>)
        ensures
            final(self).device_id == old(self).device_id,
            final(self).target_label == old(self).target_label,
            old(self).device_id@ == device_id@ ==> (final(self).stage matches MultibootIsoManagerStage::Listing { entries: e, selected, free_bytes: f }
                && e == entries && selected == 0 && f == free_bytes),
            old(self).device_id@ != device_id@ ==> final(self).stage == old(self).stage,
    {
        if same_text(&self.device_id, device_id) {
            self.stage = MultibootIsoManagerStage::Listing { entries, selected: 0, free_bytes };
        }
    }

    /// Copy progress of an image being added.
    pub fn on_copy_progress(&mut self, device_id: &String, bytes_written: u64, total_bytes: u64)
        ensures
            final(self).device_id == old(self).device_id,
            final(self).target_label == old(self).target_label,
            match old(self).stage {
                MultibootIsoManagerStage::Copying { file_name, .. } => if old(self).device_id@ == device_id@ {
                    final(self).stage == (MultibootIsoManagerStage::Copying { bytes_written, total_bytes, file_name })
                } else {
                    final(self).stage == old(self).stage
                },
                _ => final(self).stage == old(self).stage,
            },
    {
        if same_text(&self.device_id, device_id) {
            let mut stage = MultibootIsoManagerStage::Loading;
            std::mem::swap(&mut stage, &mut self.stage);
            match stage {
                MultibootIsoManagerStage::Copying { file_name, .. } => {
                    self.stage = MultibootIsoManagerStage::Copying { bytes_written, total_bytes, file_name };
                },
                other => {
                    self.stage = other;
                },
            }
        }
    }

    /// An add or a removal finished: on success the list is asked for again
    /// (the returned request), on failure the error is shown.
    pub fn on_operation_done(&mut self, device_id: &String, result: Result<String, String>) -> (r: Option<StorageEffect>)
        ensures
            final(self).device_id == old(self).device_id,
            final(self).target_label == old(self).target_label,
            old(self).device_id@ != device_id@ ==> r is None && final(self).stage == old(self).stage,
            old(self).device_id@ == device_id@ ==> match result {
                Ok(_) => final(self).stage is Loading && (r matches Some(StorageEffect::MultibootListIsos { device_id: d })
                    && d == *device_id),
                Err(e) => r is None && final(self).stage == (MultibootIsoManagerStage::Error { message: e }),
            },
    {
        if !same_text(&self.device_id, device_id) {
            return None;
        }
        match result {
            Ok(_) => {
                self.stage = MultibootIsoManagerStage::Loading;
                Some(StorageEffect::MultibootListIsos { device_id: device_id.clone() })
            },
            Err(e) => {
                self.stage = MultibootIsoManagerStage::Error { message: e };
                None
            },
        }
    }
}

impl FlasherModalState {
    /// The checksum of the chosen image arrived (results for another image
    /// are ignored).
    pub fn on_checksum_done(&mut self, path: &String, sha256: String)
        ensures
            same_image_and_target(*final(self), *old(self)),
            old(self).iso_path@ == path@ ==> (final(self).stage matches FlasherStage::Ready { sha256: Some(h) } && h == sha256),
            old(self).iso_path@ != path@ ==> final(self).stage == old(self).stage,
    {
        if same_text(&self.iso_path, path) {
            self.stage = FlasherStage::Ready { sha256: Some(sha256) };
        }
    }

    /// Write progress, shown while writing.
    pub fn on_flash_progress(&mut self, bytes_written: u64, total_bytes: u64, eta_secs: u64)
        ensures
            same_image_and_target(*final(self), *old(self)),
            old(self).stage is Flashing ==> final(self).stage == (FlasherStage::Flashing { bytes_written, total_bytes, eta_secs }),
            !(old(self).stage is Flashing) ==> final(self).stage == old(self).stage,
    {
        let flashing = match &self.stage {
            FlasherStage::Flashing { .. } => true,
            _ => false,
        };
        if flashing {
            self.stage = FlasherStage::Flashing { bytes_written, total_bytes, eta_secs };
        }
    }

    /// The write finished for `device_id`: the wizard shows the outcome
    /// (`success_message` on success, the error otherwise).
    pub fn on_flash_done(&mut self, device_id: &String, result: Result<String, String>, success_message: String) -> (r: bool)
        ensures
            r == (old(self).device_id@ == device_id@),
            same_image_and_target(*final(self), *old(self)),
            r ==> match result {
                Ok(_) => final(self).stage == (FlasherStage::Done { ok: true, message: success_message }),
                Err(e) => final(self).stage == (FlasherStage::Done { ok: false, message: e }),
            },
            !r ==> final(self).stage == old(self).stage,
    {
        if !same_text(&self.device_id, device_id) {
            return false;
        }
        match result {
            Ok(_) => {
                self.stage = FlasherStage::Done { ok: true, message: success_message };
            },
            Err(e) => {
                self.stage = FlasherStage::Done { ok: false, message: e };
            },
        }
        true
    }
}

/// A list selection after the list changed: kept in range when the list is
/// not empty.
pub open spec fn clamped(selected: usize, count: usize) -> usize {
    if count > 0 && selected >= count {
        (count - 1) as usize
    } else {
        selected
    }
}

pub fn clamp_selection(selected: usize, count: usize) -> (r: usize)
    ensures
        r == clamped(selected, count),
        count > 0 ==> r < count,
{
    if count > 0 && selected >= count {
        count - 1
    } else {
        selected
    }
}

/// Which handler a key goes to: an open prompt or dialog takes every key,
/// in this order of precedence, before the panels see it.
#[derive(Debug, Clone, Copy, PartialEq, Eq, Structural)]
pub enum KeyTarget {
    SudoPrompt,
    WifiPrompt,
    StorageDialog,
    DiskAnalyzer,
    Settings,
    Panels,
}

pub open spec fn key_target_of(sudo: bool, wifi: bool, dialog: bool, analyzer: bool, settings: bool) -> KeyTarget {
    if sudo {
        KeyTarget::SudoPrompt
    } else if wifi {
        KeyTarget::WifiPrompt
    } else if dialog {
        KeyTarget::StorageDialog
    } else if analyzer {
        KeyTarget::DiskAnalyzer
    } else if settings {
        KeyTarget::Settings
    } else {
        KeyTarget::Panels
    }
}

pub fn key_target(sudo_open: bool, wifi_open: bool, dialog_open: bool, analyzer_open: bool, settings_open: bool) -> (r: KeyTarget)
    ensures
        r == key_target_of(sudo_open, wifi_open, dialog_open, analyzer_open, settings_open),
{
    if sudo_open {
        KeyTarget::SudoPrompt
    } else if wifi_open {
        KeyTarget::WifiPrompt
    } else if dialog_open {
        KeyTarget::StorageDialog
    } else if analyzer_open {
        KeyTarget::DiskAnalyzer
    } else if settings_open {
        KeyTarget::Settings
    } else {
        KeyTarget::Panels
    }
}

/// Whether a text field has the keyboard (so letters are typed, not
/// taken as shortcuts).
pub fn text_input_active(sudo_open: bool, wifi_open: bool, modal: &StorageModal) -> (r: bool)
    ensures
        r == (sudo_open || wifi_open || match *modal {
            StorageModal::Format(f) => f.field == FormatField::Label,
            StorageModal::Flasher(f) => f.stage is SelectIso || f.stage is Confirm2,
            _ => false,
        }),
{
    if sudo_open || wifi_open {
        return true;
    }
    match modal {
        StorageModal::Format(f) => f.field == FormatField::Label,
        StorageModal::Flasher(f) => match &f.stage {
            FlasherStage::SelectIso { .. } | FlasherStage::Confirm2 { .. } => true,
            _ => false,
        },
        _ => false,
    }
}

/// The panels' navigation state.
#[derive(Debug, Clone)]
pub struct PanelState {
    pub phase: Phase,
    pub active: Tab,
    pub show_help: bool,
    pub show_config: bool,
    pub detailed_overview: bool,
    pub should_quit: bool,
    /// Per-tab selection for tabs without a list of their own.
    pub selection: [usize; 6],
    pub storage_selected: usize,
    pub network_selected: usize,
    pub bluetooth_selected: usize,
    pub audio_selected: usize,
    pub audio_category: usize,
    pub display_selected: usize,
    pub display_res_selected: usize,
}

/// A key as the panels see it (keys for the backends are passed on as they are).
#[derive(Debug, Clone, Copy, PartialEq, Eq, Structural)]
pub enum PanelKey {
    Quit,
    NextTab,
    PrevTab,
    SelectTab(usize),
    Up,
    Down,
    Left,
    Right,
    ToggleHelp,
    ToggleConfig,
    ToggleDetail,
    /// Audio category: an index, or 99 for the next and 98 for the previous.
    AudioSelectCategory(usize),
    Other,
}

pub open spec fn sat_dec(x: usize) -> usize {
    if x > 0 { (x - 1) as usize } else { 0 }
}

pub open spec fn sat_inc(x: usize) -> usize {
    if x < usize::MAX { (x + 1) as usize } else { x }
}

fn dec(x: usize) -> (r: usize)
    ensures
        r == sat_dec(x),
{
    if x > 0 { x - 1 } else { 0 }
}

fn inc(x: usize) -> (r: usize)
    ensures
        r == sat_inc(x),
{
    if x < usize::MAX { x + 1 } else { x }
}

/// The audio category a selection key leads to.
pub open spec fn next_category(cur: usize, idx: usize) -> usize {
    if idx == 99 {
        ((cur + 1) % 3) as usize
    } else if idx == 98 {
        ((cur + 2) % 3) as usize
    } else if idx < 2 {
        idx
    } else {
        2
    }
}

/// The panels after a key, every field a key does not concern kept (the
/// overview's selection, held in an array, is stated on its own by
/// `handle_key`).
pub open spec fn panel_after(p: PanelState, key: PanelKey) -> PanelState {
    let q = PanelState { phase: Phase::Running, ..p };
    match key {
        PanelKey::Quit => PanelState { should_quit: true, ..q },
        PanelKey::NextTab => PanelState { active: tab_at((tab_index(p.active) + 1) % 6), ..q },
        PanelKey::PrevTab => PanelState { active: tab_at((tab_index(p.active) + 5) % 6), ..q },
        PanelKey::SelectTab(i) => PanelState { active: tab_at(i as int), ..q },
        PanelKey::Up => match p.active {
            Tab::Storage => PanelState { storage_selected: sat_dec(p.storage_selected), ..q },
            Tab::Network => PanelState { network_selected: sat_dec(p.network_selected), ..q },
            Tab::Bluetooth => PanelState { bluetooth_selected: sat_dec(p.bluetooth_selected), ..q },
            Tab::Audio => PanelState { audio_selected: sat_dec(p.audio_selected), ..q },
            Tab::Displays => PanelState { display_res_selected: sat_dec(p.display_res_selected), ..q },
            Tab::Overview => q,
        },
        PanelKey::Down => match p.active {
            Tab::Storage => PanelState { storage_selected: sat_inc(p.storage_selected), ..q },
            Tab::Network => PanelState { network_selected: sat_inc(p.network_selected), ..q },
            Tab::Bluetooth => PanelState { bluetooth_selected: sat_inc(p.bluetooth_selected), ..q },
            Tab::Audio => PanelState { audio_selected: sat_inc(p.audio_selected), ..q },
            Tab::Displays => PanelState { display_res_selected: sat_inc(p.display_res_selected), ..q },
            Tab::Overview => q,
        },
        PanelKey::Left => if p.active == Tab::Displays {
            PanelState { display_selected: sat_dec(p.display_selected), display_res_selected: 0, ..q }
        } else {
            q
        },
        PanelKey::Right => if p.active == Tab::Displays {
            PanelState { display_selected: sat_inc(p.display_selected), display_res_selected: 0, ..q }
        } else {
            q
        },
        PanelKey::ToggleHelp => PanelState { show_help: !p.show_help, show_config: p.show_config && p.show_help, ..q },
        PanelKey::ToggleConfig => PanelState { show_config: !p.show_config, show_help: p.show_help && p.show_config, ..q },
        PanelKey::ToggleDetail => PanelState { detailed_overview: !p.detailed_overview, ..q },
        PanelKey::AudioSelectCategory(i) => PanelState { audio_category: next_category(p.audio_category, i), audio_selected: 0, ..q },
        PanelKey::Other => q,
    }
}

impl PanelState {
    /// The state at start-up (the splash shows first when enabled).
    pub fn new(splash_enabled: bool) -> (r: PanelState)
        ensures
            r.phase == if splash_enabled { Phase::Splash } else { Phase::Running },
            r.active == Tab::Overview,
            !r.show_help && !r.show_config && !r.detailed_overview && !r.should_quit,
            r.selection@ == seq![0usize, 0, 0, 0, 0, 0],
            r.storage_selected == 0 && r.network_selected == 0 && r.bluetooth_selected == 0,
            r.audio_selected == 0 && r.audio_category == 0 && r.display_selected == 0 && r.display_res_selected == 0,
    {
        let r = PanelState {
            phase: if splash_enabled { Phase::Splash } else { Phase::Running },
            active: Tab::Overview,
            show_help: false,
            show_config: false,
            detailed_overview: false,
            should_quit: false,
            selection: [0, 0, 0, 0, 0, 0],
            storage_selected: 0,
            network_selected: 0,
            bluetooth_selected: 0,
            audio_selected: 0,
            audio_category: 0,
            display_selected: 0,
            display_res_selected: 0,
        };
        assert(r.selection@ =~= seq![0usize, 0, 0, 0, 0, 0]);
        r
    }

    /// Whether the screen is redrawn on every tick rather than only on
    /// events: during the splash, on the overview (live telemetry), while a
    /// toast is shown and while the disk analyzer scans.
    pub fn needs_continuous_tick(&self, toast_shown: bool, analyzer_scanning: bool) -> (r: bool)
        ensures
            r == (self.phase == Phase::Splash || self.active == Tab::Overview || toast_shown
                || analyzer_scanning),
    {
        self.phase == Phase::Splash || self.active == Tab::Overview || toast_shown || analyzer_scanning
    }

    /// Handles a key on the panels: any key ends the splash; tabs cycle or
    /// are chosen by number (unknown numbers give the first tab); up and
    /// down move the active tab's selection (never below zero); left and
    /// right move between displays on the displays tab; help and settings
    /// exclude each other.
    pub fn handle_key(&mut self, key: PanelKey)
        requires
            old(self).audio_category < 3,
        ensures
            final(self).phase == Phase::Running,
            final(self).should_quit == (old(self).should_quit || key == PanelKey::Quit),
            final(self).audio_category < 3,
            key == PanelKey::NextTab ==> final(self).active == tab_at((tab_index(old(self).active) + 1) % 6),
            key == PanelKey::PrevTab ==> final(self).active == tab_at((tab_index(old(self).active) + 5) % 6),
            (key matches PanelKey::SelectTab(i) ==> final(self).active == tab_at(i as int)),
            !(key is NextTab || key is PrevTab || key is SelectTab) ==> final(self).active == old(self).active,
            key == PanelKey::Up ==> match old(self).active {
                Tab::Storage => final(self).storage_selected == sat_dec(old(self).storage_selected),
                Tab::Network => final(self).network_selected == sat_dec(old(self).network_selected),
                Tab::Bluetooth => final(self).bluetooth_selected == sat_dec(old(self).bluetooth_selected),
                Tab::Audio => final(self).audio_selected == sat_dec(old(self).audio_selected),
                Tab::Displays => final(self).display_res_selected == sat_dec(old(self).display_res_selected),
                Tab::Overview => final(self).selection@[0] == sat_dec(old(self).selection@[0]),
            },
            key == PanelKey::Down ==> match old(self).active {
                Tab::Storage => final(self).storage_selected == sat_inc(old(self).storage_selected),
                Tab::Network => final(self).network_selected == sat_inc(old(self).network_selected),
                Tab::Bluetooth => final(self).bluetooth_selected == sat_inc(old(self).bluetooth_selected),
                Tab::Audio => final(self).audio_selected == sat_inc(old(self).audio_selected),
                Tab::Displays => final(self).display_res_selected == sat_inc(old(self).display_res_selected),
                Tab::Overview => final(self).selection@[0] == sat_inc(old(self).selection@[0]),
            },
            key == PanelKey::Left && old(self).active == Tab::Displays ==> final(self).display_selected
                == sat_dec(old(self).display_selected) && final(self).display_res_selected == 0,
            key == PanelKey::Right && old(self).active == Tab::Displays ==> final(self).display_selected
                == sat_inc(old(self).display_selected) && final(self).display_res_selected == 0,
            key == PanelKey::ToggleHelp ==> final(self).show_help == !old(self).show_help
                && final(self).show_config == (old(self).show_config && old(self).show_help),
            key == PanelKey::ToggleConfig ==> final(self).show_config == !old(self).show_config
                && final(self).show_help == (old(self).show_help && old(self).show_config),
            key == PanelKey::ToggleDetail ==> final(self).detailed_overview == !old(self).detailed_overview,
            (key matches PanelKey::AudioSelectCategory(i) ==> final(self).audio_category == next_category(old(self).audio_category, i)
                && final(self).audio_selected == 0),
            *final(self) == (PanelState { selection: final(self).selection, ..panel_after(*old(self), key) }),
            final(self).selection@ == if (key == PanelKey::Up || key == PanelKey::Down) && old(self).active == Tab::Overview {
                old(self).selection@.update(0, if key == PanelKey::Up { sat_dec(old(self).selection@[0]) } else { sat_inc(old(self).selection@[0]) })
            } else {
                old(self).selection@
            },
    {
        self.phase = Phase::Running;
        match key {
            PanelKey::Quit => {
                self.should_quit = true;
            },
            PanelKey::NextTab => {
                self.active = self.active.next();
            },
            PanelKey::PrevTab => {
                self.active = self.active.prev();
            },
            PanelKey::SelectTab(i) => {
                self.active = Tab::from_index(i);
            },
            PanelKey::Up => {
                match self.active {
                    Tab::Storage => self.storage_selected = dec(self.storage_selected),
                    Tab::Network => self.network_selected = dec(self.network_selected),
                    Tab::Bluetooth => self.bluetooth_selected = dec(self.bluetooth_selected),
                    Tab::Audio => self.audio_selected = dec(self.audio_selected),
                    Tab::Displays => self.display_res_selected = dec(self.display_res_selected),
                    Tab::Overview => {
                        let v = dec(self.selection[0]);
                        self.selection[0] = v;
                    },
                }
            },
            PanelKey::Down => {
                match self.active {
                    Tab::Storage => self.storage_selected = inc(self.storage_selected),
                    Tab::Network => self.network_selected = inc(self.network_selected),
                    Tab::Bluetooth => self.bluetooth_selected = inc(self.bluetooth_selected),
                    Tab::Audio => self.audio_selected = inc(self.audio_selected),
                    Tab::Displays => self.display_res_selected = inc(self.display_res_selected),
                    Tab::Overview => {
                        let v = inc(self.selection[0]);
                        self.selection[0] = v;
                    },
                }
            },
            PanelKey::Left => {
                if self.active == Tab::Displays {
                    self.display_selected = dec(self.display_selected);
                    self.display_res_selected = 0;
                }
            },
            PanelKey::Right => {
                if self.active == Tab::Displays {
                    self.display_selected = inc(self.display_selected);
                    self.display_res_selected = 0;
                }
            },
            PanelKey::ToggleHelp => {
                self.show_help = !self.show_help;
                if self.show_help {
                    self.show_config = false;
                }
            },
            PanelKey::ToggleConfig => {
                self.show_config = !self.show_config;
                if self.show_config {
                    self.show_help = false;
                }
            },
            PanelKey::ToggleDetail => {
                self.detailed_overview = !self.detailed_overview;
            },
            PanelKey::AudioSelectCategory(i) => {
                self.audio_category = if i == 99 {
                    (self.audio_category + 1) % 3
                } else if i == 98 {
                    (self.audio_category + 2) % 3
                } else if i < 2 {
                    i
                } else {
                    2
                };
                self.audio_selected = 0;
            },
            PanelKey::Other => {},
        }
    }
}

/// What `Enter` on an access point does: protected networks without a
/// saved profile ask for the password first; others are joined directly.
pub fn access_point_enter(ap: &crate::network::AccessPoint) -> (r: Result<ConnectRequest, WifiPasswordPromptState>)
    ensures
        (ap.security.needs_password_spec() && !ap.is_saved) ==> (r matches Err(p) && p.ap_id == ap.id.0
            && p.ssid == ap.ssid && p.password@.len() == 0 && p.error is None),
        !(ap.security.needs_password_spec() && !ap.is_saved) ==> (r matches Ok(c) && c.ap_id == ap.id.0
            && c.ssid == ap.ssid && c.password is None),
{
    if ap.security.needs_password() && !ap.is_saved {
        Err(WifiPasswordPromptState { ap_id: ap.id.0.clone(), ssid: ap.ssid.clone(), password: String::new(), error: None })
    } else {
        Ok(ConnectRequest { ap_id: ap.id.0.clone(), ssid: ap.ssid.clone(), password: None })
    }
}

/// Power-supply changes the overview announces.
#[derive(Debug, Clone, Copy, PartialEq, Eq, Structural)]
pub enum PowerNotice {
    ChargerConnected,
    OnBattery,
}

/// The notice for a battery status change: charging started, or stopped.
pub fn battery_notice(old: crate::system::BatteryStatus, new: crate::system::BatteryStatus) -> (r: Option<PowerNotice>)
    ensures
        r == if old != crate::system::BatteryStatus::Charging && new == crate::system::BatteryStatus::Charging {
            Some(PowerNotice::ChargerConnected)
        } else if old == crate::system::BatteryStatus::Charging && new != crate::system::BatteryStatus::Charging {
            Some(PowerNotice::OnBattery)
        } else {
            None
        },
{
    if old != crate::system::BatteryStatus::Charging && new == crate::system::BatteryStatus::Charging {
        Some(PowerNotice::ChargerConnected)
    } else if old == crate::system::BatteryStatus::Charging && new != crate::system::BatteryStatus::Charging {
        Some(PowerNotice::OnBattery)
    } else {
        None
    }
}

/// Connectivity changes the network panel announces.
#[derive(Debug, Clone, Copy, PartialEq, Eq, Structural)]
pub enum NetworkNotice {
    /// Now connected with an address.
    Connected,
    /// The address is gone.
    Disconnected,
}

/// The notice for a change of "connected with an IPv4 address".
pub fn connectivity_notice(old_has_ip: bool, new_has_ip: bool) -> (r: Option<NetworkNotice>)
    ensures
        r == if !old_has_ip && new_has_ip {
            Some(NetworkNotice::Connected)
        } else if old_has_ip && !new_has_ip {
            Some(NetworkNotice::Disconnected)
        } else {
            None
        },
{
    if !old_has_ip && new_has_ip {
        Some(NetworkNotice::Connected)
    } else if old_has_ip && !new_has_ip {
        Some(NetworkNotice::Disconnected)
    } else {
        None
    }
}

/// A removable drive of the new snapshot that the old one did not have.
pub open spec fn newly_attached(old: Seq<crate::storage::DriveInfo>, d: crate::storage::DriveInfo) -> bool {
    d.removable && forall|j: int| 0 <= j < old.len() ==> old[j].id.0@ != d.id.0@
}

fn has_drive(drives: &Vec<crate::storage::DriveInfo>, id: &String) -> (r: bool)
    ensures
        r == exists|j: int| 0 <= j < drives@.len() && drives@[j].id.0@ == id@,
{
    let mut j: usize = 0;
    while j < drives.len()
        invariant
            j <= drives@.len(),
            forall|k: int| 0 <= k < j ==> drives@[k].id.0@ != id@,
        decreases drives@.len() - j,
    {
        if same_text(&drives[j].id.0, id) {
            return true;
        }
        j = j + 1;
    }
    false
}

/// The device node announced when drives are plugged in between two
/// snapshots: that of the last newly attached removable drive (each one
/// replaces the previous notice).
pub fn attached_drive_notice(old: &Vec<crate::storage::DriveInfo>, new: &Vec<crate::storage::DriveInfo>) -> (r: Option<String>)
    ensures
        match r {
            Some(node) => exists|i: int| 0 <= i < new@.len() && newly_attached(old@, new@[i]) && node == new@[i].dev_node
                && forall|k: int| i < k < new@.len() ==> !newly_attached(old@, new@[k]),
            None => forall|i: int| 0 <= i < new@.len() ==> !newly_attached(old@, new@[i]),
        },
{
    let mut i: usize = new.len();
    while i > 0
        invariant
            i <= new@.len(),
            forall|k: int| i <= k < new@.len() ==> !newly_attached(old@, new@[k]),
        decreases i,
    {
        let d = &new[i - 1];
        if d.removable && !has_drive(old, &d.id.0) {
            return Some(d.dev_node.clone());
        }
        i = i - 1;
    }
    None
}

/// A Bluetooth connection change.
#[derive(Debug, Clone)]
pub struct BluetoothNotice {
    pub name: String,
    pub connected: bool,
    pub battery_percentage: Option<u8>,
}

/// The first device of the old list with the same object path.
pub open spec fn first_same_id(old: Seq<crate::bluetooth::BluetoothDevice>, id: Seq<char>) -> Option<int> {
    if exists|j: int| 0 <= j < old.len() && old[j].id.0@ == id {
        Some(choose|j: int| 0 <= j < old.len() && old[j].id.0@ == id && forall|k: int| 0 <= k < j ==> old[k].id.0@ != id)
    } else {
        None
    }
}

/// Whether device `d` changed its connection state since the old list.
pub open spec fn bt_changed(old: Seq<crate::bluetooth::BluetoothDevice>, d: crate::bluetooth::BluetoothDevice) -> bool {
    match first_same_id(old, d.id.0@) {
        Some(j) => old[j].connected != d.connected,
        None => false,
    }
}

/// The notice shown after a Bluetooth refresh: that of the last device whose
/// connection state changed (each change replaces the previous notice).
pub fn bluetooth_notice(old: &Vec<crate::bluetooth::BluetoothDevice>, new: &Vec<crate::bluetooth::BluetoothDevice>) -> (r: Option<BluetoothNotice>)
    ensures
        match r {
            Some(n) => exists|i: int| 0 <= i < new@.len() && bt_changed(old@, new@[i]) && n.name == new@[i].name
                && n.connected == new@[i].connected && n.battery_percentage == new@[i].battery_percentage
                && forall|k: int| i < k < new@.len() ==> !bt_changed(old@, new@[k]),
            None => forall|i: int| 0 <= i < new@.len() ==> !bt_changed(old@, new@[i]),
        },
{
    let mut i: usize = new.len();
    while i > 0
        invariant
            i <= new@.len(),
            forall|k: int| i <= k < new@.len() ==> !bt_changed(old@, new@[k]),
        decreases i,
    {
        let d = &new[i - 1];
        let mut j: usize = 0;
        let mut found: Option<usize> = None;
        while j < old.len() && found.is_none()
            invariant
                j <= old@.len(),
                found is None ==> forall|k: int| 0 <= k < j ==> old@[k].id.0@ != d.id.0@,
                found matches Some(f) ==> f < old@.len() && old@[f as int].id.0@ == d.id.0@
                    && forall|k: int| 0 <= k < f ==> old@[k].id.0@ != d.id.0@,
            decreases old@.len() - j,
        {
            if same_text(&old[j].id.0, &d.id.0) {
                found = Some(j);
            }
            j = j + 1;
        }
        proof {
            let c = first_same_id(old@, d.id.0@);
            match found {
                Some(f) => {
                    let w = choose|w: int| 0 <= w < old@.len() && old@[w].id.0@ == d.id.0@ && forall|k: int| 0 <= k < w ==> old@[k].id.0@ != d.id.0@;
                    assert(0 <= f < old@.len() && old@[f as int].id.0@ == d.id.0@);
                    if w < f {
                        assert(old@[w].id.0@ != d.id.0@);
                    }
                    if (f as int) < w {
                        assert(old@[f as int].id.0@ != d.id.0@);
                    }
                    assert(c == Some(f as int));
                },
                None => {
                    assert(c is None);
                },
            }
        }
        if let Some(f) = found {
            if old[f].connected != d.connected {
                return Some(BluetoothNotice { name: d.name.clone(), connected: d.connected, battery_percentage: d.battery_percentage });
            }
        }
        i = i - 1;
    }
    None
}

/// The drive the storage panel's selection points at: the selected
/// position, or the last drive when the selection is past the end.
pub open spec fn selected_drive(snapshot: Option<crate::storage::StorageSnapshot>, selected: usize) -> Option<int> {
    match snapshot {
        None => None,
        Some(s) => if s.drives@.len() == 0 {
            None
        } else if selected < s.drives@.len() {
            Some(selected as int)
        } else {
            Some(s.drives@.len() - 1)
        },
    }
}

pub fn storage_drive_index(snapshot: &Option<crate::storage::StorageSnapshot>, selected: usize) -> (r: Option<usize>)
    ensures
        match r {
            Some(i) => selected_drive(*snapshot, selected) == Some(i as int),
            None => selected_drive(*snapshot, selected) is None,
        },
{
    match snapshot {
        None => None,
        Some(s) => {
            if s.drives.len() == 0 {
                None
            } else if selected < s.drives.len() {
                Some(selected)
            } else {
                Some(s.drives.len() - 1)
            }
        },
    }
}

/// Storage panel keys that act on the selected drive.
#[derive(Debug, Clone, Copy, PartialEq, Eq, Structural)]
pub enum StorageKey {
    MountToggle,
    Eject,
    FormatOpen,
    FlasherOpen,
    MultibootPrepareOpen,
    IsoManagerOpen,
}

/// A request to the storage backend made from the panel.
#[derive(Debug, Clone)]
pub enum StorageCommand {
    Mount(crate::events::DeviceId),
    Unmount(crate::events::DeviceId),
    Eject(crate::events::DeviceId),
    MultibootPrepare { device_id: String },
}

/// What a storage key comes to.
#[derive(Debug, Clone)]
pub enum StorageUiStep {
    Nothing,
    /// The drive holds the running system: refused, with the lock notice.
    SystemLocked,
    /// The drive has no usable partition.
    NoPartition,
    Send(StorageCommand),
    OpenModal(StorageModal),
    /// Open the file picker (in the home directory) for this purpose.
    OpenPicker(FilePickerPurpose),
    OpenModalAndSend(StorageModal, StorageEffect),
}

/// Acts on the selected drive. System drives can be neither ejected,
/// formatted, flashed nor prepared for multi-boot; mounting toggles the
/// drive's primary partition.
pub fn storage_key(snapshot: &Option<crate::storage::StorageSnapshot>, selected: usize, key: StorageKey) -> (r: StorageUiStep)
    ensures
        selected_drive(*snapshot, selected) is None ==> r is Nothing,
        selected_drive(*snapshot, selected) matches Some(d) ==> {
            let drive = snapshot.unwrap().drives@[d];
            let parts = drive.partitions@;
            &&& (drive.is_system && (key == StorageKey::Eject || key == StorageKey::FormatOpen
                || key == StorageKey::FlasherOpen || key == StorageKey::MultibootPrepareOpen)) ==> r is SystemLocked
            &&& key == StorageKey::Eject && !drive.is_system ==> (r matches StorageUiStep::Send(StorageCommand::Eject(id)) && id.0@ == drive.id.0@)
            &&& key == StorageKey::MountToggle ==> (r is Nothing && forall|i: int| !crate::storage::primary_pick(parts, i))
                || exists|i: int| crate::storage::primary_pick(parts, i) && (if crate::storage::mounted(parts[i]) {
                    r matches StorageUiStep::Send(StorageCommand::Unmount(id)) && id.0@ == parts[i].id.0@
                } else {
                    r matches StorageUiStep::Send(StorageCommand::Mount(id)) && id.0@ == parts[i].id.0@
                })
            &&& key == StorageKey::FormatOpen && !drive.is_system ==> (r matches StorageUiStep::OpenModal(StorageModal::Format(f))
                && f.device_id@ == drive.id.0@ && crate::storage::is_friendly_label(drive, f.target_label@) && f.fs_idx == 0
                && f.label@ == "PENDRIVE"@ && f.field == FormatField::Fs)
            &&& key == StorageKey::FlasherOpen && !drive.is_system ==> (r matches StorageUiStep::OpenPicker(FilePickerPurpose::FlasherIso { device_id, target_label, target_dev_node, target_size })
                && device_id@ == drive.id.0@ && crate::storage::is_friendly_label(drive, target_label@)
                && target_dev_node@ == drive.dev_node@ && target_size == drive.size)
            &&& key == StorageKey::MultibootPrepareOpen && !drive.is_system ==> (r is NoPartition && forall|i: int| !crate::storage::primary_pick(parts, i))
                || exists|i: int| crate::storage::primary_pick(parts, i)
                    && (r matches StorageUiStep::Send(StorageCommand::MultibootPrepare { device_id }) && device_id@ == parts[i].id.0@)
            &&& key == StorageKey::IsoManagerOpen ==> (r is NoPartition && forall|i: int| !crate::storage::primary_pick(parts, i))
                || exists|i: int| crate::storage::primary_pick(parts, i)
                    && (r matches StorageUiStep::OpenModalAndSend(StorageModal::MultibootIsoManager(m), StorageEffect::MultibootListIsos { device_id })
                    && device_id@ == parts[i].id.0@ && m.device_id@ == parts[i].id.0@ && m.stage is Loading
                    && crate::storage::is_friendly_label(drive, m.target_label@))
        },
{
    let idx = match storage_drive_index(snapshot, selected) {
        None => return StorageUiStep::Nothing,
        Some(i) => i,
    };
    let snap = match snapshot {
        Some(s) => s,
        None => return StorageUiStep::Nothing,
    };
    let drive = &snap.drives[idx];
    let locked_key = match key {
        StorageKey::Eject | StorageKey::FormatOpen | StorageKey::FlasherOpen | StorageKey::MultibootPrepareOpen => true,
        _ => false,
    };
    if drive.is_system && locked_key {
        return StorageUiStep::SystemLocked;
    }
    match key {
        StorageKey::MountToggle => match crate::storage::primary_partition(drive) {
            None => StorageUiStep::Nothing,
            Some(p) => {
                if p.is_mounted() {
                    StorageUiStep::Send(StorageCommand::Unmount(p.id.duplicate()))
                } else {
                    StorageUiStep::Send(StorageCommand::Mount(p.id.duplicate()))
                }
            },
        },
        StorageKey::Eject => StorageUiStep::Send(StorageCommand::Eject(drive.id.duplicate())),
        StorageKey::FormatOpen => {
            let label = drive.friendly_label();
            StorageUiStep::OpenModal(StorageModal::Format(FormatModalState::opening(drive.id.0.clone(), label)))
        },
        StorageKey::FlasherOpen => {
            let label = drive.friendly_label();
            StorageUiStep::OpenPicker(FilePickerPurpose::FlasherIso {
                device_id: drive.id.0.clone(),
                target_label: label,
                target_dev_node: drive.dev_node.clone(),
                target_size: drive.size,
            })
        },
        StorageKey::MultibootPrepareOpen => match crate::storage::primary_partition(drive) {
            None => StorageUiStep::NoPartition,
            Some(p) => StorageUiStep::Send(StorageCommand::MultibootPrepare { device_id: p.id.0.clone() }),
        },
        StorageKey::IsoManagerOpen => match crate::storage::primary_partition(drive) {
            None => StorageUiStep::NoPartition,
            Some(p) => {
                let label = drive.friendly_label();
                let device_id = p.id.0.clone();
                StorageUiStep::OpenModalAndSend(
                    StorageModal::MultibootIsoManager(MultibootIsoManagerState {
                        device_id: device_id.clone(),
                        target_label: label,
                        stage: MultibootIsoManagerStage::Loading,
                    }),
                    StorageEffect::MultibootListIsos { device_id },
                )
            },
        },
    }
}

/// What `Enter` on a Bluetooth device asks for.
#[derive(Debug, Clone)]
pub enum BluetoothCommand {
    Connect(crate::events::DeviceId),
    Disconnect(crate::events::DeviceId),
}

/// `Enter` on a device disconnects it when connected, else connects it.
pub fn bluetooth_enter(dev: &crate::bluetooth::BluetoothDevice) -> (r: BluetoothCommand)
    ensures
        dev.connected ==> (r matches BluetoothCommand::Disconnect(id) && id.0@ == dev.id.0@),
        !dev.connected ==> (r matches BluetoothCommand::Connect(id) && id.0@ == dev.id.0@),
{
    if dev.connected {
        BluetoothCommand::Disconnect(dev.id.duplicate())
    } else {
        BluetoothCommand::Connect(dev.id.duplicate())
    }
}

/// The audio list a category position selects (past the end: microphones).
pub open spec fn category_at(i: usize) -> crate::audio::AudioCategory {
    if i == 0 {
        crate::audio::AudioCategory::Sink
    } else if i == 1 {
        crate::audio::AudioCategory::AppStream
    } else {
        crate::audio::AudioCategory::Source
    }
}

pub fn audio_category_at(i: usize) -> (r: crate::audio::AudioCategory)
    ensures
        r == category_at(i),
{
    if i == 0 {
        crate::audio::AudioCategory::Sink
    } else if i == 1 {
        crate::audio::AudioCategory::AppStream
    } else {
        crate::audio::AudioCategory::Source
    }
}

/// What `Enter` (or the mute key) on an audio node asks for.
#[derive(Debug, Clone, Copy, PartialEq, Eq, Structural)]
pub enum AudioCommand {
    ToggleMute(u32),
    SetDefault(u32),
}

/// `Enter` on an application stream mutes or unmutes it; on an output or
/// input it makes that node the default.
pub fn audio_enter(category: crate::audio::AudioCategory, node_id: u32) -> (r: AudioCommand)
    ensures
        r == if category == crate::audio::AudioCategory::AppStream {
            AudioCommand::ToggleMute(node_id)
        } else {
            AudioCommand::SetDefault(node_id)
        },
{
    if category == crate::audio::AudioCategory::AppStream {
        AudioCommand::ToggleMute(node_id)
    } else {
        AudioCommand::SetDefault(node_id)
    }
}

/// `Enter` on the Bluetooth tab: the selected device is connected or
/// disconnected; nothing when no device is selected.
pub fn bluetooth_enter_selected(snap: &Option<crate::bluetooth::BluetoothSnapshot>, selected: usize) -> (r: Option<BluetoothCommand>)
    ensures
        match snap {
            Some(b) if selected < b.devices@.len() => {
                let dev = b.devices@[selected as int];
                &&& dev.connected ==> (r matches Some(BluetoothCommand::Disconnect(id)) && id.0@ == dev.id.0@)
                &&& !dev.connected ==> (r matches Some(BluetoothCommand::Connect(id)) && id.0@ == dev.id.0@)
            },
            _ => r is None,
        },
{
    match snap {
        Some(b) => {
            if selected < b.devices.len() {
                Some(bluetooth_enter(&b.devices[selected]))
            } else {
                None
            }
        },
        None => None,
    }
}

/// The id of the node at `selected` in the list of the category at
/// position `category`, if there is one.
pub open spec fn selected_node_id(snap: Option<crate::audio::AudioSnapshot>, category: usize, selected: usize) -> Option<u32> {
    match snap {
        Some(a) => {
            let nodes = match category_at(category) {
                crate::audio::AudioCategory::Sink => a.sinks@,
                crate::audio::AudioCategory::AppStream => a.apps@,
                crate::audio::AudioCategory::Source => a.sources@,
            };
            if selected < nodes.len() { Some(nodes[selected as int].id) } else { None }
        },
        None => None,
    }
}

fn selected_node(snap: &Option<crate::audio::AudioSnapshot>, category: usize, selected: usize) -> (r: Option<u32>)
    ensures
        r == selected_node_id(*snap, category, selected),
{
    match snap {
        Some(a) => {
            let nodes = a.nodes_for_category(audio_category_at(category));
            if selected < nodes.len() { Some(nodes[selected].id) } else { None }
        },
        None => None,
    }
}

/// `Enter` on the audio tab: `audio_enter` on the selected node of the
/// current list; nothing when no node is selected.
pub fn audio_enter_selected(snap: &Option<crate::audio::AudioSnapshot>, category: usize, selected: usize) -> (r: Option<AudioCommand>)
    ensures
        r == match selected_node_id(*snap, category, selected) {
            Some(id) => Some(if category_at(category) == crate::audio::AudioCategory::AppStream {
                AudioCommand::ToggleMute(id)
            } else {
                AudioCommand::SetDefault(id)
            }),
            None => None::<AudioCommand>,
        },
{
    match selected_node(snap, category, selected) {
        Some(id) => Some(audio_enter(audio_category_at(category), id)),
        None => None,
    }
}

/// The volume keys.
#[derive(Debug, Clone, Copy, PartialEq, Eq, Structural)]
pub enum VolumeKey {
    Up,
    Down,
    Mute,
}

/// Where a volume key goes.
#[derive(Debug, Clone, Copy, PartialEq, Eq, Structural)]
pub enum VolumeRoute {
    /// The selected audio node's volume goes up or down by 5 %.
    NodeUp(u32),
    NodeDown(u32),
    /// The selected audio node is muted or unmuted.
    NodeMute(u32),
    /// Passed on to the system backend (the default output).
    System(VolumeKey),
    /// On the audio tab with no node selected: nothing.
    Nothing,
}

/// On the audio tab a volume key acts on the selected node; elsewhere it
/// goes to the system backend.
pub fn route_volume_key(active: Tab, snap: &Option<crate::audio::AudioSnapshot>, category: usize, selected: usize, key: VolumeKey) -> (r: VolumeRoute)
    ensures
        active != Tab::Audio ==> r == VolumeRoute::System(key),
        active == Tab::Audio ==> r == match selected_node_id(*snap, category, selected) {
            Some(id) => match key {
                VolumeKey::Up => VolumeRoute::NodeUp(id),
                VolumeKey::Down => VolumeRoute::NodeDown(id),
                VolumeKey::Mute => VolumeRoute::NodeMute(id),
            },
            None => VolumeRoute::Nothing,
        },
{
    if active != Tab::Audio {
        return VolumeRoute::System(key);
    }
    match selected_node(snap, category, selected) {
        Some(id) => match key {
            VolumeKey::Up => VolumeRoute::NodeUp(id),
            VolumeKey::Down => VolumeRoute::NodeDown(id),
            VolumeKey::Mute => VolumeRoute::NodeMute(id),
        },
        None => VolumeRoute::Nothing,
    }
}

/// What `Enter` on the displays tab asks for.
#[derive(Debug, Clone)]
pub enum DisplayCommand {
    /// Switch `display` to the mode `WIDTHxHEIGHT` at the rate given as text.
    SetResolution { display: String, mode: String, rate_text: String },
    /// Make `display` the primary output.
    SetPrimary(String),
}

/// `Enter` on the displays tab: with a mode selected in the selected
/// output's list, switch to it; otherwise make that output primary;
/// nothing when no output is selected.
pub fn display_enter(snap: &Option<crate::display::DisplaySnapshot>, selected: usize, res_selected: usize) -> (r: Option<DisplayCommand>)
    ensures
        match snap {
            Some(ds) if selected < ds.displays@.len() => {
                let d = ds.displays@[selected as int];
                if res_selected < d.supported_modes@.len() {
                    let m = d.supported_modes@[res_selected as int];
                    r matches Some(DisplayCommand::SetResolution { display, mode, rate_text })
                        && display == d.name
                        && mode@ == decimal(m.width as nat) + "x"@ + decimal(m.height as nat)
                        && rate_text == m.rate_text
                } else {
                    r matches Some(DisplayCommand::SetPrimary(n)) && n == d.name
                }
            },
            _ => r is None,
        },
{
    match snap {
        Some(ds) => {
            if selected >= ds.displays.len() {
                return None;
            }
            let d = &ds.displays[selected];
            if res_selected < d.supported_modes.len() {
                let m = &d.supported_modes[res_selected];
                let mut text: Vec<char> = decimal_of(m.width as u64);
                append_str(&mut text, "x");
                let h = decimal_of(m.height as u64);
                append(&mut text, &h);
                Some(DisplayCommand::SetResolution {
                    display: d.name.clone(),
                    mode: string_of(&text),
                    rate_text: m.rate_text.clone(),
                })
            } else {
                Some(DisplayCommand::SetPrimary(d.name.clone()))
            }
        },
        None => None,
    }
}

/// The interface's own state: the panels and every prompt or dialog that
/// can be open over them.
pub struct AppState {
    pub panels: PanelState,
    pub sudo_prompt: Option<SudoPromptState>,
    pub wifi_prompt: Option<WifiPasswordPromptState>,
    pub storage_modal: StorageModal,
    pub analyzer: Option<crate::analyzer::DiskAnalyzerState>,
}

/// The open storage dialog can take a key (its own requirements hold).
pub open spec fn modal_ready(m: StorageModal) -> bool {
    match m {
        StorageModal::Format(f) => f.fs_idx < 5,
        StorageModal::FilePicker(p) => p.selected < usize::MAX,
        _ => true,
    }
}

/// What a key sent to the dialogs leads to outside them.
pub enum DialogOutput {
    Nothing,
    /// The password typed into the sudo prompt, for the waiting operation.
    SudoPassword(String),
    SudoCancelled,
    WifiConnect(ConnectRequest),
    Format(FormatRequest),
    Effect(StorageEffect),
    Notice(FlasherNotice),
    /// The file picker asks for a listing of its directory, for the parent
    /// of its directory, or whether a shortcut's target is a directory.
    PickerReload,
    PickerGoUp,
    PickerJump(JumpTarget),
    Picked { purpose: FilePickerPurpose, path: String },
    /// A file picker is to be opened (in the user's home) for this purpose.
    OpenPicker(FilePickerPurpose),
    /// The key goes to the disk analyzer, the settings or the panels.
    Analyzer(ModalKey),
    Settings(ModalKey),
    Panels(ModalKey),
}

/// The panels after a key went to a dialog: the splash is over, and the
/// program is marked to end when the dialog asked so.
pub open spec fn panels_after(p: PanelState, quit: bool) -> PanelState {
    PanelState { should_quit: p.should_quit || quit, phase: Phase::Running, ..p }
}

/// The sudo prompt, the output and the quit request after the prompt's step.
pub open spec fn sudo_outcome(st: SudoStep) -> (Option<SudoPromptState>, DialogOutput, bool) {
    match st {
        SudoStep::Open { state, quit } => (Some(state), DialogOutput::Nothing, quit),
        SudoStep::Submitted(pw) => (None, DialogOutput::SudoPassword(pw), false),
        SudoStep::Cancelled => (None, DialogOutput::SudoCancelled, false),
    }
}

pub open spec fn wifi_outcome(st: WifiStep) -> (Option<WifiPasswordPromptState>, DialogOutput, bool) {
    match st {
        WifiStep::Open { state, quit } => (Some(state), DialogOutput::Nothing, quit),
        WifiStep::Connect(c) => (None, DialogOutput::WifiConnect(c), false),
        WifiStep::Closed => (None, DialogOutput::Nothing, false),
    }
}

/// The storage dialog, the output and the quit request after a step of the
/// format dialog.
pub open spec fn format_outcome(st: FormatStep) -> (StorageModal, DialogOutput, bool) {
    match st {
        FormatStep::Open { state, quit } => (StorageModal::Format(state), DialogOutput::Nothing, quit),
        FormatStep::Closed => (StorageModal::Closed, DialogOutput::Nothing, false),
        FormatStep::Submitted(req) => (StorageModal::Closed, DialogOutput::Format(req), false),
    }
}

/// The same after a step of the flasher: an effect is reported before a
/// notice.
pub open spec fn flasher_outcome(st: FlasherStep) -> (StorageModal, DialogOutput, bool) {
    match st {
        FlasherStep::Open { state, quit, effect, notice } => (
            StorageModal::Flasher(state),
            match effect {
                Some(e) => DialogOutput::Effect(e),
                None => match notice {
                    Some(n) => DialogOutput::Notice(n),
                    None => DialogOutput::Nothing,
                },
            },
            quit,
        ),
        FlasherStep::Closed { effect } => (
            StorageModal::Closed,
            match effect {
                Some(e) => DialogOutput::Effect(e),
                None => DialogOutput::Nothing,
            },
            false,
        ),
        FlasherStep::OpenPicker(p) => (StorageModal::Closed, DialogOutput::OpenPicker(p), false),
    }
}

/// The same after a step of the file picker.
pub open spec fn picker_outcome(st: PickerStep) -> (StorageModal, DialogOutput, bool) {
    match st {
        PickerStep::Open { state, quit, reload } => (
            StorageModal::FilePicker(state),
            if reload { DialogOutput::PickerReload } else { DialogOutput::Nothing },
            quit,
        ),
        PickerStep::GoUp(state) => (StorageModal::FilePicker(state), DialogOutput::PickerGoUp, false),
        PickerStep::Jump(state, t) => (StorageModal::FilePicker(state), DialogOutput::PickerJump(t), false),
        PickerStep::Picked { purpose, path } => (StorageModal::Closed, DialogOutput::Picked { purpose, path }, false),
        PickerStep::Closed => (StorageModal::Closed, DialogOutput::Nothing, false),
    }
}

/// The same after a step of the ISO manager.
pub open spec fn iso_manager_outcome(st: IsoManagerStep) -> (StorageModal, DialogOutput, bool) {
    match st {
        IsoManagerStep::Open { state, quit, effect } => (
            StorageModal::MultibootIsoManager(state),
            match effect {
                Some(e) => DialogOutput::Effect(e),
                None => DialogOutput::Nothing,
            },
            quit,
        ),
        IsoManagerStep::Closed => (StorageModal::Closed, DialogOutput::Nothing, false),
        IsoManagerStep::OpenPicker(p) => (StorageModal::Closed, DialogOutput::OpenPicker(p), false),
    }
}

/// The storage dialog's step, as its own dispatcher gives it, carried into
/// the dialog, the output and the panels.
pub open spec fn modal_step(old_modal: StorageModal, key: ModalKey, meta: PathMeta, new_modal: StorageModal, r: DialogOutput, quit: bool) -> bool {
    match old_modal {
        StorageModal::Format(f) => exists|st: FormatStep| #[trigger] format_step(f, key, st)
            && format_outcome(st) == (new_modal, r, quit),
        StorageModal::Flasher(f) => exists|st: FlasherStep| #[trigger] flasher_step(f, key, meta, st)
            && flasher_outcome(st) == (new_modal, r, quit),
        StorageModal::FilePicker(f) => exists|st: PickerStep| #[trigger] file_picker_step(f, key, st)
            && picker_outcome(st) == (new_modal, r, quit),
        StorageModal::MultibootIsoManager(m) => exists|st: IsoManagerStep| #[trigger] iso_manager_step(m, key, st)
            && iso_manager_outcome(st) == (new_modal, r, quit),
        StorageModal::Closed => false,
    }
}

impl AppState {
    /// A clock tick, `elapsed_ms` after start: the splash ends once it has
    /// shown for `splash_min_ms`; a toast shown `toast_age_secs` ago is
    /// kept for four seconds (the result: whether it stays); the disk
    /// analyzer's spinner turns while it scans. Nothing else changes.
    pub fn on_tick(&mut self, elapsed_ms: u64, splash_min_ms: u64, toast_age_secs: Option<u64>) -> (keep_toast: bool)
        ensures
            final(self).panels == (PanelState {
                phase: if old(self).panels.phase == Phase::Splash && elapsed_ms >= splash_min_ms {
                    Phase::Running
                } else {
                    old(self).panels.phase
                },
                ..old(self).panels
            }),
            keep_toast == match toast_age_secs {
                Some(a) => a < 4,
                None => false,
            },
            final(self).sudo_prompt == old(self).sudo_prompt,
            final(self).wifi_prompt == old(self).wifi_prompt,
            final(self).storage_modal == old(self).storage_modal,
            match old(self).analyzer {
                Some(a) => final(self).analyzer matches Some(a2) && a2 == (crate::analyzer::DiskAnalyzerState {
                    spinner_frame: if a.is_scanning {
                        if a.spinner_frame == usize::MAX { 0 } else { (a.spinner_frame + 1) as usize }
                    } else {
                        a.spinner_frame
                    },
                    ..a
                }),
                None => final(self).analyzer is None,
            },
    {
        if self.panels.phase == Phase::Splash && elapsed_ms >= splash_min_ms {
            self.panels.phase = Phase::Running;
        }
        match &mut self.analyzer {
            Some(a) => a.tick(),
            None => {},
        }
        match toast_age_secs {
            Some(a) => a < 4,
            None => false,
        }
    }

    /// Sends a key to whatever has it (see `key_target`): the open prompt
    /// or dialog updates its state through its own dispatcher, and what it
    /// asks for comes back; keys for the analyzer, the settings and the
    /// panels are handed back. Any key ends the splash. `meta` describes the
    /// path typed into the flasher (see `FlasherModalState::typed_path`).
    /// Quit, wherever it is pressed, only marks the program to end: every
    /// prompt and dialog keeps its state and nothing is asked of a backend.
    pub fn dispatch(&mut self, key: ModalKey, meta: PathMeta) -> (r: DialogOutput)
        requires
            modal_ready(old(self).storage_modal),
        ensures
            final(self).panels.phase == Phase::Running,
            key == ModalKey::Quit ==> {
                &&& r is Nothing
                &&& final(self).panels == (PanelState { should_quit: true, phase: Phase::Running, ..old(self).panels })
                &&& final(self).sudo_prompt == old(self).sudo_prompt
                &&& final(self).wifi_prompt == old(self).wifi_prompt
                &&& final(self).storage_modal == old(self).storage_modal
                &&& final(self).analyzer == old(self).analyzer
            },
            old(self).sudo_prompt is Some ==> final(self).wifi_prompt == old(self).wifi_prompt
                && final(self).storage_modal == old(self).storage_modal && final(self).analyzer == old(self).analyzer,
            old(self).sudo_prompt matches Some(p) ==> exists|st: SudoStep| #[trigger] sudo_prompt_step(p, key, st) && {
                let o = sudo_outcome(st);
                &&& final(self).sudo_prompt == o.0
                &&& r == o.1
                &&& final(self).panels == panels_after(old(self).panels, o.2)
            },
            old(self).sudo_prompt matches Some(p) ==> {
                &&& key == ModalKey::Enter ==> (r matches DialogOutput::SudoPassword(pw) && pw@ == p.password@)
                    && final(self).sudo_prompt is None
                &&& key == ModalKey::Cancel ==> r is SudoCancelled && final(self).sudo_prompt is None
                &&& key != ModalKey::Enter && key != ModalKey::Cancel ==> r is Nothing
                    && (final(self).sudo_prompt matches Some(q) && q.label == p.label && q.error == p.error
                        && q.password@ == edited(p.password@, key))
            },
            old(self).sudo_prompt is None && old(self).wifi_prompt is Some ==> final(self).sudo_prompt is None
                && final(self).storage_modal == old(self).storage_modal && final(self).analyzer == old(self).analyzer,
            old(self).sudo_prompt is None ==> (old(self).wifi_prompt matches Some(w) ==> exists|st: WifiStep|
                #[trigger] wifi_prompt_step(w, key, st) && {
                let o = wifi_outcome(st);
                &&& final(self).wifi_prompt == o.0
                &&& r == o.1
                &&& final(self).panels == panels_after(old(self).panels, o.2)
            }),
            old(self).sudo_prompt is None ==> (old(self).wifi_prompt matches Some(w) ==> {
                &&& key == ModalKey::Enter ==> (r matches DialogOutput::WifiConnect(c) && c.ap_id == w.ap_id && c.ssid == w.ssid
                    && (c.password matches Some(pw) && pw@ == w.password@)) && final(self).wifi_prompt is None
                &&& key == ModalKey::Cancel ==> r is Nothing && final(self).wifi_prompt is None
                &&& key != ModalKey::Enter && key != ModalKey::Cancel ==> r is Nothing
                    && (final(self).wifi_prompt matches Some(q) && q.ap_id == w.ap_id && q.ssid == w.ssid
                        && q.error == w.error && q.password@ == edited(w.password@, key))
            }),
            old(self).sudo_prompt is None && old(self).wifi_prompt is None && !(old(self).storage_modal is Closed) ==>
                final(self).sudo_prompt is None && final(self).wifi_prompt is None && final(self).analyzer == old(self).analyzer,
            old(self).sudo_prompt is None && old(self).wifi_prompt is None && !(old(self).storage_modal is Closed) ==>
                exists|q: bool| #[trigger] panels_after(old(self).panels, q) == final(self).panels
                    && modal_step(old(self).storage_modal, key, meta, final(self).storage_modal, r, q),
            old(self).sudo_prompt is None && old(self).wifi_prompt is None && old(self).storage_modal is Closed ==> {
                &&& final(self).sudo_prompt is None && final(self).wifi_prompt is None
                &&& final(self).storage_modal is Closed && final(self).analyzer == old(self).analyzer
                &&& key != ModalKey::Quit ==> final(self).panels == (PanelState { phase: Phase::Running, ..old(self).panels }) && (
                    if old(self).analyzer is Some { r == DialogOutput::Analyzer(key) }
                    else if old(self).panels.show_config { r == DialogOutput::Settings(key) }
                    else { r == DialogOutput::Panels(key) })
            },
    {
        self.panels.phase = Phase::Running;
        if let Some(p) = self.sudo_prompt.take() {
            let ghost p0 = p;
            let st = dispatch_sudo_prompt(p, key);
            let ghost g = st;
            let out = match st {
                SudoStep::Open { state, quit } => {
                    self.sudo_prompt = Some(state);
                    if quit {
                        self.panels.should_quit = true;
                    }
                    DialogOutput::Nothing
                },
                SudoStep::Submitted(pw) => DialogOutput::SudoPassword(pw),
                SudoStep::Cancelled => DialogOutput::SudoCancelled,
            };
            proof {
                assert(sudo_prompt_step(p0, key, g));
                assert(self.panels == panels_after(old(self).panels, sudo_outcome(g).2));
            }
            return out;
        }
        if let Some(w) = self.wifi_prompt.take() {
            let ghost w0 = w;
            let st = dispatch_wifi_prompt(w, key);
            let ghost g = st;
            let out = match st {
                WifiStep::Open { state, quit } => {
                    self.wifi_prompt = Some(state);
                    if quit {
                        self.panels.should_quit = true;
                    }
                    DialogOutput::Nothing
                },
                WifiStep::Connect(c) => DialogOutput::WifiConnect(c),
                WifiStep::Closed => DialogOutput::Nothing,
            };
            proof {
                assert(wifi_prompt_step(w0, key, g));
                assert(self.panels == panels_after(old(self).panels, wifi_outcome(g).2));
            }
            return out;
        }
        let mut modal = StorageModal::Closed;
        std::mem::swap(&mut modal, &mut self.storage_modal);
        match modal {
            StorageModal::Closed => {},
            StorageModal::Format(f) => {
                let ghost f0 = f;
                let st = dispatch_format(f, key);
                let ghost g = st;
                let (m, out, quit) = match st {
                    FormatStep::Open { state, quit } => (StorageModal::Format(state), DialogOutput::Nothing, quit),
                    FormatStep::Closed => (StorageModal::Closed, DialogOutput::Nothing, false),
                    FormatStep::Submitted(req) => (StorageModal::Closed, DialogOutput::Format(req), false),
                };
                self.storage_modal = m;
                if quit {
                    self.panels.should_quit = true;
                }
                proof {
                    assert(format_step(f0, key, g));
                    assert(panels_after(old(self).panels, quit) == self.panels);
                }
                return out;
            },
            StorageModal::Flasher(f) => {
                let ghost f0 = f;
                let st = dispatch_flasher(f, key, meta);
                let ghost g = st;
                let (m, out, quit) = match st {
                    FlasherStep::Open { state, quit, effect, notice } => (
                        StorageModal::Flasher(state),
                        match effect {
                            Some(e) => DialogOutput::Effect(e),
                            None => match notice {
                                Some(n) => DialogOutput::Notice(n),
                                None => DialogOutput::Nothing,
                            },
                        },
                        quit,
                    ),
                    FlasherStep::Closed { effect } => (
                        StorageModal::Closed,
                        match effect {
                            Some(e) => DialogOutput::Effect(e),
                            None => DialogOutput::Nothing,
                        },
                        false,
                    ),
                    FlasherStep::OpenPicker(p) => (StorageModal::Closed, DialogOutput::OpenPicker(p), false),
                };
                self.storage_modal = m;
                if quit {
                    self.panels.should_quit = true;
                }
                proof {
                    assert(flasher_step(f0, key, meta, g));
                    assert(panels_after(old(self).panels, quit) == self.panels);
                }
                return out;
            },
            StorageModal::FilePicker(fp) => {
                let ghost f0 = fp;
                let st = dispatch_file_picker(fp, key);
                let ghost g = st;
                let (m, out, quit) = match st {
                    PickerStep::Open { state, quit, reload } => (
                        StorageModal::FilePicker(state),
                        if reload { DialogOutput::PickerReload } else { DialogOutput::Nothing },
                        quit,
                    ),
                    PickerStep::GoUp(state) => (StorageModal::FilePicker(state), DialogOutput::PickerGoUp, false),
                    PickerStep::Jump(state, t) => (StorageModal::FilePicker(state), DialogOutput::PickerJump(t), false),
                    PickerStep::Picked { purpose, path } => (StorageModal::Closed, DialogOutput::Picked { purpose, path }, false),
                    PickerStep::Closed => (StorageModal::Closed, DialogOutput::Nothing, false),
                };
                self.storage_modal = m;
                if quit {
                    self.panels.should_quit = true;
                }
                proof {
                    assert(file_picker_step(f0, key, g));
                    assert(panels_after(old(self).panels, quit) == self.panels);
                }
                return out;
            },
            StorageModal::MultibootIsoManager(mm) => {
                let ghost m0 = mm;
                let st = dispatch_iso_manager(mm, key);
                let ghost g = st;
                let (m, out, quit) = match st {
                    IsoManagerStep::Open { state, quit, effect } => (
                        StorageModal::MultibootIsoManager(state),
                        match effect {
                            Some(e) => DialogOutput::Effect(e),
                            None => DialogOutput::Nothing,
                        },
                        quit,
                    ),
                    IsoManagerStep::Closed => (StorageModal::Closed, DialogOutput::Nothing, false),
                    IsoManagerStep::OpenPicker(p) => (StorageModal::Closed, DialogOutput::OpenPicker(p), false),
                };
                self.storage_modal = m;
                if quit {
                    self.panels.should_quit = true;
                }
                proof {
                    assert(iso_manager_step(m0, key, g));
                    assert(panels_after(old(self).panels, quit) == self.panels);
                }
                return out;
            },
        }
        if key == ModalKey::Quit {
            self.panels.should_quit = true;
            return DialogOutput::Nothing;
        }
        if self.analyzer.is_some() {
            DialogOutput::Analyzer(key)
        } else if self.panels.show_config {
            DialogOutput::Settings(key)
        } else {
            DialogOutput::Panels(key)
        }
    }
}

/// What the storage backend reports about the open dialog's work.
pub enum DialogEvent {
    IsoList { device_id: String, entries: Vec<VentoyIsoEntry>, free_bytes: Option<u64> },
    IsoCopyProgress { device_id: String, bytes_written: u64, total_bytes: u64 },
    IsoCopyDone { device_id: String, result: Result<String, String> },
    IsoRemoveDone { device_id: String, result: Result<String, String> },
    ChecksumDone { path: String, sha256: String },
    FlashProgress { bytes_written: u64, total_bytes: u64, eta_secs: u64 },
    /// `success_message` is what the wizard shows on success.
    FlashDone { device_id: String, result: Result<String, String>, success_message: String },
}

/// The event is an image copy or removal that succeeded on `device_id`.
pub open spec fn completed_iso_op(ev: DialogEvent, device_id: Seq<char>) -> bool {
    match ev {
        DialogEvent::IsoCopyDone { device_id: d, result } => d@ == device_id && result is Ok,
        DialogEvent::IsoRemoveDone { device_id: d, result } => d@ == device_id && result is Ok,
        _ => false,
    }
}

/// The open dialog after a backend report, the request that follows and
/// whether a finished write was shown: a listing, copy progress or the
/// outcome of a copy or removal for the ISO manager's partition; the
/// checksum of the flasher's image, write progress while writing, and the
/// outcome of a write on the flasher's drive. Anything else changes nothing.
pub open spec fn modal_after_event(m: StorageModal, ev: DialogEvent) -> (StorageModal, Option<StorageEffect>, bool) {
    match m {
        StorageModal::MultibootIsoManager(s) => match ev {
            DialogEvent::IsoList { device_id, entries, free_bytes } => (
                StorageModal::MultibootIsoManager(if device_id@ == s.device_id@ {
                    MultibootIsoManagerState { stage: MultibootIsoManagerStage::Listing { entries, selected: 0, free_bytes }, ..s }
                } else {
                    s
                }),
                None,
                false,
            ),
            DialogEvent::IsoCopyProgress { device_id, bytes_written, total_bytes } => (
                StorageModal::MultibootIsoManager(match s.stage {
                    MultibootIsoManagerStage::Copying { file_name, .. } => if device_id@ == s.device_id@ {
                        MultibootIsoManagerState {
                            stage: MultibootIsoManagerStage::Copying { bytes_written, total_bytes, file_name },
                            ..s
                        }
                    } else {
                        s
                    },
                    _ => s,
                }),
                None,
                false,
            ),
            DialogEvent::IsoCopyDone { device_id, result } => iso_done_outcome(s, device_id, result),
            DialogEvent::IsoRemoveDone { device_id, result } => iso_done_outcome(s, device_id, result),
            _ => (m, None, false),
        },
        StorageModal::Flasher(f) => match ev {
            DialogEvent::ChecksumDone { path, sha256 } => (
                StorageModal::Flasher(if f.iso_path@ == path@ {
                    FlasherModalState { stage: FlasherStage::Ready { sha256: Some(sha256) }, ..f }
                } else {
                    f
                }),
                None,
                false,
            ),
            DialogEvent::FlashProgress { bytes_written, total_bytes, eta_secs } => (
                StorageModal::Flasher(if f.stage is Flashing {
                    FlasherModalState { stage: FlasherStage::Flashing { bytes_written, total_bytes, eta_secs }, ..f }
                } else {
                    f
                }),
                None,
                false,
            ),
            DialogEvent::FlashDone { device_id, result, success_message } => if f.device_id@ == device_id@ {
                (
                    StorageModal::Flasher(FlasherModalState {
                        stage: match result {
                            Ok(_) => FlasherStage::Done { ok: true, message: success_message },
                            Err(e) => FlasherStage::Done { ok: false, message: e },
                        },
                        ..f
                    }),
                    None,
                    true,
                )
            } else {
                (m, None, false)
            },
            _ => (m, None, false),
        },
        _ => (m, None, false),
    }
}

/// The ISO manager after a copy or removal finished on `device_id`.
pub open spec fn iso_done_outcome(s: MultibootIsoManagerState, device_id: String, result: Result<String, String>) -> (StorageModal, Option<StorageEffect>, bool) {
    if device_id@ == s.device_id@ {
        match result {
            Ok(_) => (
                StorageModal::MultibootIsoManager(MultibootIsoManagerState { stage: MultibootIsoManagerStage::Loading, ..s }),
                Some(StorageEffect::MultibootListIsos { device_id }),
                false,
            ),
            Err(e) => (
                StorageModal::MultibootIsoManager(MultibootIsoManagerState { stage: MultibootIsoManagerStage::Error { message: e }, ..s }),
                None,
                false,
            ),
        }
    } else {
        (StorageModal::MultibootIsoManager(s), None, false)
    }
}

impl StorageModal {
    /// Passes a backend report to the open dialog it concerns (the ISO
    /// manager, or the flasher); reports for a closed or other dialog
    /// change nothing. The result is the request that follows, and whether a
    /// finished write was shown (to notify the user). Only a copy or a
    /// removal that succeeded on the open ISO manager's partition asks for
    /// anything: a new listing of that partition, the manager then loading.
    pub fn on_event(&mut self, ev: DialogEvent) -> (r: (Option<StorageEffect>, bool))
        ensures
            r.0 is Some <==> (*old(self) matches StorageModal::MultibootIsoManager(m) && completed_iso_op(ev, m.device_id@)),
            r.0 is Some ==> (*old(self) matches StorageModal::MultibootIsoManager(m)
                && (r.0 matches Some(StorageEffect::MultibootListIsos { device_id }) && device_id@ == m.device_id@)
                && (*final(self) matches StorageModal::MultibootIsoManager(m2) && m2.device_id == m.device_id
                    && m2.stage is Loading)),
            r.1 ==> (ev is FlashDone && *old(self) is Flasher),
            !(*old(self) is MultibootIsoManager) && !(*old(self) is Flasher) ==> *final(self) == *old(self),
            (*final(self), r.0, r.1) == modal_after_event(*old(self), ev),
    {
        let mut modal = StorageModal::Closed;
        std::mem::swap(&mut modal, self);
        match modal {
            StorageModal::MultibootIsoManager(mut m) => {
                let effect = match ev {
                    DialogEvent::IsoList { device_id, entries, free_bytes } => {
                        m.on_iso_list(&device_id, entries, free_bytes);
                        None
                    },
                    DialogEvent::IsoCopyProgress { device_id, bytes_written, total_bytes } => {
                        m.on_copy_progress(&device_id, bytes_written, total_bytes);
                        None
                    },
                    DialogEvent::IsoCopyDone { device_id, result } => m.on_operation_done(&device_id, result),
                    DialogEvent::IsoRemoveDone { device_id, result } => m.on_operation_done(&device_id, result),
                    _ => None,
                };
                *self = StorageModal::MultibootIsoManager(m);
                (effect, false)
            },
            StorageModal::Flasher(mut f) => {
                let shown = match ev {
                    DialogEvent::ChecksumDone { path, sha256 } => {
                        f.on_checksum_done(&path, sha256);
                        false
                    },
                    DialogEvent::FlashProgress { bytes_written, total_bytes, eta_secs } => {
                        f.on_flash_progress(bytes_written, total_bytes, eta_secs);
                        false
                    },
                    DialogEvent::FlashDone { device_id, result, success_message } => f.on_flash_done(
                        &device_id,
                        result,
                        success_message,
                    ),
                    _ => false,
                };
                *self = StorageModal::Flasher(f);
                (None, shown)
            },
            other => {
                *self = other;
                (None, false)
            },
        }
    }
}

} // verus!
