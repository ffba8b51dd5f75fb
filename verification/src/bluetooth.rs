//! The Bluetooth panel's model: device kinds (from icon, class of device,
//! appearance and service UUIDs), the devices BlueZ reports, and the order
//! they are listed in.

use vstd::prelude::*;
use crate::events::DeviceId;
use crate::sort::{chars_key, is_permutation, push_chars_key, seq_le, stable_sort, stably_sorted_by};
use crate::text::{all_ascii, chars_of, contains_str, has_infix, lower, occurs_at, seq_eq, to_lowercase, unicode_lower};

verus! {

/// What kind of device a Bluetooth peer is.
#[derive(Debug, Clone, Copy, PartialEq, Eq, Structural)]
pub enum BluetoothDeviceType {
    Audio,
    Gamepad,
    Keyboard,
    Mouse,
    Phone,
    Computer,
    Wearable,
    Other,
}

impl BluetoothDeviceType {
    /// Fixed-width tag used when icons are off.
    pub fn ascii_label(&self) -> (r: &'static str)
        ensures
            r@ == match *self {
                BluetoothDeviceType::Audio => "[FONE]"@,
                BluetoothDeviceType::Gamepad => "[PAD ]"@,
                BluetoothDeviceType::Keyboard => "[TECL]"@,
                BluetoothDeviceType::Mouse => "[MOUS]"@,
                BluetoothDeviceType::Phone => "[CEL ]"@,
                BluetoothDeviceType::Computer => "[PC  ]"@,
                BluetoothDeviceType::Wearable => "[RELO]"@,
                BluetoothDeviceType::Other => "[DEV ]"@,
            },
    {
        match self {
            BluetoothDeviceType::Audio => "[FONE]",
            BluetoothDeviceType::Gamepad => "[PAD ]",
            BluetoothDeviceType::Keyboard => "[TECL]",
            BluetoothDeviceType::Mouse => "[MOUS]",
            BluetoothDeviceType::Phone => "[CEL ]",
            BluetoothDeviceType::Computer => "[PC  ]",
            BluetoothDeviceType::Wearable => "[RELO]",
            BluetoothDeviceType::Other => "[DEV ]",
        }
    }

    /// Nerd Font glyph of the kind.
    pub fn nerd_glyph(&self) -> (r: &'static str)
        ensures
            r@ == match *self {
                BluetoothDeviceType::Audio => "\u{f02cb}"@,
                BluetoothDeviceType::Gamepad => "\u{f02b4}"@,
                BluetoothDeviceType::Keyboard => "\u{f030c}"@,
                BluetoothDeviceType::Mouse => "\u{f037d}"@,
                BluetoothDeviceType::Phone => "\u{f011c}"@,
                BluetoothDeviceType::Computer => "\u{f0322}"@,
                BluetoothDeviceType::Wearable => "\u{f00af}"@,
                BluetoothDeviceType::Other => "\u{f00af}"@,
            },
    {
        match self {
            BluetoothDeviceType::Audio => "\u{f02cb}",
            BluetoothDeviceType::Gamepad => "\u{f02b4}",
            BluetoothDeviceType::Keyboard => "\u{f030c}",
            BluetoothDeviceType::Mouse => "\u{f037d}",
            BluetoothDeviceType::Phone => "\u{f011c}",
            BluetoothDeviceType::Computer => "\u{f0322}",
            BluetoothDeviceType::Wearable => "\u{f00af}",
            BluetoothDeviceType::Other => "\u{f00af}",
        }
    }
}

/// The kind an icon name (lower-cased) points to.
pub open spec fn icon_kind(l: Seq<char>) -> Option<BluetoothDeviceType> {
    if has_infix(l, "headset"@) || has_infix(l, "audio"@) || has_infix(l, "headphones"@)
        || has_infix(l, "speaker"@) {
        Some(BluetoothDeviceType::Audio)
    } else if has_infix(l, "gamepad"@) || has_infix(l, "joystick"@) || has_infix(l, "gaming"@) {
        Some(BluetoothDeviceType::Gamepad)
    } else if has_infix(l, "keyboard"@) {
        Some(BluetoothDeviceType::Keyboard)
    } else if has_infix(l, "mouse"@) || has_infix(l, "input-mouse"@) {
        Some(BluetoothDeviceType::Mouse)
    } else if has_infix(l, "phone"@) {
        Some(BluetoothDeviceType::Phone)
    } else if has_infix(l, "computer"@) {
        Some(BluetoothDeviceType::Computer)
    } else {
        None
    }
}

/// The words of an icon name and the kinds they give: audio words first,
/// then game controllers, keyboards, mice, phones and computers. In
/// particular a name with "phone" and none of the words before it (such as
/// "headphones") is a phone, and the class of device is then not consulted.
pub proof fn lemma_icon_words(l: Seq<char>, cod: Option<u32>, appearance: Option<u16>, uuids: Seq<Seq<char>>)
    ensures
        has_infix(l, "headphones"@) || has_infix(l, "headset"@) || has_infix(l, "speaker"@) || has_infix(l, "audio"@)
            ==> icon_kind(l) == Some(BluetoothDeviceType::Audio),
        !has_audio_word(l) && (has_infix(l, "gamepad"@) || has_infix(l, "joystick"@) || has_infix(l, "gaming"@))
            ==> icon_kind(l) == Some(BluetoothDeviceType::Gamepad),
        !has_audio_word(l) && !has_gamepad_word(l) && has_infix(l, "keyboard"@) ==> icon_kind(l) == Some(
            BluetoothDeviceType::Keyboard,
        ),
        !has_audio_word(l) && !has_gamepad_word(l) && !has_infix(l, "keyboard"@) && has_infix(l, "mouse"@)
            ==> icon_kind(l) == Some(BluetoothDeviceType::Mouse),
        !has_audio_word(l) && !has_gamepad_word(l) && !has_infix(l, "keyboard"@) && !has_infix(l, "mouse"@)
            && has_infix(l, "phone"@) ==> icon_kind(l) == Some(BluetoothDeviceType::Phone)
            && device_kind_lowered(Some(l), cod, appearance, uuids) == BluetoothDeviceType::Phone,
        !has_audio_word(l) && !has_gamepad_word(l) && !has_infix(l, "keyboard"@) && !has_infix(l, "mouse"@)
            && !has_infix(l, "phone"@) ==> icon_kind(l) == if has_infix(l, "computer"@) {
            Some(BluetoothDeviceType::Computer)
        } else {
            None
        },
{
    if has_infix(l, "input-mouse"@) {
        let i = choose|i: int| occurs_at(l, "input-mouse"@, i);
        reveal_strlit("input-mouse");
        reveal_strlit("mouse");
        assert("input-mouse"@.subrange(6, 11) =~= "mouse"@);
        assert(l.subrange(i + 6, i + 11) =~= l.subrange(i, i + 11).subrange(6, 11));
        assert(occurs_at(l, "mouse"@, i + 6));
    }
}

/// The icon names an audio device.
pub open spec fn has_audio_word(l: Seq<char>) -> bool {
    has_infix(l, "headphones"@) || has_infix(l, "headset"@) || has_infix(l, "speaker"@) || has_infix(l, "audio"@)
}

/// The icon names a game controller.
pub open spec fn has_gamepad_word(l: Seq<char>) -> bool {
    has_infix(l, "gamepad"@) || has_infix(l, "joystick"@) || has_infix(l, "gaming"@)
}

/// The kind a Class of Device value names (major class, and for
/// peripherals the minor class bits).
pub open spec fn class_kind(cod: u32) -> Option<BluetoothDeviceType> {
    let major = (cod >> 8u32) & 0x1Fu32;
    let minor = (cod >> 2u32) & 0x3Fu32;
    if major == 1 {
        Some(BluetoothDeviceType::Computer)
    } else if major == 2 {
        Some(BluetoothDeviceType::Phone)
    } else if major == 4 {
        Some(BluetoothDeviceType::Audio)
    } else if major == 5 {
        if minor & 0x10u32 != 0 {
            Some(BluetoothDeviceType::Keyboard)
        } else if minor & 0x20u32 != 0 {
            Some(BluetoothDeviceType::Mouse)
        } else if minor & 0x01u32 != 0 || minor & 0x02u32 != 0 {
            Some(BluetoothDeviceType::Gamepad)
        } else {
            None
        }
    } else if major == 7 {
        Some(BluetoothDeviceType::Wearable)
    } else {
        None
    }
}

/// The Class of Device by its numeric fields: the major class is bits 8-12
/// (`cod / 256 % 32`), the minor class bits 2-7 (`cod / 4 % 64`): computers,
/// phones, audio and wearables by major class, and for peripherals a
/// keyboard, a pointing device or a game controller by minor bits.
pub proof fn lemma_class_of_device(cod: u32)
    ensures
        ({
            let major = cod / 256 % 32;
            let minor = cod / 4 % 64;
            &&& major == 1 ==> class_kind(cod) == Some(BluetoothDeviceType::Computer)
            &&& major == 2 ==> class_kind(cod) == Some(BluetoothDeviceType::Phone)
            &&& major == 4 ==> class_kind(cod) == Some(BluetoothDeviceType::Audio)
            &&& major == 7 ==> class_kind(cod) == Some(BluetoothDeviceType::Wearable)
            &&& major == 5 && minor / 16 % 2 == 1 ==> class_kind(cod) == Some(BluetoothDeviceType::Keyboard)
            &&& major == 5 && minor / 16 % 2 == 0 && minor / 32 == 1 ==> class_kind(cod) == Some(BluetoothDeviceType::Mouse)
            &&& major == 5 && minor / 16 % 2 == 0 && minor / 32 == 0 && minor % 4 != 0 ==> class_kind(cod) == Some(
                BluetoothDeviceType::Gamepad,
            )
            &&& major == 5 && minor / 16 % 2 == 0 && minor / 32 == 0 && minor % 4 == 0 ==> class_kind(cod) is None
            &&& major != 1 && major != 2 && major != 4 && major != 5 && major != 7 ==> class_kind(cod) is None
        }),
{
    assert((cod >> 8u32) & 0x1Fu32 == cod / 256 % 32) by (bit_vector);
    let minor = (cod >> 2u32) & 0x3Fu32;
    assert((cod >> 2u32) & 0x3Fu32 == cod / 4 % 64) by (bit_vector);
    assert(minor & 0x10u32 != 0 <==> minor / 16 % 2 == 1) by (bit_vector);
    assert(minor & 0x20u32 != 0 <==> minor / 32 % 2 == 1) by (bit_vector);
    assert(minor < 64 ==> minor / 32 % 2 == minor / 32) by (bit_vector);
    assert((minor & 0x01u32 != 0 || minor & 0x02u32 != 0) <==> minor % 4 != 0) by (bit_vector);
}

/// The Appearance by its category, the value's top ten bits (`app / 64`):
/// game controllers, keyboards, mice, audio devices and wearables.
pub proof fn lemma_appearance_category(app: u16)
    ensures
        ({
            let cat = app / 64;
            &&& cat == 15 ==> appearance_kind(app) == Some(BluetoothDeviceType::Gamepad)
            &&& cat == 14 ==> appearance_kind(app) == Some(BluetoothDeviceType::Keyboard)
            &&& cat == 16 ==> appearance_kind(app) == Some(BluetoothDeviceType::Mouse)
            &&& cat == 10 ==> appearance_kind(app) == Some(BluetoothDeviceType::Audio)
            &&& cat == 3 ==> appearance_kind(app) == Some(BluetoothDeviceType::Wearable)
            &&& cat != 15 && cat != 14 && cat != 16 && cat != 10 && cat != 3 ==> appearance_kind(app) is None
        }),
{
    assert(app >> 6u16 == app / 64) by (bit_vector);
}

/// The kind a GAP Appearance value's category names.
pub open spec fn appearance_kind(app: u16) -> Option<BluetoothDeviceType> {
    let cat = app >> 6u16;
    if cat == 15 {
        Some(BluetoothDeviceType::Gamepad)
    } else if cat == 14 {
        Some(BluetoothDeviceType::Keyboard)
    } else if cat == 16 {
        Some(BluetoothDeviceType::Mouse)
    } else if cat == 10 {
        Some(BluetoothDeviceType::Audio)
    } else if cat == 3 {
        Some(BluetoothDeviceType::Wearable)
    } else {
        None
    }
}

/// The kind a service UUID (lower-cased) reveals: audio profiles or HID.
pub open spec fn uuid_kind(l: Seq<char>) -> Option<BluetoothDeviceType> {
    if has_infix(l, "110b"@) || has_infix(l, "110a"@) || has_infix(l, "111e"@) || has_infix(l, "1108"@) {
        Some(BluetoothDeviceType::Audio)
    } else if has_infix(l, "1124"@) || has_infix(l, "1812"@) {
        Some(BluetoothDeviceType::Keyboard)
    } else {
        None
    }
}

/// Service UUIDs of the audio profiles (A2DP 110a/110b, headset 1108,
/// hands-free 111e) reveal an audio device; those of HID (1124, 1812)
/// reveal a keyboard unless an audio profile is also named.
pub proof fn lemma_uuid_profiles(l: Seq<char>)
    ensures
        has_infix(l, "110a"@) || has_infix(l, "110b"@) || has_infix(l, "1108"@) || has_infix(l, "111e"@)
            ==> uuid_kind(l) == Some(BluetoothDeviceType::Audio),
        !(has_infix(l, "110a"@) || has_infix(l, "110b"@) || has_infix(l, "1108"@) || has_infix(l, "111e"@))
            ==> uuid_kind(l) == if has_infix(l, "1124"@) || has_infix(l, "1812"@) {
            Some(BluetoothDeviceType::Keyboard)
        } else {
            None
        },
{
}

/// The kind revealed by the first (lower-cased) UUID that reveals one.
pub open spec fn uuids_kind(uuids: Seq<Seq<char>>) -> Option<BluetoothDeviceType>
    decreases uuids.len(),
{
    if uuids.len() == 0 {
        None
    } else if uuid_kind(uuids[0]) is Some {
        uuid_kind(uuids[0])
    } else {
        uuids_kind(uuids.drop_first())
    }
}

/// The device kind, icon and UUIDs already lower-cased: the icon decides
/// first, then the class of device, then the appearance, then the service
/// UUIDs; `Other` when none does.
pub open spec fn device_kind_lowered(
    icon: Option<Seq<char>>,
    class_of_device: Option<u32>,
    appearance: Option<u16>,
    uuids: Seq<Seq<char>>,
) -> BluetoothDeviceType {
    if icon is Some && icon_kind(icon.unwrap()) is Some {
        icon_kind(icon.unwrap()).unwrap()
    } else if class_of_device is Some && class_kind(class_of_device.unwrap()) is Some {
        class_kind(class_of_device.unwrap()).unwrap()
    } else if appearance is Some && appearance_kind(appearance.unwrap()) is Some {
        appearance_kind(appearance.unwrap()).unwrap()
    } else if uuids_kind(uuids) is Some {
        uuids_kind(uuids).unwrap()
    } else {
        BluetoothDeviceType::Other
    }
}

/// The device kind from the icon and UUIDs as BlueZ gives them (compared
/// after `str::to_lowercase`).
pub open spec fn device_kind(
    icon: Option<Seq<char>>,
    class_of_device: Option<u32>,
    appearance: Option<u16>,
    uuids: Seq<String>,
) -> BluetoothDeviceType {
    device_kind_lowered(
        match icon {
            Some(i) => Some(unicode_lower(i)),
            None => None,
        },
        class_of_device,
        appearance,
        uuids.map_values(|u: String| unicode_lower(u@)),
    )
}

fn icon_kind_of(l: &[char]) -> (r: Option<BluetoothDeviceType>)
    ensures
        r == icon_kind(l@),
{
    if contains_str(l, "headset") || contains_str(l, "audio") || contains_str(l, "headphones")
        || contains_str(l, "speaker") {
        Some(BluetoothDeviceType::Audio)
    } else if contains_str(l, "gamepad") || contains_str(l, "joystick") || contains_str(l, "gaming") {
        Some(BluetoothDeviceType::Gamepad)
    } else if contains_str(l, "keyboard") {
        Some(BluetoothDeviceType::Keyboard)
    } else if contains_str(l, "mouse") || contains_str(l, "input-mouse") {
        Some(BluetoothDeviceType::Mouse)
    } else if contains_str(l, "phone") {
        Some(BluetoothDeviceType::Phone)
    } else if contains_str(l, "computer") {
        Some(BluetoothDeviceType::Computer)
    } else {
        None
    }
}

fn class_kind_of(cod: u32) -> (r: Option<BluetoothDeviceType>)
    ensures
        r == class_kind(cod),
{
    let major = (cod >> 8u32) & 0x1Fu32;
    let minor = (cod >> 2u32) & 0x3Fu32;
    if major == 1 {
        Some(BluetoothDeviceType::Computer)
    } else if major == 2 {
        Some(BluetoothDeviceType::Phone)
    } else if major == 4 {
        Some(BluetoothDeviceType::Audio)
    } else if major == 5 {
        if minor & 0x10u32 != 0 {
            Some(BluetoothDeviceType::Keyboard)
        } else if minor & 0x20u32 != 0 {
            Some(BluetoothDeviceType::Mouse)
        } else if minor & 0x01u32 != 0 || minor & 0x02u32 != 0 {
            Some(BluetoothDeviceType::Gamepad)
        } else {
            None
        }
    } else if major == 7 {
        Some(BluetoothDeviceType::Wearable)
    } else {
        None
    }
}

fn appearance_kind_of(app: u16) -> (r: Option<BluetoothDeviceType>)
    ensures
        r == appearance_kind(app),
{
    let cat = app >> 6u16;
    if cat == 15 {
        Some(BluetoothDeviceType::Gamepad)
    } else if cat == 14 {
        Some(BluetoothDeviceType::Keyboard)
    } else if cat == 16 {
        Some(BluetoothDeviceType::Mouse)
    } else if cat == 10 {
        Some(BluetoothDeviceType::Audio)
    } else if cat == 3 {
        Some(BluetoothDeviceType::Wearable)
    } else {
        None
    }
}

fn uuid_kind_of(l: &[char]) -> (r: Option<BluetoothDeviceType>)
    ensures
        r == uuid_kind(l@),
{
    if contains_str(l, "110b") || contains_str(l, "110a") || contains_str(l, "111e") || contains_str(l, "1108") {
        Some(BluetoothDeviceType::Audio)
    } else if contains_str(l, "1124") || contains_str(l, "1812") {
        Some(BluetoothDeviceType::Keyboard)
    } else {
        None
    }
}

/// Classifies a device from its lower-cased icon name, class of device,
/// appearance and lower-cased service UUIDs.
pub fn device_type_from_lowered(
    icon: Option<&str>,
    class_of_device: Option<u32>,
    appearance: Option<u16>,
    uuids: &[String],
) -> (r: BluetoothDeviceType)
    ensures
        r == device_kind_lowered(
            match icon {
                Some(s) => Some(s@),
                None => None,
            },
            class_of_device,
            appearance,
            uuids@.map_values(|u: String| u@),
        ),
{
    let ghost icon_v: Option<Seq<char>> = match icon {
        Some(s) => Some(s@),
        None => None,
    };
    let ghost uv = uuids@.map_values(|u: String| u@);
    if let Some(ic) = icon {
        let lv = chars_of(ic);
        if let Some(k) = icon_kind_of(&lv) {
            return k;
        }
    }
    if let Some(cod) = class_of_device {
        if let Some(k) = class_kind_of(cod) {
            return k;
        }
    }
    if let Some(app) = appearance {
        if let Some(k) = appearance_kind_of(app) {
            return k;
        }
    }
    let mut i: usize = 0;
    assert(uv.skip(0) =~= uv);
    while i < uuids.len()
        invariant
            i <= uuids@.len(),
            uv == uuids@.map_values(|u: String| u@),
            uuids_kind(uv) == uuids_kind(uv.skip(i as int)),
            icon_v == match icon {
                Some(s) => Some(s@),
                None => None,
            },
            !(icon_v is Some && icon_kind(icon_v.unwrap()) is Some),
            !(class_of_device is Some && class_kind(class_of_device.unwrap()) is Some),
            !(appearance is Some && appearance_kind(appearance.unwrap()) is Some),
        decreases uuids@.len() - i,
    {
        let lv = chars_of(uuids[i].as_str());
        let k = uuid_kind_of(&lv);
        assert(uv.skip(i as int)[0] == uv[i as int]);
        if let Some(t) = k {
            return t;
        }
        assert(uv.skip(i as int).drop_first() =~= uv.skip(i + 1));
        i = i + 1;
    }
    BluetoothDeviceType::Other
}

/// Classifies a device from what BlueZ reports of it; the icon name and the
/// UUIDs are compared without regard to case.
pub fn derive_device_type(
    icon: Option<&str>,
    class_of_device: Option<u32>,
    appearance: Option<u16>,
    uuids: &[String],
) -> (r: BluetoothDeviceType)
    ensures
        r == device_kind(
            match icon {
                Some(s) => Some(s@),
                None => None,
            },
            class_of_device,
            appearance,
            uuids@,
        ),
        (match icon {
            Some(s) => all_ascii(s@),
            None => true,
        }) && (forall|k: int| 0 <= k < uuids@.len() ==> all_ascii(#[trigger] uuids@[k]@)) ==> r == device_kind_lowered(
            match icon {
                Some(s) => Some(lower(s@)),
                None => None,
            },
            class_of_device,
            appearance,
            uuids@.map_values(|u: String| lower(u@)),
        ),
{
    let mut lowered: Vec<String> = Vec::new();
    let mut i: usize = 0;
    while i < uuids.len()
        invariant
            i <= uuids@.len(),
            lowered@.len() == i,
            lowered@.map_values(|u: String| u@) == uuids@.subrange(0, i as int).map_values(|u: String| unicode_lower(u@)),
            forall|k: int| 0 <= k < i && all_ascii(uuids@[k]@) ==> unicode_lower(#[trigger] uuids@[k]@) == lower(uuids@[k]@),
        decreases uuids@.len() - i,
    {
        let ghost prev = lowered@;
        let l = to_lowercase(uuids[i].as_str());
        assert(l@ == unicode_lower(uuids@[i as int]@));
        lowered.push(l);
        proof {
            let a = lowered@.map_values(|u: String| u@);
            let b = uuids@.subrange(0, i + 1).map_values(|u: String| unicode_lower(u@));
            assert(a.len() == b.len());
            assert forall|k: int| 0 <= k < a.len() implies a[k] == b[k] by {
                if k < i {
                    assert(lowered@[k] == prev[k]);
                    assert(prev.map_values(|u: String| u@)[k] == uuids@.subrange(0, i as int).map_values(|u: String| unicode_lower(u@))[k]);
                }
            }
            assert(a =~= b);
        }
        i = i + 1;
    }
    assert(uuids@.subrange(0, i as int) =~= uuids@);
    proof {
        if forall|k: int| 0 <= k < uuids@.len() ==> all_ascii(#[trigger] uuids@[k]@) {
            assert(uuids@.map_values(|u: String| unicode_lower(u@)) =~= uuids@.map_values(|u: String| lower(u@)));
        }
    }
    match icon {
        Some(ic) => {
            let low = to_lowercase(ic);
            device_type_from_lowered(Some(low.as_str()), class_of_device, appearance, lowered.as_slice())
        },
        None => device_type_from_lowered(None, class_of_device, appearance, lowered.as_slice()),
    }
}

/// A Bluetooth peer.
#[derive(Debug, Clone)]
pub struct BluetoothDevice {
    pub id: DeviceId,
    pub address: String,
    pub name: String,
    pub alias: String,
    pub device_type: BluetoothDeviceType,
    pub connected: bool,
    pub paired: bool,
    pub trusted: bool,
    pub blocked: bool,
    pub rssi: Option<i16>,
    pub battery_percentage: Option<u8>,
    pub icon: Option<String>,
}

/// The local adapter.
#[derive(Debug, Clone)]
pub struct BluetoothAdapter {
    pub id: DeviceId,
    pub address: String,
    pub name: String,
    pub powered: bool,
    pub discovering: bool,
    pub discoverable: bool,
    pub pairable: bool,
}

/// What the panel shows: whether BlueZ answered, its adapter, its devices.
#[derive(Debug, Clone)]
pub struct BluetoothSnapshot {
    pub bluez_available: bool,
    pub adapter: Option<BluetoothAdapter>,
    pub devices: Vec<BluetoothDevice>,
}

impl BluetoothSnapshot {
    /// The snapshot when BlueZ cannot be reached.
    pub fn unavailable() -> (r: BluetoothSnapshot)
        ensures
            !r.bluez_available,
            r.adapter is None,
            r.devices@.len() == 0,
    {
        BluetoothSnapshot { bluez_available: false, adapter: None, devices: Vec::new() }
    }
}

fn string_or(v: Option<String>, fallback: &String) -> (r: String)
    ensures
        r@ == match v {
            Some(s) => s@,
            None => fallback@,
        },
{
    match v {
        Some(s) => s,
        None => fallback.clone(),
    }
}

/// The adapter's display name: its `Name`, else its `Alias`, else a generic name.
pub open spec fn adapter_name(name: Option<Seq<char>>, alias: Option<Seq<char>>) -> Seq<char> {
    match name {
        Some(n) => n,
        None => match alias {
            Some(a) => a,
            None => "Bluetooth Adapter"@,
        },
    }
}

pub open spec fn opt_view(v: Option<String>) -> Option<Seq<char>> {
    match v {
        Some(s) => Some(s@),
        None => None,
    }
}

impl BluetoothAdapter {
    /// The adapter as BlueZ describes it; absent flags read as `false`.
    pub fn from_properties(
        path: &str,
        address: Option<String>,
        name: Option<String>,
        alias: Option<String>,
        powered: Option<bool>,
        discovering: Option<bool>,
        discoverable: Option<bool>,
        pairable: Option<bool>,
    ) -> (r: BluetoothAdapter)
        ensures
            r.id.0@ == path@,
            r.address@ == match address { Some(a) => a@, None => Seq::<char>::empty() },
            r.name@ == adapter_name(opt_view(name), opt_view(alias)),
            r.powered == (powered == Some(true)),
            r.discovering == (discovering == Some(true)),
            r.discoverable == (discoverable == Some(true)),
            r.pairable == (pairable == Some(true)),
    {
        let generic = String::from_str("Bluetooth Adapter");
        let name = match name {
            Some(n) => n,
            None => string_or(alias, &generic),
        };
        let address = string_or(address, &String::new());
        BluetoothAdapter {
            id: DeviceId(String::from_str(path)),
            address,
            name,
            powered: powered == Some(true),
            discovering: discovering == Some(true),
            discoverable: discoverable == Some(true),
            pairable: pairable == Some(true),
        }
    }
}

impl BluetoothDevice {
    /// The device as BlueZ describes it: the alias falls back to the address
    /// and the name to the alias; absent flags read as `false`; the kind is
    /// derived from the icon, class, appearance and UUIDs.
    pub fn from_properties(
        path: &str,
        address: Option<String>,
        alias: Option<String>,
        name: Option<String>,
        flags: [Option<bool>; 4],
        rssi: Option<i16>,
        icon: Option<String>,
        class_of_device: Option<u32>,
        appearance: Option<u16>,
        uuids: &Vec<String>,
    ) -> (r: BluetoothDevice)
        ensures
            r.id.0@ == path@,
            r.address@ == match address { Some(a) => a@, None => Seq::<char>::empty() },
            r.alias@ == match alias { Some(a) => a@, None => r.address@ },
            r.name@ == match name { Some(n) => n@, None => r.alias@ },
            r.connected == (flags[0] == Some(true)),
            r.paired == (flags[1] == Some(true)),
            r.trusted == (flags[2] == Some(true)),
            r.blocked == (flags[3] == Some(true)),
            r.rssi == rssi,
            r.battery_percentage is None,
            opt_view(r.icon) == opt_view(icon),
            r.device_type == device_kind(opt_view(icon), class_of_device, appearance, uuids@),
    {
        let address = string_or(address, &String::new());
        let alias = string_or(alias, &address);
        let name = string_or(name, &alias);
        let device_type = match &icon {
            Some(ic) => derive_device_type(Some(ic.as_str()), class_of_device, appearance, uuids.as_slice()),
            None => derive_device_type(None, class_of_device, appearance, uuids.as_slice()),
        };
        BluetoothDevice {
            id: DeviceId(String::from_str(path)),
            address,
            name,
            alias,
            device_type,
            connected: flags[0] == Some(true),
            paired: flags[1] == Some(true),
            trusted: flags[2] == Some(true),
            blocked: flags[3] == Some(true),
            rssi,
            battery_percentage: None,
            icon,
        }
    }
}

/// The battery level reported for an object path: the last report wins.
pub open spec fn battery_for(batteries: Seq<(String, u8)>, path: Seq<char>) -> Option<u8>
    decreases batteries.len(),
{
    if batteries.len() == 0 {
        None
    } else if batteries.last().0@ == path {
        Some(batteries.last().1)
    } else {
        battery_for(batteries.drop_last(), path)
    }
}

fn battery_for_of(batteries: &Vec<(String, u8)>, path: &[char]) -> (r: Option<u8>)
    ensures
        r == battery_for(batteries@, path@),
{
    let mut i: usize = batteries.len();
    assert(batteries@.subrange(0, i as int) =~= batteries@);
    while i > 0
        invariant
            i <= batteries@.len(),
            battery_for(batteries@, path@) == battery_for(batteries@.subrange(0, i as int), path@),
        decreases i,
    {
        let pv = chars_of(batteries[i - 1].0.as_str());
        let ghost pre = batteries@.subrange(0, i as int);
        assert(pre.last() == batteries@[i - 1]);
        assert(pre.drop_last() =~= batteries@.subrange(0, i - 1));
        if seq_eq(&pv, path) {
            return Some(batteries[i - 1].1);
        }
        i = i - 1;
    }
    None
}

/// Listing order: connected first, then paired, then by decreasing signal
/// (no reading counts as the weakest), then by alias.
pub open spec fn device_key(d: BluetoothDevice) -> Seq<u32> {
    seq![
        if d.connected { 0u32 } else { 1u32 },
        if d.paired { 0u32 } else { 1u32 },
        (32767 - match d.rssi { Some(v) => v as int, None => -32768 }) as u32,
    ] + chars_key(d.alias@)
}

/// Fills in the battery levels BlueZ reported per object path, then puts the
/// devices in listing order.
pub fn arrange_devices(devices: Vec<BluetoothDevice>, batteries: &Vec<(String, u8)>) -> (r: Vec<BluetoothDevice>)
    ensures
        exists|perm: Seq<int>|
            {
                &&& is_permutation(perm, devices@.len() as int)
                &&& r@.len() == devices@.len()
                &&& forall|i: int|
                    0 <= i < r@.len() ==> {
                        let d = #[trigger] devices@[perm[i]];
                        let o = r@[i];
                        &&& o.id == d.id && o.address == d.address && o.name == d.name
                        &&& o.alias == d.alias && o.device_type == d.device_type
                        &&& o.connected == d.connected && o.paired == d.paired
                        &&& o.trusted == d.trusted && o.blocked == d.blocked
                        &&& o.rssi == d.rssi && o.icon == d.icon
                        &&& o.battery_percentage == match battery_for(batteries@, d.id.0@) {
                            Some(p) => Some(p),
                            None => d.battery_percentage,
                        }
                    }
                &&& forall|i: int, j: int| 0 <= i < j < r@.len() ==> seq_le(device_key(r@[i]), device_key(r@[j]))
            },
{
    let ghost input = devices@;
    let mut keyed: Vec<(Vec<u32>, BluetoothDevice)> = Vec::new();
    let mut src = devices;
    let ghost mut k: int = 0;
    while src.len() > 0
        invariant
            0 <= k <= input.len(),
            src@ == input.subrange(k, input.len() as int),
            keyed@.len() == k,
            forall|i: int|
                0 <= i < k ==> {
                    let d = input[i];
                    let o = (#[trigger] keyed@[i]).1;
                    &&& o.id == d.id && o.address == d.address && o.name == d.name
                    &&& o.alias == d.alias && o.device_type == d.device_type
                    &&& o.connected == d.connected && o.paired == d.paired
                    &&& o.trusted == d.trusted && o.blocked == d.blocked
                    &&& o.rssi == d.rssi && o.icon == d.icon
                    &&& o.battery_percentage == match battery_for(batteries@, d.id.0@) {
                        Some(p) => Some(p),
                        None => d.battery_percentage,
                    }
                    &&& keyed@[i].0@ == device_key(o)
                },
        decreases src@.len(),
    {
        let mut d = src.remove(0);
        let idv = chars_of(d.id.0.as_str());
        if let Some(p) = battery_for_of(batteries, &idv) {
            d.battery_percentage = Some(p);
        }
        let mut key: Vec<u32> = Vec::new();
        key.push(if d.connected { 0u32 } else { 1u32 });
        key.push(if d.paired { 0u32 } else { 1u32 });
        let strength: i32 = match d.rssi {
            Some(v) => v as i32,
            None => -32768i32,
        };
        key.push((32767i32 - strength) as u32);
        let av = chars_of(d.alias.as_str());
        push_chars_key(&mut key, &av);
        assert(key@ =~= device_key(d));
        keyed.push((key, d));
        proof {
            k = k + 1;
            assert(src@ =~= input.subrange(k, input.len() as int));
        }
    }
    let ghost keyed_v = keyed@;
    let (sorted, perm) = stable_sort(keyed);
    let mut out: Vec<BluetoothDevice> = Vec::new();
    let mut rest = sorted;
    let ghost sorted_v = rest@;
    let ghost mut m: int = 0;
    while rest.len() > 0
        invariant
            0 <= m <= sorted_v.len(),
            rest@ == sorted_v.subrange(m, sorted_v.len() as int),
            out@.len() == m,
            forall|i: int| 0 <= i < m ==> #[trigger] out@[i] == sorted_v[i].1,
        decreases rest@.len(),
    {
        let (_key, d) = rest.remove(0);
        out.push(d);
        proof {
            m = m + 1;
            assert(rest@ =~= sorted_v.subrange(m, sorted_v.len() as int));
        }
    }
    proof {
        let p = perm@;
        assert(stably_sorted_by(keyed_v, sorted_v, p));
        assert forall|i: int| 0 <= i < out@.len() implies out@[i] == keyed_v[p[i]].1 by {
            assert(sorted_v[i] == keyed_v[p[i]]);
        }
        assert forall|a: int, b: int| 0 <= a < b < out@.len() implies seq_le(device_key(out@[a]), device_key(out@[b])) by {
            assert(sorted_v[a] == keyed_v[p[a]]);
            assert(sorted_v[b] == keyed_v[p[b]]);
        }
    }
    out
}

/// How long a device scan runs before it stops by itself, in milliseconds.
pub open spec fn scan_timeout_ms() -> u64 {
    30000
}

/// The device scan of the Bluetooth panel: when it started, if it runs.
/// Times are milliseconds of a monotonic clock.
#[derive(Debug, Clone, Copy, PartialEq, Eq, Structural)]
pub struct DiscoveryTimer {
    pub started_ms: Option<u64>,
}

/// What the Bluetooth backend does after a rescan request.
#[derive(Debug, Clone, Copy, PartialEq, Eq, Structural)]
pub enum RescanStep {
    /// Stop discovery and report that no scan runs.
    Stop,
    /// Start discovery; on success, record it with `started`.
    Start,
}

impl DiscoveryTimer {
    /// No scan runs.
    pub fn idle() -> (r: DiscoveryTimer)
        ensures
            r.started_ms is None,
    {
        DiscoveryTimer { started_ms: None }
    }

    /// A poll at `now_ms`: a scan that has run for more than the timeout
    /// ends (`true`: stop discovery and report it).
    pub fn on_tick(&mut self, now_ms: u64) -> (r: bool)
        ensures
            r == (old(self).started_ms matches Some(t) && now_ms - t > scan_timeout_ms()),
            r ==> final(self).started_ms is None,
            !r ==> *final(self) == *old(self),
    {
        match self.started_ms {
            Some(t) => {
                if now_ms >= t && now_ms - t > 30000 {
                    self.started_ms = None;
                    true
                } else {
                    false
                }
            },
            None => false,
        }
    }

    /// The rescan key: stops a running scan, else asks to start one.
    pub fn on_rescan(&mut self) -> (r: RescanStep)
        ensures
            old(self).started_ms is Some ==> r == RescanStep::Stop && final(self).started_ms is None,
            old(self).started_ms is None ==> r == RescanStep::Start && *final(self) == *old(self),
    {
        match self.started_ms {
            Some(_) => {
                self.started_ms = None;
                RescanStep::Stop
            },
            None => RescanStep::Start,
        }
    }

    /// Discovery started at `now_ms`.
    pub fn started(&mut self, now_ms: u64)
        ensures
            final(self).started_ms == Some(now_ms),
    {
        self.started_ms = Some(now_ms);
    }
}

} // verus!
