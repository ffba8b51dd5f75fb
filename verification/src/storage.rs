//! Storage model: drives, partitions, the system-disk safety lock, and the
//! helpers behind formatting, flashing and the multi-boot ISO manager.

use vstd::prelude::*;
use vstd::utf8::{encode_utf8, is_char_boundary};
use vstd::string::StringSliceAdditionalSpecFns;
use crate::events::{DeviceId, Toast, ToastLevel};
use crate::sort::{stable_sort, push_chars_key, chars_key, seq_le, is_permutation, stably_sorted_by};
use crate::text::{append, decimal, decimal_of, is_digit, decimal_value, utf8_lossy, from_utf8_lossy, char_is_ws, contains_str, ends_with_str, has_infix, has_suffix, lines, words, split_lines, split_words, trim_start, append_str, seq_eq, starts_with_str, has_prefix, is_ws, chars_of, trim_of, lower_of, eq_str, eq_ignore_ascii_case_str, string_of, lower, trim, eq_ascii_ci};

verus! {

/// Filesystem type of a block device, as reported by UDisks2 `IdType`.
#[derive(Debug, Clone, PartialEq, Eq)]
pub enum FsKind {
    Ext4,
    Vfat,
    Exfat,
    Ntfs,
    Btrfs,
    CryptoLuks,
    Swap,
    Other(String),
    Unknown,
}

/// `r` is the filesystem kind of the raw `IdType` `raw` (trimmed, ASCII
/// case-insensitive).
pub open spec fn fs_kind_is(r: FsKind, raw: Seq<char>) -> bool {
    let t = lower(trim(raw));
    if t == ""@ {
        r == FsKind::Unknown
    } else if t == "ext4"@ {
        r == FsKind::Ext4
    } else if t == "vfat"@ {
        r == FsKind::Vfat
    } else if t == "exfat"@ {
        r == FsKind::Exfat
    } else if t == "ntfs"@ {
        r == FsKind::Ntfs
    } else if t == "btrfs"@ {
        r == FsKind::Btrfs
    } else if t == "crypto_luks"@ {
        r == FsKind::CryptoLuks
    } else if t == "swap"@ && eq_ascii_ci(raw, "swap"@) {
        r == FsKind::Swap
    } else {
        r matches FsKind::Other(s) && s@ == t
    }
}

impl FsKind {
    /// Classifies a raw `IdType` (trimmed, ASCII case-insensitive).
    pub fn parse(raw: &str) -> (r: FsKind)
        ensures
            fs_kind_is(r, raw@),
    {
        let rv = chars_of(raw);
        let tv = trim_of(&rv);
        let t = lower_of(&tv);
        if eq_str(&t, "") {
            FsKind::Unknown
        } else if eq_str(&t, "ext4") {
            FsKind::Ext4
        } else if eq_str(&t, "vfat") {
            FsKind::Vfat
        } else if eq_str(&t, "exfat") {
            FsKind::Exfat
        } else if eq_str(&t, "ntfs") {
            FsKind::Ntfs
        } else if eq_str(&t, "btrfs") {
            FsKind::Btrfs
        } else if eq_str(&t, "crypto_luks") {
            FsKind::CryptoLuks
        } else if eq_str(&t, "swap") && eq_ignore_ascii_case_str(&rv, "swap") {
            FsKind::Swap
        } else {
            FsKind::Other(string_of(&t))
        }
    }

    /// Canonical name of the filesystem type.
    pub fn label(&self) -> (r: &str)
        ensures
            match self {
                FsKind::Ext4 => r@ == "ext4"@,
                FsKind::Vfat => r@ == "vfat"@,
                FsKind::Exfat => r@ == "exfat"@,
                FsKind::Ntfs => r@ == "ntfs"@,
                FsKind::Btrfs => r@ == "btrfs"@,
                FsKind::CryptoLuks => r@ == "crypto_LUKS"@,
                FsKind::Swap => r@ == "swap"@,
                FsKind::Other(s) => r@ == s@,
                FsKind::Unknown => r@ == "?"@,
            },
    {
        match self {
            FsKind::Ext4 => "ext4",
            FsKind::Vfat => "vfat",
            FsKind::Exfat => "exfat",
            FsKind::Ntfs => "ntfs",
            FsKind::Btrfs => "btrfs",
            FsKind::CryptoLuks => "crypto_LUKS",
            FsKind::Swap => "swap",
            FsKind::Other(s) => s.as_str(),
            FsKind::Unknown => "?",
        }
    }
}

/// Bus through which a drive is attached.
#[derive(Debug, Clone, Copy, PartialEq, Eq, Structural)]
pub enum BusType {
    Usb,
    Sata,
    Nvme,
    Scsi,
    Mmc,
    Unknown,
}

/// The bus named by a UDisks2 `ConnectionBus` (trimmed, ASCII case-insensitive).
pub open spec fn bus_of(raw: Seq<char>) -> BusType {
    let t = lower(trim(raw));
    if t == "usb"@ {
        BusType::Usb
    } else if t == "ata"@ || t == "sata"@ {
        BusType::Sata
    } else if t == "nvme"@ {
        BusType::Nvme
    } else if t == "scsi"@ {
        BusType::Scsi
    } else if t == "sdio"@ || t == "mmc"@ {
        BusType::Mmc
    } else {
        BusType::Unknown
    }
}

impl BusType {
    /// Classifies a UDisks2 `ConnectionBus` (trimmed, ASCII case-insensitive).
    pub fn parse(raw: &str) -> (r: BusType)
        ensures
            r == bus_of(raw@),
    {
        let rv = chars_of(raw);
        let tv = trim_of(&rv);
        let t = lower_of(&tv);
        if eq_str(&t, "usb") {
            BusType::Usb
        } else if eq_str(&t, "ata") || eq_str(&t, "sata") {
            BusType::Sata
        } else if eq_str(&t, "nvme") {
            BusType::Nvme
        } else if eq_str(&t, "scsi") {
            BusType::Scsi
        } else if eq_str(&t, "sdio") || eq_str(&t, "mmc") {
            BusType::Mmc
        } else {
            BusType::Unknown
        }
    }

    pub fn label(self) -> (r: &'static str)
        ensures
            r@ == match self {
                BusType::Usb => "USB"@,
                BusType::Sata => "SATA"@,
                BusType::Nvme => "NVMe"@,
                BusType::Scsi => "SCSI"@,
                BusType::Mmc => "MMC"@,
                BusType::Unknown => "?"@,
            },
    {
        match self {
            BusType::Usb => "USB",
            BusType::Sata => "SATA",
            BusType::Nvme => "NVMe",
            BusType::Scsi => "SCSI",
            BusType::Mmc => "MMC",
            BusType::Unknown => "?",
        }
    }
}


/// A partition (or a whole-disk filesystem) of a drive.
#[derive(Debug, Clone, PartialEq)]
pub struct PartitionInfo {
    pub id: DeviceId,
    pub dev_node: String,
    pub label: String,
    pub fs: FsKind,
    pub size: u64,
    pub used: Option<u64>,
    pub mount_points: Vec<String>,
    pub is_swap: bool,
    pub is_system: bool,
}

pub open spec fn mounted(p: PartitionInfo) -> bool {
    p.mount_points@.len() > 0
}

impl PartitionInfo {
    pub fn is_mounted(&self) -> (r: bool)
        ensures
            r == mounted(*self),
    {
        self.mount_points.len() != 0
    }
}

/// A physical drive with its partitions.
#[derive(Debug, Clone, PartialEq)]
pub struct DriveInfo {
    pub id: DeviceId,
    pub dev_node: String,
    pub block_path: Option<String>,
    pub model: String,
    pub vendor: String,
    pub size: u64,
    pub removable: bool,
    pub ejectable: bool,
    pub can_power_off: bool,
    pub bus: BusType,
    pub rotational: bool,
    pub is_system: bool,
    pub is_ventoy: bool,
    pub partitions: Vec<PartitionInfo>,
}

pub open spec fn is_ventoy_label(l: Seq<char>) -> bool {
    eq_ascii_ci(l, "ventoy"@)
}

pub open spec fn is_vtoyefi_label(l: Seq<char>) -> bool {
    eq_ascii_ci(l, "vtoyefi"@)
}

/// Partitions considered by a largest-partition search: optionally only the
/// non-system ones, optionally without the `VTOYEFI` boot partition.
pub open spec fn kept(keep_system: bool, exclude_vtoyefi: bool, p: PartitionInfo) -> bool {
    (keep_system || !p.is_system) && (!exclude_vtoyefi || !is_vtoyefi_label(p.label@))
}

/// `i` is the last position holding a largest size among the kept
/// positions (the choice of `Iterator::max_by_key`).
pub open spec fn is_last_max(parts: Seq<PartitionInfo>, ks: bool, ev: bool, i: int) -> bool {
    &&& 0 <= i < parts.len()
    &&& kept(ks, ev, parts[i])
    &&& forall|j: int| 0 <= j < parts.len() && kept(ks, ev, #[trigger] parts[j]) ==> parts[j].size <= parts[i].size
    &&& forall|j: int| i < j < parts.len() && kept(ks, ev, #[trigger] parts[j]) ==> parts[j].size < parts[i].size
}

/// Position `i` is the Ventoy data partition of `parts`.
pub open spec fn ventoy_pick(parts: Seq<PartitionInfo>, i: int) -> bool {
    0 <= i < parts.len() && ((is_ventoy_label(parts[i].label@) && forall|j: int|
        0 <= j < i ==> !is_ventoy_label(#[trigger] parts[j].label@)) || ((forall|j: int|
        0 <= j < parts.len() ==> !is_ventoy_label(#[trigger] parts[j].label@)) && is_last_max(
        parts,
        true,
        true,
        i,
    )))
}

/// `parts` has no Ventoy data partition: nothing is labelled `ventoy` and
/// every partition is the `VTOYEFI` one.
pub open spec fn no_ventoy_pick(parts: Seq<PartitionInfo>) -> bool {
    forall|j: int|
        0 <= j < parts.len() ==> !is_ventoy_label(#[trigger] parts[j].label@) && !kept(true, true, parts[j])
}

/// Position of the last largest kept partition.
fn last_max_where(parts: &Vec<PartitionInfo>, keep_system: bool, exclude_vtoyefi: bool) -> (r: Option<usize>)
    ensures
        match r {
            Some(i) => is_last_max(parts@, keep_system, exclude_vtoyefi, i as int),
            None => forall|j: int| 0 <= j < parts@.len() ==> !kept(keep_system, exclude_vtoyefi, #[trigger] parts@[j]),
        },
{
    let mut best: Option<usize> = None;
    let mut i: usize = 0;
    while i < parts.len()
        invariant
            i <= parts@.len(),
            match best {
                Some(b) => {
                    &&& b < i
                    &&& kept(keep_system, exclude_vtoyefi, parts@[b as int])
                    &&& forall|j: int| 0 <= j < i && kept(keep_system, exclude_vtoyefi, #[trigger] parts@[j]) ==> parts@[j].size <= parts@[b as int].size
                    &&& forall|j: int| b < j < i && kept(keep_system, exclude_vtoyefi, #[trigger] parts@[j]) ==> parts@[j].size < parts@[b as int].size
                },
                None => forall|j: int| 0 <= j < i ==> !kept(keep_system, exclude_vtoyefi, #[trigger] parts@[j]),
            },
        decreases parts@.len() - i,
    {
        let p = &parts[i];
        let lv = chars_of(p.label.as_str());
        let efi = eq_ignore_ascii_case_str(&lv, "vtoyefi");
        let k = (keep_system || !p.is_system) && (!exclude_vtoyefi || !efi);
        if k {
            match best {
                Some(b) => {
                    if parts[b].size <= p.size {
                        best = Some(i);
                    }
                },
                None => {
                    best = Some(i);
                },
            }
        }
        i = i + 1;
    }
    best
}

fn ventoy_data_index(drive: &DriveInfo) -> (r: Option<usize>)
    ensures
        match r {
            Some(i) => ventoy_pick(drive.partitions@, i as int),
            None => no_ventoy_pick(drive.partitions@),
        },
{
    let mut i: usize = 0;
    while i < drive.partitions.len()
        invariant
            i <= drive.partitions@.len(),
            forall|j: int| 0 <= j < i ==> !is_ventoy_label(#[trigger] drive.partitions@[j].label@),
        decreases drive.partitions@.len() - i,
    {
        let lv = chars_of(drive.partitions[i].label.as_str());
        if eq_ignore_ascii_case_str(&lv, "ventoy") {
            return Some(i);
        }
        i = i + 1;
    }
    last_max_where(&drive.partitions, true, true)
}

/// The data partition of a Ventoy-style drive: the partition labelled
/// `ventoy` (ASCII case-insensitive), else the largest partition that is not
/// the `VTOYEFI` boot partition.
pub fn ventoy_data_partition(drive: &DriveInfo) -> (r: Option<&PartitionInfo>)
    ensures
        match r {
            Some(q) => exists|i: int| ventoy_pick(drive.partitions@, i) && *q == drive.partitions@[i],
            None => no_ventoy_pick(drive.partitions@),
        },
{
    match ventoy_data_index(drive) {
        Some(i) => Some(&drive.partitions[i]),
        None => None,
    }
}

/// Position `i` is the primary partition of `parts`.
pub open spec fn primary_pick(parts: Seq<PartitionInfo>, i: int) -> bool {
    let some_mounted = exists|j: int| 0 <= j < parts.len() && mounted(parts[j]) && !parts[j].is_system;
    let some_user = exists|j: int| 0 <= j < parts.len() && !parts[j].is_system;
    0 <= i < parts.len() && if some_mounted {
        mounted(parts[i]) && !parts[i].is_system && forall|j: int|
            0 <= j < i ==> !(mounted(#[trigger] parts[j]) && !parts[j].is_system)
    } else if some_user {
        is_last_max(parts, false, false, i)
    } else {
        ventoy_pick(parts, i)
    }
}

/// The partition that best represents a drive: the first mounted
/// non-system partition, else the largest non-system partition, else the
/// Ventoy data partition.
pub fn primary_partition(drive: &DriveInfo) -> (r: Option<&PartitionInfo>)
    ensures
        match r {
            Some(q) => exists|i: int| primary_pick(drive.partitions@, i) && *q == drive.partitions@[i],
            None => (forall|j: int| 0 <= j < drive.partitions@.len() ==> (#[trigger] drive.partitions@[j]).is_system)
                && no_ventoy_pick(drive.partitions@),
        },
{
    let mut i: usize = 0;
    while i < drive.partitions.len()
        invariant
            i <= drive.partitions@.len(),
            forall|j: int| 0 <= j < i ==> !(mounted(#[trigger] drive.partitions@[j]) && !drive.partitions@[j].is_system),
        decreases drive.partitions@.len() - i,
    {
        let p = &drive.partitions[i];
        if p.is_mounted() && !p.is_system {
            proof {
                assert(primary_pick(drive.partitions@, i as int));
            }
            return Some(p);
        }
        i = i + 1;
    }
    match last_max_where(&drive.partitions, false, false) {
        Some(k) => {
            proof {
                assert(!drive.partitions@[k as int].is_system);
                assert(primary_pick(drive.partitions@, k as int));
            }
            Some(&drive.partitions[k])
        },
        None => {
            proof {
                assert forall|j: int| 0 <= j < drive.partitions@.len() implies (#[trigger] drive.partitions@[j]).is_system by {
                    assert(!kept(false, false, drive.partitions@[j]));
                }
            }
            match ventoy_data_index(drive) {
                Some(k) => {
                    proof {
                        assert(primary_pick(drive.partitions@, k as int));
                    }
                    Some(&drive.partitions[k])
                },
                None => None,
            }
        },
    }
}


/// Text of the drive's vendor and model, joined by a space and trimmed.
pub open spec fn vendor_model(d: DriveInfo) -> Seq<char> {
    trim(d.vendor@ + " "@ + d.model@)
}

/// Name shown for a drive when no partition label identifies it.
pub open spec fn drive_fallback_label(d: DriveInfo) -> Seq<char> {
    let vm = vendor_model(d);
    if vm.len() > 0 {
        if d.bus == BusType::Mmc {
            vm + " ("@ + d.dev_node@ + ")"@
        } else {
            vm
        }
    } else {
        d.dev_node@
    }
}

/// `l` is the drive's friendly name: the label of its primary partition
/// when that is not blank, else the fallback name.
pub open spec fn is_friendly_label(d: DriveInfo, l: Seq<char>) -> bool {
    (exists|i: int|
        primary_pick(d.partitions@, i) && trim(d.partitions@[i].label@).len() > 0
            && l == d.partitions@[i].label@) || ((forall|i: int|
        primary_pick(d.partitions@, i) ==> trim(d.partitions@[i].label@).len() == 0)
        && l == drive_fallback_label(d))
}

impl DriveInfo {
    /// A human-friendly name: the label of the primary partition when it is
    /// not blank, else vendor and model (with the device node for MMC
    /// cards), else the device node.
    pub fn friendly_label(&self) -> (r: String)
        ensures
            is_friendly_label(*self, r@),
    {
        if let Some(p) = primary_partition(self) {
            let lv = chars_of(p.label.as_str());
            let tl = trim_of(&lv);
            if tl.len() > 0 {
                return p.label.clone();
            }
        }
        proof {
            assert forall|i: int| primary_pick(self.partitions@, i) implies trim(
                self.partitions@[i].label@,
            ).len() == 0 by {
                lemma_primary_unique(self.partitions@, i);
            }
        }
        let mut vm_raw: Vec<char> = chars_of(self.vendor.as_str());
        append_str(&mut vm_raw, " ");
        append_str(&mut vm_raw, self.model.as_str());
        let vm = trim_of(&vm_raw);
        if vm.len() > 0 {
            if self.bus == BusType::Mmc {
                let mut out = vm;
                append_str(&mut out, " (");
                append_str(&mut out, self.dev_node.as_str());
                append_str(&mut out, ")");
                return string_of(&out);
            }
            return string_of(&vm);
        }
        self.dev_node.clone()
    }
}

/// The primary partition position is unique.
pub proof fn lemma_primary_unique(parts: Seq<PartitionInfo>, i: int)
    requires
        primary_pick(parts, i),
    ensures
        forall|k: int| primary_pick(parts, k) ==> k == i,
{
    assert forall|k: int| primary_pick(parts, k) implies k == i by {
        let some_mounted = exists|j: int| 0 <= j < parts.len() && mounted(parts[j]) && !parts[j].is_system;
        let some_user = exists|j: int| 0 <= j < parts.len() && !parts[j].is_system;
        if some_mounted {
            if k < i {
                assert(!(mounted(parts[k]) && !parts[k].is_system));
            }
            if i < k {
                assert(!(mounted(parts[i]) && !parts[i].is_system));
            }
        } else if some_user {
            if k < i {
                assert(parts[i].size < parts[k].size);
            }
            if i < k {
                assert(parts[k].size < parts[i].size);
            }
        } else {
            let vi = is_ventoy_label(parts[i].label@);
            let vk = is_ventoy_label(parts[k].label@);
            if k < i {
                if vi {
                    assert(!is_ventoy_label(parts[k].label@));
                    assert(false);
                } else {
                    assert(parts[i].size < parts[k].size);
                }
            }
            if i < k {
                if vk {
                    assert(!is_ventoy_label(parts[i].label@));
                    assert(false);
                } else {
                    assert(parts[k].size < parts[i].size);
                }
            }
        }
    }
}

/// Snapshot of every drive known to UDisks2.
#[derive(Debug, Clone, PartialEq)]
pub struct StorageSnapshot {
    pub udisks_available: bool,
    pub drives: Vec<DriveInfo>,
}

/// Partition `p` of drive `d` exists and has identity `id`.
pub open spec fn part_matches(s: StorageSnapshot, d: int, p: int, id: Seq<char>) -> bool {
    0 <= d < s.drives@.len() && 0 <= p < s.drives@[d].partitions@.len()
        && s.drives@[d].partitions@[p].id.0@ == id
}

/// `(d, p)` is the first matching partition in drive-major order.
pub open spec fn first_part_match(s: StorageSnapshot, d: int, p: int, id: Seq<char>) -> bool {
    part_matches(s, d, p, id) && forall|d2: int, p2: int|
        #![trigger part_matches(s, d2, p2, id)]
        part_matches(s, d2, p2, id) ==> (d < d2 || (d == d2 && p <= p2))
}

/// Drive `d` exists and has identity `id`.
pub open spec fn drive_matches(s: StorageSnapshot, d: int, id: Seq<char>) -> bool {
    0 <= d < s.drives@.len() && s.drives@[d].id.0@ == id
}

pub open spec fn first_drive_match(s: StorageSnapshot, d: int, id: Seq<char>) -> bool {
    drive_matches(s, d, id) && forall|d2: int| #![trigger drive_matches(s, d2, id)] drive_matches(s, d2, id) ==> d <= d2
}

/// The identity designates a system drive or a system partition.
pub open spec fn system_target(s: StorageSnapshot, id: Seq<char>) -> bool {
    (exists|d: int| drive_matches(s, d, id) && s.drives@[d].is_system) || (exists|d: int, p: int|
        part_matches(s, d, p, id) && s.drives@[d].partitions@[p].is_system)
}

impl StorageSnapshot {
    pub fn drive(&self, idx: usize) -> (r: Option<&DriveInfo>)
        ensures
            match r {
                Some(d) => idx < self.drives@.len() && *d == self.drives@[idx as int],
                None => idx >= self.drives@.len(),
            },
    {
        if idx < self.drives.len() {
            Some(&self.drives[idx])
        } else {
            None
        }
    }

    pub fn partition(&self, drive_idx: usize, part_idx: usize) -> (r: Option<&PartitionInfo>)
        ensures
            match r {
                Some(p) => drive_idx < self.drives@.len() && part_idx
                    < self.drives@[drive_idx as int].partitions@.len() && *p
                    == self.drives@[drive_idx as int].partitions@[part_idx as int],
                None => drive_idx >= self.drives@.len() || part_idx
                    >= self.drives@[drive_idx as int].partitions@.len(),
            },
    {
        if drive_idx < self.drives.len() && part_idx < self.drives[drive_idx].partitions.len() {
            Some(&self.drives[drive_idx].partitions[part_idx])
        } else {
            None
        }
    }

    /// Position of the first partition (in drive-major order) with identity `id`.
    fn partition_position(&self, id: &DeviceId) -> (r: Option<(usize, usize)>)
        ensures
            match r {
                Some((d, p)) => first_part_match(*self, d as int, p as int, id.0@),
                None => forall|d: int, p: int| !part_matches(*self, d, p, id.0@),
            },
    {
        let mut d: usize = 0;
        while d < self.drives.len()
            invariant
                d <= self.drives@.len(),
                forall|d2: int, p2: int| 0 <= d2 < d ==> !part_matches(*self, d2, p2, id.0@),
            decreases self.drives@.len() - d,
        {
            let parts = &self.drives[d].partitions;
            let mut p: usize = 0;
            while p < parts.len()
                invariant
                    d < self.drives@.len(),
                    *parts == self.drives@[d as int].partitions,
                    p <= parts@.len(),
                    forall|d2: int, p2: int| 0 <= d2 < d ==> !part_matches(*self, d2, p2, id.0@),
                    forall|p2: int| 0 <= p2 < p ==> !part_matches(*self, d as int, p2, id.0@),
                decreases parts@.len() - p,
            {
                if parts[p].id.0 == id.0 {
                    return Some((d, p));
                }
                p = p + 1;
            }
            d = d + 1;
        }
        None
    }

    /// The first partition (in drive-major order) with identity `id`.
    pub fn partition_by_id(&self, id: &DeviceId) -> (r: Option<&PartitionInfo>)
        ensures
            match r {
                Some(q) => exists|d: int, p: int|
                    first_part_match(*self, d, p, id.0@) && *q == self.drives@[d].partitions@[p],
                None => forall|d: int, p: int| !part_matches(*self, d, p, id.0@),
            },
    {
        match self.partition_position(id) {
            Some((d, p)) => Some(&self.drives[d].partitions[p]),
            None => None,
        }
    }

    /// Position of the first drive with identity `id`.
    fn drive_position(&self, id: &DeviceId) -> (r: Option<usize>)
        ensures
            match r {
                Some(d) => first_drive_match(*self, d as int, id.0@),
                None => forall|d: int| !drive_matches(*self, d, id.0@),
            },
    {
        let mut d: usize = 0;
        while d < self.drives.len()
            invariant
                d <= self.drives@.len(),
                forall|d2: int| 0 <= d2 < d ==> !drive_matches(*self, d2, id.0@),
            decreases self.drives@.len() - d,
        {
            if self.drives[d].id.0 == id.0 {
                return Some(d);
            }
            d = d + 1;
        }
        None
    }

    /// Whether `id` designates a system drive or a system partition: the
    /// operations that could destroy data are refused on such targets.
    pub fn is_system_target(&self, id: &DeviceId) -> (r: bool)
        ensures
            r == system_target(*self, id.0@),
    {
        let mut d: usize = 0;
        while d < self.drives.len()
            invariant
                d <= self.drives@.len(),
                forall|d2: int| 0 <= d2 < d ==> !(drive_matches(*self, d2, id.0@) && self.drives@[d2].is_system),
            decreases self.drives@.len() - d,
        {
            if self.drives[d].id.0 == id.0 && self.drives[d].is_system {
                assert(drive_matches(*self, d as int, id.0@));
                return true;
            }
            d = d + 1;
        }
        let mut d: usize = 0;
        while d < self.drives.len()
            invariant
                d <= self.drives@.len(),
                forall|d2: int| 0 <= d2 < self.drives@.len() ==> !(drive_matches(*self, d2, id.0@) && self.drives@[d2].is_system),
                forall|d2: int, p2: int| 0 <= d2 < d ==> !(part_matches(*self, d2, p2, id.0@) && self.drives@[d2].partitions@[p2].is_system),
            decreases self.drives@.len() - d,
        {
            let parts = &self.drives[d].partitions;
            let mut p: usize = 0;
            while p < parts.len()
                invariant
                    d < self.drives@.len(),
                    *parts == self.drives@[d as int].partitions,
                    p <= parts@.len(),
                    forall|d2: int| 0 <= d2 < self.drives@.len() ==> !(drive_matches(*self, d2, id.0@) && self.drives@[d2].is_system),
                    forall|d2: int, p2: int| 0 <= d2 < d ==> !(part_matches(*self, d2, p2, id.0@) && self.drives@[d2].partitions@[p2].is_system),
                    forall|p2: int| 0 <= p2 < p ==> !(part_matches(*self, d as int, p2, id.0@) && self.drives@[d as int].partitions@[p2].is_system),
                decreases parts@.len() - p,
            {
                if parts[p].id.0 == id.0 && parts[p].is_system {
                    assert(part_matches(*self, d as int, p as int, id.0@));
                    return true;
                }
                p = p + 1;
            }
            d = d + 1;
        }
        false
    }

    /// Device node of the first drive with identity `id`.
    pub fn drive_dev_node(&self, id: &DeviceId) -> (r: Option<String>)
        ensures
            match r {
                Some(n) => exists|d: int| first_drive_match(*self, d, id.0@) && n@ == self.drives@[d].dev_node@,
                None => forall|d: int| !drive_matches(*self, d, id.0@),
            },
    {
        match self.drive_position(id) {
            Some(d) => Some(self.drives[d].dev_node.clone()),
            None => None,
        }
    }

    /// Size of the first drive with identity `id`.
    pub fn drive_size(&self, id: &DeviceId) -> (r: Option<u64>)
        ensures
            match r {
                Some(n) => exists|d: int| first_drive_match(*self, d, id.0@) && n == self.drives@[d].size,
                None => forall|d: int| !drive_matches(*self, d, id.0@),
            },
    {
        match self.drive_position(id) {
            Some(d) => Some(self.drives[d].size),
            None => None,
        }
    }

    /// The first drive with identity `id`.
    pub fn drive_by_id(&self, id: &DeviceId) -> (r: Option<&DriveInfo>)
        ensures
            match r {
                Some(q) => exists|d: int| first_drive_match(*self, d, id.0@) && *q == self.drives@[d],
                None => forall|d: int| !drive_matches(*self, d, id.0@),
            },
    {
        match self.drive_position(id) {
            Some(d) => Some(&self.drives[d]),
            None => None,
        }
    }
}


/// Drive `d` answers a lookup of the block object `bp`: it is the drive's own
/// block object, or one of its partitions.
pub open spec fn drive_answers(s: StorageSnapshot, d: int, bp: Seq<char>) -> bool {
    0 <= d < s.drives@.len() && ((s.drives@[d].block_path matches Some(b) && b@ == bp) || exists|p: int|
        part_matches(s, d, p, bp))
}

/// First partition of drive `d` with identity `id`.
pub open spec fn first_in_drive(s: StorageSnapshot, d: int, p: int, id: Seq<char>) -> bool {
    part_matches(s, d, p, id) && forall|p2: int| 0 <= p2 < p ==> !part_matches(s, d, p2, id)
}

impl StorageSnapshot {
    /// Device node behind a UDisks2 block object: the first drive (in order)
    /// whose whole-disk block object or one of whose partitions is `bp`.
    pub fn dev_node_for_block_path(&self, block_path: &str) -> (r: Option<String>)
        ensures
            match r {
                Some(n) => exists|d: int|
                    drive_answers(*self, d, block_path@) && (forall|d2: int|
                        0 <= d2 < d ==> !drive_answers(*self, d2, block_path@)) && (if (
                    self.drives@[d].block_path matches Some(b) && b@ == block_path@) {
                        n@ == self.drives@[d].dev_node@
                    } else {
                        exists|p: int|
                            first_in_drive(*self, d, p, block_path@) && n@
                                == self.drives@[d].partitions@[p].dev_node@
                    }),
                None => forall|d: int| !drive_answers(*self, d, block_path@),
            },
    {
        let bpv = chars_of(block_path);
        let mut d: usize = 0;
        while d < self.drives.len()
            invariant
                d <= self.drives@.len(),
                bpv@ == block_path@,
                forall|d2: int| 0 <= d2 < d ==> !drive_answers(*self, d2, block_path@),
            decreases self.drives@.len() - d,
        {
            let drive = &self.drives[d];
            let own = match &drive.block_path {
                Some(b) => {
                    let bv = chars_of(b.as_str());
                    seq_eq(&bv, &bpv)
                },
                None => false,
            };
            if own {
                proof {
                    assert(drive_answers(*self, d as int, block_path@));
                }
                return Some(drive.dev_node.clone());
            }
            proof {
                assert(!(self.drives@[d as int].block_path matches Some(b) && b@ == block_path@));
            }
            let mut p: usize = 0;
            while p < drive.partitions.len()
                invariant
                    d < self.drives@.len(),
                    *drive == self.drives@[d as int],
                    p <= drive.partitions@.len(),
                    bpv@ == block_path@,
                    !(self.drives@[d as int].block_path matches Some(b) && b@ == block_path@),
                    forall|d2: int| 0 <= d2 < d ==> !drive_answers(*self, d2, block_path@),
                    forall|p2: int| 0 <= p2 < p ==> !part_matches(*self, d as int, p2, block_path@),
                decreases drive.partitions@.len() - p,
            {
                let iv = chars_of(drive.partitions[p].id.0.as_str());
                if seq_eq(&iv, &bpv) {
                    proof {
                        assert(part_matches(*self, d as int, p as int, block_path@));
                        assert(first_in_drive(*self, d as int, p as int, block_path@));
                        assert(drive_answers(*self, d as int, block_path@));
                    }
                    let n = drive.partitions[p].dev_node.clone();
                    proof {
                        assert(n@ == self.drives@[d as int].partitions@[p as int].dev_node@);
                        assert(exists|q: int|
                            first_in_drive(*self, d as int, q, block_path@) && n@
                                == self.drives@[d as int].partitions@[q].dev_node@);
                        let dd = d as int;
                        assert(!(self.drives@[dd].block_path matches Some(b) && b@ == block_path@));
                        assert(if (self.drives@[dd].block_path matches Some(b) && b@ == block_path@) {
                            n@ == self.drives@[dd].dev_node@
                        } else {
                            exists|q: int|
                                first_in_drive(*self, dd, q, block_path@) && n@
                                    == self.drives@[dd].partitions@[q].dev_node@
                        });
                    }
                    return Some(n);
                }
                p = p + 1;
            }
            d = d + 1;
        }
        None
    }
}

/// Prefix of the UDisks2 object paths of block devices.
pub open spec fn block_device_prefix() -> Seq<char> {
    "/org/freedesktop/UDisks2/block_devices/"@
}

/// Prefix of the UDisks2 object paths of drives.
pub open spec fn drive_prefix() -> Seq<char> {
    "/org/freedesktop/UDisks2/drives/"@
}

/// The block object to format for a target: the target itself when it is a
/// block device, the whole-disk block object of the drive when it is a drive.
pub fn resolve_block_object_path(snapshot: &StorageSnapshot, target_id: &DeviceId) -> (r: Option<String>)
    ensures
        if has_prefix(target_id.0@, block_device_prefix()) {
            r matches Some(p) && p@ == target_id.0@
        } else if has_prefix(target_id.0@, drive_prefix()) {
            match r {
                Some(p) => exists|d: int|
                    first_drive_match(*snapshot, d, target_id.0@) && (snapshot.drives@[d].block_path matches Some(
                        b,
                    ) && b@ == p@),
                None => (forall|d: int| !drive_matches(*snapshot, d, target_id.0@)) || exists|d: int|
                    first_drive_match(*snapshot, d, target_id.0@) && snapshot.drives@[d].block_path is None,
            }
        } else {
            r is None
        },
{
    let tv = chars_of(target_id.0.as_str());
    if starts_with_str(&tv, "/org/freedesktop/UDisks2/block_devices/") {
        return Some(target_id.0.clone());
    }
    if starts_with_str(&tv, "/org/freedesktop/UDisks2/drives/") {
        return match snapshot.drive_by_id(target_id) {
            Some(d) => match &d.block_path {
                Some(b) => Some(b.clone()),
                None => None,
            },
            None => None,
        };
    }
    None
}

/// Identities of the mounted partitions among `parts`, in order.
pub open spec fn mounted_ids(parts: Seq<PartitionInfo>) -> Seq<Seq<char>>
    decreases parts.len(),
{
    if parts.len() == 0 {
        Seq::empty()
    } else if mounted(parts.last()) {
        mounted_ids(parts.drop_last()).push(parts.last().id.0@)
    } else {
        mounted_ids(parts.drop_last())
    }
}

pub open spec fn strings_view(v: Seq<String>) -> Seq<Seq<char>> {
    v.map_values(|s: String| s@)
}

/// The objects to unmount before a destructive operation on `id`.
pub open spec fn unmount_list_ok(s: StorageSnapshot, id: Seq<char>, r: Seq<Seq<char>>) -> bool {
    (exists|d: int| first_drive_match(s, d, id) && r == mounted_ids(s.drives@[d].partitions@)) || ((
    forall|d: int| !drive_matches(s, d, id)) && if exists|d: int, p: int|
        first_in_drive(s, d, p, id) && mounted(s.drives@[d].partitions@[p]) {
        r == seq![id]
    } else {
        r.len() == 0
    })
}

/// The UDisks2 objects to unmount before a destructive operation on a
/// target: the mounted partitions of the drive when the target is a drive;
/// otherwise the target partition itself when it is mounted (the first
/// partition with that identity, drive by drive).
pub fn mounted_partition_paths(snapshot: &StorageSnapshot, target_id: &DeviceId) -> (r: Vec<String>)
    ensures
        unmount_list_ok(*snapshot, target_id.0@, strings_view(r@)),
{
    if let Some(drive) = snapshot.drive_by_id(target_id) {
        let mut out: Vec<String> = Vec::new();
        let mut i: usize = 0;
        while i < drive.partitions.len()
            invariant
                i <= drive.partitions@.len(),
                strings_view(out@) == mounted_ids(drive.partitions@.subrange(0, i as int)),
            decreases drive.partitions@.len() - i,
        {
            let p = &drive.partitions[i];
            proof {
                assert(drive.partitions@.subrange(0, i + 1).drop_last() =~= drive.partitions@.subrange(0, i as int));
            }
            if p.is_mounted() {
                out.push(p.id.0.clone());
                proof {
                    assert(strings_view(out@) =~= mounted_ids(drive.partitions@.subrange(0, i as int)).push(p.id.0@));
                }
            }
            i = i + 1;
        }
        assert(drive.partitions@.subrange(0, drive.partitions@.len() as int) =~= drive.partitions@);
        return out;
    }
    let mut d: usize = 0;
    while d < snapshot.drives.len()
        invariant
            d <= snapshot.drives@.len(),
            forall|d: int| !drive_matches(*snapshot, d, target_id.0@),
            forall|d2: int, p2: int|
                0 <= d2 < d && first_in_drive(*snapshot, d2, p2, target_id.0@) ==> !mounted(
                    snapshot.drives@[d2].partitions@[p2],
                ),
        decreases snapshot.drives@.len() - d,
    {
        let drive = &snapshot.drives[d];
        let mut p: usize = 0;
        while p < drive.partitions.len() && drive.partitions[p].id.0 != target_id.0
            invariant
                d < snapshot.drives@.len(),
                *drive == snapshot.drives@[d as int],
                p <= drive.partitions@.len(),
                forall|p2: int| 0 <= p2 < p ==> !part_matches(*snapshot, d as int, p2, target_id.0@),
            decreases drive.partitions@.len() - p,
        {
            p = p + 1;
        }
        if p < drive.partitions.len() {
            proof {
                assert(first_in_drive(*snapshot, d as int, p as int, target_id.0@));
            }
            if drive.partitions[p].is_mounted() {
                let mut out: Vec<String> = Vec::new();
                out.push(drive.partitions[p].id.0.clone());
                proof {
                    assert(strings_view(out@) =~= seq![target_id.0@]);
                }
                return out;
            }
        }
        proof {
            assert forall|p2: int| first_in_drive(*snapshot, d as int, p2, target_id.0@) implies !mounted(
                snapshot.drives@[d as int].partitions@[p2],
            ) by {
                if p2 != p {
                    if p2 < p {
                    } else {
                        assert(!part_matches(*snapshot, d as int, p as int, target_id.0@) || p >= drive.partitions@.len());
                    }
                }
            }
        }
        d = d + 1;
    }
    Vec::new()
}


/// `trim_end_matches('/')`.
pub open spec fn strip_trailing_slashes(s: Seq<char>) -> Seq<char>
    decreases s.len(),
{
    if s.len() > 0 && s.last() == '/' {
        strip_trailing_slashes(s.drop_last())
    } else {
        s
    }
}

pub fn strip_trailing_slashes_of(v: &[char]) -> (r: Vec<char>)
    ensures
        r@ == strip_trailing_slashes(v@),
{
    let mut j: usize = v.len();
    assert(v@.subrange(0, j as int) =~= v@);
    while j > 0 && v[j - 1] == '/'
        invariant
            j <= v.len(),
            strip_trailing_slashes(v@) == strip_trailing_slashes(v@.subrange(0, j as int)),
        decreases j,
    {
        assert(v@.subrange(0, j as int).drop_last() =~= v@.subrange(0, j - 1));
        j = j - 1;
    }
    let mut r: Vec<char> = Vec::new();
    let mut k: usize = 0;
    while k < j
        invariant
            k <= j <= v.len(),
            r@ == v@.subrange(0, k as int),
        decreases j - k,
    {
        r.push(v[k]);
        k = k + 1;
        assert(r@ =~= v@.subrange(0, k as int));
    }
    r
}

/// A mount point with its trailing slashes removed (`/` stays `/`).
pub open spec fn normalized_mount(mp: Seq<char>) -> Seq<char> {
    let t = strip_trailing_slashes(mp);
    if t.len() == 0 {
        "/"@
    } else {
        t
    }
}

/// Mount points that belong to the running system.
pub open spec fn protected_mount(n: Seq<char>) -> bool {
    n == "/"@ || n == "/boot"@ || n == "/boot/efi"@ || n == "/home"@
}

/// The system-disk rule: a partition mounted at `/`, `/boot`, `/boot/efi`
/// or `/home`, an active swap partition, or any partition of a fixed
/// (non-removable, non-USB) drive.
pub open spec fn system_disk(drive: DriveInfo, part: PartitionInfo) -> bool {
    (exists|i: int|
        0 <= i < part.mount_points@.len() && protected_mount(
            normalized_mount(#[trigger] part.mount_points@[i]@),
        )) || part.is_swap || (!drive.removable && drive.bus != BusType::Usb)
}

pub fn is_system_disk(drive: &DriveInfo, partition: &PartitionInfo) -> (r: bool)
    ensures
        r == system_disk(*drive, *partition),
{
    let mut i: usize = 0;
    let mut found = false;
    while i < partition.mount_points.len()
        invariant
            i <= partition.mount_points@.len(),
            found == exists|k: int|
                0 <= k < i && protected_mount(normalized_mount(#[trigger] partition.mount_points@[k]@)),
        decreases partition.mount_points@.len() - i,
    {
        let mv = chars_of(partition.mount_points[i].as_str());
        let t = strip_trailing_slashes_of(&mv);
        let hit = if t.len() == 0 {
            proof {
                assert(normalized_mount(mv@) == "/"@);
                reveal_strlit("/");
                reveal_strlit("/boot");
                reveal_strlit("/boot/efi");
                reveal_strlit("/home");
            }
            true
        } else {
            eq_str(&t, "/") || eq_str(&t, "/boot") || eq_str(&t, "/boot/efi") || eq_str(&t, "/home")
        };
        proof {
            assert(hit == protected_mount(normalized_mount(partition.mount_points@[i as int]@)));
        }
        found = found || hit;
        i = i + 1;
    }
    let fixed_internal = !drive.removable && drive.bus != BusType::Usb;
    found || partition.is_swap || fixed_internal
}

/// Some partition carries a Ventoy label (`ventoy` or `VTOYEFI`).
pub fn detect_ventoy(partitions: &[PartitionInfo]) -> (r: bool)
    ensures
        r == exists|i: int|
            0 <= i < partitions@.len() && (is_ventoy_label(#[trigger] partitions@[i].label@)
                || is_vtoyefi_label(partitions@[i].label@)),
{
    let mut i: usize = 0;
    while i < partitions.len()
        invariant
            i <= partitions@.len(),
            forall|k: int|
                0 <= k < i ==> !(is_ventoy_label(#[trigger] partitions@[k].label@)
                    || is_vtoyefi_label(partitions@[k].label@)),
        decreases partitions@.len() - i,
    {
        let lv = chars_of(partitions[i].label.as_str());
        if eq_ignore_ascii_case_str(&lv, "ventoy") || eq_ignore_ascii_case_str(&lv, "vtoyefi") {
            return true;
        }
        i = i + 1;
    }
    false
}

/// Drives that are not powered off on eject: memory cards, and drives that
/// cannot be powered off.
pub fn skips_power_off(drive: &DriveInfo) -> (r: bool)
    ensures
        r == (drive.bus == BusType::Mmc || !drive.can_power_off),
{
    drive.bus == BusType::Mmc || !drive.can_power_off
}

/// A disk image by its name: ends in `.iso` or `.img`, ASCII case-insensitive.
pub fn is_iso_or_img(name: &str) -> (r: bool)
    ensures
        r == (has_suffix(lower(name@), ".iso"@) || has_suffix(lower(name@), ".img"@)),
{
    let nv = chars_of(name);
    let l = lower_of(&nv);
    ends_with_str(&l, ".iso") || ends_with_str(&l, ".img")
}

/// Directory that holds the ISOs of a multi-boot drive: `<mount>/ISOs`.
pub fn isos_subdir(mount_point: &str) -> (r: String)
    ensures
        r@ == strip_trailing_slashes(mount_point@) + "/ISOs"@,
{
    let mv = chars_of(mount_point);
    let mut t = strip_trailing_slashes_of(&mv);
    append_str(&mut t, "/ISOs");
    string_of(&t)
}

/// An eject error that means the device is already gone.
pub fn is_no_usb_device_error(message: &str) -> (r: bool)
    ensures
        r == has_infix(lower(message@), "no usb device"@),
{
    let mv = chars_of(message);
    let l = lower_of(&mv);
    contains_str(&l, "no usb device")
}

/// Filesystem names accepted as FAT32.
pub open spec fn fat_name(t: Seq<char>) -> bool {
    t == "vfat"@ || t == "fat32"@ || t == "fat"@
}

pub fn is_fat_fs_type(fs_type: &str) -> (r: bool)
    ensures
        r == fat_name(lower(trim(fs_type@))),
{
    let fv = chars_of(fs_type);
    let tv = trim_of(&fv);
    let t = lower_of(&tv);
    eq_str(&t, "vfat") || eq_str(&t, "fat32") || eq_str(&t, "fat")
}

/// The `mkfs` program for a filesystem name and the package that provides it.
pub open spec fn mkfs_hint_spec(t: Seq<char>) -> Option<(Seq<char>, Seq<char>)> {
    if fat_name(t) {
        Some(("mkfs.vfat"@, "dosfstools"@))
    } else if t == "exfat"@ {
        Some(("mkfs.exfat"@, "exfatprogs (ou exfat-utils)"@))
    } else if t == "ext4"@ {
        Some(("mkfs.ext4"@, "e2fsprogs"@))
    } else if t == "ext3"@ {
        Some(("mkfs.ext3"@, "e2fsprogs"@))
    } else if t == "ext2"@ {
        Some(("mkfs.ext2"@, "e2fsprogs"@))
    } else if t == "ntfs"@ {
        Some(("mkfs.ntfs"@, "ntfs-3g"@))
    } else if t == "btrfs"@ {
        Some(("mkfs.btrfs"@, "btrfs-progs"@))
    } else {
        None
    }
}

/// The formatting program is `mkfs.` followed by the filesystem's name
/// (FAT under any of its names by `mkfs.vfat`), for every filesystem that
/// can be formatted.
pub proof fn lemma_mkfs_program(t: Seq<char>)
    ensures
        fat_name(t) ==> (mkfs_hint_spec(t) matches Some(h) && h.0 == "mkfs."@ + "vfat"@),
        !fat_name(t) && (t == "exfat"@ || t == "ext4"@ || t == "ext3"@ || t == "ext2"@ || t == "ntfs"@ || t == "btrfs"@)
            ==> (mkfs_hint_spec(t) matches Some(h) && h.0 == "mkfs."@ + t),
{
    reveal_strlit("mkfs.");
    reveal_strlit("vfat");
    reveal_strlit("mkfs.vfat");
    reveal_strlit("exfat");
    reveal_strlit("mkfs.exfat");
    reveal_strlit("ext4");
    reveal_strlit("mkfs.ext4");
    reveal_strlit("ext3");
    reveal_strlit("mkfs.ext3");
    reveal_strlit("ext2");
    reveal_strlit("mkfs.ext2");
    reveal_strlit("ntfs");
    reveal_strlit("mkfs.ntfs");
    reveal_strlit("btrfs");
    reveal_strlit("mkfs.btrfs");
    assert("mkfs."@ + "vfat"@ =~= "mkfs.vfat"@);
    assert("mkfs."@ + "exfat"@ =~= "mkfs.exfat"@);
    assert("mkfs."@ + "ext4"@ =~= "mkfs.ext4"@);
    assert("mkfs."@ + "ext3"@ =~= "mkfs.ext3"@);
    assert("mkfs."@ + "ext2"@ =~= "mkfs.ext2"@);
    assert("mkfs."@ + "ntfs"@ =~= "mkfs.ntfs"@);
    assert("mkfs."@ + "btrfs"@ =~= "mkfs.btrfs"@);
    assert("ext4"@ != "exfat"@ && "ext3"@ != "exfat"@ && "ext2"@ != "exfat"@ && "ntfs"@ != "exfat"@ && "btrfs"@ != "exfat"@) by {
        assert("ext4"@.len() != "exfat"@.len());
        assert("ntfs"@.len() != "exfat"@.len());
        assert("btrfs"@[0] != "exfat"@[0]);
    }
    assert("ext3"@ != "ext4"@ && "ext2"@ != "ext4"@ && "ntfs"@ != "ext4"@ && "btrfs"@ != "ext4"@) by {
        assert("ext3"@[3] != "ext4"@[3]);
        assert("ext2"@[3] != "ext4"@[3]);
        assert("ntfs"@[0] != "ext4"@[0]);
        assert("btrfs"@.len() != "ext4"@.len());
    }
    assert("ext2"@ != "ext3"@ && "ntfs"@ != "ext3"@ && "btrfs"@ != "ext3"@) by {
        assert("ext2"@[3] != "ext3"@[3]);
        assert("ntfs"@[0] != "ext3"@[0]);
        assert("btrfs"@.len() != "ext3"@.len());
    }
    assert("ntfs"@ != "ext2"@ && "btrfs"@ != "ext2"@) by {
        assert("ntfs"@[0] != "ext2"@[0]);
        assert("btrfs"@.len() != "ext2"@.len());
    }
    assert("btrfs"@ != "ntfs"@) by {
        assert("btrfs"@.len() != "ntfs"@.len());
    }
}

pub fn mkfs_hint(fs_type: &str) -> (r: Option<(&'static str, &'static str)>)
    ensures
        match r {
            Some((b, p)) => mkfs_hint_spec(lower(trim(fs_type@))) == Some((b@, p@)),
            None => mkfs_hint_spec(lower(trim(fs_type@))) is None,
        },
{
    let fv = chars_of(fs_type);
    let tv = trim_of(&fv);
    let t = lower_of(&tv);
    if eq_str(&t, "vfat") || eq_str(&t, "fat32") || eq_str(&t, "fat") {
        Some(("mkfs.vfat", "dosfstools"))
    } else if eq_str(&t, "exfat") {
        Some(("mkfs.exfat", "exfatprogs (ou exfat-utils)"))
    } else if eq_str(&t, "ext4") {
        Some(("mkfs.ext4", "e2fsprogs"))
    } else if eq_str(&t, "ext3") {
        Some(("mkfs.ext3", "e2fsprogs"))
    } else if eq_str(&t, "ext2") {
        Some(("mkfs.ext2", "e2fsprogs"))
    } else if eq_str(&t, "ntfs") {
        Some(("mkfs.ntfs", "ntfs-3g"))
    } else if eq_str(&t, "btrfs") {
        Some(("mkfs.btrfs", "btrfs-progs"))
    } else {
        None
    }
}

/// An error that means the `mkfs` program is missing.
pub open spec fn missing_program_message(m: Seq<char>) -> bool {
    let l = lower(m);
    has_infix(l, "not found"@) || has_infix(l, "no such file or directory"@) || has_infix(
        l,
        "command not found"@,
    ) || has_infix(l, "failed to execute"@)
}

pub fn is_missing_mkfs_error(message: &str) -> (r: bool)
    ensures
        r == missing_program_message(message@),
{
    let mv = chars_of(message);
    let l = lower_of(&mv);
    contains_str(&l, "not found") || contains_str(&l, "no such file or directory") || contains_str(
        &l,
        "command not found",
    ) || contains_str(&l, "failed to execute")
}

/// The message shown when formatting fails: a hint to install the missing
/// `mkfs` program when that is the cause, else the error itself.
pub fn format_error_message(fs_type: &str, message: &str) -> (r: String)
    ensures
        r@ == if missing_program_message(message@) && mkfs_hint_spec(lower(trim(fs_type@))) is Some {
            mkfs_hint_spec(lower(trim(fs_type@))).unwrap().0 + " ausente — instale "@
                + mkfs_hint_spec(lower(trim(fs_type@))).unwrap().1
        } else {
            "Falha ao formatar: "@ + message@
        },
{
    if is_missing_mkfs_error(message) {
        if let Some((bin, pkg)) = mkfs_hint(fs_type) {
            let mut v = chars_of(bin);
            append_str(&mut v, " ausente — instale ");
            append_str(&mut v, pkg);
            return string_of(&v);
        }
    }
    let mut v = chars_of("Falha ao formatar: ");
    append_str(&mut v, message);
    string_of(&v)
}

/// A permission error: an I/O error of kind `PermissionDenied`, or a message
/// that says "permission denied".
pub fn is_permission_denied_error(io_permission_denied: bool, message: &str) -> (r: bool)
    ensures
        r == (io_permission_denied || has_infix(lower(message@), "permission denied"@)),
{
    if io_permission_denied {
        return true;
    }
    let mv = chars_of(message);
    let l = lower_of(&mv);
    contains_str(&l, "permission denied")
}

/// A polkit refusal.
pub fn is_not_authorized_error(message: &str) -> (r: bool)
    ensures
        r == ({
            let l = lower(message@);
            has_infix(l, "notauthorized"@) || has_infix(l, "not authorized"@) || has_infix(
                l,
                "no polkit agent"@,
            ) || has_infix(l, "authentication is required"@)
        }),
{
    let mv = chars_of(message);
    let l = lower_of(&mv);
    contains_str(&l, "notauthorized") || contains_str(&l, "not authorized") || contains_str(
        &l,
        "no polkit agent",
    ) || contains_str(&l, "authentication is required")
}

/// A `sudo` failure caused by a wrong or missing password.
pub fn is_sudo_auth_failure(stderr_text: &str) -> (r: bool)
    ensures
        r == ({
            let l = lower(stderr_text@);
            has_infix(l, "incorrect password"@) || has_infix(l, "sorry, try again"@) || has_infix(
                l,
                "senha incorreta"@,
            ) || has_infix(l, "no password was provided"@) || has_infix(l, "a password is required"@)
        }),
{
    let mv = chars_of(stderr_text);
    let l = lower_of(&mv);
    contains_str(&l, "incorrect password") || contains_str(&l, "sorry, try again") || contains_str(
        &l,
        "senha incorreta",
    ) || contains_str(&l, "no password was provided") || contains_str(&l, "a password is required")
}


/// The arguments of the `mkfs` program for a filesystem name, a volume
/// label and a device node.
pub open spec fn mkfs_args_spec(t: Seq<char>, label: Seq<char>, dev: Seq<char>) -> Seq<Seq<char>> {
    let named = |flag: Seq<char>|
        if label.len() > 0 {
            seq![flag, label]
        } else {
            Seq::<Seq<char>>::empty()
        };
    let head = if fat_name(t) {
        seq!["-F"@, "32"@] + named("-n"@)
    } else if t == "exfat"@ {
        named("-n"@)
    } else if t == "ext4"@ || t == "ext3"@ || t == "ext2"@ {
        seq!["-F"@] + named("-L"@)
    } else {
        seq!["-f"@] + named("-L"@)
    };
    head.push(dev)
}

/// The arguments for each family of filesystems, the device node always
/// last: FAT is forced to FAT32 and named with `-n`; exFAT is named with
/// `-n`; ext2/3/4 are forced with `-F` and named with `-L`; the others are
/// forced with `-f` and named with `-L`. An empty label names nothing.
pub proof fn lemma_mkfs_args(t: Seq<char>, label: Seq<char>, dev: Seq<char>)
    ensures
        fat_name(t) ==> mkfs_args_spec(t, label, dev) == if label.len() > 0 {
            seq!["-F"@, "32"@, "-n"@, label, dev]
        } else {
            seq!["-F"@, "32"@, dev]
        },
        t == "exfat"@ ==> mkfs_args_spec(t, label, dev) == if label.len() > 0 {
            seq!["-n"@, label, dev]
        } else {
            seq![dev]
        },
        t == "ext4"@ || t == "ext3"@ || t == "ext2"@ ==> mkfs_args_spec(t, label, dev) == if label.len() > 0 {
            seq!["-F"@, "-L"@, label, dev]
        } else {
            seq!["-F"@, dev]
        },
        !fat_name(t) && t != "exfat"@ && t != "ext4"@ && t != "ext3"@ && t != "ext2"@ ==> mkfs_args_spec(t, label, dev)
            == if label.len() > 0 {
            seq!["-f"@, "-L"@, label, dev]
        } else {
            seq!["-f"@, dev]
        },
{
    reveal_strlit("vfat");
    reveal_strlit("fat32");
    reveal_strlit("fat");
    reveal_strlit("exfat");
    reveal_strlit("ext4");
    reveal_strlit("ext3");
    reveal_strlit("ext2");
    assert("exfat"@ != "vfat"@ && "exfat"@ != "fat32"@ && "exfat"@ != "fat"@) by {
        assert("exfat"@[0] != "vfat"@[0]);
        assert("exfat"@.len() != "fat"@.len());
        assert("exfat"@[0] != "fat32"@[0]);
    }
    assert("ext4"@ != "vfat"@ && "ext4"@ != "fat32"@ && "ext4"@ != "fat"@ && "ext4"@ != "exfat"@) by {
        assert("ext4"@[0] != "vfat"@[0]);
        assert("ext4"@.len() != "fat32"@.len());
        assert("ext4"@.len() != "fat"@.len());
        assert("ext4"@.len() != "exfat"@.len());
    }
    assert("ext3"@ != "vfat"@ && "ext3"@ != "fat32"@ && "ext3"@ != "fat"@ && "ext3"@ != "exfat"@) by {
        assert("ext3"@[0] != "vfat"@[0]);
        assert("ext3"@.len() != "fat32"@.len());
        assert("ext3"@.len() != "fat"@.len());
        assert("ext3"@.len() != "exfat"@.len());
    }
    assert("ext2"@ != "vfat"@ && "ext2"@ != "fat32"@ && "ext2"@ != "fat"@ && "ext2"@ != "exfat"@) by {
        assert("ext2"@[0] != "vfat"@[0]);
        assert("ext2"@.len() != "fat32"@.len());
        assert("ext2"@.len() != "fat"@.len());
        assert("ext2"@.len() != "exfat"@.len());
    }
    let named = |flag: Seq<char>| if label.len() > 0 { seq![flag, label] } else { Seq::<Seq<char>>::empty() };
    assert((seq!["-F"@, "32"@] + named("-n"@)).push(dev) =~= if label.len() > 0 {
        seq!["-F"@, "32"@, "-n"@, label, dev]
    } else {
        seq!["-F"@, "32"@, dev]
    });
    assert(named("-n"@).push(dev) =~= if label.len() > 0 { seq!["-n"@, label, dev] } else { seq![dev] });
    assert((seq!["-F"@] + named("-L"@)).push(dev) =~= if label.len() > 0 {
        seq!["-F"@, "-L"@, label, dev]
    } else {
        seq!["-F"@, dev]
    });
    assert((seq!["-f"@] + named("-L"@)).push(dev) =~= if label.len() > 0 {
        seq!["-f"@, "-L"@, label, dev]
    } else {
        seq!["-f"@, dev]
    });
}

fn push_string(v: &mut Vec<String>, s: &str)
    ensures
        strings_view(final(v)@) == strings_view(old(v)@).push(s@),
{
    let ghost before = v@;
    v.push(s.to_owned());
    assert(strings_view(v@) =~= strings_view(before).push(s@));
}

/// The `mkfs` program and arguments that format `dev_node` with `fs_type`
/// and the volume label `label`.
pub fn mkfs_command(fs_type: &str, label: &str, dev_node: &str) -> (r: Option<(String, Vec<String>)>)
    ensures
        match r {
            Some((bin, args)) => mkfs_hint_spec(lower(trim(fs_type@))) is Some && bin@ == mkfs_hint_spec(
                lower(trim(fs_type@)),
            ).unwrap().0 && strings_view(args@) == mkfs_args_spec(lower(trim(fs_type@)), label@, dev_node@),
            None => mkfs_hint_spec(lower(trim(fs_type@))) is None,
        },
{
    let (bin, _pkg) = match mkfs_hint(fs_type) {
        Some(h) => h,
        None => return None,
    };
    let fv = chars_of(fs_type);
    let tv = trim_of(&fv);
    let t = lower_of(&tv);
    let mut args: Vec<String> = Vec::new();
    let has_label = label.unicode_len() > 0;
    if eq_str(&t, "vfat") || eq_str(&t, "fat32") || eq_str(&t, "fat") {
        push_string(&mut args, "-F");
        push_string(&mut args, "32");
        if has_label {
            push_string(&mut args, "-n");
            push_string(&mut args, label);
        }
    } else if eq_str(&t, "exfat") {
        if has_label {
            push_string(&mut args, "-n");
            push_string(&mut args, label);
        }
    } else if eq_str(&t, "ext4") || eq_str(&t, "ext3") || eq_str(&t, "ext2") {
        push_string(&mut args, "-F");
        if has_label {
            push_string(&mut args, "-L");
            push_string(&mut args, label);
        }
    } else {
        push_string(&mut args, "-f");
        if has_label {
            push_string(&mut args, "-L");
            push_string(&mut args, label);
        }
    }
    push_string(&mut args, dev_node);
    proof {
        assert(strings_view(args@) =~= mkfs_args_spec(t@, label@, dev_node@));
    }
    Some((bin.to_owned(), args))
}

/// The arguments of `sudo`: `-n` when credentials are cached, else `-S -k`
/// (password on standard input), then `--`, the program and its arguments.
pub fn sudo_invocation(cached: bool, program: &str, args: &[String]) -> (r: Vec<String>)
    ensures
        strings_view(r@) == (if cached {
            seq!["-n"@]
        } else {
            seq!["-S"@, "-k"@]
        }) + seq!["--"@, program@] + strings_view(args@),
{
    let mut v: Vec<String> = Vec::new();
    if cached {
        push_string(&mut v, "-n");
    } else {
        push_string(&mut v, "-S");
        push_string(&mut v, "-k");
    }
    push_string(&mut v, "--");
    push_string(&mut v, program);
    let ghost head = strings_view(v@);
    let mut i: usize = 0;
    while i < args.len()
        invariant
            i <= args@.len(),
            strings_view(v@) == head + strings_view(args@.subrange(0, i as int)),
        decreases args@.len() - i,
    {
        push_string(&mut v, args[i].as_str());
        i = i + 1;
        assert(strings_view(v@) =~= head + strings_view(args@.subrange(0, i as int)));
    }
    assert(args@.subrange(0, args@.len() as int) =~= args@);
    proof {
        assert(strings_view(v@) =~= (if cached {
            seq!["-n"@]
        } else {
            seq!["-S"@, "-k"@]
        }) + seq!["--"@, program@] + strings_view(args@));
    }
    v
}

/// Number of leading ASCII digits.
pub open spec fn digits_len(s: Seq<char>) -> nat
    decreases s.len(),
{
    if s.len() > 0 && is_digit(s[0]) {
        1 + digits_len(s.drop_first())
    } else {
        0
    }
}

/// The byte count at the start of a `dd status=progress` line
/// (`"<digits> bytes ..."`), when it fits in a `u64`.
pub open spec fn dd_bytes_spec(line: Seq<char>) -> Option<u64> {
    let t = trim_start(line);
    let n = digits_len(t);
    let ds = t.subrange(0, n as int);
    let rest = trim_start(t.subrange(n as int, t.len() as int));
    if n == 0 || !has_prefix(rest, "byte"@) || decimal_value(ds) > u64::MAX {
        None
    } else {
        Some(decimal_value(ds) as u64)
    }
}

pub proof fn lemma_digits_len(s: Seq<char>, m: int)
    requires
        0 <= m <= s.len(),
        forall|k: int| 0 <= k < m ==> is_digit(s[k]),
        m == s.len() || !is_digit(s[m]),
    ensures
        digits_len(s) == m,
    decreases s.len(),
{
    if s.len() > 0 && m > 0 {
        let d = s.drop_first();
        assert forall|k: int| 0 <= k < m - 1 implies is_digit(d[k]) by {
            assert(d[k] == s[k + 1]);
        }
        lemma_digits_len(d, m - 1);
    }
}

pub proof fn lemma_trim_start_skip(s: Seq<char>, i: int)
    requires
        0 <= i <= s.len(),
        forall|k: int| 0 <= k < i ==> is_ws(s[k]),
    ensures
        trim_start(s) == trim_start(s.subrange(i, s.len() as int)),
    decreases i,
{
    if i > 0 {
        lemma_trim_start_skip(s, i - 1);
        let t = s.subrange(i - 1, s.len() as int);
        assert(t.drop_first() =~= s.subrange(i, s.len() as int));
    } else {
        assert(s.subrange(0, s.len() as int) =~= s);
    }
}

/// Index of the first non-whitespace character at or after `from`.
fn skip_ws(v: &[char], from: usize) -> (r: usize)
    requires
        from <= v.len(),
    ensures
        from <= r <= v.len(),
        forall|k: int| from <= k < r ==> is_ws(v@[k]),
        r == v.len() || !is_ws(v@[r as int]),
{
    let mut i = from;
    while i < v.len() && char_is_ws(v[i])
        invariant
            from <= i <= v.len(),
            forall|k: int| from <= k < i ==> is_ws(v@[k]),
        decreases v.len() - i,
    {
        i = i + 1;
    }
    i
}

pub fn parse_dd_bytes_copied(line: &str) -> (r: Option<u64>)
    ensures
        r == dd_bytes_spec(line@),
{
    let v = chars_of(line);
    let start = skip_ws(&v, 0);
    let ghost t = v@.subrange(start as int, v@.len() as int);
    proof {
        lemma_trim_start_skip(v@, start as int);
        assert(trim_start(t) == t) by {
            if t.len() > 0 {
                assert(t[0] == v@[start as int]);
            }
        }
    }
    let mut i = start;
    let mut value: u64 = 0;
    let mut overflow = false;
    while i < v.len() && v[i] >= '0' && v[i] <= '9'
        invariant
            start <= i <= v.len(),
            t == v@.subrange(start as int, v@.len() as int),
            forall|k: int| start <= k < i ==> is_digit(v@[k]),
            overflow ==> decimal_value(v@.subrange(start as int, i as int)) > u64::MAX,
            !overflow ==> value == decimal_value(v@.subrange(start as int, i as int)),
        decreases v.len() - i,
    {
        let d = (v[i] as u32 - 48) as u64;
        proof {
            assert(v@.subrange(start as int, i + 1).drop_last() =~= v@.subrange(start as int, i as int));
        }
        if !overflow {
            if value > (u64::MAX - d) / 10 {
                overflow = true;
            } else {
                value = value * 10 + d;
            }
        } else {
            assert(decimal_value(v@.subrange(start as int, i + 1)) >= decimal_value(v@.subrange(start as int, i as int)) * 10) by (nonlinear_arith)
                requires
                    decimal_value(v@.subrange(start as int, i + 1)) == decimal_value(v@.subrange(start as int, i as int)) * 10 + d,
            ;
        }
        i = i + 1;
    }
    let n = i - start;
    proof {
        assert forall|k: int| 0 <= k < n implies is_digit(t[k]) by {
            assert(t[k] == v@[start + k]);
        }
        if i < v.len() {
            assert(t[n as int] == v@[i as int]);
        }
        lemma_digits_len(t, n as int);
        assert(t.subrange(0, n as int) =~= v@.subrange(start as int, i as int));
    }
    if n == 0 {
        return None;
    }
    let rs = skip_ws(&v, i);
    proof {
        let rest0 = t.subrange(n as int, t.len() as int);
        assert(rest0 =~= v@.subrange(i as int, v@.len() as int));
        assert forall|k: int| 0 <= k < rs - i implies is_ws(rest0[k]) by {
            assert(rest0[k] == v@[i + k]);
        }
        lemma_trim_start_skip(rest0, (rs - i) as int);
        let rest1 = rest0.subrange(rs - i, rest0.len() as int);
        assert(rest1 =~= v@.subrange(rs as int, v@.len() as int));
        assert(trim_start(rest1) == rest1) by {
            if rest1.len() > 0 {
                assert(rest1[0] == v@[rs as int]);
            }
        }
    }
    let mut rest: Vec<char> = Vec::new();
    let mut k = rs;
    while k < v.len()
        invariant
            rs <= k <= v.len(),
            rest@ == v@.subrange(rs as int, k as int),
        decreases v.len() - k,
    {
        rest.push(v[k]);
        k = k + 1;
        assert(rest@ =~= v@.subrange(rs as int, k as int));
    }
    if !starts_with_str(&rest, "byte") {
        return None;
    }
    if overflow {
        return None;
    }
    Some(value)
}


pub open spec fn is_octal_byte(b: u8) -> bool {
    48 <= b && b <= 55
}

/// `u8::from_str_radix` in base 8 on three bytes.
pub open spec fn octal3(b0: u8, b1: u8, b2: u8) -> Option<u8> {
    if b0 == 43 {
        if is_octal_byte(b1) && is_octal_byte(b2) {
            Some(((b1 - 48) * 8 + (b2 - 48)) as u8)
        } else {
            None
        }
    } else if is_octal_byte(b0) && is_octal_byte(b1) && is_octal_byte(b2) && (b0 - 48) * 64 + (b1
        - 48) * 8 + (b2 - 48) <= 255 {
        Some(((b0 - 48) * 64 + (b1 - 48) * 8 + (b2 - 48)) as u8)
    } else {
        None
    }
}

fn octal3_exec(b0: u8, b1: u8, b2: u8) -> (r: Option<u8>)
    ensures
        r == octal3(b0, b1, b2),
{
    if b0 == 43 {
        if b1 >= 48 && b1 <= 55 && b2 >= 48 && b2 <= 55 {
            Some((b1 - 48) * 8 + (b2 - 48))
        } else {
            None
        }
    } else if b0 >= 48 && b0 <= 55 && b1 >= 48 && b1 <= 55 && b2 >= 48 && b2 <= 55 {
        let v: u32 = (b0 as u32 - 48) * 64 + (b1 as u32 - 48) * 8 + (b2 as u32 - 48);
        if v <= 255 {
            Some(v as u8)
        } else {
            None
        }
    } else {
        None
    }
}

/// Mount-point text as the kernel escapes it (`\040` for a space), decoded
/// byte by byte from position `i`; each other byte is kept as a character.
pub open spec fn unescape_from(b: Seq<u8>, i: int) -> Seq<char>
    decreases b.len() - i,
{
    if i < 0 || i >= b.len() {
        Seq::empty()
    } else if b[i] == 92 && i + 3 < b.len() && octal3(b[i + 1], b[i + 2], b[i + 3]) is Some {
        seq![(octal3(b[i + 1], b[i + 2], b[i + 3]).unwrap()) as char] + unescape_from(b, i + 4)
    } else {
        seq![b[i] as char] + unescape_from(b, i + 1)
    }
}

/// Every escape that is decoded can be cut out of the text at character
/// boundaries.
pub open spec fn escapes_sliceable(b: Seq<u8>) -> bool {
    forall|i: int|
        0 <= i && i + 3 < b.len() && b[i] == 92 ==> is_char_boundary(b, i + 1) && is_char_boundary(
            b,
            i + 4,
        )
}

fn unescape_mount_octal(s: &str) -> (r: String)
    requires
        escapes_sliceable(s.spec_bytes()),
    ensures
        r@ == unescape_from(s.spec_bytes(), 0),
{
    let b = s.as_bytes();
    let mut out: Vec<char> = Vec::new();
    let mut i: usize = 0;
    while i < b.len()
        invariant
            i <= b@.len(),
            b@ == s.spec_bytes(),
            out@ + unescape_from(b@, i as int) == unescape_from(b@, 0),
        decreases b@.len() - i,
    {
        if b[i] == 92 && b.len() - i > 3 {
            if let Some(code) = octal3_exec(b[i + 1], b[i + 2], b[i + 3]) {
                proof {
                    assert(out@.push(code as char) + unescape_from(b@, i + 4) =~= out@ + unescape_from(b@, i as int));
                }
                out.push(code as char);
                i = i + 4;
                continue;
            }
        }
        proof {
            assert(out@.push(b@[i as int] as char) + unescape_from(b@, i + 1) =~= out@ + unescape_from(b@, i as int));
        }
        out.push(b[i] as char);
        i = i + 1;
    }
    assert(out@ =~= unescape_from(b@, 0));
    string_of(&out)
}

/// Swap partitions in use, from the text of `/proc/swaps`: after the header
/// line, each line whose type column is `partition` (ASCII case-insensitive)
/// and whose first column is a `/dev/` node.
pub open spec fn swaps_spec(ls: Seq<Seq<char>>) -> Seq<Seq<char>>
    decreases ls.len(),
{
    if ls.len() == 0 {
        Seq::empty()
    } else {
        let w = words(ls.last());
        let before = swaps_spec(ls.drop_last());
        if w.len() >= 2 && eq_ascii_ci(w[1], "partition"@) && has_prefix(w[0], "/dev/"@) {
            before.push(w[0])
        } else {
            before
        }
    }
}

/// All but the first element (`Iterator::skip(1)`).
pub open spec fn after_first<A>(s: Seq<A>) -> Seq<A> {
    if s.len() == 0 {
        s
    } else {
        s.skip(1)
    }
}

pub fn parse_proc_swaps(text: &str) -> (r: Vec<String>)
    ensures
        strings_view(r@) == swaps_spec(after_first(lines(text@))),
{
    let tv = chars_of(text);
    let ls = split_lines(&tv);
    let ghost all = lines(text@);
    let mut out: Vec<String> = Vec::new();
    if ls.len() == 0 {
        proof {
            assert(strings_view(out@) =~= Seq::<Seq<char>>::empty());
        }
        return out;
    }
    let mut i: usize = 1;
    proof {
        assert(all.skip(1).subrange(0, 0) =~= Seq::<Seq<char>>::empty());
    }
    while i < ls.len()
        invariant
            1 <= i <= ls@.len(),
            ls@.len() == all.len(),
            forall|k: int| 0 <= k < ls@.len() ==> #[trigger] ls@[k]@ == all[k],
            strings_view(out@) == swaps_spec(all.skip(1).subrange(0, i - 1)),
        decreases ls@.len() - i,
    {
        let w = split_words(&ls[i]);
        proof {
            let sk = all.skip(1);
            assert(sk.subrange(0, i as int).drop_last() =~= sk.subrange(0, i - 1));
            assert(sk.subrange(0, i as int).last() == all[i as int]);
        }
        if w.len() >= 2 {
            let kind = &w[1];
            let dev = &w[0];
            if eq_ignore_ascii_case_str(kind, "partition") && starts_with_str(dev, "/dev/") {
                let ghost before = out@;
                out.push(string_of(dev));
                proof {
                    assert(strings_view(out@) =~= strings_view(before).push(dev@));
                }
            }
        }
        i = i + 1;
    }
    proof {
        assert(all.skip(1).subrange(0, i - 1) =~= all.skip(1));
    }
    out
}

/// Line `l` of `/proc/mounts` describes a `/dev/` device; its mount point
/// is then decoded.
pub open spec fn mount_line_kept(l: Seq<char>) -> bool {
    words(l).len() >= 2 && has_prefix(words(l)[0], "/dev/"@)
}

/// Escapes in the mount points of `/proc/mounts` text can be decoded
/// without cutting a character.
pub open spec fn mounts_text_sliceable(text: Seq<char>) -> bool {
    forall|k: int|
        0 <= k < lines(text).len() && mount_line_kept(#[trigger] lines(text)[k]) ==> escapes_sliceable(
            encode_utf8(words(lines(text)[k])[1]),
        )
}

fn escapes_ok(s: &str) -> (r: bool)
    ensures
        r == escapes_sliceable(s.spec_bytes()),
{
    let b = s.as_bytes();
    let n = b.len();
    let mut i: usize = 0;
    while i < n
        invariant
            i <= n,
            n == b@.len(),
            b@ == s.spec_bytes(),
            forall|j: int|
                0 <= j < i && j + 3 < b@.len() && b@[j] == 92 ==> is_char_boundary(b@, j + 1)
                    && is_char_boundary(b@, j + 4),
        decreases n - i,
    {
        if b[i] == 92 && n - i > 3 {
            if !(s.is_char_boundary(i + 1) && s.is_char_boundary(i + 4)) {
                return false;
            }
        }
        i = i + 1;
    }
    true
}

/// Whether `parse_proc_mounts` can take this text: every escape in a kept
/// mount point can be cut out at character boundaries.
pub fn mounts_text_is_sliceable(text: &str) -> (r: bool)
    ensures
        r == mounts_text_sliceable(text@),
{
    let tv = chars_of(text);
    let ls = split_lines(&tv);
    let ghost all = lines(text@);
    let mut i: usize = 0;
    while i < ls.len()
        invariant
            i <= ls@.len(),
            ls@.len() == all.len(),
            all == lines(text@),
            forall|k: int| 0 <= k < ls@.len() ==> #[trigger] ls@[k]@ == all[k],
            forall|k: int|
                0 <= k < i && mount_line_kept(#[trigger] all[k]) ==> escapes_sliceable(
                    encode_utf8(words(all[k])[1]),
                ),
        decreases ls@.len() - i,
    {
        let w = split_words(&ls[i]);
        proof {
            assert(ls@[i as int]@ == all[i as int]);
        }
        if w.len() >= 2 && starts_with_str(&w[0], "/dev/") {
            let mp = string_of(&w[1]);
            let mps = mp.as_str();
            proof {
                assert(mount_line_kept(all[i as int]));
                assert(mps.spec_bytes() == encode_utf8(words(all[i as int])[1]));
            }
            if !escapes_ok(mps) {
                return false;
            }
        }
        i = i + 1;
    }
    true
}

/// Device nodes and decoded mount points, from the text of `/proc/mounts`.
pub open spec fn mounts_spec(ls: Seq<Seq<char>>) -> Seq<(Seq<char>, Seq<char>)>
    decreases ls.len(),
{
    if ls.len() == 0 {
        Seq::empty()
    } else {
        let l = ls.last();
        let before = mounts_spec(ls.drop_last());
        if mount_line_kept(l) {
            before.push((words(l)[0], unescape_from(encode_utf8(words(l)[1]), 0)))
        } else {
            before
        }
    }
}

pub open spec fn pairs_view(v: Seq<(String, String)>) -> Seq<(Seq<char>, Seq<char>)> {
    v.map_values(|p: (String, String)| (p.0@, p.1@))
}

pub fn parse_proc_mounts(text: &str) -> (r: Vec<(String, String)>)
    requires
        mounts_text_sliceable(text@),
    ensures
        pairs_view(r@) == mounts_spec(lines(text@)),
{
    let tv = chars_of(text);
    let ls = split_lines(&tv);
    let ghost all = lines(text@);
    let mut out: Vec<(String, String)> = Vec::new();
    let mut i: usize = 0;
    proof {
        assert(all.subrange(0, 0) =~= Seq::<Seq<char>>::empty());
    }
    while i < ls.len()
        invariant
            i <= ls@.len(),
            ls@.len() == all.len(),
            all == lines(text@),
            mounts_text_sliceable(text@),
            forall|k: int| 0 <= k < ls@.len() ==> #[trigger] ls@[k]@ == all[k],
            pairs_view(out@) == mounts_spec(all.subrange(0, i as int)),
        decreases ls@.len() - i,
    {
        let w = split_words(&ls[i]);
        proof {
            assert(all.subrange(0, i + 1).drop_last() =~= all.subrange(0, i as int));
            assert(all.subrange(0, i + 1).last() == all[i as int]);
        }
        if w.len() >= 2 && starts_with_str(&w[0], "/dev/") {
            let mp = string_of(&w[1]);
            let mps = mp.as_str();
            proof {
                assert(mount_line_kept(all[i as int]));
                assert(mps.spec_bytes() == encode_utf8(words(all[i as int])[1]));
            }
            let decoded = unescape_mount_octal(mps);
            let ghost before = out@;
            out.push((string_of(&w[0]), decoded));
            proof {
                assert(pairs_view(out@) =~= pairs_view(before).push((w@[0]@, decoded@)));
            }
        }
        i = i + 1;
    }
    proof {
        assert(all.subrange(0, i as int) =~= all);
    }
    out
}


#[verifier::external_type_specification]
#[verifier::external_body]
pub struct ExSystemTime(std::time::SystemTime);

/// An ISO image of a multi-boot drive.
#[derive(Debug, Clone, PartialEq)]
pub struct VentoyIsoEntry {
    pub name: String,
    pub size: u64,
    pub modified: Option<std::time::SystemTime>,
}

pub open spec fn iso_name(name: Seq<char>) -> bool {
    has_suffix(lower(name), ".iso"@) || has_suffix(lower(name), ".img"@)
}

/// The raw directory entries that are disk images, in order.
pub open spec fn iso_entries(raw: Seq<(String, u64, Option<std::time::SystemTime>)>) -> Seq<
    (Seq<char>, u64, Option<std::time::SystemTime>),
>
    decreases raw.len(),
{
    if raw.len() == 0 {
        Seq::empty()
    } else {
        let e = raw.last();
        let before = iso_entries(raw.drop_last());
        if iso_name(e.0@) {
            before.push((e.0@, e.1, e.2))
        } else {
            before
        }
    }
}

pub open spec fn entry_view(e: VentoyIsoEntry) -> (Seq<char>, u64, Option<std::time::SystemTime>) {
    (e.name@, e.size, e.modified)
}

/// `out` is `kept` sorted by ASCII-lowercased name, equal names keeping
/// their order.
pub open spec fn sorted_by_lower_name(
    kept: Seq<(Seq<char>, u64, Option<std::time::SystemTime>)>,
    out: Seq<VentoyIsoEntry>,
) -> bool {
    exists|perm: Seq<int>|
        {
            &&& is_permutation(perm, kept.len() as int)
            &&& out.len() == kept.len()
            &&& forall|i: int| 0 <= i < out.len() ==> entry_view(#[trigger] out[i]) == kept[perm[i]]
            &&& forall|i: int, j: int|
                0 <= i < j < out.len() ==> seq_le(
                    chars_key(lower(out[i].name@)),
                    chars_key(lower(out[j].name@)),
                )
            &&& forall|i: int, j: int|
                0 <= i < j < out.len() && lower(out[i].name@) == lower(out[j].name@) ==> perm[i]
                    < perm[j]
        }
}

/// The disk images among the entries of an `ISOs/` directory, sorted by
/// name without regard to ASCII case.
pub fn build_ventoy_entries(raw: Vec<(String, u64, Option<std::time::SystemTime>)>) -> (r: Vec<VentoyIsoEntry>)
    ensures
        sorted_by_lower_name(iso_entries(raw@), r@),
{
    let ghost raw_v = raw@;
    let mut keyed: Vec<(Vec<u32>, VentoyIsoEntry)> = Vec::new();
    let mut src = raw;
    let ghost mut k: int = 0;
    proof {
        assert(raw_v.subrange(0, 0) =~= Seq::<(String, u64, Option<std::time::SystemTime>)>::empty());
    }
    while src.len() > 0
        invariant
            0 <= k <= raw_v.len(),
            src@ == raw_v.subrange(k, raw_v.len() as int),
            keyed@.len() == iso_entries(raw_v.subrange(0, k)).len(),
            forall|i: int|
                0 <= i < keyed@.len() ==> entry_view(#[trigger] keyed@[i].1) == iso_entries(
                    raw_v.subrange(0, k),
                )[i] && keyed@[i].0@ == chars_key(lower(keyed@[i].1.name@)),
        decreases src@.len(),
    {
        let (name, size, modified) = src.remove(0);
        proof {
            assert(raw_v.subrange(0, k + 1).drop_last() =~= raw_v.subrange(0, k));
            assert(raw_v.subrange(0, k + 1).last() == raw_v[k]);
        }
        if is_iso_or_img(name.as_str()) {
            let nv = chars_of(name.as_str());
            let lv = lower_of(&nv);
            let mut key: Vec<u32> = Vec::new();
            push_chars_key(&mut key, &lv);
            let ghost before = keyed@;
            keyed.push((key, VentoyIsoEntry { name, size, modified }));
            proof {
                assert forall|i: int| 0 <= i < keyed@.len() implies entry_view(#[trigger] keyed@[i].1)
                    == iso_entries(raw_v.subrange(0, k + 1))[i] && keyed@[i].0@ == chars_key(
                    lower(keyed@[i].1.name@),
                ) by {
                    if i < before.len() {
                        assert(keyed@[i] == before[i]);
                    }
                }
            }
        }
        proof {
            k = k + 1;
            assert(src@ =~= raw_v.subrange(k, raw_v.len() as int));
        }
    }
    proof {
        assert(raw_v.subrange(0, k) =~= raw_v);
    }
    let ghost kept = iso_entries(raw_v);
    let ghost keyed_v = keyed@;
    let (sorted, perm) = stable_sort(keyed);
    let mut out: Vec<VentoyIsoEntry> = Vec::new();
    let mut rest = sorted;
    let ghost sorted_v = rest@;
    let ghost mut j: int = 0;
    while rest.len() > 0
        invariant
            0 <= j <= sorted_v.len(),
            rest@ == sorted_v.subrange(j, sorted_v.len() as int),
            out@.len() == j,
            forall|i: int| 0 <= i < j ==> #[trigger] out@[i] == sorted_v[i].1,
        decreases rest@.len(),
    {
        let (_key, e) = rest.remove(0);
        out.push(e);
        proof {
            j = j + 1;
            assert(rest@ =~= sorted_v.subrange(j, sorted_v.len() as int));
        }
    }
    proof {
        let p = perm@;
        assert(stably_sorted_by(keyed_v, sorted_v, p));
        assert forall|i: int| 0 <= i < out@.len() implies entry_view(#[trigger] out@[i]) == kept[p[i]] by {
            assert(sorted_v[i] == keyed_v[p[i]]);
        }
        assert forall|a: int, b: int| 0 <= a < b < out@.len() implies seq_le(
            chars_key(lower(out@[a].name@)),
            chars_key(lower(out@[b].name@)),
        ) by {
            assert(sorted_v[a] == keyed_v[p[a]]);
            assert(sorted_v[b] == keyed_v[p[b]]);
        }
        assert forall|a: int, b: int|
            0 <= a < b < out@.len() && lower(out@[a].name@) == lower(out@[b].name@) implies p[a] < p[b] by {
            assert(sorted_v[a] == keyed_v[p[a]]);
            assert(sorted_v[b] == keyed_v[p[b]]);
        }
        assert(sorted_by_lower_name(kept, out@));
    }
    out
}

/// `fatfs` volume label: the first eleven bytes of the label, ASCII
/// upper-cased, padded with spaces.
pub open spec fn fat_label_spec(b: Seq<u8>) -> Seq<u8> {
    Seq::new(
        11,
        |i: int|
            if i < b.len() {
                if 97 <= b[i] && b[i] <= 122 {
                    (b[i] - 32) as u8
                } else {
                    b[i]
                }
            } else {
                32u8
            },
    )
}

pub fn fat_volume_label(label: &str) -> (r: [u8; 11])
    ensures
        r@ == fat_label_spec(label.spec_bytes()),
{
    let b = label.as_bytes();
    let mut buf: [u8; 11] = [32u8; 11];
    let mut i: usize = 0;
    while i < 11
        invariant
            i <= 11,
            b@ == label.spec_bytes(),
            buf@.len() == 11,
            forall|k: int| 0 <= k < i ==> buf@[k] == fat_label_spec(b@)[k],
            forall|k: int| i <= k < 11 ==> buf@[k] == 32u8,
        decreases 11 - i,
    {
        if i < b.len() {
            let x = b[i];
            let u = if x >= 97 && x <= 122 {
                x - 32
            } else {
                x
            };
            buf.set(i, u);
        }
        i = i + 1;
    }
    assert(buf@ =~= fat_label_spec(b@));
    buf
}

/// Bytes up to (not including) the first NUL byte.
pub open spec fn until_nul(b: Seq<u8>) -> Seq<u8> {
    if exists|i: int| 0 <= i < b.len() && b[i] == 0 {
        b.subrange(0, choose|i: int| 0 <= i < b.len() && b[i] == 0 && forall|j: int| 0 <= j < i ==> b[j] != 0)
    } else {
        b
    }
}

/// A NUL-terminated path property (UDisks2 `Device`, `MountPoints`) as text.
pub fn bytes_to_path(bytes: &[u8]) -> (r: String)
    ensures
        r@ == utf8_lossy(until_nul(bytes@)),
{
    let mut i: usize = 0;
    while i < bytes.len() && bytes[i] != 0
        invariant
            i <= bytes.len(),
            forall|j: int| 0 <= j < i ==> bytes@[j] != 0,
        decreases bytes.len() - i,
    {
        i = i + 1;
    }
    let mut head: Vec<u8> = Vec::new();
    let mut k: usize = 0;
    while k < i
        invariant
            k <= i <= bytes.len(),
            head@ == bytes@.subrange(0, k as int),
        decreases i - k,
    {
        head.push(bytes[k]);
        k = k + 1;
        assert(head@ =~= bytes@.subrange(0, k as int));
    }
    proof {
        if i < bytes.len() {
            let c = choose|c: int| 0 <= c < bytes@.len() && bytes@[c] == 0 && forall|j: int| 0 <= j < c ==> bytes@[j] != 0;
            assert(0 <= i < bytes@.len() && bytes@[i as int] == 0 && forall|j: int| 0 <= j < i ==> bytes@[j] != 0);
            if c < i {
                assert(bytes@[c] != 0);
            }
            if i < c {
                assert(bytes@[i as int] != 0);
            }
            assert(until_nul(bytes@) == head@);
        } else {
            assert(head@ =~= bytes@);
        }
    }
    from_utf8_lossy(head.as_slice())
}


/// A storage operation requested by the user interface.
#[derive(Debug, Clone, PartialEq)]
pub enum StorageRequest {
    Mount(DeviceId),
    Unmount(DeviceId),
    Eject(DeviceId),
    Format { device_id: String, fs_type: String, label: String },
    FlashIso { device_id: String, iso_path: String },
    MultibootPrepare { device_id: String },
    MultibootListIsos { device_id: String },
    MultibootAddIso { device_id: String, src_path: String },
    MultibootRemoveIso { device_id: String, file_name: String },
}

/// Why a storage operation is not carried out.
#[derive(Debug, Clone, PartialEq)]
pub enum StorageRefusal {
    /// The target is a system drive or partition.
    SystemDisk,
    /// No snapshot of the drives is known yet.
    SnapshotUnavailable,
    /// No drive has the identity to eject.
    EjectTargetNotFound,
    /// No block object can be formatted for the identity.
    BlockNotFound,
    /// No drive has the identity to flash.
    FlashTargetNotFound,
    /// No partition has the identity.
    PartitionNotFound,
    /// Multi-boot needs a FAT32 partition; the name of the one found.
    NotFat32(String),
}

impl StorageRefusal {
    /// The notification text of the refusal.
    pub fn message(&self) -> (r: String)
        ensures
            r@ == match self {
                StorageRefusal::SystemDisk => "operação bloqueada: disco de sistema"@,
                StorageRefusal::SnapshotUnavailable => "árvore de discos indisponível"@,
                StorageRefusal::EjectTargetNotFound => "dispositivo não encontrado para ejeção"@,
                StorageRefusal::BlockNotFound => "dispositivo de bloco não encontrado para formatação"@,
                StorageRefusal::FlashTargetNotFound => "dispositivo alvo não encontrado"@,
                StorageRefusal::PartitionNotFound => "partição alvo não encontrada"@,
                StorageRefusal::NotFat32(fs) => "a partição precisa estar formatada como FAT32 para multi-boot (atual: "@
                    + fs@ + ") — formate primeiro com [f]"@,
            },
    {
        match self {
            StorageRefusal::SystemDisk => "operação bloqueada: disco de sistema".to_owned(),
            StorageRefusal::SnapshotUnavailable => "árvore de discos indisponível".to_owned(),
            StorageRefusal::EjectTargetNotFound => "dispositivo não encontrado para ejeção".to_owned(),
            StorageRefusal::BlockNotFound => "dispositivo de bloco não encontrado para formatação".to_owned(),
            StorageRefusal::FlashTargetNotFound => "dispositivo alvo não encontrado".to_owned(),
            StorageRefusal::PartitionNotFound => "partição alvo não encontrada".to_owned(),
            StorageRefusal::NotFat32(fs) => {
                let mut v = chars_of("a partição precisa estar formatada como FAT32 para multi-boot (atual: ");
                append_str(&mut v, fs.as_str());
                append_str(&mut v, ") — formate primeiro com [f]");
                string_of(&v)
            },
        }
    }
}

/// What to do for a storage request, decided from the last snapshot.
#[derive(Debug, Clone, PartialEq)]
pub enum StoragePlan {
    Refused(StorageRefusal),
    /// Mount each listed partition of the drive (those not yet mounted).
    MountPartitions(Vec<String>),
    /// Mount the object itself.
    MountObject(String),
    /// Unmount each listed partition of the drive (those mounted).
    UnmountPartitions(Vec<String>),
    /// Unmount the object itself.
    UnmountObject(String),
    /// Unmount the listed partitions, then eject drive number `drive_index`.
    Eject { drive_index: usize, unmount: Vec<String> },
    /// Unmount the listed objects, then format `block_path`.
    Format { block_path: String, unmount: Vec<String> },
    /// Unmount the listed objects, then write the image to `dev_node`.
    Flash { dev_node: String, unmount: Vec<String> },
    /// Operate on the multi-boot data partition `part_path`, mounted at
    /// `existing_mount` when it already is.
    Multiboot { part_path: String, existing_mount: Option<String> },
}

/// Identities of the partitions of `parts` that are not mounted, in order.
pub open spec fn unmounted_ids(parts: Seq<PartitionInfo>) -> Seq<Seq<char>>
    decreases parts.len(),
{
    if parts.len() == 0 {
        Seq::empty()
    } else if !mounted(parts.last()) {
        unmounted_ids(parts.drop_last()).push(parts.last().id.0@)
    } else {
        unmounted_ids(parts.drop_last())
    }
}

fn partition_ids_where(parts: &Vec<PartitionInfo>, want_mounted: bool) -> (r: Vec<String>)
    ensures
        strings_view(r@) == if want_mounted {
            mounted_ids(parts@)
        } else {
            unmounted_ids(parts@)
        },
{
    let mut out: Vec<String> = Vec::new();
    let mut i: usize = 0;
    while i < parts.len()
        invariant
            i <= parts@.len(),
            strings_view(out@) == if want_mounted {
                mounted_ids(parts@.subrange(0, i as int))
            } else {
                unmounted_ids(parts@.subrange(0, i as int))
            },
        decreases parts@.len() - i,
    {
        let p = &parts[i];
        proof {
            assert(parts@.subrange(0, i + 1).drop_last() =~= parts@.subrange(0, i as int));
        }
        if p.is_mounted() == want_mounted {
            let ghost before = out@;
            out.push(p.id.0.clone());
            proof {
                assert(strings_view(out@) =~= strings_view(before).push(p.id.0@));
            }
        }
        i = i + 1;
    }
    assert(parts@.subrange(0, parts@.len() as int) =~= parts@);
    out
}

/// The requests that can destroy data or write to a drive.
pub open spec fn destructive(req: StorageRequest) -> bool {
    match req {
        StorageRequest::Eject(_) | StorageRequest::Format { .. } | StorageRequest::FlashIso { .. }
        | StorageRequest::MultibootPrepare { .. } | StorageRequest::MultibootAddIso { .. }
        | StorageRequest::MultibootRemoveIso { .. } => true,
        _ => false,
    }
}

/// The identity a request is about.
pub open spec fn request_target(req: StorageRequest) -> Seq<char> {
    match req {
        StorageRequest::Mount(id) => id.0@,
        StorageRequest::Unmount(id) => id.0@,
        StorageRequest::Eject(id) => id.0@,
        StorageRequest::Format { device_id, .. } => device_id@,
        StorageRequest::FlashIso { device_id, .. } => device_id@,
        StorageRequest::MultibootPrepare { device_id } => device_id@,
        StorageRequest::MultibootListIsos { device_id } => device_id@,
        StorageRequest::MultibootAddIso { device_id, .. } => device_id@,
        StorageRequest::MultibootRemoveIso { device_id, .. } => device_id@,
    }
}

/// The plan is the refusal `why`.
pub open spec fn refused_with(p: StoragePlan, why: StorageRefusal) -> bool {
    p == StoragePlan::Refused(why)
}

/// The partition-based multi-boot plan for identity `id`, with the system
/// check when `guarded`.
pub open spec fn multiboot_plan_ok(s: StorageSnapshot, id: Seq<char>, guarded: bool, need_fat: bool, p: StoragePlan) -> bool {
    if guarded && system_target(s, id) {
        refused_with(p, StorageRefusal::SystemDisk)
    } else if forall|d: int, q: int| !part_matches(s, d, q, id) {
        refused_with(p, StorageRefusal::PartitionNotFound)
    } else {
        exists|d: int, q: int|
            first_part_match(s, d, q, id) && ({
                let part = s.drives@[d].partitions@[q];
                if need_fat && part.fs != FsKind::Vfat {
                    p matches StoragePlan::Refused(StorageRefusal::NotFat32(fs)) && part.fs.label_view() == fs@
                } else {
                    p matches StoragePlan::Multiboot { part_path, existing_mount } && part_path@ == id && (
                    if part.mount_points@.len() > 0 {
                        existing_mount matches Some(m) && m@ == part.mount_points@[0]@
                    } else {
                        existing_mount is None
                    })
                }
            })
    }
}

impl FsKind {
    pub open spec fn label_view(&self) -> Seq<char> {
        match self {
            FsKind::Ext4 => "ext4"@,
            FsKind::Vfat => "vfat"@,
            FsKind::Exfat => "exfat"@,
            FsKind::Ntfs => "ntfs"@,
            FsKind::Btrfs => "btrfs"@,
            FsKind::CryptoLuks => "crypto_LUKS"@,
            FsKind::Swap => "swap"@,
            FsKind::Other(s) => s@,
            FsKind::Unknown => "?"@,
        }
    }
}

fn multiboot_plan(s: &StorageSnapshot, device_id: &String, guarded: bool, need_fat: bool) -> (r: StoragePlan)
    ensures
        multiboot_plan_ok(*s, device_id@, guarded, need_fat, r),
{
    let id = DeviceId(device_id.clone());
    assert(id.0@ == device_id@);
    if guarded && s.is_system_target(&id) {
        return StoragePlan::Refused(StorageRefusal::SystemDisk);
    }
    match s.partition_position(&id) {
        None => {
            StoragePlan::Refused(StorageRefusal::PartitionNotFound)
        },
        Some((d, q)) => {
            let part = &s.drives[d].partitions[q];
            let is_vfat = match &part.fs {
                FsKind::Vfat => true,
                _ => false,
            };
            proof {
                assert(is_vfat == (part.fs == FsKind::Vfat));
                assert(first_part_match(*s, d as int, q as int, device_id@));
            }
            if need_fat && !is_vfat {
                let name = part.fs.label().to_owned();
                let r = StoragePlan::Refused(StorageRefusal::NotFat32(name));
                proof {
                    assert(name@ == part.fs.label_view());
                    assert(!(forall|d: int, q: int| !part_matches(*s, d, q, device_id@)));
                    let dd = d as int;
                    let qq = q as int;
                    assert(first_part_match(*s, dd, qq, device_id@) && ({
                        let part = s.drives@[dd].partitions@[qq];
                        if need_fat && part.fs != FsKind::Vfat {
                            r matches StoragePlan::Refused(StorageRefusal::NotFat32(fs)) && part.fs.label_view() == fs@
                        } else {
                            false
                        }
                    }));
                    assert(multiboot_plan_ok(*s, device_id@, guarded, need_fat, r));
                }
                return r;
            }
            let existing_mount = if part.mount_points.len() > 0 {
                Some(part.mount_points[0].clone())
            } else {
                None
            };
            let r = StoragePlan::Multiboot { part_path: part.id.0.clone(), existing_mount };
            proof {
                assert(!(forall|d: int, q: int| !part_matches(*s, d, q, device_id@)));
                let dd = d as int;
                let qq = q as int;
                assert(first_part_match(*s, dd, qq, device_id@) && ({
                    let part = s.drives@[dd].partitions@[qq];
                    if need_fat && part.fs != FsKind::Vfat {
                        false
                    } else {
                        r matches StoragePlan::Multiboot { part_path, existing_mount } && part_path@ == device_id@ && (
                        if part.mount_points@.len() > 0 {
                            existing_mount matches Some(m) && m@ == part.mount_points@[0]@
                        } else {
                            existing_mount is None
                        })
                    }
                }));
                assert(!(guarded && system_target(*s, device_id@)));
                assert(multiboot_plan_ok(*s, device_id@, guarded, need_fat, r));
            }
            r
        },
    }
}

/// The target a request that ejects a drive or writes to it is locked on:
/// for an eject, the first drive with that identity is a system drive; for
/// the others, the identity names a system drive or a partition of one.
pub open spec fn locked_target(s: StorageSnapshot, req: StorageRequest) -> bool {
    match req {
        StorageRequest::Eject(id) => exists|d: int| first_drive_match(s, d, id.0@) && s.drives@[d].is_system,
        _ => system_target(s, request_target(req)),
    }
}

/// The safety lock: a request that ejects a drive or writes to it is
/// refused when its target is locked, and whenever no snapshot is known.
pub proof fn lemma_locked_targets_refused(snapshot: Option<StorageSnapshot>, req: StorageRequest, r: StoragePlan)
    requires
        storage_plan(snapshot, req, r),
        destructive(req),
        match snapshot {
            Some(s) => locked_target(s, req),
            None => true,
        },
    ensures
        r is Refused,
{
    match snapshot {
        Some(s) => match req {
            StorageRequest::Eject(id) => {
                let d = choose|d: int| first_drive_match(s, d, id.0@) && s.drives@[d].is_system;
                assert(drive_matches(s, d, id.0@));
                let e = choose|e: int|
                    first_drive_match(s, e, id.0@) && if s.drives@[e].is_system {
                        refused_with(r, StorageRefusal::SystemDisk)
                    } else {
                        r matches StoragePlan::Eject { drive_index, unmount } && drive_index == e
                            && strings_view(unmount@) == mounted_ids(s.drives@[e].partitions@)
                    };
                if d < e {
                    assert(!drive_matches(s, d, id.0@));
                } else if e < d {
                    assert(!drive_matches(s, e, id.0@));
                }
            },
            _ => {},
        },
        None => {},
    }
}

/// What `plan_storage_request` decides for a request, given the snapshot
/// (when there is one).
pub open spec fn storage_plan(snapshot: Option<StorageSnapshot>, req: StorageRequest, r: StoragePlan) -> bool {
    match req {
        StorageRequest::Mount(id) => match snapshot {
            Some(s) => if exists|d: int| drive_matches(s, d, id.0@) {
                exists|d: int|
                    first_drive_match(s, d, id.0@) && (r matches StoragePlan::MountPartitions(v)
                        && strings_view(v@) == unmounted_ids(s.drives@[d].partitions@))
            } else {
                r matches StoragePlan::MountObject(o) && o@ == id.0@
            },
            None => r matches StoragePlan::MountObject(o) && o@ == id.0@,
        },
        StorageRequest::Unmount(id) => match snapshot {
            Some(s) => if exists|d: int| drive_matches(s, d, id.0@) {
                exists|d: int|
                    first_drive_match(s, d, id.0@) && (r matches StoragePlan::UnmountPartitions(v)
                        && strings_view(v@) == mounted_ids(s.drives@[d].partitions@))
            } else {
                r matches StoragePlan::UnmountObject(o) && o@ == id.0@
            },
            None => r matches StoragePlan::UnmountObject(o) && o@ == id.0@,
        },
        StorageRequest::Eject(id) => match snapshot {
            Some(s) => if forall|d: int| !drive_matches(s, d, id.0@) {
                refused_with(r, StorageRefusal::EjectTargetNotFound)
            } else {
                exists|d: int|
                    first_drive_match(s, d, id.0@) && if s.drives@[d].is_system {
                        refused_with(r, StorageRefusal::SystemDisk)
                    } else {
                        r matches StoragePlan::Eject { drive_index, unmount } && drive_index == d
                            && strings_view(unmount@) == mounted_ids(s.drives@[d].partitions@)
                    }
            },
            None => refused_with(r, StorageRefusal::EjectTargetNotFound),
        },
        StorageRequest::Format { device_id, .. } => match snapshot {
            Some(s) => if system_target(s, device_id@) {
                refused_with(r, StorageRefusal::SystemDisk)
            } else {
                match r {
                    StoragePlan::Format { block_path, unmount } => (if has_prefix(device_id@, block_device_prefix()) {
                        block_path@ == device_id@
                    } else {
                        has_prefix(device_id@, drive_prefix()) && exists|d: int|
                            first_drive_match(s, d, device_id@) && (s.drives@[d].block_path matches Some(b)
                                && b@ == block_path@)
                    }) && unmount_list_ok(s, device_id@, strings_view(unmount@)),
                    StoragePlan::Refused(StorageRefusal::BlockNotFound) => !has_prefix(device_id@, block_device_prefix())
                        && (!has_prefix(device_id@, drive_prefix()) || (forall|d: int| !drive_matches(s, d, device_id@))
                        || exists|d: int| first_drive_match(s, d, device_id@) && s.drives@[d].block_path is None),
                    _ => false,
                }
            },
            None => refused_with(r, StorageRefusal::SystemDisk),
        },
        StorageRequest::FlashIso { device_id, .. } => match snapshot {
            Some(s) => if system_target(s, device_id@) {
                refused_with(r, StorageRefusal::SystemDisk)
            } else if forall|d: int| !drive_matches(s, d, device_id@) {
                refused_with(r, StorageRefusal::FlashTargetNotFound)
            } else {
                r matches StoragePlan::Flash { dev_node, unmount } && (exists|d: int|
                    first_drive_match(s, d, device_id@) && dev_node@ == s.drives@[d].dev_node@)
                    && unmount_list_ok(s, device_id@, strings_view(unmount@))
            },
            None => refused_with(r, StorageRefusal::SnapshotUnavailable),
        },
        StorageRequest::MultibootPrepare { device_id } => match snapshot {
            Some(s) => multiboot_plan_ok(s, device_id@, true, true, r),
            None => refused_with(r, StorageRefusal::SnapshotUnavailable),
        },
        StorageRequest::MultibootListIsos { device_id } => match snapshot {
            Some(s) => multiboot_plan_ok(s, device_id@, false, false, r),
            None => refused_with(r, StorageRefusal::SnapshotUnavailable),
        },
        StorageRequest::MultibootAddIso { device_id, .. } => match snapshot {
            Some(s) => multiboot_plan_ok(s, device_id@, true, false, r),
            None => refused_with(r, StorageRefusal::SnapshotUnavailable),
        },
        StorageRequest::MultibootRemoveIso { device_id, .. } => match snapshot {
            Some(s) => multiboot_plan_ok(s, device_id@, true, false, r),
            None => refused_with(r, StorageRefusal::SnapshotUnavailable),
        },
    }
}

/// Decides what to do for a storage request. Every request that could
/// destroy data is refused on a system drive or partition.
pub fn plan_storage_request(snapshot: &Option<StorageSnapshot>, req: &StorageRequest) -> (r: StoragePlan)
    ensures
        storage_plan(*snapshot, *req, r),
{
    match req {
        StorageRequest::Mount(id) | StorageRequest::Unmount(id) => {
            let want_mounted = match req {
                StorageRequest::Unmount(_) => true,
                _ => false,
            };
            if let Some(s) = snapshot {
                if let Some(d) = s.drive_position(id) {
                    let v = partition_ids_where(&s.drives[d].partitions, want_mounted);
                    return if want_mounted {
                        StoragePlan::UnmountPartitions(v)
                    } else {
                        StoragePlan::MountPartitions(v)
                    };
                }
            }
            if want_mounted {
                StoragePlan::UnmountObject(id.0.clone())
            } else {
                StoragePlan::MountObject(id.0.clone())
            }
        },
        StorageRequest::Eject(id) => {
            let s = match snapshot {
                Some(s) => s,
                None => return StoragePlan::Refused(StorageRefusal::EjectTargetNotFound),
            };
            match s.drive_position(id) {
                None => StoragePlan::Refused(StorageRefusal::EjectTargetNotFound),
                Some(d) => {
                    if s.drives[d].is_system {
                        StoragePlan::Refused(StorageRefusal::SystemDisk)
                    } else {
                        let unmount = partition_ids_where(&s.drives[d].partitions, true);
                        StoragePlan::Eject { drive_index: d, unmount }
                    }
                },
            }
        },
        StorageRequest::Format { device_id, .. } => {
            let id = DeviceId(device_id.clone());
            let s = match snapshot {
                Some(s) => s,
                None => return StoragePlan::Refused(StorageRefusal::SystemDisk),
            };
            if s.is_system_target(&id) {
                return StoragePlan::Refused(StorageRefusal::SystemDisk);
            }
            match resolve_block_object_path(s, &id) {
                None => StoragePlan::Refused(StorageRefusal::BlockNotFound),
                Some(block_path) => {
                    let unmount = mounted_partition_paths(s, &id);
                    StoragePlan::Format { block_path, unmount }
                },
            }
        },
        StorageRequest::FlashIso { device_id, .. } => {
            let id = DeviceId(device_id.clone());
            let s = match snapshot {
                Some(s) => s,
                None => return StoragePlan::Refused(StorageRefusal::SnapshotUnavailable),
            };
            if s.is_system_target(&id) {
                return StoragePlan::Refused(StorageRefusal::SystemDisk);
            }
            match s.drive_dev_node(&id) {
                None => StoragePlan::Refused(StorageRefusal::FlashTargetNotFound),
                Some(dev_node) => {
                    let unmount = mounted_partition_paths(s, &id);
                    StoragePlan::Flash { dev_node, unmount }
                },
            }
        },
        StorageRequest::MultibootPrepare { device_id } => match snapshot {
            Some(s) => multiboot_plan(s, device_id, true, true),
            None => StoragePlan::Refused(StorageRefusal::SnapshotUnavailable),
        },
        StorageRequest::MultibootListIsos { device_id } => match snapshot {
            Some(s) => multiboot_plan(s, device_id, false, false),
            None => StoragePlan::Refused(StorageRefusal::SnapshotUnavailable),
        },
        StorageRequest::MultibootAddIso { device_id, .. } => match snapshot {
            Some(s) => multiboot_plan(s, device_id, true, false),
            None => StoragePlan::Refused(StorageRefusal::SnapshotUnavailable),
        },
        StorageRequest::MultibootRemoveIso { device_id, .. } => match snapshot {
            Some(s) => multiboot_plan(s, device_id, true, false),
            None => StoragePlan::Refused(StorageRefusal::SnapshotUnavailable),
        },
    }
}

/// The texts of a list of strings.
pub open spec fn texts(v: Seq<String>) -> Seq<Seq<char>> {
    v.map_values(|t: String| t@)
}

/// The items with `", "` between them.
pub open spec fn comma_joined(items: Seq<Seq<char>>) -> Seq<char>
    decreases items.len(),
{
    if items.len() == 0 {
        Seq::empty()
    } else if items.len() == 1 {
        items[0]
    } else {
        comma_joined(items.drop_last()) + ", "@ + items.last()
    }
}

fn comma_join(items: &Vec<String>) -> (r: Vec<char>)
    ensures
        r@ == comma_joined(texts(items@)),
{
    let mut out: Vec<char> = Vec::new();
    let mut i: usize = 0;
    assert(texts(items@.subrange(0, 0)) =~= Seq::<Seq<char>>::empty());
    while i < items.len()
        invariant
            i <= items@.len(),
            out@ == comma_joined(texts(items@.subrange(0, i as int))),
        decreases items@.len() - i,
    {
        let ghost prev = texts(items@.subrange(0, i as int));
        let ghost next = texts(items@.subrange(0, i + 1));
        assert(next.drop_last() =~= prev);
        assert(next.last() == items@[i as int]@);
        if i > 0 {
            append_str(&mut out, ", ");
        }
        let w = chars_of(items[i].as_str());
        append(&mut out, &w);
        i = i + 1;
    }
    assert(items@.subrange(0, i as int) =~= items@);
    out
}

pub open spec fn opt_text(o: Option<String>) -> Option<Seq<char>> {
    match o {
        Some(t) => Some(t@),
        None => None,
    }
}

/// The notice after mounting: the mount points obtained (for a whole drive,
/// one per partition that mounted) and the last error met.
pub open spec fn mount_report(mps: Seq<Seq<char>>, last_error: Option<Seq<char>>) -> (ToastLevel, Seq<char>) {
    if mps.len() == 0 {
        match last_error {
            Some(e) => (ToastLevel::Error, "Falha ao montar: "@ + e),
            None => (ToastLevel::Error, "Dispositivo sem partição montável — formate com [f] primeiro"@),
        }
    } else if mps.len() == 1 {
        (ToastLevel::Info, "Partição montada em "@ + mps[0])
    } else {
        (ToastLevel::Info, decimal(mps.len()) + " partição(ões) montada(s) em: "@ + comma_joined(mps))
    }
}

fn toast_of(level: ToastLevel, text: Vec<char>) -> (r: Toast)
    ensures
        r.level == level,
        r.text@ == text@,
{
    Toast { level, text: string_of(&text) }
}

/// The notice after mounting a drive's partitions, or a single partition.
pub fn mount_toast(mount_points: &Vec<String>, last_error: Option<String>) -> (r: Toast)
    ensures
        (r.level, r.text@) == mount_report(texts(mount_points@), opt_text(last_error)),
{
    let mut out: Vec<char> = Vec::new();
    if mount_points.len() == 0 {
        match last_error {
            Some(e) => {
                append_str(&mut out, "Falha ao montar: ");
                let ev = chars_of(e.as_str());
                append(&mut out, &ev);
                toast_of(ToastLevel::Error, out)
            },
            None => {
                append_str(&mut out, "Dispositivo sem partição montável — formate com [f] primeiro");
                toast_of(ToastLevel::Error, out)
            },
        }
    } else if mount_points.len() == 1 {
        append_str(&mut out, "Partição montada em ");
        let mv = chars_of(mount_points[0].as_str());
        append(&mut out, &mv);
        toast_of(ToastLevel::Info, out)
    } else {
        let n = decimal_of(mount_points.len() as u64);
        append(&mut out, &n);
        append_str(&mut out, " partição(ões) montada(s) em: ");
        let j = comma_join(mount_points);
        append(&mut out, &j);
        toast_of(ToastLevel::Info, out)
    }
}

/// The notice after unmounting a drive's mounted partitions: how many
/// unmounted and the last error met.
pub open spec fn unmount_report(count: nat, last_error: Option<Seq<char>>) -> (ToastLevel, Seq<char>) {
    if count == 0 {
        match last_error {
            Some(e) => (ToastLevel::Error, "Falha ao desmontar (dispositivo em uso?): "@ + e),
            None => (ToastLevel::Info, "nenhuma partição montada"@),
        }
    } else {
        (ToastLevel::Info, decimal(count) + " partição(ões) desmontada(s)"@)
    }
}

/// The notice after unmounting a drive's partitions.
pub fn unmount_toast(count: usize, last_error: Option<String>) -> (r: Toast)
    ensures
        (r.level, r.text@) == unmount_report(count as nat, opt_text(last_error)),
{
    let mut out: Vec<char> = Vec::new();
    if count == 0 {
        match last_error {
            Some(e) => {
                append_str(&mut out, "Falha ao desmontar (dispositivo em uso?): ");
                let ev = chars_of(e.as_str());
                append(&mut out, &ev);
                toast_of(ToastLevel::Error, out)
            },
            None => {
                append_str(&mut out, "nenhuma partição montada");
                toast_of(ToastLevel::Info, out)
            },
        }
    } else {
        let n = decimal_of(count as u64);
        append(&mut out, &n);
        append_str(&mut out, " partição(ões) desmontada(s)");
        toast_of(ToastLevel::Info, out)
    }
}

/// The notice after unmounting a single partition.
pub fn partition_unmount_toast(result: Result<(), String>) -> (r: Toast)
    ensures
        match result {
            Ok(_) => r.level == ToastLevel::Info && r.text@ == "Dispositivo desmontado"@,
            Err(e) => r.level == ToastLevel::Error && r.text@ == "Falha ao desmontar (dispositivo em uso?): "@ + e@,
        },
{
    let mut out: Vec<char> = Vec::new();
    match result {
        Ok(_) => {
            append_str(&mut out, "Dispositivo desmontado");
            toast_of(ToastLevel::Info, out)
        },
        Err(e) => {
            append_str(&mut out, "Falha ao desmontar (dispositivo em uso?): ");
            let ev = chars_of(e.as_str());
            append(&mut out, &ev);
            toast_of(ToastLevel::Error, out)
        },
    }
}

/// What formatting does next once an attempt has returned.
#[derive(Debug, Clone, Copy, PartialEq, Eq, Structural)]
pub enum FormatNext {
    /// Formatted by UDisks2.
    Done,
    /// Formatted by the built-in FAT32 writer; the block is rescanned.
    DoneBuiltinFat32,
    /// `mkfs.vfat` is missing: the built-in FAT32 writer is tried.
    TryBuiltinFat32,
    /// The privileged fallback (`sudo mkfs`) is tried.
    SudoFallback,
}

/// After UDisks2's `Format` returned: done on success; for a FAT type
/// whose `mkfs` program is missing, the built-in FAT32 writer; otherwise
/// the privileged fallback.
pub fn after_format(fs_type: &str, result: &Result<(), String>) -> (r: FormatNext)
    ensures
        r == match result {
            Ok(_) => FormatNext::Done,
            Err(e) => if fat_name(lower(trim(fs_type@))) && missing_program_message(e@) {
                FormatNext::TryBuiltinFat32
            } else {
                FormatNext::SudoFallback
            },
        },
{
    match result {
        Ok(_) => FormatNext::Done,
        Err(e) => {
            if is_fat_fs_type(fs_type) && is_missing_mkfs_error(e.as_str()) {
                FormatNext::TryBuiltinFat32
            } else {
                FormatNext::SudoFallback
            }
        },
    }
}

/// After the built-in FAT32 writer returned: done, or the privileged
/// fallback.
pub fn after_builtin_fat32(ok: bool) -> (r: FormatNext)
    ensures
        r == if ok { FormatNext::DoneBuiltinFat32 } else { FormatNext::SudoFallback },
{
    if ok { FormatNext::DoneBuiltinFat32 } else { FormatNext::SudoFallback }
}

/// The notice of a finished format (`builtin`: by the FAT32 writer).
pub fn format_done_toast(builtin: bool) -> (r: Toast)
    ensures
        r.level == ToastLevel::Info,
        r.text@ == if builtin { "Formatação concluída (FAT32 Rust puro)"@ } else { "Formatação concluída"@ },
{
    let mut out: Vec<char> = Vec::new();
    if builtin {
        append_str(&mut out, "Formatação concluída (FAT32 Rust puro)");
    } else {
        append_str(&mut out, "Formatação concluída");
    }
    toast_of(ToastLevel::Info, out)
}

} // verus!
