//! Multi-boot drive layout: where the ISO directory and its marker live, and
//! which bundled files go to which partition when a drive is prepared.

use vstd::prelude::*;
use crate::text::{append_str, chars_of, has_infix, has_prefix, occurs_at, string_of};

verus! {

/// `Path::join` with a relative component: a separator is added unless the
/// base is empty or already ends with one.
pub open spec fn path_join(base: Seq<char>, part: Seq<char>) -> Seq<char> {
    if base.len() == 0 {
        part
    } else if base.last() == '/' {
        base + part
    } else {
        base + "/"@ + part
    }
}

pub(crate) fn join(base: &str, part: &str) -> (r: String)
    ensures
        r@ == path_join(base@, part@),
{
    let mut v = chars_of(base);
    if v.len() > 0 && v[v.len() - 1] != '/' {
        v.push('/');
        proof {
            reveal_strlit("/");
        }
        assert(v@ =~= base@ + "/"@);
    }
    append_str(&mut v, part);
    string_of(&v)
}

/// The directory that holds the images: `<mount>/ISOs`.
pub fn isos_dir(mount_point: &str) -> (r: String)
    ensures
        r@ == path_join(mount_point@, "ISOs"@),
{
    join(mount_point, "ISOs")
}

/// The file whose presence marks a prepared drive: `<mount>/ISOs/.hal9001-multiboot`.
pub fn marker_path(mount_point: &str) -> (r: String)
    ensures
        r@ == path_join(path_join(mount_point@, "ISOs"@), ".hal9001-multiboot"@),
{
    let d = isos_dir(mount_point);
    join(d.as_str(), ".hal9001-multiboot")
}

/// A file (or directory step) that preparing a drive writes.
#[derive(Debug, Clone, Copy, PartialEq, Eq, Structural)]
pub enum MultibootItem {
    /// The `ISOs/` directory and, if absent, its empty marker file (images
    /// already there are left alone).
    IsosMarker,
    /// `EFI/BOOT/BOOTX64.EFI`, the bootloader the firmware reads.
    EfiBinary,
    /// `boot/grub/grub.cfg`.
    GrubConfig,
    /// `boot/grub/themes/hal9001/*`.
    Theme,
}

/// The partition an item is written to.
#[derive(Debug, Clone, Copy, PartialEq, Eq, Structural)]
pub enum MultibootTarget {
    /// The FAT32 EFI system partition.
    Esp,
    /// The partition that holds the images (the same as the ESP on a
    /// single-partition drive).
    Data,
}

/// The writes that prepare a drive, in order. On one partition everything
/// goes there; on a two-partition drive only the bootloader goes to the ESP,
/// and the marker, `grub.cfg` and theme go to the data partition, where the
/// bundled configuration looks for them.
pub open spec fn prepare_steps(dual: bool) -> Seq<(MultibootItem, MultibootTarget)> {
    if dual {
        seq![
            (MultibootItem::EfiBinary, MultibootTarget::Esp),
            (MultibootItem::IsosMarker, MultibootTarget::Data),
            (MultibootItem::GrubConfig, MultibootTarget::Data),
            (MultibootItem::Theme, MultibootTarget::Data),
        ]
    } else {
        seq![
            (MultibootItem::IsosMarker, MultibootTarget::Data),
            (MultibootItem::EfiBinary, MultibootTarget::Data),
            (MultibootItem::GrubConfig, MultibootTarget::Data),
            (MultibootItem::Theme, MultibootTarget::Data),
        ]
    }
}

/// The writes of `prepare_multiboot` (`dual == false`) or
/// `prepare_multiboot_dual` (`dual == true`), in the order they happen.
pub fn prepare_plan(dual: bool) -> (r: Vec<(MultibootItem, MultibootTarget)>)
    ensures
        r@ == prepare_steps(dual),
{
    let r = if dual {
        vec![
            (MultibootItem::EfiBinary, MultibootTarget::Esp),
            (MultibootItem::IsosMarker, MultibootTarget::Data),
            (MultibootItem::GrubConfig, MultibootTarget::Data),
            (MultibootItem::Theme, MultibootTarget::Data),
        ]
    } else {
        vec![
            (MultibootItem::IsosMarker, MultibootTarget::Data),
            (MultibootItem::EfiBinary, MultibootTarget::Data),
            (MultibootItem::GrubConfig, MultibootTarget::Data),
            (MultibootItem::Theme, MultibootTarget::Data),
        ]
    };
    assert(r@ =~= prepare_steps(dual));
    r
}

/// Whatever the layout, the images' partition gets the marker, and the
/// bootloader is written exactly once.
pub proof fn lemma_prepare_steps(dual: bool)
    ensures
        prepare_steps(dual).contains((MultibootItem::IsosMarker, MultibootTarget::Data)),
        prepare_steps(dual).filter(|s: (MultibootItem, MultibootTarget)| s.0 == MultibootItem::EfiBinary).len() == 1,
        dual ==> forall|k: int| 0 <= k < 4 && prepare_steps(dual)[k].0 != MultibootItem::EfiBinary
            ==> #[trigger] prepare_steps(dual)[k].1 == MultibootTarget::Data,
{
    reveal_with_fuel(Seq::filter, 5);
    let s = prepare_steps(dual);
    assert(s[0] == (MultibootItem::EfiBinary, MultibootTarget::Esp) || s[0] == (MultibootItem::IsosMarker, MultibootTarget::Data));
    if dual {
        assert(s[1] == (MultibootItem::IsosMarker, MultibootTarget::Data));
    } else {
        assert(s[0] == (MultibootItem::IsosMarker, MultibootTarget::Data));
    }
    assert(s.drop_last().drop_last().drop_last().drop_last() =~= Seq::<(MultibootItem, MultibootTarget)>::empty());
}

/// A bundled file that preparing a drive writes.
#[derive(Debug, Clone, Copy, PartialEq, Eq, Structural)]
pub enum Asset {
    EfiBinary,
    GrubConfig,
    ThemeText,
    ThemeBackground,
    ThemeAsciiFont,
    ThemeUnicodeFont,
    ThemeSelectC,
    ThemeSelectW,
    ThemeSelectE,
    /// The empty marker file under `ISOs/`.
    Marker,
}

/// Where each bundled file goes, relative to the partition's mount point.
pub open spec fn asset_path(a: Asset) -> Seq<char> {
    match a {
        Asset::EfiBinary => "EFI/BOOT/BOOTX64.EFI"@,
        Asset::GrubConfig => "boot/grub/grub.cfg"@,
        Asset::ThemeText => "boot/grub/themes/hal9001/theme.txt"@,
        Asset::ThemeBackground => "boot/grub/themes/hal9001/background.png"@,
        Asset::ThemeAsciiFont => "boot/grub/themes/hal9001/ascii.pf2"@,
        Asset::ThemeUnicodeFont => "boot/grub/themes/hal9001/unicode.pf2"@,
        Asset::ThemeSelectC => "boot/grub/themes/hal9001/select_c.png"@,
        Asset::ThemeSelectW => "boot/grub/themes/hal9001/select_w.png"@,
        Asset::ThemeSelectE => "boot/grub/themes/hal9001/select_e.png"@,
        Asset::Marker => "ISOs/.hal9001-multiboot"@,
    }
}

/// The path of a bundled file, relative to the mount point.
pub fn asset_file(a: Asset) -> (r: &'static str)
    ensures
        r@ == asset_path(a),
{
    match a {
        Asset::EfiBinary => "EFI/BOOT/BOOTX64.EFI",
        Asset::GrubConfig => "boot/grub/grub.cfg",
        Asset::ThemeText => "boot/grub/themes/hal9001/theme.txt",
        Asset::ThemeBackground => "boot/grub/themes/hal9001/background.png",
        Asset::ThemeAsciiFont => "boot/grub/themes/hal9001/ascii.pf2",
        Asset::ThemeUnicodeFont => "boot/grub/themes/hal9001/unicode.pf2",
        Asset::ThemeSelectC => "boot/grub/themes/hal9001/select_c.png",
        Asset::ThemeSelectW => "boot/grub/themes/hal9001/select_w.png",
        Asset::ThemeSelectE => "boot/grub/themes/hal9001/select_e.png",
        Asset::Marker => "ISOs/.hal9001-multiboot",
    }
}

/// The theme's files, all written to `t`.
pub open spec fn theme_writes(t: MultibootTarget) -> Seq<(MultibootTarget, Asset)> {
    seq![
        (t, Asset::ThemeText),
        (t, Asset::ThemeBackground),
        (t, Asset::ThemeAsciiFont),
        (t, Asset::ThemeUnicodeFont),
        (t, Asset::ThemeSelectC),
        (t, Asset::ThemeSelectW),
        (t, Asset::ThemeSelectE),
    ]
}

/// The file writes of `prepare_steps`, in order; the marker only when the
/// data partition does not have it yet.
pub open spec fn prepare_writes_spec(dual: bool, marker_present: bool) -> Seq<(MultibootTarget, Asset)> {
    let marker: Seq<(MultibootTarget, Asset)> = if marker_present {
        Seq::empty()
    } else {
        seq![(MultibootTarget::Data, Asset::Marker)]
    };
    if dual {
        seq![(MultibootTarget::Esp, Asset::EfiBinary)] + marker + seq![(MultibootTarget::Data, Asset::GrubConfig)]
            + theme_writes(MultibootTarget::Data)
    } else {
        marker + seq![(MultibootTarget::Data, Asset::EfiBinary), (MultibootTarget::Data, Asset::GrubConfig)]
            + theme_writes(MultibootTarget::Data)
    }
}

/// The files that preparing a drive writes, in order, each with its
/// partition: `prepare_plan` spelt out file by file.
pub fn prepare_writes(dual: bool, marker_present: bool) -> (r: Vec<(MultibootTarget, Asset)>)
    ensures
        r@ == prepare_writes_spec(dual, marker_present),
{
    let mut r: Vec<(MultibootTarget, Asset)> = Vec::new();
    if dual {
        r.push((MultibootTarget::Esp, Asset::EfiBinary));
    }
    if !marker_present {
        r.push((MultibootTarget::Data, Asset::Marker));
    }
    if !dual {
        r.push((MultibootTarget::Data, Asset::EfiBinary));
    }
    r.push((MultibootTarget::Data, Asset::GrubConfig));
    r.push((MultibootTarget::Data, Asset::ThemeText));
    r.push((MultibootTarget::Data, Asset::ThemeBackground));
    r.push((MultibootTarget::Data, Asset::ThemeAsciiFont));
    r.push((MultibootTarget::Data, Asset::ThemeUnicodeFont));
    r.push((MultibootTarget::Data, Asset::ThemeSelectC));
    r.push((MultibootTarget::Data, Asset::ThemeSelectW));
    r.push((MultibootTarget::Data, Asset::ThemeSelectE));
    assert(r@ =~= prepare_writes_spec(dual, marker_present));
    r
}

/// A partition's files (path relative to the mount point, and contents)
/// after the writes meant for it, `bytes` giving each bundled file's
/// contents; later writes replace earlier ones.
pub open spec fn apply_writes(
    files: Map<Seq<char>, Seq<u8>>,
    ws: Seq<(MultibootTarget, Asset)>,
    t: MultibootTarget,
    bytes: spec_fn(Asset) -> Seq<u8>,
) -> Map<Seq<char>, Seq<u8>>
    decreases ws.len(),
{
    if ws.len() == 0 {
        files
    } else {
        let f = apply_writes(files, ws.drop_last(), t, bytes);
        if ws.last().0 == t {
            f.insert(asset_path(ws.last().1), bytes(ws.last().1))
        } else {
            f
        }
    }
}

/// `ws` writes `a` to `t`.
pub open spec fn writes_to(ws: Seq<(MultibootTarget, Asset)>, t: MultibootTarget, a: Asset) -> bool {
    exists|i: int| 0 <= i < ws.len() && ws[i] == (t, a)
}

proof fn lemma_asset_paths_distinct(a: Asset, b: Asset)
    ensures
        a != b ==> asset_path(a) != asset_path(b),
        a != Asset::Marker ==> asset_path(a)[0] != 'I',
        asset_path(Asset::Marker)[0] == 'I',
        asset_path(a).len() > 0,
{
    reveal_strlit("EFI/BOOT/BOOTX64.EFI");
    reveal_strlit("boot/grub/grub.cfg");
    reveal_strlit("boot/grub/themes/hal9001/theme.txt");
    reveal_strlit("boot/grub/themes/hal9001/background.png");
    reveal_strlit("boot/grub/themes/hal9001/ascii.pf2");
    reveal_strlit("boot/grub/themes/hal9001/unicode.pf2");
    reveal_strlit("boot/grub/themes/hal9001/select_c.png");
    reveal_strlit("boot/grub/themes/hal9001/select_w.png");
    reveal_strlit("boot/grub/themes/hal9001/select_e.png");
    reveal_strlit("ISOs/.hal9001-multiboot");
    if a != b && asset_path(a) == asset_path(b) {
        let pa = asset_path(a);
        let pb = asset_path(b);
        assert(pa.len() == pb.len());
        assert(pa[0] == pb[0]);
        assert(pa[25] == pb[25]);
        assert(pa[32] == pb[32]);
        assert(pa[33] == pb[33]);
    }
}

proof fn lemma_apply_frame(
    files: Map<Seq<char>, Seq<u8>>,
    ws: Seq<(MultibootTarget, Asset)>,
    t: MultibootTarget,
    bytes: spec_fn(Asset) -> Seq<u8>,
    k: Seq<char>,
)
    requires
        forall|i: int| 0 <= i < ws.len() && ws[i].0 == t ==> asset_path(ws[i].1) != k,
    ensures
        apply_writes(files, ws, t, bytes).dom().contains(k) == files.dom().contains(k),
        apply_writes(files, ws, t, bytes)[k] == files[k],
    decreases ws.len(),
{
    if ws.len() > 0 {
        assert forall|i: int| 0 <= i < ws.drop_last().len() && ws.drop_last()[i].0 == t implies asset_path(
            ws.drop_last()[i].1,
        ) != k by {
            assert(ws.drop_last()[i] == ws[i]);
        }
        lemma_apply_frame(files, ws.drop_last(), t, bytes, k);
        assert(ws.last() == ws[ws.len() - 1]);
    }
}

proof fn lemma_apply_written(
    files: Map<Seq<char>, Seq<u8>>,
    ws: Seq<(MultibootTarget, Asset)>,
    t: MultibootTarget,
    bytes: spec_fn(Asset) -> Seq<u8>,
    a: Asset,
)
    requires
        writes_to(ws, t, a),
    ensures
        apply_writes(files, ws, t, bytes).dom().contains(asset_path(a)),
        apply_writes(files, ws, t, bytes)[asset_path(a)] == bytes(a),
    decreases ws.len(),
{
    let i = choose|i: int| 0 <= i < ws.len() && ws[i] == (t, a);
    let last = ws.last();
    lemma_asset_paths_distinct(a, last.1);
    if i == ws.len() - 1 {
    } else {
        assert(ws.drop_last()[i] == ws[i]);
        lemma_apply_written(files, ws.drop_last(), t, bytes, a);
    }
}

/// The marker's path.
pub open spec fn marker_file() -> Seq<char> {
    asset_path(Asset::Marker)
}

/// Preparing a drive leaves every file already under `ISOs/` (the user's
/// images and the marker) on the data partition with its bytes.
pub proof fn lemma_prepare_keeps_isos(
    files: Map<Seq<char>, Seq<u8>>,
    dual: bool,
    bytes: spec_fn(Asset) -> Seq<u8>,
    k: Seq<char>,
)
    requires
        files.dom().contains(k),
        has_prefix(k, "ISOs/"@),
    ensures
        ({
            let r = apply_writes(files, prepare_writes_spec(dual, files.dom().contains(marker_file())), MultibootTarget::Data, bytes);
            r.dom().contains(k) && r[k] == files[k]
        }),
{
    reveal_strlit("ISOs/");
    let ws = prepare_writes_spec(dual, files.dom().contains(marker_file()));
    assert(k[0] == 'I') by {
        assert(k.subrange(0, 5) == "ISOs/"@);
        assert(k.subrange(0, 5)[0] == k[0]);
    }
    assert forall|i: int| 0 <= i < ws.len() && ws[i].0 == MultibootTarget::Data implies asset_path(ws[i].1) != k by {
        lemma_asset_paths_distinct(ws[i].1, ws[i].1);
        if ws[i].1 == Asset::Marker {
            assert(!files.dom().contains(marker_file()));
        }
    }
    lemma_apply_frame(files, ws, MultibootTarget::Data, bytes, k);
}

/// After preparing, the data partition holds the marker, `grub.cfg`, the
/// theme (and, on one partition, the bootloader) with the bundled
/// contents, except that a marker already there is kept; on two partitions
/// the ESP holds the bootloader.
pub proof fn lemma_prepare_installs(
    esp: Map<Seq<char>, Seq<u8>>,
    data: Map<Seq<char>, Seq<u8>>,
    dual: bool,
    bytes: spec_fn(Asset) -> Seq<u8>,
    a: Asset,
)
    ensures
        ({
            let ws = prepare_writes_spec(dual, data.dom().contains(marker_file()));
            let d = apply_writes(data, ws, MultibootTarget::Data, bytes);
            let e = apply_writes(esp, ws, MultibootTarget::Esp, bytes);
            &&& d.dom().contains(marker_file())
            &&& a != Asset::Marker && (a != Asset::EfiBinary || !dual) ==> d.dom().contains(asset_path(a))
                && d[asset_path(a)] == bytes(a)
            &&& dual ==> e.dom().contains(asset_path(Asset::EfiBinary)) && e[asset_path(Asset::EfiBinary)] == bytes(Asset::EfiBinary)
        }),
{
    let present = data.dom().contains(marker_file());
    let ws = prepare_writes_spec(dual, present);
    let m: Seq<(MultibootTarget, Asset)> = if present { Seq::empty() } else { seq![(MultibootTarget::Data, Asset::Marker)] };
    let n = m.len() as int;
    let o: int = if dual { 1 } else { 0 };
    if present {
        lemma_asset_paths_distinct(Asset::Marker, Asset::Marker);
        assert forall|i: int| 0 <= i < ws.len() && ws[i].0 == MultibootTarget::Data implies asset_path(ws[i].1) != marker_file() by {
            lemma_asset_paths_distinct(ws[i].1, Asset::Marker);
        }
        lemma_apply_frame(data, ws, MultibootTarget::Data, bytes, marker_file());
    } else {
        assert(ws[o] == (MultibootTarget::Data, Asset::Marker));
        lemma_apply_written(data, ws, MultibootTarget::Data, bytes, Asset::Marker);
    }
    if dual {
        assert(ws[0] == (MultibootTarget::Esp, Asset::EfiBinary));
        lemma_apply_written(esp, ws, MultibootTarget::Esp, bytes, Asset::EfiBinary);
    }
    if a != Asset::Marker && (a != Asset::EfiBinary || !dual) {
        let base = n + 1;
        if !dual {
            assert(ws[n] == (MultibootTarget::Data, Asset::EfiBinary));
        }
        assert(ws[base] == (MultibootTarget::Data, Asset::GrubConfig));
        assert(ws[base + 1] == (MultibootTarget::Data, Asset::ThemeText));
        assert(ws[base + 2] == (MultibootTarget::Data, Asset::ThemeBackground));
        assert(ws[base + 3] == (MultibootTarget::Data, Asset::ThemeAsciiFont));
        assert(ws[base + 4] == (MultibootTarget::Data, Asset::ThemeUnicodeFont));
        assert(ws[base + 5] == (MultibootTarget::Data, Asset::ThemeSelectC));
        assert(ws[base + 6] == (MultibootTarget::Data, Asset::ThemeSelectW));
        assert(ws[base + 7] == (MultibootTarget::Data, Asset::ThemeSelectE));
        lemma_apply_written(data, ws, MultibootTarget::Data, bytes, a);
    }
}

/// Preparing a drive a second time changes nothing on either partition
/// (after the first time the marker is there: `lemma_prepare_installs`).
pub proof fn lemma_prepare_idempotent(
    files: Map<Seq<char>, Seq<u8>>,
    dual: bool,
    t: MultibootTarget,
    data_marker_present: bool,
    bytes: spec_fn(Asset) -> Seq<u8>,
)
    requires
        t == MultibootTarget::Data ==> data_marker_present == files.dom().contains(marker_file()),
    ensures
        ({
            let once = apply_writes(files, prepare_writes_spec(dual, data_marker_present), t, bytes);
            let twice = apply_writes(once, prepare_writes_spec(dual, true), t, bytes);
            twice == once
        }),
{
    let ws1 = prepare_writes_spec(dual, data_marker_present);
    let ws2 = prepare_writes_spec(dual, true);
    let once = apply_writes(files, ws1, t, bytes);
    let twice = apply_writes(once, ws2, t, bytes);
    assert forall|k: Seq<char>| #[trigger] twice.dom().contains(k) <==> once.dom().contains(k) by {
        if exists|i: int| 0 <= i < ws2.len() && ws2[i].0 == t && asset_path(ws2[i].1) == k {
            let i = choose|i: int| 0 <= i < ws2.len() && ws2[i].0 == t && asset_path(ws2[i].1) == k;
            lemma_apply_written(once, ws2, t, bytes, ws2[i].1);
            let j = if dual { i } else if data_marker_present { i } else { i + 1 };
            if dual && !data_marker_present && i >= 1 {
                assert(ws1[i + 1] == ws2[i]);
            } else {
                assert(ws1[j] == ws2[i]);
            }
            lemma_apply_written(files, ws1, t, bytes, ws2[i].1);
        } else {
            lemma_apply_frame(once, ws2, t, bytes, k);
        }
    }
    assert forall|k: Seq<char>| twice.dom().contains(k) implies #[trigger] twice[k] == once[k] by {
        if exists|i: int| 0 <= i < ws2.len() && ws2[i].0 == t && asset_path(ws2[i].1) == k {
            let i = choose|i: int| 0 <= i < ws2.len() && ws2[i].0 == t && asset_path(ws2[i].1) == k;
            let a = ws2[i].1;
            lemma_apply_written(once, ws2, t, bytes, a);
            let j = if dual { i } else if data_marker_present { i } else { i + 1 };
            if dual && !data_marker_present && i >= 1 {
                assert(ws1[i + 1] == ws2[i]);
                lemma_apply_written(files, ws1, t, bytes, a);
            } else {
                assert(ws1[j] == ws2[i]);
                lemma_apply_written(files, ws1, t, bytes, a);
            }
        } else {
            lemma_apply_frame(once, ws2, t, bytes, k);
        }
    }
    assert(twice =~= once);
}

/// The text of the GRUB configuration written to a prepared drive.
pub const GRUB_CFG: &'static str = r#"# HAL-9001 multi-boot menu.
# The partition that holds /ISOs/.hal9001-multiboot is ($mb_root); the
# images, this file and the theme are read from it.
insmod part_gpt
insmod part_msdos
insmod fat
insmod exfat
insmod ntfs
insmod ext2
insmod iso9660
insmod loopback
insmod regexp
insmod all_video
insmod gfxterm
insmod png

search --no-floppy --set=mb_root --file /ISOs/.hal9001-multiboot

set gfxmode=auto
terminal_output gfxterm
loadfont ($mb_root)/boot/grub/themes/hal9001/ascii.pf2
loadfont ($mb_root)/boot/grub/themes/hal9001/unicode.pf2
set theme=($mb_root)/boot/grub/themes/hal9001/theme.txt
set timeout=10

for iso in ($mb_root)/ISOs/*.iso ($mb_root)/ISOs/*.ISO ($mb_root)/ISOs/*.img ($mb_root)/ISOs/*.IMG; do
  if [ -f "$iso" ]; then
    regexp --set=1:iso_path '^\([^)]*\)(/.*)$' "$iso"
    menuentry "$iso_path" "$iso_path" {
      set iso_path="$2"
      export iso_path
      loopback loop ($mb_root)$iso_path
      set root=(loop)
      configfile /boot/grub/loopback.cfg
    }
  fi
done

menuentry "Reiniciar" {
  reboot
}
menuentry "Desligar" {
  halt
}
"#;

/// The GRUB configuration written to a prepared drive. It loads the FAT,
/// exFAT, NTFS and ext drivers so that the images may sit on a data
/// partition of any of those, finds that partition by the marker file, and
/// offers one menu entry per image.
pub fn grub_cfg() -> (r: &'static str)
    ensures
        r@ == GRUB_CFG@,
        has_infix(r@, "insmod exfat"@),
        has_infix(r@, "insmod ntfs"@),
        has_infix(r@, "insmod ext2"@),
        has_infix(r@, "/ISOs/.hal9001-multiboot"@),
{
    let r = GRUB_CFG;
    proof {
        reveal_strlit(r#"# HAL-9001 multi-boot menu.
# The partition that holds /ISOs/.hal9001-multiboot is ($mb_root); the
# images, this file and the theme are read from it.
insmod part_gpt
insmod part_msdos
insmod fat
insmod exfat
insmod ntfs
insmod ext2
insmod iso9660
insmod loopback
insmod regexp
insmod all_video
insmod gfxterm
insmod png

search --no-floppy --set=mb_root --file /ISOs/.hal9001-multiboot

set gfxmode=auto
terminal_output gfxterm
loadfont ($mb_root)/boot/grub/themes/hal9001/ascii.pf2
loadfont ($mb_root)/boot/grub/themes/hal9001/unicode.pf2
set theme=($mb_root)/boot/grub/themes/hal9001/theme.txt
set timeout=10

for iso in ($mb_root)/ISOs/*.iso ($mb_root)/ISOs/*.ISO ($mb_root)/ISOs/*.img ($mb_root)/ISOs/*.IMG; do
  if [ -f "$iso" ]; then
    regexp --set=1:iso_path '^\([^)]*\)(/.*)$' "$iso"
    menuentry "$iso_path" "$iso_path" {
      set iso_path="$2"
      export iso_path
      loopback loop ($mb_root)$iso_path
      set root=(loop)
      configfile /boot/grub/loopback.cfg
    }
  fi
done

menuentry "Reiniciar" {
  reboot
}
menuentry "Desligar" {
  halt
}
"#);
        reveal_strlit("insmod exfat");
        reveal_strlit("insmod ntfs");
        reveal_strlit("insmod ext2");
        reveal_strlit("/ISOs/.hal9001-multiboot");
        assert(r@.subrange(196, 208) =~= "insmod exfat"@);
        assert(occurs_at(r@, "insmod exfat"@, 196));
        assert(r@.subrange(209, 220) =~= "insmod ntfs"@);
        assert(occurs_at(r@, "insmod ntfs"@, 209));
        assert(r@.subrange(221, 232) =~= "insmod ext2"@);
        assert(occurs_at(r@, "insmod ext2"@, 221));
        assert(r@.subrange(55, 79) =~= "/ISOs/.hal9001-multiboot"@);
        assert(occurs_at(r@, "/ISOs/.hal9001-multiboot"@, 55));
    }
    r
}

} // verus!
