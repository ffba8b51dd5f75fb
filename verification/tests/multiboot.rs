use std::path::Path;

use hal9001::multiboot::{
    asset_file, grub_cfg, isos_dir, marker_path, prepare_plan, prepare_writes, Asset, MultibootItem,
    MultibootTarget,
};

#[test]
fn marker_path_is_under_isos_dir() {
    let mount = "/mnt/pendrive";
    assert_eq!(
        Path::new(&marker_path(mount)),
        Path::new("/mnt/pendrive/ISOs/.hal9001-multiboot")
    );
}

#[test]
fn isos_dir_joins_without_doubling_the_separator() {
    assert_eq!(isos_dir("/mnt/usb/"), "/mnt/usb/ISOs");
    assert_eq!(isos_dir("/mnt/usb"), "/mnt/usb/ISOs");
    assert_eq!(isos_dir(""), "ISOs");
}

#[test]
fn dual_layout_puts_only_the_bootloader_on_the_esp() {
    let plan = prepare_plan(true);
    let on_esp: Vec<_> = plan.iter().filter(|s| s.1 == MultibootTarget::Esp).collect();
    assert_eq!(on_esp.len(), 1);
    assert_eq!(on_esp[0].0, MultibootItem::EfiBinary);
    assert!(plan.contains(&(MultibootItem::IsosMarker, MultibootTarget::Data)));
    assert!(plan.contains(&(MultibootItem::GrubConfig, MultibootTarget::Data)));
    assert!(plan.contains(&(MultibootItem::Theme, MultibootTarget::Data)));
}

#[test]
fn single_layout_writes_everything_to_one_partition() {
    let plan = prepare_plan(false);
    assert_eq!(plan.len(), 4);
    assert!(plan.iter().all(|s| s.1 == MultibootTarget::Data));
    assert_eq!(plan[0].0, MultibootItem::IsosMarker);
}

#[test]
fn grub_cfg_loads_data_partition_filesystem_modules() {
    let cfg = grub_cfg();
    assert!(cfg.contains("insmod exfat"));
    assert!(cfg.contains("insmod ntfs"));
    assert!(cfg.contains("insmod ext2"));
}

#[test]
fn grub_cfg_finds_the_images_partition_by_its_marker() {
    assert!(grub_cfg().contains("/ISOs/.hal9001-multiboot"));
}

#[test]
fn prepare_writes_file_by_file() {
    let single = prepare_writes(false, false);
    assert_eq!(single.len(), 10);
    assert_eq!(single[0], (MultibootTarget::Data, Asset::Marker));
    assert!(single.iter().all(|(t, _)| *t == MultibootTarget::Data));
    let again = prepare_writes(false, true);
    assert_eq!(again.len(), 9);
    assert!(!again.iter().any(|(_, a)| *a == Asset::Marker));
    let dual = prepare_writes(true, false);
    assert_eq!(dual[0], (MultibootTarget::Esp, Asset::EfiBinary));
    assert_eq!(dual.iter().filter(|(t, _)| *t == MultibootTarget::Esp).count(), 1);
    assert_eq!(asset_file(Asset::Marker), "ISOs/.hal9001-multiboot");
    assert_eq!(asset_file(Asset::EfiBinary), "EFI/BOOT/BOOTX64.EFI");
    assert_eq!(asset_file(Asset::ThemeSelectE), "boot/grub/themes/hal9001/select_e.png");
    let paths: Vec<&str> = single.iter().map(|(_, a)| asset_file(*a)).collect();
    assert!(paths.iter().filter(|p| p.starts_with("ISOs/")).count() == 1);
}
