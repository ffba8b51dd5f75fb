use hal9001::events::DeviceId;
use hal9001::storage::{
    build_ventoy_entries, bytes_to_path, detect_ventoy, fat_volume_label, format_error_message,
    is_fat_fs_type, is_iso_or_img, is_missing_mkfs_error, is_no_usb_device_error,
    is_not_authorized_error, is_permission_denied_error, is_sudo_auth_failure, is_system_disk,
    isos_subdir, mkfs_command, mkfs_hint, mounts_text_is_sliceable, parse_dd_bytes_copied, parse_proc_mounts,
    parse_proc_swaps, plan_storage_request, primary_partition, resolve_block_object_path,
    skips_power_off, sudo_invocation, ventoy_data_partition, BusType, DriveInfo, FsKind,
    PartitionInfo, StoragePlan, StorageRefusal, StorageRequest, StorageSnapshot,
};

fn part(id: &str, dev: &str, label: &str, fs: FsKind, size: u64, mounts: &[&str], system: bool) -> PartitionInfo {
    PartitionInfo {
        id: DeviceId(id.to_string()),
        dev_node: dev.to_string(),
        label: label.to_string(),
        fs,
        size,
        used: None,
        mount_points: mounts.iter().map(|m| m.to_string()).collect(),
        is_swap: false,
        is_system: system,
    }
}

fn drive(id: &str, dev: &str, removable: bool, bus: BusType, system: bool, parts: Vec<PartitionInfo>) -> DriveInfo {
    DriveInfo {
        id: DeviceId(id.to_string()),
        dev_node: dev.to_string(),
        block_path: Some(format!("/org/freedesktop/UDisks2/block_devices/{}", &dev[5..])),
        model: "Cruzer".to_string(),
        vendor: "SanDisk".to_string(),
        size: 16_000_000_000,
        removable,
        ejectable: true,
        can_power_off: true,
        bus,
        rotational: false,
        is_system: system,
        is_ventoy: false,
        partitions: parts,
    }
}

const USB: &str = "/org/freedesktop/UDisks2/drives/SanDisk_Cruzer";
const USB_PART: &str = "/org/freedesktop/UDisks2/block_devices/sdb1";
const SYS: &str = "/org/freedesktop/UDisks2/drives/Samsung_SSD";
const SYS_PART: &str = "/org/freedesktop/UDisks2/block_devices/nvme0n1p2";

fn snapshot() -> StorageSnapshot {
    StorageSnapshot {
        udisks_available: true,
        drives: vec![
            drive(SYS, "/dev/nvme0n1", false, BusType::Nvme, true, vec![part(SYS_PART, "/dev/nvme0n1p2", "root", FsKind::Ext4, 500, &["/"], true)]),
            drive(USB, "/dev/sdb", true, BusType::Usb, false, vec![part(USB_PART, "/dev/sdb1", "PENDRIVE", FsKind::Vfat, 100, &["/media/u/PENDRIVE"], false)]),
        ],
    }
}

#[test]
fn fs_kind_parse_and_label() {
    assert_eq!(FsKind::parse(" VFAT "), FsKind::Vfat);
    assert_eq!(FsKind::parse("crypto_LUKS"), FsKind::CryptoLuks);
    assert_eq!(FsKind::parse(""), FsKind::Unknown);
    assert_eq!(FsKind::parse("swap"), FsKind::Swap);
    assert_eq!(FsKind::parse("xfs"), FsKind::Other("xfs".to_string()));
    assert_eq!(FsKind::CryptoLuks.label(), "crypto_LUKS");
    assert_eq!(FsKind::Unknown.label(), "?");
}

#[test]
fn bus_type_parse_and_label() {
    assert_eq!(BusType::parse("usb"), BusType::Usb);
    assert_eq!(BusType::parse(" ATA"), BusType::Sata);
    assert_eq!(BusType::parse("sdio"), BusType::Mmc);
    assert_eq!(BusType::parse("thunderbolt"), BusType::Unknown);
    assert_eq!(BusType::Nvme.label(), "NVMe");
}

#[test]
fn system_disk_detection() {
    let d = drive(USB, "/dev/sdb", true, BusType::Usb, false, vec![]);
    assert!(is_system_disk(&d, &part(USB_PART, "/dev/sdb1", "", FsKind::Ext4, 1, &["/boot/"], false)));
    assert!(!is_system_disk(&d, &part(USB_PART, "/dev/sdb1", "", FsKind::Ext4, 1, &["/media/x"], false)));
    let internal = drive(SYS, "/dev/sda", false, BusType::Sata, false, vec![]);
    assert!(is_system_disk(&internal, &part(USB_PART, "/dev/sda1", "", FsKind::Ext4, 1, &[], false)));
}

#[test]
fn primary_and_ventoy_partitions() {
    let d = drive(USB, "/dev/sdb", true, BusType::Usb, false, vec![
        part("a", "/dev/sdb1", "VTOYEFI", FsKind::Vfat, 32, &[], false),
        part("b", "/dev/sdb2", "Ventoy", FsKind::Exfat, 1000, &[], false),
    ]);
    assert!(detect_ventoy(&d.partitions));
    assert_eq!(ventoy_data_partition(&d).unwrap().id.0, "b");
    assert_eq!(primary_partition(&d).unwrap().id.0, "b");
    let mounted = drive(USB, "/dev/sdb", true, BusType::Usb, false, vec![
        part("a", "/dev/sdb1", "BIG", FsKind::Vfat, 5000, &[], false),
        part("b", "/dev/sdb2", "SMALL", FsKind::Vfat, 10, &["/media/x"], false),
    ]);
    assert_eq!(primary_partition(&mounted).unwrap().id.0, "b");
}

#[test]
fn friendly_label_prefers_the_partition_label() {
    let s = snapshot();
    assert_eq!(s.drives[1].friendly_label(), "PENDRIVE");
    let mut d = drive(USB, "/dev/mmcblk0", true, BusType::Mmc, false, vec![]);
    assert_eq!(d.friendly_label(), "SanDisk Cruzer (/dev/mmcblk0)");
    d.vendor.clear();
    d.model.clear();
    assert_eq!(d.friendly_label(), "/dev/mmcblk0");
}

#[test]
fn snapshot_lookups() {
    let s = snapshot();
    assert!(s.is_system_target(&DeviceId(SYS.to_string())));
    assert!(s.is_system_target(&DeviceId(SYS_PART.to_string())));
    assert!(!s.is_system_target(&DeviceId(USB.to_string())));
    assert_eq!(s.drive_dev_node(&DeviceId(USB.to_string())), Some("/dev/sdb".to_string()));
    assert_eq!(s.drive_size(&DeviceId(USB.to_string())), Some(16_000_000_000));
    assert_eq!(s.partition_by_id(&DeviceId(USB_PART.to_string())).unwrap().dev_node, "/dev/sdb1");
    assert_eq!(s.dev_node_for_block_path(USB_PART), Some("/dev/sdb1".to_string()));
    assert_eq!(s.dev_node_for_block_path("/org/freedesktop/UDisks2/block_devices/sdb"), Some("/dev/sdb".to_string()));
    assert_eq!(resolve_block_object_path(&s, &DeviceId(USB.to_string())), Some("/org/freedesktop/UDisks2/block_devices/sdb".to_string()));
    assert_eq!(resolve_block_object_path(&s, &DeviceId(USB_PART.to_string())), Some(USB_PART.to_string()));
    assert_eq!(resolve_block_object_path(&s, &DeviceId("other".to_string())), None);
}

#[test]
fn safety_lock_refuses_system_targets() {
    let s = Some(snapshot());
    let req = StorageRequest::Format { device_id: SYS_PART.to_string(), fs_type: "vfat".to_string(), label: "X".to_string() };
    assert_eq!(plan_storage_request(&s, &req), StoragePlan::Refused(StorageRefusal::SystemDisk));
    let req = StorageRequest::Eject(DeviceId(SYS.to_string()));
    assert_eq!(plan_storage_request(&s, &req), StoragePlan::Refused(StorageRefusal::SystemDisk));
    let req = StorageRequest::FlashIso { device_id: SYS.to_string(), iso_path: "/tmp/x.iso".to_string() };
    assert_eq!(plan_storage_request(&s, &req), StoragePlan::Refused(StorageRefusal::SystemDisk));
    let req = StorageRequest::Format { device_id: USB.to_string(), fs_type: "vfat".to_string(), label: "X".to_string() };
    assert_eq!(plan_storage_request(&None, &req), StoragePlan::Refused(StorageRefusal::SystemDisk));
}

#[test]
fn plans_for_removable_drives() {
    let s = Some(snapshot());
    let req = StorageRequest::Eject(DeviceId(USB.to_string()));
    assert_eq!(plan_storage_request(&s, &req), StoragePlan::Eject { drive_index: 1, unmount: vec![USB_PART.to_string()] });
    let req = StorageRequest::FlashIso { device_id: USB.to_string(), iso_path: "/tmp/x.iso".to_string() };
    assert_eq!(plan_storage_request(&s, &req), StoragePlan::Flash { dev_node: "/dev/sdb".to_string(), unmount: vec![USB_PART.to_string()] });
    let req = StorageRequest::Mount(DeviceId(USB.to_string()));
    assert_eq!(plan_storage_request(&s, &req), StoragePlan::MountPartitions(vec![]));
    let req = StorageRequest::Unmount(DeviceId(USB_PART.to_string()));
    assert_eq!(plan_storage_request(&s, &req), StoragePlan::UnmountObject(USB_PART.to_string()));
    let req = StorageRequest::MultibootPrepare { device_id: USB_PART.to_string() };
    assert_eq!(plan_storage_request(&s, &req), StoragePlan::Multiboot { part_path: USB_PART.to_string(), existing_mount: Some("/media/u/PENDRIVE".to_string()) });
    let req = StorageRequest::Eject(DeviceId("/nope".to_string()));
    assert_eq!(plan_storage_request(&s, &req), StoragePlan::Refused(StorageRefusal::EjectTargetNotFound));
}

#[test]
fn refusal_messages() {
    assert_eq!(StorageRefusal::SystemDisk.message(), "operação bloqueada: disco de sistema");
    assert_eq!(
        StorageRefusal::NotFat32("ext4".to_string()).message(),
        "a partição precisa estar formatada como FAT32 para multi-boot (atual: ext4) — formate primeiro com [f]"
    );
}

#[test]
fn mkfs_helpers() {
    assert_eq!(mkfs_hint(" FAT32 "), Some(("mkfs.vfat", "dosfstools")));
    assert_eq!(mkfs_hint("zfs"), None);
    assert_eq!(
        mkfs_command("vfat", "PEN", "/dev/sdb1"),
        Some(("mkfs.vfat".to_string(), vec!["-F".to_string(), "32".to_string(), "-n".to_string(), "PEN".to_string(), "/dev/sdb1".to_string()]))
    );
    assert_eq!(
        mkfs_command("ext4", "", "/dev/sdb1"),
        Some(("mkfs.ext4".to_string(), vec!["-F".to_string(), "/dev/sdb1".to_string()]))
    );
    assert_eq!(mkfs_command("zfs", "x", "/dev/sdb1"), None);
    assert!(is_fat_fs_type("Fat"));
    assert!(!is_fat_fs_type("exfat"));
}

#[test]
fn error_classification() {
    assert!(is_missing_mkfs_error("mkfs.vfat: Command not found"));
    assert_eq!(format_error_message("vfat", "No such file or directory"), "mkfs.vfat ausente — instale dosfstools");
    assert_eq!(format_error_message("vfat", "disk busy"), "Falha ao formatar: disk busy");
    assert!(is_permission_denied_error(true, "anything"));
    assert!(is_permission_denied_error(false, "open: Permission Denied"));
    assert!(is_not_authorized_error("GDBus.Error:org.freedesktop.UDisks2.Error.NotAuthorized"));
    assert!(is_sudo_auth_failure("Sorry, try again."));
    assert!(!is_sudo_auth_failure("done"));
    assert!(is_no_usb_device_error("No usb device found"));
}

#[test]
fn sudo_arguments() {
    let args = vec!["-F".to_string(), "/dev/sdb1".to_string()];
    assert_eq!(sudo_invocation(true, "mkfs.ext4", &args), vec!["-n", "--", "mkfs.ext4", "-F", "/dev/sdb1"]);
    assert_eq!(sudo_invocation(false, "dd", &[]), vec!["-S", "-k", "--", "dd"]);
}

#[test]
fn dd_progress_lines() {
    assert_eq!(parse_dd_bytes_copied("  1048576 bytes (1.0 MB, 1.0 MiB) copied"), Some(1048576));
    assert_eq!(parse_dd_bytes_copied("1 byte copied"), Some(1));
    assert_eq!(parse_dd_bytes_copied("records in"), None);
    assert_eq!(parse_dd_bytes_copied("12 records"), None);
}

#[test]
fn proc_files() {
    let swaps = "Filename Type Size Used Priority\n/dev/sda3 partition 8388604 0 -2\n/swapfile file 1000 0 -3\n";
    assert_eq!(parse_proc_swaps(swaps), vec!["/dev/sda3".to_string()]);
    let mounts = "/dev/sdb1 /media/u/MY\\040DISK vfat rw 0 0\ntmpfs /run tmpfs rw 0 0\n";
    assert_eq!(parse_proc_mounts(mounts), vec![("/dev/sdb1".to_string(), "/media/u/MY DISK".to_string())]);
}

#[test]
fn iso_helpers() {
    assert!(is_iso_or_img("Fedora.ISO"));
    assert!(is_iso_or_img("rescue.img"));
    assert!(!is_iso_or_img("notes.txt"));
    assert_eq!(isos_subdir("/media/u/X"), "/media/u/X/ISOs");
    let entries = build_ventoy_entries(vec![
        ("zeta.iso".to_string(), 1, None),
        ("notes.txt".to_string(), 2, None),
        ("Alpha.img".to_string(), 3, None),
        ("beta.ISO".to_string(), 4, None),
    ]);
    let names: Vec<&str> = entries.iter().map(|e| e.name.as_str()).collect();
    assert_eq!(names, vec!["Alpha.img", "beta.ISO", "zeta.iso"]);
}

#[test]
fn fat_label_and_paths() {
    assert_eq!(&fat_volume_label("pen"), b"PEN        ");
    assert_eq!(&fat_volume_label("a-very-long-label"), b"A-VERY-LONG");
    assert_eq!(bytes_to_path(b"/dev/sdb1\0\0"), "/dev/sdb1");
    assert_eq!(bytes_to_path(b"/m\xffx"), "/m\u{fffd}x");
}

#[test]
fn power_off_skipping() {
    let mut d = drive(USB, "/dev/mmcblk0", true, BusType::Mmc, false, vec![]);
    assert!(skips_power_off(&d));
    d.bus = BusType::Usb;
    d.can_power_off = true;
    assert!(!skips_power_off(&d));
}

#[test]
fn mounts_text_sliceability() {
    assert!(mounts_text_is_sliceable("/dev/sdb1 /media/u/MY\\040DISK vfat rw 0 0\nproc /proc proc rw 0 0\n"));
    assert!(mounts_text_is_sliceable(""));
    assert!(!mounts_text_is_sliceable("/dev/sdb1 /m\\a\u{20ac}x vfat rw 0 0\n"));
    assert!(mounts_text_is_sliceable("tmpfs /m\\a\u{20ac}x tmpfs rw 0 0\n"));
}
