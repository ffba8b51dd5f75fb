use hal9001::storage::{BusType, FsKind};
use hal9001::udisks::{build_snapshot, disk_usage_for_mount, BlockProps, DriveProps, MountedDisk};

const DRIVES: &str = "/org/freedesktop/UDisks2/drives/";
const BLOCKS: &str = "/org/freedesktop/UDisks2/block_devices/";

fn drive(name: &str, bus: &str, removable: bool, rotation_rate: i32) -> DriveProps {
    DriveProps {
        object_path: format!("{DRIVES}{name}"),
        model: format!("{name} model"),
        vendor: "ACME".to_string(),
        size: 64_000_000_000,
        removable,
        ejectable: removable,
        can_power_off: removable,
        connection_bus: bus.to_string(),
        rotation_rate,
    }
}

fn block(
    name: &str,
    drive: &str,
    is_partition: bool,
    id_type: &str,
    label: &str,
    mounts: &[&str],
) -> BlockProps {
    BlockProps {
        object_path: format!("{BLOCKS}{name}"),
        drive: Some(format!("{DRIVES}{drive}")),
        device: format!("/dev/{name}"),
        is_partition,
        id_type: id_type.to_string(),
        id_label: label.to_string(),
        size: 1_000_000,
        hint_system: false,
        mount_points: mounts.iter().map(|m| m.to_string()).collect(),
    }
}

fn disks() -> Vec<MountedDisk> {
    vec![
        MountedDisk { mount_point: "/".to_string(), total: 500, available: 200 },
        MountedDisk { mount_point: "/media/stick".to_string(), total: 100, available: 150 },
        MountedDisk { mount_point: "/media/stick".to_string(), total: 100, available: 40 },
    ]
}

#[test]
fn snapshot_orders_drives_and_partitions_by_device_node() {
    let drives = vec![drive("usb", "usb", true, 0), drive("nvme", "nvme", false, 0)];
    let blocks = vec![
        block("sdb2", "usb", true, "exfat", "Ventoy", &["/media/stick"]),
        block("sdb", "usb", false, "", "", &[]),
        block("sdb1", "usb", true, "vfat", "VTOYEFI", &[]),
        block("nvme0n1", "nvme", false, "", "", &[]),
        block("nvme0n1p1", "nvme", true, "ext4", "root", &["/"]),
    ];
    let snap = build_snapshot(&drives, &blocks, "Filename Type Size Used Priority\n", &disks());
    assert!(snap.udisks_available);
    assert_eq!(snap.drives.len(), 2);
    let nvme = &snap.drives[0];
    let usb = &snap.drives[1];
    assert_eq!(nvme.dev_node, "/dev/nvme0n1");
    assert_eq!(usb.dev_node, "/dev/sdb");
    assert_eq!(usb.block_path.as_deref(), Some("/org/freedesktop/UDisks2/block_devices/sdb"));
    assert_eq!(usb.bus, BusType::Usb);
    assert_eq!(nvme.bus, BusType::Nvme);
    assert_eq!(usb.model, "usb model");
    let nodes: Vec<&str> = usb.partitions.iter().map(|p| p.dev_node.as_str()).collect();
    assert_eq!(nodes, vec!["/dev/sdb1", "/dev/sdb2"]);
    assert_eq!(usb.partitions[0].fs, FsKind::Vfat);
    assert_eq!(usb.partitions[1].fs, FsKind::Exfat);
    assert_eq!(usb.partitions[1].used, Some(0));
    assert!(usb.is_ventoy);
    assert!(!usb.is_system);
    assert!(usb.partitions.iter().all(|p| !p.is_system));
    assert!(nvme.is_system);
    assert!(!nvme.is_ventoy);
    assert_eq!(nvme.partitions.len(), 1);
    assert!(nvme.partitions[0].is_system);
    assert_eq!(nvme.partitions[0].used, Some(300));
}

#[test]
fn snapshot_lists_whole_disk_filesystem_and_marks_swap_and_root_mounts() {
    let drives = vec![drive("stick", "usb", true, -1), drive("stick2", "usb", true, 7200)];
    let mut swap = block("sdc1", "stick2", true, "swap", "", &[]);
    swap.size = 4096;
    let blocks = vec![
        block("sdb", "stick", false, "vfat", "PHOTOS", &["/media/photos"]),
        swap,
        block("sdc", "stick2", false, "", "", &[]),
    ];
    let swaps = "Filename Type Size Used Priority\n/dev/sdc1 partition 4 0 -2\n";
    let snap = build_snapshot(&drives, &blocks, swaps, &[]);
    assert_eq!(snap.drives.len(), 2);
    let stick = &snap.drives[0];
    assert_eq!(stick.dev_node, "/dev/sdb");
    assert_eq!(stick.partitions.len(), 1);
    assert_eq!(stick.partitions[0].label, "PHOTOS");
    assert_eq!(stick.partitions[0].used, None);
    assert!(!stick.is_system);
    assert!(!stick.rotational);
    let stick2 = &snap.drives[1];
    assert!(stick2.rotational);
    assert!(stick2.partitions[0].is_swap);
    assert!(stick2.is_system);
    assert!(stick2.partitions[0].is_system);
}

#[test]
fn snapshot_skips_blocks_without_a_known_drive() {
    let drives = vec![drive("stick", "usb", true, 0)];
    let mut orphan = block("loop0", "stick", false, "squashfs", "", &[]);
    orphan.drive = Some("/".to_string());
    let mut unknown = block("sdz1", "elsewhere", true, "ext4", "", &[]);
    unknown.drive = None;
    let blocks = vec![orphan, unknown, block("sdq1", "ghost", true, "ext4", "", &[])];
    let snap = build_snapshot(&drives, &blocks, "", &[]);
    assert_eq!(snap.drives.len(), 1);
    assert_eq!(snap.drives[0].dev_node, "");
    assert_eq!(snap.drives[0].block_path, None);
    assert!(snap.drives[0].partitions.is_empty());
}

#[test]
fn disk_usage_takes_first_match_and_saturates() {
    let d = disks();
    assert_eq!(disk_usage_for_mount(&d, &"/".to_string()), Some(300));
    assert_eq!(disk_usage_for_mount(&d, &"/media/stick".to_string()), Some(0));
    assert_eq!(disk_usage_for_mount(&d, &"/home".to_string()), None);
}
