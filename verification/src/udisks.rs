//! Assembly of the storage snapshot from the objects that UDisks2 exports:
//! drives, their block devices, the active swap partitions and the usage
//! of mounted filesystems.

use vstd::prelude::*;
use crate::events::DeviceId;
use crate::sort::{chars_key, is_permutation, push_chars_key, seq_le, stable_sort, stably_sorted_by};
use crate::storage::{
    after_first, bus_of, detect_ventoy, fs_kind_is, is_system_disk, is_ventoy_label,
    is_vtoyefi_label, normalized_mount, parse_proc_swaps, protected_mount, strings_view,
    swaps_spec, system_disk, BusType, DriveInfo, FsKind, PartitionInfo, StorageSnapshot,
};
use crate::text::{chars_of, lines, trim, trim_of};

verus! {

/// The properties of an `org.freedesktop.UDisks2.Drive` object that the
/// snapshot reads. Absent properties take their defaults: empty text,
/// zero, `false`, and a rotation rate of -1.
pub struct DriveProps {
    pub object_path: String,
    pub model: String,
    pub vendor: String,
    pub size: u64,
    pub removable: bool,
    pub ejectable: bool,
    pub can_power_off: bool,
    pub connection_bus: String,
    pub rotation_rate: i32,
}

/// The properties of an `org.freedesktop.UDisks2.Block` object: its
/// `Drive` object path (absent when unreadable), its device node, whether
/// the object also has the `Partition` interface, its filesystem type and
/// label, its size, `HintSystem`, and the mount points of its
/// `Filesystem` interface.
pub struct BlockProps {
    pub object_path: String,
    pub drive: Option<String>,
    pub device: String,
    pub is_partition: bool,
    pub id_type: String,
    pub id_label: String,
    pub size: u64,
    pub hint_system: bool,
    pub mount_points: Vec<String>,
}

/// A mounted filesystem with its capacity, as the operating system reports it.
pub struct MountedDisk {
    pub mount_point: String,
    pub total: u64,
    pub available: u64,
}

/// Block `b` belongs to drive `i`: its `Drive` property is a path other
/// than `/`, and `i` is the last drive with that object path.
pub open spec fn belongs(dprops: Seq<DriveProps>, b: BlockProps, i: int) -> bool {
    match b.drive {
        Some(d) => {
            &&& d@ != "/"@
            &&& 0 <= i < dprops.len()
            &&& dprops[i].object_path@ == d@
            &&& forall|j: int| i < j < dprops.len() ==> dprops[j].object_path@ != d@
        },
        None => false,
    }
}

/// A block is listed among its drive's partitions when it is a partition,
/// or a whole-disk block that carries a filesystem type.
pub open spec fn lists_partition(b: BlockProps) -> bool {
    b.is_partition || trim(b.id_type@).len() > 0
}

/// The blocks listed as partitions of drive `i`, in the order given.
pub open spec fn listed_blocks(dprops: Seq<DriveProps>, blocks: Seq<BlockProps>, i: int) -> Seq<
    BlockProps,
>
    decreases blocks.len(),
{
    if blocks.len() == 0 {
        Seq::empty()
    } else {
        let b = blocks.last();
        let before = listed_blocks(dprops, blocks.drop_last(), i);
        if belongs(dprops, b, i) && lists_partition(b) {
            before.push(b)
        } else {
            before
        }
    }
}

/// The last whole-disk (non-partition) block of drive `i`, if any.
pub open spec fn whole_disk_block(dprops: Seq<DriveProps>, blocks: Seq<BlockProps>, i: int) -> Option<
    BlockProps,
>
    decreases blocks.len(),
{
    if blocks.len() == 0 {
        None
    } else if belongs(dprops, blocks.last(), i) && !blocks.last().is_partition {
        Some(blocks.last())
    } else {
        whole_disk_block(dprops, blocks.drop_last(), i)
    }
}

/// Bytes in use on the first mounted filesystem at `mp`: its capacity less
/// its free space, or zero when the free space exceeds the capacity.
pub open spec fn usage_at(disks: Seq<MountedDisk>, mp: Seq<char>) -> Option<u64>
    decreases disks.len(),
{
    if disks.len() == 0 {
        None
    } else if disks[0].mount_point@ == mp {
        Some(
            if disks[0].total >= disks[0].available {
                (disks[0].total - disks[0].available) as u64
            } else {
                0
            },
        )
    } else {
        usage_at(disks.drop_first(), mp)
    }
}

/// The usage of a block's first mount point.
pub open spec fn first_mount_usage(disks: Seq<MountedDisk>, mps: Seq<String>) -> Option<u64> {
    if mps.len() > 0 {
        usage_at(disks, mps[0]@)
    } else {
        None
    }
}

/// `p` describes block `b` (all but the system flag).
pub open spec fn partition_matches(
    p: PartitionInfo,
    b: BlockProps,
    swaps: Seq<Seq<char>>,
    disks: Seq<MountedDisk>,
) -> bool {
    &&& p.id.0@ == b.object_path@
    &&& p.dev_node@ == b.device@
    &&& p.label@ == b.id_label@
    &&& fs_kind_is(p.fs, b.id_type@)
    &&& p.size == b.size
    &&& p.used == first_mount_usage(disks, b.mount_points@)
    &&& strings_view(p.mount_points@) == strings_view(b.mount_points@)
    &&& p.is_swap == swaps.contains(b.device@)
}

/// A block that marks its drive as the system's: `HintSystem`, an active
/// swap, or a mount at `/`, `/boot`, `/boot/efi` or `/home`.
pub open spec fn block_system(b: BlockProps, swaps: Seq<Seq<char>>) -> bool {
    ||| b.hint_system
    ||| swaps.contains(b.device@)
    ||| exists|k: int|
        0 <= k < b.mount_points@.len() && protected_mount(
            normalized_mount(#[trigger] b.mount_points@[k]@),
        )
}

/// A drive that is neither removable nor on USB.
pub open spec fn fixed_internal(d: DriveProps) -> bool {
    !d.removable && bus_of(d.connection_bus@) != BusType::Usb
}

/// Drive `i` holds the running system.
pub open spec fn drive_system(
    dprops: Seq<DriveProps>,
    blocks: Seq<BlockProps>,
    i: int,
    swaps: Seq<Seq<char>>,
) -> bool {
    let listed = listed_blocks(dprops, blocks, i);
    fixed_internal(dprops[i]) || exists|m: int|
        0 <= m < listed.len() && block_system(#[trigger] listed[m], swaps)
}

/// Some listed partition of drive `i` carries a Ventoy label.
pub open spec fn drive_ventoy(dprops: Seq<DriveProps>, blocks: Seq<BlockProps>, i: int) -> bool {
    let listed = listed_blocks(dprops, blocks, i);
    exists|m: int|
        0 <= m < listed.len() && (is_ventoy_label(#[trigger] listed[m].id_label@)
            || is_vtoyefi_label(listed[m].id_label@))
}

/// `out` describes the blocks of `listed`, each with system flag `sys`,
/// ordered by device node, blocks of equal nodes in their given order.
pub open spec fn partitions_from(
    out: Seq<PartitionInfo>,
    listed: Seq<BlockProps>,
    swaps: Seq<Seq<char>>,
    disks: Seq<MountedDisk>,
    sys: bool,
) -> bool {
    exists|perm: Seq<int>|
        {
            &&& is_permutation(perm, listed.len() as int)
            &&& out.len() == listed.len()
            &&& forall|k: int|
                0 <= k < out.len() ==> partition_matches(#[trigger] out[k], listed[perm[k]], swaps, disks)
                    && out[k].is_system == sys
            &&& forall|a: int, c: int|
                0 <= a < c < out.len() ==> seq_le(chars_key(out[a].dev_node@), chars_key(out[c].dev_node@))
            &&& forall|a: int, c: int|
                0 <= a < c < out.len() && out[a].dev_node@ == out[c].dev_node@ ==> perm[a] < perm[c]
        }
}

/// `r` copies the properties of drive `d`.
pub open spec fn drive_fields_match(r: DriveInfo, d: DriveProps) -> bool {
    &&& r.id.0@ == d.object_path@
    &&& r.model@ == d.model@
    &&& r.vendor@ == d.vendor@
    &&& r.size == d.size
    &&& r.removable == d.removable
    &&& r.ejectable == d.ejectable
    &&& r.can_power_off == d.can_power_off
    &&& r.bus == bus_of(d.connection_bus@)
    &&& r.rotational == (d.rotation_rate > 0)
}

/// `r` is drive `i` assembled with its blocks.
pub open spec fn drive_assembled(
    r: DriveInfo,
    dprops: Seq<DriveProps>,
    blocks: Seq<BlockProps>,
    i: int,
    swaps: Seq<Seq<char>>,
    disks: Seq<MountedDisk>,
) -> bool {
    let sys = drive_system(dprops, blocks, i, swaps);
    &&& drive_fields_match(r, dprops[i])
    &&& match whole_disk_block(dprops, blocks, i) {
        Some(w) => r.dev_node@ == w.device@ && r.block_path is Some && r.block_path->0@
            == w.object_path@,
        None => r.dev_node@ == ""@ && r.block_path is None,
    }
    &&& r.is_system == sys
    &&& r.is_ventoy == drive_ventoy(dprops, blocks, i)
    &&& partitions_from(r.partitions@, listed_blocks(dprops, blocks, i), swaps, disks, sys)
}

/// `r` holds every drive, assembled, ordered by device node, drives of
/// equal nodes in their given order.
pub open spec fn snapshot_assembled(
    r: StorageSnapshot,
    dprops: Seq<DriveProps>,
    blocks: Seq<BlockProps>,
    swaps: Seq<Seq<char>>,
    disks: Seq<MountedDisk>,
) -> bool {
    &&& r.udisks_available
    &&& exists|perm: Seq<int>|
        {
            &&& is_permutation(perm, dprops.len() as int)
            &&& r.drives@.len() == dprops.len()
            &&& forall|k: int|
                0 <= k < r.drives@.len() ==> drive_assembled(
                    #[trigger] r.drives@[k],
                    dprops,
                    blocks,
                    perm[k],
                    swaps,
                    disks,
                )
            &&& forall|a: int, c: int|
                0 <= a < c < r.drives@.len() ==> seq_le(
                    chars_key(r.drives@[a].dev_node@),
                    chars_key(r.drives@[c].dev_node@),
                )
            &&& forall|a: int, c: int|
                0 <= a < c < r.drives@.len() && r.drives@[a].dev_node@ == r.drives@[c].dev_node@
                    ==> perm[a] < perm[c]
        }
}

/// A block belongs to at most one drive.
proof fn lemma_belongs_unique(dprops: Seq<DriveProps>, b: BlockProps, i: int, j: int)
    requires
        belongs(dprops, b, i),
        belongs(dprops, b, j),
    ensures
        i == j,
{
    if i < j {
        assert(dprops[j].object_path@ == b.drive->0@);
    } else if j < i {
        assert(dprops[i].object_path@ == b.drive->0@);
    }
}

/// Each block's drive, if it has one.
pub open spec fn owners_ok(dprops: Seq<DriveProps>, blocks: Seq<BlockProps>, owners: Seq<Option<usize>>) -> bool {
    &&& owners.len() == blocks.len()
    &&& forall|k: int|
        0 <= k < blocks.len() ==> match #[trigger] owners[k] {
            Some(j) => belongs(dprops, blocks[k], j as int),
            None => forall|j: int| !belongs(dprops, blocks[k], j),
        }
}

fn owner_index(dprops: &[DriveProps], b: &BlockProps) -> (r: Option<usize>)
    ensures
        match r {
            Some(j) => belongs(dprops@, *b, j as int),
            None => forall|j: int| !belongs(dprops@, *b, j),
        },
{
    match &b.drive {
        None => None,
        Some(d) => {
            let dv = chars_of(d.as_str());
            if dv.len() == 1 && dv[0] == '/' {
                proof {
                    reveal_strlit("/");
                    assert(d@ =~= "/"@);
                }
                return None;
            }
            proof {
                reveal_strlit("/");
                if d@ == "/"@ {
                    assert(dv@[0] == '/');
                }
            }
            let mut j: usize = dprops.len();
            while j > 0
                invariant
                    j <= dprops@.len(),
                    d@ != "/"@,
                    b.drive == Some(*d),
                    forall|k: int| j <= k < dprops@.len() ==> dprops@[k].object_path@ != d@,
                decreases j,
            {
                if dprops[j - 1].object_path == *d {
                    return Some(j - 1);
                }
                j = j - 1;
            }
            None
        },
    }
}

fn owners_of(dprops: &[DriveProps], blocks: &[BlockProps]) -> (r: Vec<Option<usize>>)
    ensures
        owners_ok(dprops@, blocks@, r@),
{
    let mut out: Vec<Option<usize>> = Vec::new();
    let mut k: usize = 0;
    while k < blocks.len()
        invariant
            k <= blocks@.len(),
            out@.len() == k,
            forall|q: int|
                0 <= q < k ==> match #[trigger] out@[q] {
                    Some(j) => belongs(dprops@, blocks@[q], j as int),
                    None => forall|j: int| !belongs(dprops@, blocks@[q], j),
                },
        decreases blocks@.len() - k,
    {
        let o = owner_index(dprops, &blocks[k]);
        out.push(o);
        k = k + 1;
    }
    out
}

/// The usage of the first mounted filesystem at `mount_point`.
pub fn disk_usage_for_mount(disks: &[MountedDisk], mount_point: &String) -> (r: Option<u64>)
    ensures
        r == usage_at(disks@, mount_point@),
{
    let mut i: usize = 0;
    assert(disks@.skip(0) =~= disks@);
    while i < disks.len()
        invariant
            i <= disks@.len(),
            usage_at(disks@, mount_point@) == usage_at(disks@.skip(i as int), mount_point@),
        decreases disks@.len() - i,
    {
        assert(disks@.skip(i as int)[0] == disks@[i as int]);
        assert(disks@.skip(i as int).drop_first() =~= disks@.skip(i + 1));
        if disks[i].mount_point == *mount_point {
            let d = &disks[i];
            if d.total >= d.available {
                return Some(d.total - d.available);
            } else {
                return Some(0);
            }
        }
        i = i + 1;
    }
    None
}

fn copy_strings(v: &Vec<String>) -> (r: Vec<String>)
    ensures
        strings_view(r@) == strings_view(v@),
{
    let mut out: Vec<String> = Vec::new();
    let mut i: usize = 0;
    while i < v.len()
        invariant
            i <= v@.len(),
            strings_view(out@) == strings_view(v@.subrange(0, i as int)),
        decreases v@.len() - i,
    {
        let s = v[i].clone();
        let ghost before = out@;
        out.push(s);
        proof {
            assert(strings_view(out@) =~= strings_view(before).push(v@[i as int]@));
            assert(v@.subrange(0, i + 1) =~= v@.subrange(0, i as int).push(v@[i as int]));
            assert(strings_view(v@.subrange(0, i + 1)) =~= strings_view(v@.subrange(0, i as int)).push(
                v@[i as int]@,
            ));
        }
        i = i + 1;
    }
    assert(v@.subrange(0, v@.len() as int) =~= v@);
    out
}

fn contains_string(v: &Vec<String>, s: &String) -> (r: bool)
    ensures
        r == strings_view(v@).contains(s@),
{
    let mut i: usize = 0;
    while i < v.len()
        invariant
            i <= v@.len(),
            forall|q: int| 0 <= q < i ==> v@[q]@ != s@,
        decreases v@.len() - i,
    {
        if v[i] == *s {
            assert(strings_view(v@)[i as int] == s@);
            return true;
        }
        i = i + 1;
    }
    proof {
        if strings_view(v@).contains(s@) {
            let q = choose|q: int| 0 <= q < strings_view(v@).len() && strings_view(v@)[q] == s@;
            assert(v@[q]@ == s@);
        }
    }
    false
}

/// The partition that block `b` describes, flagged as a system partition
/// when the block carries `HintSystem`.
fn partition_of(b: &BlockProps, swaps: &Vec<String>, disks: &[MountedDisk]) -> (r: PartitionInfo)
    ensures
        partition_matches(r, *b, strings_view(swaps@), disks@),
        r.is_system == b.hint_system,
{
    let used = if b.mount_points.len() > 0 {
        disk_usage_for_mount(disks, &b.mount_points[0])
    } else {
        None
    };
    PartitionInfo {
        id: DeviceId(b.object_path.clone()),
        dev_node: b.device.clone(),
        label: b.id_label.clone(),
        fs: FsKind::parse(b.id_type.as_str()),
        size: b.size,
        used,
        mount_points: copy_strings(&b.mount_points),
        is_swap: contains_string(swaps, &b.device),
        is_system: b.hint_system,
    }
}

/// The whole-disk device node and block path of drive `i`, and its listed
/// partitions in the order given.
fn collect_blocks(
    dprops: &[DriveProps],
    i: usize,
    blocks: &[BlockProps],
    owners: &Vec<Option<usize>>,
    swaps: &Vec<String>,
    disks: &[MountedDisk],
) -> (r: (String, Option<String>, Vec<PartitionInfo>))
    requires
        i < dprops@.len(),
        owners_ok(dprops@, blocks@, owners@),
    ensures
        match whole_disk_block(dprops@, blocks@, i as int) {
            Some(w) => r.0@ == w.device@ && r.1 is Some && r.1->0@ == w.object_path@,
            None => r.0@ == ""@ && r.1 is None,
        },
        r.2@.len() == listed_blocks(dprops@, blocks@, i as int).len(),
        forall|m: int|
            0 <= m < r.2@.len() ==> partition_matches(
                #[trigger] r.2@[m],
                listed_blocks(dprops@, blocks@, i as int)[m],
                strings_view(swaps@),
                disks@,
            ) && r.2@[m].is_system == listed_blocks(dprops@, blocks@, i as int)[m].hint_system,
{
    let ghost bv = blocks@;
    let ghost sw = strings_view(swaps@);
    let mut dev_node = String::new();
    let mut block_path: Option<String> = None;
    let mut parts: Vec<PartitionInfo> = Vec::new();
    let mut k: usize = 0;
    proof {
        reveal_strlit("");
        assert(bv.subrange(0, 0) =~= Seq::<BlockProps>::empty());
    }
    while k < blocks.len()
        invariant
            k <= bv.len(),
            bv == blocks@,
            i < dprops@.len(),
            sw == strings_view(swaps@),
            owners_ok(dprops@, bv, owners@),
            match whole_disk_block(dprops@, bv.subrange(0, k as int), i as int) {
                Some(w) => dev_node@ == w.device@ && block_path is Some && block_path->0@
                    == w.object_path@,
                None => dev_node@ == ""@ && block_path is None,
            },
            parts@.len() == listed_blocks(dprops@, bv.subrange(0, k as int), i as int).len(),
            forall|m: int|
                0 <= m < parts@.len() ==> partition_matches(
                    #[trigger] parts@[m],
                    listed_blocks(dprops@, bv.subrange(0, k as int), i as int)[m],
                    sw,
                    disks@,
                ) && parts@[m].is_system == listed_blocks(
                    dprops@,
                    bv.subrange(0, k as int),
                    i as int,
                )[m].hint_system,
        decreases bv.len() - k,
    {
        let ghost pre = bv.subrange(0, k as int);
        let ghost post = bv.subrange(0, k + 1);
        proof {
            assert(post.drop_last() =~= pre);
            assert(post.last() == bv[k as int]);
        }
        let b = &blocks[k];
        let mine = match owners[k] {
            Some(j) => j == i,
            None => false,
        };
        proof {
            match owners@[k as int] {
                Some(j) => {
                    if belongs(dprops@, *b, i as int) {
                        lemma_belongs_unique(dprops@, *b, i as int, j as int);
                    }
                },
                None => {},
            }
            assert(mine == belongs(dprops@, *b, i as int));
        }
        if mine {
            if !b.is_partition {
                dev_node = b.device.clone();
                block_path = Some(b.object_path.clone());
            }
            let tv = trim_of(&chars_of(b.id_type.as_str()));
            if b.is_partition || tv.len() > 0 {
                let p = partition_of(b, swaps, disks);
                let ghost before = parts@;
                parts.push(p);
                proof {
                    assert(listed_blocks(dprops@, post, i as int) == listed_blocks(dprops@, pre, i as int).push(*b));
                    assert forall|m: int| 0 <= m < parts@.len() implies partition_matches(
                        #[trigger] parts@[m],
                        listed_blocks(dprops@, post, i as int)[m],
                        sw,
                        disks@,
                    ) && parts@[m].is_system == listed_blocks(dprops@, post, i as int)[m].hint_system by {
                        if m < before.len() {
                            assert(parts@[m] == before[m]);
                        }
                    }
                }
            } else {
                proof {
                    assert(listed_blocks(dprops@, post, i as int) == listed_blocks(dprops@, pre, i as int));
                }
            }
        } else {
            proof {
                assert(listed_blocks(dprops@, post, i as int) == listed_blocks(dprops@, pre, i as int));
                assert(whole_disk_block(dprops@, post, i as int) == whole_disk_block(dprops@, pre, i as int));
            }
        }
        k = k + 1;
    }
    proof {
        assert(bv.subrange(0, k as int) =~= bv);
    }
    (dev_node, block_path, parts)
}

/// Stamps every partition with the system flag and orders them by device
/// node, stably.
fn order_partitions(
    parts: Vec<PartitionInfo>,
    sys: bool,
    Ghost(listed): Ghost<Seq<BlockProps>>,
    Ghost(swaps): Ghost<Seq<Seq<char>>>,
    Ghost(disks): Ghost<Seq<MountedDisk>>,
) -> (r: Vec<PartitionInfo>)
    requires
        parts@.len() == listed.len(),
        forall|m: int|
            0 <= m < parts@.len() ==> partition_matches(#[trigger] parts@[m], listed[m], swaps, disks),
    ensures
        partitions_from(r@, listed, swaps, disks, sys),
{
    let ghost pv = parts@;
    let mut keyed: Vec<(Vec<u32>, PartitionInfo)> = Vec::new();
    let mut src = parts;
    let ghost mut k: int = 0;
    while src.len() > 0
        invariant
            0 <= k <= pv.len(),
            src@ == pv.subrange(k, pv.len() as int),
            keyed@.len() == k,
            pv.len() == listed.len(),
            forall|m: int| 0 <= m < pv.len() ==> partition_matches(#[trigger] pv[m], listed[m], swaps, disks),
            forall|m: int|
                0 <= m < k ==> partition_matches(#[trigger] keyed@[m].1, listed[m], swaps, disks)
                    && keyed@[m].1.is_system == sys && keyed@[m].0@ == chars_key(keyed@[m].1.dev_node@),
        decreases src@.len(),
    {
        let mut p = src.remove(0);
        proof {
            assert(p == pv[k]);
        }
        p.is_system = sys;
        let dv = chars_of(p.dev_node.as_str());
        let mut key: Vec<u32> = Vec::new();
        push_chars_key(&mut key, &dv);
        assert(key@ =~= chars_key(p.dev_node@));
        let ghost before = keyed@;
        keyed.push((key, p));
        proof {
            assert forall|m: int| 0 <= m < k + 1 implies partition_matches(
                #[trigger] keyed@[m].1,
                listed[m],
                swaps,
                disks,
            ) && keyed@[m].1.is_system == sys && keyed@[m].0@ == chars_key(keyed@[m].1.dev_node@) by {
                if m < k {
                    assert(keyed@[m] == before[m]);
                }
            }
            k = k + 1;
            assert(src@ =~= pv.subrange(k, pv.len() as int));
        }
    }
    let ghost keyed_v = keyed@;
    let (sorted, perm) = stable_sort(keyed);
    let mut out: Vec<PartitionInfo> = Vec::new();
    let mut rest = sorted;
    let ghost sorted_v = rest@;
    let ghost mut j: int = 0;
    while rest.len() > 0
        invariant
            0 <= j <= sorted_v.len(),
            rest@ == sorted_v.subrange(j, sorted_v.len() as int),
            out@.len() == j,
            forall|q: int| 0 <= q < j ==> #[trigger] out@[q] == sorted_v[q].1,
        decreases rest@.len(),
    {
        let (_key, e) = rest.remove(0);
        out.push(e);
        proof {
            j = j + 1;
            assert(rest@ =~= sorted_v.subrange(j, sorted_v.len() as int));
        }
    }
    proof {
        let p = perm@;
        assert(stably_sorted_by(keyed_v, sorted_v, p));
        assert forall|q: int| 0 <= q < out@.len() implies partition_matches(
            #[trigger] out@[q],
            listed[p[q]],
            swaps,
            disks,
        ) && out@[q].is_system == sys by {
            assert(sorted_v[q] == keyed_v[p[q]]);
        }
        assert forall|a: int, c: int| 0 <= a < c < out@.len() implies seq_le(
            chars_key(out@[a].dev_node@),
            chars_key(out@[c].dev_node@),
        ) by {
            assert(sorted_v[a] == keyed_v[p[a]]);
            assert(sorted_v[c] == keyed_v[p[c]]);
        }
        assert forall|a: int, c: int|
            0 <= a < c < out@.len() && out@[a].dev_node@ == out@[c].dev_node@ implies p[a] < p[c] by {
            assert(sorted_v[a] == keyed_v[p[a]]);
            assert(sorted_v[c] == keyed_v[p[c]]);
        }
        assert(partitions_from(out@, listed, swaps, disks, sys));
    }
    out
}

/// A partition is a system one exactly when its block marks the drive as
/// the system's, or the drive is fixed and internal.
proof fn lemma_partition_system(
    drive: DriveInfo,
    p: PartitionInfo,
    b: BlockProps,
    d: DriveProps,
    swaps: Seq<Seq<char>>,
    disks: Seq<MountedDisk>,
)
    requires
        partition_matches(p, b, swaps, disks),
        p.is_system == b.hint_system,
        drive.removable == d.removable,
        drive.bus == bus_of(d.connection_bus@),
    ensures
        (p.is_system || system_disk(drive, p)) == (block_system(b, swaps) || fixed_internal(d)),
{
    let pm = p.mount_points@;
    let bm = b.mount_points@;
    assert(strings_view(pm).len() == pm.len());
    assert(strings_view(bm).len() == bm.len());
    assert forall|k: int| 0 <= k < pm.len() implies pm[k]@ == bm[k]@ by {
        assert(strings_view(pm)[k] == strings_view(bm)[k]);
    }
    if exists|k: int| 0 <= k < pm.len() && protected_mount(normalized_mount(#[trigger] pm[k]@)) {
        let k = choose|k: int| 0 <= k < pm.len() && protected_mount(normalized_mount(#[trigger] pm[k]@));
        assert(protected_mount(normalized_mount(bm[k]@)));
    }
    if exists|k: int| 0 <= k < bm.len() && protected_mount(normalized_mount(#[trigger] bm[k]@)) {
        let k = choose|k: int| 0 <= k < bm.len() && protected_mount(normalized_mount(#[trigger] bm[k]@));
        assert(protected_mount(normalized_mount(pm[k]@)));
    }
}

/// Drive `i` with its whole-disk node, its partitions ordered by device
/// node, and its system and Ventoy flags.
fn assemble_drive(
    dprops: &[DriveProps],
    i: usize,
    blocks: &[BlockProps],
    owners: &Vec<Option<usize>>,
    swaps: &Vec<String>,
    disks: &[MountedDisk],
) -> (r: DriveInfo)
    requires
        i < dprops@.len(),
        owners_ok(dprops@, blocks@, owners@),
    ensures
        drive_assembled(r, dprops@, blocks@, i as int, strings_view(swaps@), disks@),
{
    let ghost listed = listed_blocks(dprops@, blocks@, i as int);
    let ghost sw = strings_view(swaps@);
    let (dev_node, block_path, parts) = collect_blocks(dprops, i, blocks, owners, swaps, disks);
    let d = &dprops[i];
    let mut drive = DriveInfo {
        id: DeviceId(d.object_path.clone()),
        dev_node,
        block_path,
        model: d.model.clone(),
        vendor: d.vendor.clone(),
        size: d.size,
        removable: d.removable,
        ejectable: d.ejectable,
        can_power_off: d.can_power_off,
        bus: BusType::parse(d.connection_bus.as_str()),
        rotational: d.rotation_rate > 0,
        is_system: false,
        is_ventoy: false,
        partitions: Vec::new(),
    };
    let mut sys = false;
    let mut m: usize = 0;
    while m < parts.len()
        invariant
            m <= parts@.len(),
            parts@.len() == listed.len(),
            forall|q: int|
                0 <= q < parts@.len() ==> partition_matches(#[trigger] parts@[q], listed[q], sw, disks@)
                    && parts@[q].is_system == listed[q].hint_system,
            drive.removable == dprops@[i as int].removable,
            drive.bus == bus_of(dprops@[i as int].connection_bus@),
            sys == ((exists|q: int| 0 <= q < m && block_system(#[trigger] listed[q], sw)) || (m > 0
                && fixed_internal(dprops@[i as int]))),
        decreases parts@.len() - m,
    {
        let s = parts[m].is_system || is_system_disk(&drive, &parts[m]);
        proof {
            lemma_partition_system(drive, parts@[m as int], listed[m as int], dprops@[i as int], sw, disks@);
            assert(s == (block_system(listed[m as int], sw) || fixed_internal(dprops@[i as int])));
            if exists|q: int| 0 <= q < m + 1 && block_system(#[trigger] listed[q], sw) {
                let q = choose|q: int| 0 <= q < m + 1 && block_system(#[trigger] listed[q], sw);
                if q < m {
                    assert(block_system(listed[q], sw));
                }
            }
        }
        sys = sys || s;
        m = m + 1;
    }
    let fixed = !drive.removable && drive.bus != BusType::Usb;
    sys = sys || fixed;
    let ventoy = detect_ventoy(parts.as_slice());
    proof {
        assert(sys == drive_system(dprops@, blocks@, i as int, sw));
        assert forall|q: int| 0 <= q < parts@.len() implies parts@[q].label@ == listed[q].id_label@ by {
            assert(partition_matches(parts@[q], listed[q], sw, disks@));
        }
        if ventoy {
            let q = choose|q: int|
                0 <= q < parts@.len() && (is_ventoy_label(#[trigger] parts@[q].label@)
                    || is_vtoyefi_label(parts@[q].label@));
            assert(is_ventoy_label(listed[q].id_label@) || is_vtoyefi_label(listed[q].id_label@));
        }
        if drive_ventoy(dprops@, blocks@, i as int) {
            let q = choose|q: int|
                0 <= q < listed.len() && (is_ventoy_label(#[trigger] listed[q].id_label@)
                    || is_vtoyefi_label(listed[q].id_label@));
            assert(is_ventoy_label(parts@[q].label@) || is_vtoyefi_label(parts@[q].label@));
        }
    }
    let ordered = order_partitions(parts, sys, Ghost(listed), Ghost(sw), Ghost(disks@));
    drive.partitions = ordered;
    drive.is_system = sys;
    drive.is_ventoy = ventoy;
    drive
}

/// The storage snapshot assembled from the drive and block objects of
/// UDisks2 (in the order they were listed), the text of `/proc/swaps`, and
/// the mounted filesystems with their capacities: each drive with its
/// whole-disk device node, its partitions ordered by device node, and its
/// system and Ventoy flags; the drives ordered by device node.
pub fn build_snapshot(
    drives: &[DriveProps],
    blocks: &[BlockProps],
    swaps_text: &str,
    disks: &[MountedDisk],
) -> (r: StorageSnapshot)
    ensures
        snapshot_assembled(r, drives@, blocks@, swaps_spec(after_first(lines(swaps_text@))), disks@),
{
    let swaps = parse_proc_swaps(swaps_text);
    let owners = owners_of(drives, blocks);
    let ghost sw = strings_view(swaps@);
    let mut keyed: Vec<(Vec<u32>, DriveInfo)> = Vec::new();
    let mut i: usize = 0;
    while i < drives.len()
        invariant
            i <= drives@.len(),
            keyed@.len() == i,
            sw == strings_view(swaps@),
            owners_ok(drives@, blocks@, owners@),
            forall|m: int|
                0 <= m < i ==> drive_assembled(#[trigger] keyed@[m].1, drives@, blocks@, m, sw, disks@)
                    && keyed@[m].0@ == chars_key(keyed@[m].1.dev_node@),
        decreases drives@.len() - i,
    {
        let d = assemble_drive(drives, i, blocks, &owners, &swaps, disks);
        let dv = chars_of(d.dev_node.as_str());
        let mut key: Vec<u32> = Vec::new();
        push_chars_key(&mut key, &dv);
        assert(key@ =~= chars_key(d.dev_node@));
        let ghost before = keyed@;
        keyed.push((key, d));
        proof {
            assert forall|m: int| 0 <= m < i + 1 implies drive_assembled(
                #[trigger] keyed@[m].1,
                drives@,
                blocks@,
                m,
                sw,
                disks@,
            ) && keyed@[m].0@ == chars_key(keyed@[m].1.dev_node@) by {
                if m < i {
                    assert(keyed@[m] == before[m]);
                }
            }
        }
        i = i + 1;
    }
    let ghost keyed_v = keyed@;
    let (sorted, perm) = stable_sort(keyed);
    let mut out: Vec<DriveInfo> = Vec::new();
    let mut rest = sorted;
    let ghost sorted_v = rest@;
    let ghost mut j: int = 0;
    while rest.len() > 0
        invariant
            0 <= j <= sorted_v.len(),
            rest@ == sorted_v.subrange(j, sorted_v.len() as int),
            out@.len() == j,
            forall|q: int| 0 <= q < j ==> #[trigger] out@[q] == sorted_v[q].1,
        decreases rest@.len(),
    {
        let (_key, e) = rest.remove(0);
        out.push(e);
        proof {
            j = j + 1;
            assert(rest@ =~= sorted_v.subrange(j, sorted_v.len() as int));
        }
    }
    let r = StorageSnapshot { udisks_available: true, drives: out };
    proof {
        let p = perm@;
        assert(stably_sorted_by(keyed_v, sorted_v, p));
        assert forall|q: int| 0 <= q < r.drives@.len() implies drive_assembled(
            #[trigger] r.drives@[q],
            drives@,
            blocks@,
            p[q],
            sw,
            disks@,
        ) by {
            assert(sorted_v[q] == keyed_v[p[q]]);
        }
        assert forall|a: int, c: int| 0 <= a < c < r.drives@.len() implies seq_le(
            chars_key(r.drives@[a].dev_node@),
            chars_key(r.drives@[c].dev_node@),
        ) by {
            assert(sorted_v[a] == keyed_v[p[a]]);
            assert(sorted_v[c] == keyed_v[p[c]]);
        }
        assert forall|a: int, c: int|
            0 <= a < c < r.drives@.len() && r.drives@[a].dev_node@ == r.drives@[c].dev_node@ implies p[a]
                < p[c] by {
            assert(sorted_v[a] == keyed_v[p[a]]);
            assert(sorted_v[c] == keyed_v[p[c]]);
        }
    }
    r
}

/// The system-disk rule holds drive by drive in an assembled snapshot:
/// every partition of a drive carries the drive's system flag; a drive with
/// a partition mounted at `/`, `/boot`, `/boot/efi` or `/home`, or holding
/// an active swap, is a system drive; so is every drive that is neither
/// removable nor on USB.
pub proof fn lemma_system_drives_locked(
    r: StorageSnapshot,
    dprops: Seq<DriveProps>,
    blocks: Seq<BlockProps>,
    swaps: Seq<Seq<char>>,
    disks: Seq<MountedDisk>,
    k: int,
)
    requires
        snapshot_assembled(r, dprops, blocks, swaps, disks),
        0 <= k < r.drives@.len(),
    ensures
        forall|q: int|
            0 <= q < r.drives@[k].partitions@.len() ==> #[trigger] r.drives@[k].partitions@[q].is_system
                == r.drives@[k].is_system,
        forall|q: int|
            0 <= q < r.drives@[k].partitions@.len() && (r.drives@[k].partitions@[q].is_swap || exists|j: int|
                0 <= j < r.drives@[k].partitions@[q].mount_points@.len() && protected_mount(
                    normalized_mount(#[trigger] r.drives@[k].partitions@[q].mount_points@[j]@),
                )) ==> r.drives@[k].is_system,
        !r.drives@[k].removable && r.drives@[k].bus != BusType::Usb ==> r.drives@[k].is_system,
{
    let perm = choose|perm: Seq<int>|
        {
            &&& is_permutation(perm, dprops.len() as int)
            &&& r.drives@.len() == dprops.len()
            &&& forall|k: int|
                0 <= k < r.drives@.len() ==> drive_assembled(
                    #[trigger] r.drives@[k],
                    dprops,
                    blocks,
                    perm[k],
                    swaps,
                    disks,
                )
            &&& forall|a: int, c: int|
                0 <= a < c < r.drives@.len() ==> seq_le(
                    chars_key(r.drives@[a].dev_node@),
                    chars_key(r.drives@[c].dev_node@),
                )
            &&& forall|a: int, c: int|
                0 <= a < c < r.drives@.len() && r.drives@[a].dev_node@ == r.drives@[c].dev_node@
                    ==> perm[a] < perm[c]
        };
    let d = r.drives@[k];
    let i = perm[k];
    assert(drive_assembled(d, dprops, blocks, i, swaps, disks));
    let listed = listed_blocks(dprops, blocks, i);
    let sys = drive_system(dprops, blocks, i, swaps);
    let pp = choose|pp: Seq<int>|
        {
            &&& is_permutation(pp, listed.len() as int)
            &&& d.partitions@.len() == listed.len()
            &&& forall|q: int|
                0 <= q < d.partitions@.len() ==> partition_matches(
                    #[trigger] d.partitions@[q],
                    listed[pp[q]],
                    swaps,
                    disks,
                ) && d.partitions@[q].is_system == sys
            &&& forall|a: int, c: int|
                0 <= a < c < d.partitions@.len() ==> seq_le(
                    chars_key(d.partitions@[a].dev_node@),
                    chars_key(d.partitions@[c].dev_node@),
                )
            &&& forall|a: int, c: int|
                0 <= a < c < d.partitions@.len() && d.partitions@[a].dev_node@
                    == d.partitions@[c].dev_node@ ==> pp[a] < pp[c]
        };
    assert forall|q: int|
        0 <= q < d.partitions@.len() && (d.partitions@[q].is_swap || exists|j: int|
            0 <= j < d.partitions@[q].mount_points@.len() && protected_mount(
                normalized_mount(#[trigger] d.partitions@[q].mount_points@[j]@),
            )) implies d.is_system by {
        let p = d.partitions@[q];
        let b = listed[pp[q]];
        assert(partition_matches(p, b, swaps, disks));
        assert(0 <= pp[q] < listed.len());
        if p.is_swap {
            assert(block_system(b, swaps));
        } else {
            let j = choose|j: int|
                0 <= j < p.mount_points@.len() && protected_mount(
                    normalized_mount(#[trigger] p.mount_points@[j]@),
                );
            assert(strings_view(p.mount_points@).len() == p.mount_points@.len());
            assert(strings_view(b.mount_points@).len() == b.mount_points@.len());
            assert(strings_view(p.mount_points@)[j] == strings_view(b.mount_points@)[j]);
            assert(b.mount_points@[j]@ == p.mount_points@[j]@);
            assert(block_system(b, swaps));
        }
    }
}

} // verus!
