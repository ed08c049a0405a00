//! What follows for every device description that passes the check.

use vstd::prelude::*;
use crate::bootloader::BootloaderSpec;
use crate::bootloader::MIN_FLASH_OFFSET;
use crate::device::bootloader_fault;
use crate::device::bootloaders_fault;
use crate::device::is_root_mountpoint;
use crate::device::partition_fault;
use crate::device::place_of_number;
use crate::device::partitions_fault;
use crate::device::root_before;
use crate::device::root_count;
use crate::device::DeviceSpec;
use crate::device::PartitionMapType;
use crate::filesystem::FilesystemType;
use crate::partition::PartitionSpec;
use crate::partition::PartitionUsage;

verus! {

proof fn lemma_partitions_clean(parts: Seq<PartitionSpec>, map: PartitionMapType, from: int, i: int)
    requires
        0 <= from <= i < parts.len(),
        partitions_fault(parts, map, from) is None,
    ensures
        partition_fault(parts, map, i) is None,
    decreases i - from,
{
    if from < i {
        lemma_partitions_clean(parts, map, from + 1, i);
    }
}

proof fn lemma_bootloaders_clean(
    steps: Seq<BootloaderSpec>,
    parts: Seq<PartitionSpec>,
    scripts: Seq<String>,
    from: int,
    k: int,
)
    requires
        0 <= from <= k < steps.len(),
        bootloaders_fault(steps, parts, scripts, from) is None,
    ensures
        bootloader_fault(steps, parts, scripts, k) is None,
    decreases k - from,
{
    if from < k {
        lemma_bootloaders_clean(steps, parts, scripts, from + 1, k);
    }
}

proof fn lemma_root_count_zero(parts: Seq<PartitionSpec>, k: int)
    requires
        0 <= k <= parts.len(),
    ensures
        root_count(parts.take(k)) == 0 <==> !root_before(parts, k),
    decreases k,
{
    if k == 0 {
        assert(parts.take(0).len() == 0);
    } else {
        lemma_root_count_zero(parts, k - 1);
        assert(parts.take(k).drop_last() =~= parts.take(k - 1));
        assert(parts.take(k).last() == parts[k - 1]);
        if root_before(parts, k) {
            let j = choose|j: int|
                0 <= j < k && j < parts.len() && (#[trigger] parts[j]).usage
                    == PartitionUsage::Rootfs;
            if j < k - 1 {
                assert(root_before(parts, k - 1));
            }
        }
        if root_before(parts, k - 1) {
            let j = choose|j: int|
                0 <= j < k - 1 && j < parts.len() && (#[trigger] parts[j]).usage
                    == PartitionUsage::Rootfs;
            assert(0 <= j < k && parts[j].usage == PartitionUsage::Rootfs);
        }
        if parts[k - 1].usage == PartitionUsage::Rootfs {
            assert(0 <= k - 1 < k && parts[k - 1].usage == PartitionUsage::Rootfs);
        }
    }
}

proof fn lemma_root_count_at_most_one(parts: Seq<PartitionSpec>, map: PartitionMapType, k: int)
    requires
        0 <= k <= parts.len(),
        partitions_fault(parts, map, 0) is None,
    ensures
        root_count(parts.take(k)) <= 1,
    decreases k,
{
    if k == 0 {
        assert(parts.take(0).len() == 0);
    } else {
        lemma_root_count_at_most_one(parts, map, k - 1);
        lemma_root_count_zero(parts, k - 1);
        lemma_partitions_clean(parts, map, 0, k - 1);
        assert(parts.take(k).drop_last() =~= parts.take(k - 1));
        assert(parts.take(k).last() == parts[k - 1]);
    }
}

/// Partition numbers: in a description that passes the check, the
/// partitions are numbered 1, 2, 3 and so on in the order in which they are
/// listed, with no gap and no repeat. So a description that numbers them
/// otherwise is refused.
pub proof fn lemma_checked_numbers_count_up(d: DeviceSpec, scripts: Seq<String>)
    requires
        d.check_spec(scripts) is Ok,
    ensures
        forall|i: int| 0 <= i < d.partitions@.len() ==> (#[trigger] d.partitions@[i]).num == i + 1,
        d.partitions@.len() == d.num_partitions,
{
    assert forall|i: int| 0 <= i < d.partitions@.len() implies (#[trigger] d.partitions@[i]).num
        == i + 1 by {
        lemma_partitions_clean(d.partitions@, d.partition_map, 0, i);
    }
}

/// The root partition: a description that passes the check has exactly one
/// partition that holds the root filesystem, and that one is mounted at `/`.
pub proof fn lemma_checked_has_one_root(d: DeviceSpec, scripts: Seq<String>)
    requires
        d.check_spec(scripts) is Ok,
    ensures
        root_count(d.partitions@) == 1,
        forall|i: int|
            0 <= i < d.partitions@.len() && (#[trigger] d.partitions@[i]).usage
                == PartitionUsage::Rootfs ==> is_root_mountpoint(d.partitions@[i].mountpoint),
{
    let parts = d.partitions@;
    lemma_root_count_at_most_one(parts, d.partition_map, parts.len() as int);
    lemma_root_count_zero(parts, parts.len() as int);
    assert(parts.take(parts.len() as int) =~= parts);
    assert forall|i: int|
        0 <= i < parts.len() && (#[trigger] parts[i]).usage
            == PartitionUsage::Rootfs implies is_root_mountpoint(parts[i].mountpoint) by {
        lemma_partitions_clean(parts, d.partition_map, 0, i);
    }
}

/// The root partition, the other way round: a description in which no
/// partition or more than one holds the root filesystem is refused.
pub proof fn lemma_root_count_refused(d: DeviceSpec, scripts: Seq<String>)
    requires
        root_count(d.partitions@) != 1,
    ensures
        d.check_spec(scripts) is Err,
{
    if d.check_spec(scripts) is Ok {
        lemma_checked_has_one_root(d, scripts);
    }
}

/// Swap by type: a description with a partition of the swap type is
/// refused, whatever that partition is used for.
pub proof fn lemma_swap_type_refused(d: DeviceSpec, scripts: Seq<String>, i: int)
    requires
        0 <= i < d.partitions@.len(),
        d.partitions@[i].part_type is Swap,
    ensures
        d.check_spec(scripts) is Err,
{
    if d.check_spec(scripts) is Ok {
        lemma_partitions_clean(d.partitions@, d.partition_map, 0, i);
    }
}

/// Swap by use: a description with a partition meant for swap is refused,
/// whatever the type of that partition.
pub proof fn lemma_swap_usage_refused(d: DeviceSpec, scripts: Seq<String>, i: int)
    requires
        0 <= i < d.partitions@.len(),
        d.partitions@[i].usage == PartitionUsage::Swap,
    ensures
        d.check_spec(scripts) is Err,
{
    if d.check_spec(scripts) is Ok {
        lemma_partitions_clean(d.partitions@, d.partition_map, 0, i);
    }
}

/// The size of the table: a description with a partition numbered above
/// what its kind of table holds (4 in an MBR, 128 in a GPT) is refused.
pub proof fn lemma_number_above_capacity_refused(d: DeviceSpec, scripts: Seq<String>, i: int)
    requires
        0 <= i < d.partitions@.len(),
        d.partitions@[i].num > d.partition_map.capacity(),
    ensures
        d.check_spec(scripts) is Err,
{
    if d.check_spec(scripts) is Ok {
        lemma_checked_numbers_count_up(d, scripts);
    }
}

/// Explicit starts: in a description that passes the check, no partition
/// is told to start inside the first 34 sectors, which the table occupies.
pub proof fn lemma_checked_starts_clear_table(d: DeviceSpec, scripts: Seq<String>, i: int)
    requires
        d.check_spec(scripts) is Ok,
        0 <= i < d.partitions@.len(),
        d.partitions@[i].start_sector is Some,
    ensures
        d.partitions@[i].start_sector->0 >= 34,
{
    lemma_partitions_clean(d.partitions@, d.partition_map, 0, i);
}

/// Bootloaders and the table: a description with a bootloader written at a
/// byte offset below 17408, that is inside the partition table, is refused.
pub proof fn lemma_low_flash_offset_refused(d: DeviceSpec, scripts: Seq<String>, k: int)
    requires
        0 <= k < d.bootloader_list().len(),
        d.bootloader_list()[k] matches BootloaderSpec::FlashOffset { offset, .. } && offset
            < MIN_FLASH_OFFSET,
    ensures
        d.check_spec(scripts) is Err,
{
    if d.check_spec(scripts) is Ok {
        lemma_bootloaders_clean(d.bootloader_list(), d.partitions@, scripts, 0, k);
    }
}

proof fn lemma_place_of_number(parts: Seq<PartitionSpec>, n: u64, from: int, i: int)
    requires
        0 <= from <= i < parts.len(),
        parts[i].num == n,
        forall|j: int| from <= j < i ==> (#[trigger] parts[j]).num != n,
    ensures
        place_of_number(parts, n, from) == Some(i),
    decreases i - from,
{
    if from < i {
        lemma_place_of_number(parts, n, from + 1, i);
    }
}

proof fn lemma_no_place_of_number(parts: Seq<PartitionSpec>, n: u64, from: int)
    requires
        0 <= from,
        forall|j: int| from <= j < parts.len() ==> (#[trigger] parts[j]).num != n,
    ensures
        place_of_number(parts, n, from) is None,
    decreases parts.len() - from,
{
    if from < parts.len() {
        lemma_no_place_of_number(parts, n, from + 1);
    }
}

/// Bootloaders and filesystems: a description with a bootloader written
/// onto the partition of a number, where the partition of that number
/// carries a filesystem, is refused.
pub proof fn lemma_flash_onto_filesystem_refused(d: DeviceSpec, scripts: Seq<String>, k: int, i: int)
    requires
        0 <= k < d.bootloader_list().len(),
        0 <= i < d.partitions@.len(),
        d.bootloader_list()[k] matches BootloaderSpec::FlashPartition { partition, .. }
            && d.partitions@[i].num == partition,
        d.partitions@[i].filesystem != FilesystemType::Unformatted,
    ensures
        d.check_spec(scripts) is Err,
{
    if d.check_spec(scripts) is Ok {
        let parts = d.partitions@;
        let n = d.bootloader_list()[k]->FlashPartition_partition;
        lemma_checked_numbers_count_up(d, scripts);
        lemma_place_of_number(parts, n, 0, i);
        lemma_bootloaders_clean(d.bootloader_list(), parts, scripts, 0, k);
    }
}

/// Bootloaders and missing partitions: a description with a bootloader
/// written onto the partition of a number that no partition has is
/// refused.
pub proof fn lemma_flash_onto_nothing_refused(d: DeviceSpec, scripts: Seq<String>, k: int)
    requires
        0 <= k < d.bootloader_list().len(),
        d.bootloader_list()[k] matches BootloaderSpec::FlashPartition { partition, .. } && forall|
            i: int,
        |
            0 <= i < d.partitions@.len() ==> (#[trigger] d.partitions@[i]).num != partition,
    ensures
        d.check_spec(scripts) is Err,
{
    if d.check_spec(scripts) is Ok {
        let n = d.bootloader_list()[k]->FlashPartition_partition;
        lemma_no_place_of_number(d.partitions@, n, 0);
        lemma_bootloaders_clean(d.bootloader_list(), d.partitions@, scripts, 0, k);
    }
}

} // verus!
