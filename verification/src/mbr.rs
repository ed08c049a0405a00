//! Laying out the partitions of a device in a master boot record.
//!
//! The table itself is an `mbrman::MBR`. This module sees it through its
//! geometry and its four primary entries, asks it where space is free, and
//! fills it. Extended and logical partitions are not built.

use std::collections::HashMap;
use mbrman::MBR;
use vstd::prelude::*;
use vstd::string::*;
use crate::device::DeviceSpec;
use crate::device::PartitionData;
use crate::device::PartitionMapData;
use crate::layout::first_fit;
use crate::layout::is_swap;
use crate::layout::partition_is_swap;
use crate::layout::last_of_number;
use crate::layout::number_used;
use crate::layout::lemma_first_fit_is_a_range;
use crate::layout::needs_offer;
use crate::layout::partition_size;
use crate::layout::partition_start;
use crate::layout::ranges_overlap;
use crate::layout::sectors_per_mebibyte;
use crate::layout::size_spec;
use crate::layout::start_spec;
use crate::layout::FreeRange;
use crate::layout::LayoutError;
use crate::layout::MEBIBYTE;
use crate::partition::PartitionSpec;
use crate::partition::PartitionUsage;
use crate::text::hex_digits;
use crate::text::to_hex;

verus! {

/// A master boot record of the crate `mbrman`. Its fields are reached only
/// through the functions below.
#[verifier::external_type_specification]
#[verifier::external_body]
pub struct ExMbr(MBR);

/// Boot flag of the partition to boot from.
pub const BOOT_ACTIVE: u8 = 0x80;

/// Boot flag of every other partition.
pub const BOOT_INACTIVE: u8 = 0x00;

/// What a table knows of its disk.
#[derive(Copy, Clone, Debug, PartialEq, Eq)]
pub struct MbrGeometry {
    /// Number of sectors of the disk.
    pub disk_size: u32,
    /// The multiple of sectors at which free space is offered.
    pub align: u32,
    /// Signature of the disk, as the table stores it.
    pub disk_signature: [u8; 4],
}

/// One primary entry of a table. An entry whose type byte is 0 is unused.
#[derive(Copy, Clone, Debug, PartialEq, Eq, Structural)]
pub struct MbrEntry {
    /// Boot flag.
    pub boot: u8,
    /// Type byte.
    pub sys: u8,
    /// First sector of the partition.
    pub starting_lba: u32,
    /// Number of sectors of the partition.
    pub sectors: u32,
}

/// The geometry of a table: what `disk_size`, `align` and
/// `header.disk_signature` hold.
pub uninterp spec fn mbr_geometry(table: MBR) -> MbrGeometry;

/// The four primary entries of a table, the entry of partition 1 first.
pub uninterp spec fn mbr_entries(table: MBR) -> Seq<MbrEntry>;

/// What `MBR::find_free_sectors` returns for a table of this size and
/// alignment with these primary entries, none of them a container of
/// logical partitions: the free ranges, in the order in which it lists
/// them.
pub uninterp spec fn mbr_free_sectors(disk_size: u32, align: u32, entries: Seq<MbrEntry>) -> Seq<
    FreeRange,
>;

/// The type bytes that `mbrman` takes for a container of logical partitions.
pub open spec fn is_container_byte(sys: u8) -> bool {
    sys == 0x05 || sys == 0x0f || sys == 0x85 || sys == 0xc5 || sys == 0xd5
}

/// Whether the range from `first` to `last` lies behind sector 0 and
/// before the end of the disk, and shares no sector with a used entry other
/// than the one at `slot`.
pub open spec fn mbr_fits(disk_size: u32, entries: Seq<MbrEntry>, slot: int, first: int, last: int) -> bool {
    &&& 1 <= first <= last < disk_size
    &&& forall|j: int|
        0 <= j < entries.len() && j != slot && (#[trigger] entries[j]).sys != 0 ==> !ranges_overlap(
            first,
            last,
            entries[j].starting_lba as int,
            entries[j].starting_lba + entries[j].sectors - 1,
        )
}

/// A table in which space can be looked for: it has four primary entries,
/// the alignment is not 0, the disk has a sector, adding the alignment to
/// the size of the disk does not overflow, and every used entry has a
/// sector, is no container of logical partitions, and lies on the disk
/// behind sector 0 and apart from all others.
pub open spec fn mbr_consistent(geo: MbrGeometry, entries: Seq<MbrEntry>) -> bool {
    &&& entries.len() == 4
    &&& geo.align > 0
    &&& geo.disk_size >= 1
    &&& geo.disk_size + geo.align <= u32::MAX
    &&& forall|i: int|
        0 <= i < entries.len() && (#[trigger] entries[i]).sys != 0 ==> {
            &&& entries[i].sectors >= 1
            &&& !is_container_byte(entries[i].sys)
            &&& mbr_fits(
                geo.disk_size,
                entries,
                i,
                entries[i].starting_lba as int,
                entries[i].starting_lba + entries[i].sectors - 1,
            )
        }
}

/// Reads the geometry from the public fields of an `mbrman::MBR`.
#[verifier::external_body]
fn mbr_read_geometry(table: &MBR) -> (geo: MbrGeometry)
    ensures
        geo == mbr_geometry(*table),
{
    MbrGeometry {
        disk_size: table.disk_size,
        align: table.align,
        disk_signature: table.header.disk_signature,
    }
}

/// Reads the primary entries through `MBRHeader::iter`, which hands out
/// the four of them in the order of their numbers.
#[verifier::external_body]
fn mbr_read_entries(table: &MBR) -> (entries: Vec<MbrEntry>)
    ensures
        entries@ == mbr_entries(*table),
        entries@.len() == 4,
{
    table.header.iter().map(
        |(_, p)|
            MbrEntry { boot: p.boot, sys: p.sys, starting_lba: p.starting_lba, sectors: p.sectors },
    ).collect()
}

/// Stores a primary entry under a partition number, by `IndexMut<usize>`
/// of `mbrman::MBR`, which for the numbers 1 to 4 reaches the entries of
/// the header. The entry at that number is replaced, with empty CHS
/// addresses; no other entry and nothing of the geometry changes.
#[verifier::external_body]
fn mbr_set_entry(table: &mut MBR, num: usize, entry: &MbrEntry)
    requires
        1 <= num <= 4,
        mbr_entries(*old(table)).len() == 4,
    ensures
        mbr_entries(*final(table)) == mbr_entries(*old(table)).update(num - 1, *entry),
        mbr_geometry(*final(table)) == mbr_geometry(*old(table)),
{
    table[num] = mbrman::MBRPartitionEntry {
        boot: entry.boot,
        first_chs: mbrman::CHS::empty(),
        sys: entry.sys,
        last_chs: mbrman::CHS::empty(),
        starting_lba: entry.starting_lba,
        sectors: entry.sectors,
    };
}

/// The free ranges of a table, from `MBR::find_free_sectors`. That function
/// computes with the ends of the used entries and panics where they do not
/// follow one another, hence the demand for a consistent table. Without a
/// container of logical partitions it depends on the size of the disk, the
/// alignment and the primary entries alone, moves the start of every range
/// up to a multiple of the alignment, and drops every range of length 0.
#[verifier::external_body]
fn mbr_find_free_sectors(table: &MBR) -> (free: Vec<FreeRange>)
    requires
        mbr_consistent(mbr_geometry(*table), mbr_entries(*table)),
    ensures
        free@ == mbr_free_sectors(
            mbr_geometry(*table).disk_size,
            mbr_geometry(*table).align,
            mbr_entries(*table),
        ),
        forall|k: int|
            0 <= k < free@.len() ==> 0 < (#[trigger] free@[k]).sectors <= u32::MAX
                && free@[k].start <= u32::MAX && free@[k].start % (mbr_geometry(*table).align
                as u64) == 0,
{
    table.find_free_sectors().into_iter().map(
        |(start, sectors)| FreeRange { start: u64::from(start), sectors: u64::from(sectors) },
    ).collect()
}

/// The first sector of the first free range of at least `size` sectors,
/// from `MBR::find_first_place`, which searches the ranges of
/// `MBR::find_free_sectors` in their order.
#[verifier::external_body]
fn mbr_find_first_place(table: &MBR, size: u32) -> (place: Option<u64>)
    requires
        mbr_consistent(mbr_geometry(*table), mbr_entries(*table)),
    ensures
        place == first_fit(
            mbr_free_sectors(
                mbr_geometry(*table).disk_size,
                mbr_geometry(*table).align,
                mbr_entries(*table),
            ),
            size as u64,
        ),
        place is Some ==> place->0 <= u32::MAX,
{
    table.find_first_place(size).map(u64::from)
}

/// The number that the four bytes of a disk signature spell, least
/// significant byte first.
pub open spec fn signature_value(b: Seq<u8>) -> u32 {
    (b[0] + b[1] * 0x100 + b[2] * 0x1_0000 + b[3] * 0x100_0000) as u32
}

/// The text of a disk signature: eight lower-case hexadecimal digits.
pub open spec fn signature_text(b: Seq<u8>) -> Seq<char> {
    hex_digits(signature_value(b) as nat, 8)
}

/// The identifier of partition `n` of a disk: the signature of the disk, a
/// hyphen, and the number of the partition in two hexadecimal digits.
pub open spec fn mbr_part_uuid(signature: Seq<u8>, n: u32) -> Seq<char> {
    signature_text(signature) + seq!['-'] + hex_digits(n as nat, 2)
}

/// The boot flag of a partition: active for the boot partition.
pub open spec fn boot_flag(usage: PartitionUsage) -> u8 {
    if usage == PartitionUsage::Boot {
        BOOT_ACTIVE
    } else {
        BOOT_INACTIVE
    }
}

/// The entry of a partition of `size` sectors from `start` on, or why
/// there is none. In this order: size and start fit 32 bits; the type has
/// a byte; the byte marks neither an unused entry nor a container of
/// logical partitions (which is how the table reads `0xd5` besides the
/// bytes refused as extended); the partition is no swap partition; the
/// sectors fit into the table beside the other entries.
pub open spec fn mbr_entry_spec(
    p: PartitionSpec,
    geo: MbrGeometry,
    entries: Seq<MbrEntry>,
    start: u64,
    size: u64,
) -> Result<MbrEntry, LayoutError> {
    if size > u32::MAX || start > u32::MAX {
        Err(LayoutError::ExceedsMbrLimit { num: p.num })
    } else {
        match p.part_type.byte_spec() {
            Err(cause) => Err(LayoutError::Type { num: p.num, cause }),
            Ok(sys) => if sys == 0 {
                Err(LayoutError::EmptyType { num: p.num })
            } else if is_container_byte(sys) {
                Err(LayoutError::ContainerType { num: p.num })
            } else if is_swap(p) {
                Err(LayoutError::Swap { num: p.num })
            } else if !mbr_fits(geo.disk_size, entries, p.num - 1, start as int, start + size - 1) {
                Err(LayoutError::InvalidBoundaries { num: p.num })
            } else {
                Ok(
                    MbrEntry {
                        boot: boot_flag(p.usage),
                        sys,
                        starting_lba: start as u32,
                        sectors: size as u32,
                    },
                )
            },
        }
    }
}

/// The entry that one partition gets in a table with the given entries, or
/// why it cannot be placed. In this order: its number is from 1 to 4; its
/// size is settled (something is free, a size of 0 is for the last
/// partition, no partition is smaller than a mebibyte) and fits 32 bits;
/// its start is settled; then what `mbr_entry_spec` asks.
pub open spec fn mbr_place_spec(
    p: PartitionSpec,
    num_partitions: u32,
    floor: u32,
    geo: MbrGeometry,
    entries: Seq<MbrEntry>,
) -> Result<MbrEntry, LayoutError> {
    let free = mbr_free_sectors(geo.disk_size, geo.align, entries);
    if p.num == 0 {
        Err(LayoutError::NumberZero)
    } else if p.num > 4 {
        Err(LayoutError::ExtendedUnsupported { num: p.num })
    } else {
        match size_spec(p, num_partitions, floor as u64, free) {
            Err(e) => Err(e),
            Ok(size) => if size > u32::MAX {
                Err(LayoutError::ExceedsMbrLimit { num: p.num })
            } else {
                match start_spec(p, floor as u64, first_fit(free, size)) {
                    Err(e) => Err(e),
                    Ok(start) => mbr_entry_spec(p, geo, entries, start, size),
                }
            },
        }
    }
}

/// The entries of a table after the partitions from place `from` on have
/// been placed one after the other, each into the table that the ones
/// before it left.
pub open spec fn mbr_layout_spec(
    parts: Seq<PartitionSpec>,
    num_partitions: u32,
    floor: u32,
    geo: MbrGeometry,
    entries: Seq<MbrEntry>,
    from: int,
) -> Result<Seq<MbrEntry>, LayoutError>
    decreases parts.len() - from,
{
    if from < 0 || from >= parts.len() {
        Ok(entries)
    } else {
        match mbr_place_spec(parts[from], num_partitions, floor, geo, entries) {
            Err(e) => Err(e),
            Ok(entry) => mbr_layout_spec(
                parts,
                num_partitions,
                floor,
                geo,
                entries.update(parts[from].num - 1, entry),
                from + 1,
            ),
        }
    }
}

/// The entries of a table after the partitions of a device have been laid
/// out in it, or why they cannot be. Sectors are `sector_size` bytes long;
/// `geo` and `entries` describe the table before.
pub open spec fn partition_mbr_spec(
    device: DeviceSpec,
    sector_size: u32,
    geo: MbrGeometry,
    entries: Seq<MbrEntry>,
) -> Result<Seq<MbrEntry>, LayoutError> {
    if sector_size == 0 || sector_size > MEBIBYTE {
        Err(LayoutError::UnsupportedSectorSize)
    } else if !mbr_consistent(geo, entries) {
        Err(LayoutError::InconsistentTable)
    } else {
        mbr_layout_spec(
            device.partitions@,
            device.num_partitions,
            sectors_per_mebibyte(sector_size as int) as u32,
            geo,
            entries,
            0,
        )
    }
}

/// Whether the record of partition `n` says what the table holds for it:
/// its number, its identifier made of the disk signature and the number,
/// and no filesystem yet.
pub open spec fn mbr_record_matches(record: PartitionData, n: u32, signature: Seq<u8>) -> bool {
    &&& 1 <= n <= 4
    &&& record.num == n
    &&& record.fs_uuid is None
    &&& record.part_uuid@ == mbr_part_uuid(signature, n)
}

/// Whether a partition whose start the table settles lies at a multiple of
/// `align` sectors.
pub open spec fn mbr_aligned_as(entries: Seq<MbrEntry>, p: PartitionSpec, align: u32) -> bool {
    &&& 1 <= p.num <= entries.len()
    &&& align > 0
    &&& entries[p.num - 1].starting_lba % align == 0
}

/// Whether a range of sectors fits into a table beside the used entries
/// other than the one at `slot`.
pub fn fits(disk_size: u32, entries: &Vec<MbrEntry>, slot: usize, first: u64, last: u64) -> (ok: bool)
    ensures
        ok == mbr_fits(disk_size, entries@, slot as int, first as int, last as int),
{
    if !(1 <= first && first <= last && last < disk_size as u64) {
        return false;
    }
    let mut j: usize = 0;
    while j < entries.len()
        invariant
            j <= entries.len(),
            forall|k: int|
                0 <= k < j && k != slot && (#[trigger] entries@[k]).sys != 0 ==> !ranges_overlap(
                    first as int,
                    last as int,
                    entries@[k].starting_lba as int,
                    entries@[k].starting_lba + entries@[k].sectors - 1,
                ),
        decreases entries.len() - j,
    {
        let e = &entries[j];
        if j != slot && e.sys != 0 {
            let e_first = e.starting_lba as u64;
            let e_end = e.starting_lba as u64 + e.sectors as u64;
            if first < e_end && e_first <= last {
                return false;
            }
        }
        j += 1;
    }
    true
}

/// Whether space can be looked for in a table with this geometry and
/// these entries.
pub fn is_consistent(geo: &MbrGeometry, entries: &Vec<MbrEntry>) -> (ok: bool)
    ensures
        ok == mbr_consistent(*geo, entries@),
{
    if entries.len() != 4 || geo.align == 0 || geo.disk_size < 1 || geo.disk_size > u32::MAX
        - geo.align {
        return false;
    }
    let mut i: usize = 0;
    while i < entries.len()
        invariant
            i <= entries.len(),
            forall|k: int|
                0 <= k < i && (#[trigger] entries@[k]).sys != 0 ==> {
                    &&& entries@[k].sectors >= 1
                    &&& !is_container_byte(entries@[k].sys)
                    &&& mbr_fits(
                        geo.disk_size,
                        entries@,
                        k,
                        entries@[k].starting_lba as int,
                        entries@[k].starting_lba + entries@[k].sectors - 1,
                    )
                },
        decreases entries.len() - i,
    {
        let e = &entries[i];
        if e.sys != 0 {
            if e.sectors < 1 || is_container(e.sys) {
                return false;
            }
            let last = e.starting_lba as u64 + (e.sectors as u64 - 1);
            if !fits(geo.disk_size, entries, i, e.starting_lba as u64, last) {
                return false;
            }
        }
        i += 1;
    }
    true
}

fn is_container(sys: u8) -> (b: bool)
    ensures
        b == is_container_byte(sys),
{
    sys == 0x05 || sys == 0x0f || sys == 0x85 || sys == 0xc5 || sys == 0xd5
}

/// A consistent table stays consistent when an entry that fits replaces the
/// entry at `slot`.
pub proof fn lemma_fit_keeps_consistent(geo: MbrGeometry, entries: Seq<MbrEntry>, slot: int, entry: MbrEntry)
    requires
        mbr_consistent(geo, entries),
        0 <= slot < entries.len(),
        entry.sys != 0,
        entry.sectors >= 1,
        !is_container_byte(entry.sys),
        mbr_fits(
            geo.disk_size,
            entries,
            slot,
            entry.starting_lba as int,
            entry.starting_lba + entry.sectors - 1,
        ),
    ensures
        mbr_consistent(geo, entries.update(slot, entry)),
{
    let after = entries.update(slot, entry);
    assert forall|i: int| 0 <= i < after.len() && (#[trigger] after[i]).sys != 0 implies mbr_fits(
        geo.disk_size,
        after,
        i,
        after[i].starting_lba as int,
        after[i].starting_lba + after[i].sectors - 1,
    ) by {
        if i == slot {
            assert forall|j: int|
                0 <= j < after.len() && j != i && (#[trigger] after[j]).sys != 0 implies !ranges_overlap(
                entry.starting_lba as int,
                entry.starting_lba + entry.sectors - 1,
                after[j].starting_lba as int,
                after[j].starting_lba + after[j].sectors - 1,
            ) by {
                assert(after[j] == entries[j]);
            }
        } else {
            assert(after[i] == entries[i]);
            assert forall|j: int|
                0 <= j < after.len() && j != i && (#[trigger] after[j]).sys != 0 implies !ranges_overlap(
                after[i].starting_lba as int,
                after[i].starting_lba + after[i].sectors - 1,
                after[j].starting_lba as int,
                after[j].starting_lba + after[j].sectors - 1,
            ) by {
                if j == slot {
                    assert(entries[i].sys != 0);
                } else {
                    assert(after[j] == entries[j]);
                }
            }
        }
    }
    assert forall|i: int| 0 <= i < after.len() && (#[trigger] after[i]).sys != 0 implies after[i].sectors
        >= 1 && !is_container_byte(after[i].sys) by {
        if i != slot {
            assert(after[i] == entries[i]);
        }
    }
}

/// Decides the entry of a partition of `size` sectors from `start` on.
pub fn mbr_partition_entry(
    p: &PartitionSpec,
    geo: &MbrGeometry,
    entries: &Vec<MbrEntry>,
    start: u64,
    size: u64,
) -> (r: Result<MbrEntry, LayoutError>)
    requires
        p.num >= 1,
        size >= 1,
    ensures
        r == mbr_entry_spec(*p, *geo, entries@, start, size),
{
    if size > u32::MAX as u64 || start > u32::MAX as u64 {
        return Err(LayoutError::ExceedsMbrLimit { num: p.num });
    }
    let sys = match p.part_type.to_byte() {
        Err(cause) => {
            return Err(LayoutError::Type { num: p.num, cause });
        },
        Ok(sys) => sys,
    };
    if sys == 0 {
        return Err(LayoutError::EmptyType { num: p.num });
    }
    if is_container(sys) {
        return Err(LayoutError::ContainerType { num: p.num });
    }
    if partition_is_swap(p) {
        return Err(LayoutError::Swap { num: p.num });
    }
    if !fits(geo.disk_size, entries, (p.num - 1) as usize, start, start + (size - 1)) {
        return Err(LayoutError::InvalidBoundaries { num: p.num });
    }
    let boot = match p.usage {
        PartitionUsage::Boot => BOOT_ACTIVE,
        _ => BOOT_INACTIVE,
    };
    Ok(MbrEntry { boot, sys, starting_lba: start as u32, sectors: size as u32 })
}

/// Reads a disk signature as a number, least significant byte first.
pub fn signature_number(b: &[u8; 4]) -> (v: u32)
    ensures
        v == signature_value(b@),
{
    let v: u64 = b[0] as u64 + b[1] as u64 * 0x100 + b[2] as u64 * 0x1_0000 + b[3] as u64
        * 0x100_0000;
    v as u32
}

/// The verdict on placing one partition in a table with the given
/// geometry and entries, where sectors are `sector_size` bytes long: the
/// entry that it gets, or why it gets none. Sectors hold from one byte to
/// a mebibyte, the table is consistent, and then `mbr_place_spec` decides.
pub open spec fn mbr_place_verdict(
    p: PartitionSpec,
    num_partitions: u32,
    sector_size: u32,
    geo: MbrGeometry,
    entries: Seq<MbrEntry>,
) -> Result<MbrEntry, LayoutError> {
    if sector_size == 0 || sector_size > MEBIBYTE {
        Err(LayoutError::UnsupportedSectorSize)
    } else if !mbr_consistent(geo, entries) {
        Err(LayoutError::InconsistentTable)
    } else {
        mbr_place_spec(
            p,
            num_partitions,
            sectors_per_mebibyte(sector_size as int) as u32,
            geo,
            entries,
        )
    }
}

/// What placing one partition in a table comes to: the table before and
/// after, and what is returned.
///
/// The geometry of the table stays as it is. On success the verdict of
/// `mbr_place_verdict` is the entry of the partition, which stands at the
/// partition's number; no other entry changes; the table is consistent; a
/// start that the table has offered is a multiple of its alignment; and
/// the record holds the number and the identifier made of the disk
/// signature and the number, and no filesystem yet. On failure the error
/// is the verdict and the table is as it was.
pub open spec fn mbr_partition_placed(
    p: PartitionSpec,
    num_partitions: u32,
    sector_size: u32,
    before: MBR,
    after: MBR,
    r: Result<PartitionData, LayoutError>,
) -> bool {
    let geo = mbr_geometry(before);
    let verdict = mbr_place_verdict(p, num_partitions, sector_size, geo, mbr_entries(before));
    &&& mbr_geometry(after) == geo
    &&& match r {
        Ok(record) => {
            &&& verdict is Ok
            &&& 1 <= p.num <= 4
            &&& mbr_entries(after) == mbr_entries(before).update(p.num - 1, verdict->Ok_0)
            &&& mbr_consistent(geo, mbr_entries(after))
            &&& needs_offer(p) ==> geo.align > 0 && verdict->Ok_0.starting_lba % geo.align == 0
            &&& mbr_record_matches(record, p.num, geo.disk_signature@)
        },
        Err(e) => {
            &&& verdict == Err::<MbrEntry, LayoutError>(e)
            &&& mbr_entries(after) == mbr_entries(before)
        },
    }
}

/// Places one partition in a table. Sectors are `sector_size` bytes long;
/// `num_partitions` is the declared number of partitions of the device.
///
/// The partition gets the entry that `mbr_place_verdict` gives for the
/// table as it is. A partition that cannot be placed leaves the table as
/// it was.
pub fn place_mbr_partition(table: &mut MBR, p: &PartitionSpec, num_partitions: u32, sector_size: u32) -> (r:
    Result<PartitionData, LayoutError>)
    ensures
        mbr_partition_placed(*p, num_partitions, sector_size, *old(table), *final(table), r),
{
    if sector_size == 0 || sector_size as u64 > MEBIBYTE {
        return Err(LayoutError::UnsupportedSectorSize);
    }
    let per_mebibyte: u64 = MEBIBYTE / sector_size as u64;
    assert(1 <= per_mebibyte <= MEBIBYTE) by (nonlinear_arith)
        requires
            per_mebibyte == MEBIBYTE as int / sector_size as int,
            0 < sector_size <= MEBIBYTE,
            MEBIBYTE == 1048576,
    ;
    let floor: u32 = per_mebibyte as u32;
    let geo = mbr_read_geometry(table);
    let entries = mbr_read_entries(table);
    if !is_consistent(&geo, &entries) {
        return Err(LayoutError::InconsistentTable);
    }
    if p.num == 0 {
        return Err(LayoutError::NumberZero);
    }
    if p.num > 4 {
        return Err(LayoutError::ExtendedUnsupported { num: p.num });
    }
    let free = mbr_find_free_sectors(table);
    let size = match partition_size(p, num_partitions, floor as u64, &free) {
        Err(e) => {
            return Err(e);
        },
        Ok(size) => size,
    };
    if size > u32::MAX as u64 {
        return Err(LayoutError::ExceedsMbrLimit { num: p.num });
    }
    let offered = if p.start_sector.is_none() && p.num != 1 {
        mbr_find_first_place(table, size as u32)
    } else {
        None
    };
    let start = match partition_start(p, floor as u64, offered) {
        Err(e) => {
            return Err(e);
        },
        Ok(start) => start,
    };
    proof {
        if needs_offer(*p) {
            lemma_first_fit_is_a_range(free@, size);
        }
    }
    let entry = match mbr_partition_entry(p, &geo, &entries, start, size) {
        Err(e) => {
            return Err(e);
        },
        Ok(entry) => entry,
    };
    mbr_set_entry(table, p.num as usize, &entry);
    let mut part_uuid = to_hex(signature_number(&geo.disk_signature) as u64, 8);
    part_uuid.append("-");
    part_uuid.append(to_hex(p.num as u64, 2).as_str());
    proof {
        reveal_strlit("-");
        assert("-"@ =~= seq!['-']);
        lemma_fit_keeps_consistent(geo, entries@, p.num - 1, entry);
    }
    Ok(PartitionData { num: p.num, part_uuid, fs_uuid: None })
}

/// What laying out the partitions of a device in a table comes to: the
/// table before and after, and what is returned.
///
/// The geometry of the table stays as it is. On success the entries of
/// the table are those that `partition_mbr_spec` gives, the table is
/// consistent, the identifier of the table is the text of the signature of
/// the disk, there is one record for each partition number, with the
/// identifier made of signature and number, and each partition whose
/// start the table settles, and whose number is not used again, starts
/// at a multiple of the alignment of the table. On failure the error is the
/// one that `partition_mbr_spec` gives.
pub open spec fn mbr_partitioned(
    device: DeviceSpec,
    sector_size: u32,
    before: MBR,
    after: MBR,
    r: Result<PartitionMapData, LayoutError>,
) -> bool {
    &&& mbr_geometry(after) == mbr_geometry(before)
    &&& match r {
        Ok(pm) => {
            &&& partition_mbr_spec(device, sector_size, mbr_geometry(before), mbr_entries(before))
                == Ok::<Seq<MbrEntry>, LayoutError>(mbr_entries(after))
            &&& mbr_consistent(mbr_geometry(after), mbr_entries(after))
            &&& pm.uuid@ == signature_text(mbr_geometry(before).disk_signature@)
            &&& forall|n: u32|
                pm.data@.contains_key(n) <==> number_used(
                    device.partitions@,
                    n,
                    device.partitions@.len() as int,
                )
            &&& forall|n: u32| #[trigger]
                pm.data@.contains_key(n) ==> mbr_record_matches(
                    pm.data@[n],
                    n,
                    mbr_geometry(before).disk_signature@,
                )
            &&& forall|k: int|
                0 <= k < device.partitions@.len() && #[trigger] last_of_number(
                    device.partitions@,
                    k,
                    device.partitions@.len() as int,
                ) && needs_offer(device.partitions@[k]) ==> mbr_aligned_as(
                    mbr_entries(after),
                    device.partitions@[k],
                    mbr_geometry(after).align,
                )
        },
        Err(e) => partition_mbr_spec(device, sector_size, mbr_geometry(before), mbr_entries(before))
            == Err::<Seq<MbrEntry>, LayoutError>(e),
    }
}

/// Lays out the partitions of a device in a table and records the
/// identifiers of each. Sectors are `sector_size` bytes long.
///
/// The partitions are placed in the order in which they are listed; each
/// gets the entry that `partition_mbr_spec` gives, the boot partition being
/// the active one. When all are placed the table is consistent: its
/// partitions lie on the disk and no two of them overlap. After a failure
/// the table holds the partitions placed before it.
pub fn partition_mbr(device: &DeviceSpec, table: &mut MBR, sector_size: u32) -> (r: Result<
    PartitionMapData,
    LayoutError,
>)
    ensures
        mbr_partitioned(*device, sector_size, *old(table), *final(table), r),
{
    broadcast use vstd::std_specs::hash::group_hash_axioms;

    if sector_size == 0 || sector_size as u64 > MEBIBYTE {
        return Err(LayoutError::UnsupportedSectorSize);
    }
    let per_mebibyte: u64 = MEBIBYTE / sector_size as u64;
    assert(1 <= per_mebibyte <= MEBIBYTE) by (nonlinear_arith)
        requires
            per_mebibyte == MEBIBYTE as int / sector_size as int,
            0 < sector_size <= MEBIBYTE,
            MEBIBYTE == 1048576,
    ;
    let floor: u32 = per_mebibyte as u32;
    let geo = mbr_read_geometry(table);
    let entries = mbr_read_entries(table);
    if !is_consistent(&geo, &entries) {
        return Err(LayoutError::InconsistentTable);
    }
    let signature = to_hex(signature_number(&geo.disk_signature) as u64, 8);
    let mut data: HashMap<u32, PartitionData> = HashMap::new();
    let parts = &device.partitions;
    let num_partitions = device.num_partitions;
    let mut i: usize = 0;
    while i < parts.len()
        invariant
            i <= parts.len(),
            parts@ == device.partitions@,
            num_partitions == device.num_partitions,
            0 < sector_size <= MEBIBYTE,
            floor >= 1,
            floor == sectors_per_mebibyte(sector_size as int),
            geo == mbr_geometry(*table),
            geo == mbr_geometry(*old(table)),
            mbr_consistent(geo, mbr_entries(*table)),
            partition_mbr_spec(
                *device,
                sector_size,
                mbr_geometry(*old(table)),
                mbr_entries(*old(table)),
            ) == mbr_layout_spec(parts@, num_partitions, floor, geo, mbr_entries(*table), i as int),
            forall|n: u32| data@.contains_key(n) <==> number_used(parts@, n, i as int),
            forall|n: u32| #[trigger]
                data@.contains_key(n) ==> mbr_record_matches(data@[n], n, geo.disk_signature@),
            forall|k: int|
                0 <= k < i && #[trigger] last_of_number(parts@, k, i as int) && needs_offer(
                    parts@[k],
                ) ==> mbr_aligned_as(mbr_entries(*table), parts@[k], geo.align),
        decreases parts.len() - i,
    {
        let p = &parts[i];
        let ghost before = mbr_entries(*table);
        let record = match place_mbr_partition(table, p, num_partitions, sector_size) {
            Err(e) => {
                return Err(e);
            },
            Ok(record) => record,
        };
        data.insert(p.num, record);
        proof {
            let after = mbr_entries(*table);
            assert forall|k: int|
                0 <= k < i + 1 && #[trigger] last_of_number(parts@, k, i + 1) && needs_offer(
                    parts@[k],
                ) implies mbr_aligned_as(after, parts@[k], geo.align) by {
                if k < i {
                    assert(parts@[i as int].num != parts@[k].num);
                    assert(last_of_number(parts@, k, i as int));
                    assert(after[parts@[k].num - 1] == before[parts@[k].num - 1]);
                }
            }
            assert forall|n: u32| data@.contains_key(n) <==> number_used(parts@, n, i + 1) by {
                if number_used(parts@, n, i + 1) {
                    let k = choose|k: int|
                        0 <= k < i + 1 && k < parts@.len() && (#[trigger] parts@[k]).num == n;
                    if k < i {
                        assert(number_used(parts@, n, i as int));
                    }
                }
                if number_used(parts@, n, i as int) {
                    let k = choose|k: int|
                        0 <= k < i && k < parts@.len() && (#[trigger] parts@[k]).num == n;
                    assert(0 <= k < i + 1 && parts@[k].num == n);
                }
                if n == p.num {
                    assert(0 <= i < i + 1 && parts@[i as int].num == n);
                }
            }
        }
        i += 1;
    }
    Ok(PartitionMapData { uuid: signature, data })
}

} // verus!
