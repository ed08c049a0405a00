//! Laying out the partitions of a device in a GUID partition table.
//!
//! The table itself is a `gptman::GPT`. This module sees it through its
//! geometry and its entries, asks it where space is free, and fills it.

use std::collections::HashMap;
use gptman::GPT;
use vstd::prelude::*;
use vstd::string::*;
use crate::device::DeviceSpec;
use crate::device::PartitionData;
use crate::device::PartitionMapData;
use crate::guid::all_zero;
use crate::guid::guid_from_bytes_le;
use crate::guid::guid_from_mixed_endian;
use crate::guid::guid_mixed_endian;
use crate::guid::guid_text;
use crate::guid::guid_to_bytes_le;
use crate::guid::guid_to_string;
use crate::guid::lemma_guid_round_trip;
use crate::guid::lemma_guid_zero_bytes;
use crate::guid::random_guid;
use crate::layout::ranges_overlap;
use crate::layout::sectors_per_mebibyte;
use crate::layout::first_fit;
use crate::layout::needs_offer;
use crate::layout::is_swap;
use crate::layout::partition_is_swap;
use crate::layout::last_of_number;
use crate::layout::number_used;
use crate::layout::lemma_first_fit_is_a_range;
use crate::layout::partition_size;
use crate::layout::partition_start;
use crate::layout::size_spec;
use crate::layout::start_spec;
use crate::layout::FreeRange;
use crate::layout::LayoutError;
use crate::layout::Span;
use crate::layout::MEBIBYTE;
use crate::partition::PartitionSpec;

verus! {

/// A GUID partition table of the crate `gptman`. Its fields are reached only
/// through the functions below.
#[verifier::external_type_specification]
#[verifier::external_body]
pub struct ExGpt(GPT);

/// What a table knows of its disk.
#[derive(Copy, Clone, Debug, PartialEq, Eq)]
pub struct GptGeometry {
    /// First sector that a partition may use.
    pub first_usable: u64,
    /// Last sector that a partition may use.
    pub last_usable: u64,
    /// The multiple of sectors at which free space is offered.
    pub align: u64,
    /// GUID of the disk, as the table stores it.
    pub disk_guid: [u8; 16],
}

/// One entry of a table. An entry whose type GUID is all zero is unused.
#[derive(Copy, Clone, Debug, PartialEq, Eq)]
pub struct GptEntry {
    /// Type GUID, as the table stores it.
    pub type_guid: [u8; 16],
    /// GUID of the partition, as the table stores it.
    pub unique_guid: [u8; 16],
    /// First sector of the partition.
    pub first_lba: u64,
    /// Last sector of the partition.
    pub last_lba: u64,
}

/// The sectors that an entry occupies; `None` for an unused entry.
pub type Extent = Option<Span>;

/// The geometry of a table: what `header.first_usable_lba`,
/// `header.last_usable_lba`, `align` and `header.disk_guid` hold.
pub uninterp spec fn gpt_geometry(table: GPT) -> GptGeometry;

/// The entries of a table, the entry of partition 1 first.
pub uninterp spec fn gpt_entries(table: GPT) -> Seq<GptEntry>;

/// The names of the entries of a table, the name of partition 1 first:
/// what `partition_name.as_str()` gives for each.
pub uninterp spec fn gpt_names(table: GPT) -> Seq<Seq<char>>;

/// What `GPT::find_free_sectors` returns for a table with this geometry
/// and these extents: the free ranges, in the order in which it lists them.
pub uninterp spec fn gpt_free_sectors(
    first_usable: u64,
    last_usable: u64,
    align: u64,
    extents: Seq<Extent>,
) -> Seq<FreeRange>;

/// The extent of one entry.
pub open spec fn extent_of(e: GptEntry) -> Extent {
    if all_zero(e.type_guid@) {
        None
    } else {
        Some(Span { first: e.first_lba, last: e.last_lba })
    }
}

/// The extent of each entry.
pub open spec fn extents_of(entries: Seq<GptEntry>) -> Seq<Extent> {
    Seq::new(entries.len(), |i: int| extent_of(entries[i]))
}

/// Whether the range from `first` to `last` lies in the usable sectors and
/// shares no sector with an entry other than the one at `slot`.
pub open spec fn gpt_fits(geo: GptGeometry, extents: Seq<Extent>, slot: int, first: int, last: int) -> bool {
    &&& geo.first_usable <= first <= last <= geo.last_usable
    &&& forall|j: int|
        0 <= j < extents.len() && j != slot && (#[trigger] extents[j]) is Some ==> !ranges_overlap(
            first,
            last,
            extents[j]->0.first as int,
            extents[j]->0.last as int,
        )
}

/// A table in which space can be looked for: the alignment is not 0, the
/// usable sectors can be counted (the first is not 0 and not beyond the one
/// after the last, and adding the alignment to the last does not overflow),
/// and every used entry lies in the usable sectors and apart from all
/// others.
pub open spec fn gpt_consistent(geo: GptGeometry, extents: Seq<Extent>) -> bool {
    &&& geo.align > 0
    &&& 1 <= geo.first_usable <= geo.last_usable + 1
    &&& geo.last_usable + geo.align <= u64::MAX
    &&& forall|i: int|
        0 <= i < extents.len() && (#[trigger] extents[i]) is Some ==> gpt_fits(
            geo,
            extents,
            i,
            extents[i]->0.first as int,
            extents[i]->0.last as int,
        )
}

/// Reads the geometry from the public fields of a `gptman::GPT`.
#[verifier::external_body]
fn gpt_read_geometry(table: &GPT) -> (geo: GptGeometry)
    ensures
        geo == gpt_geometry(*table),
{
    GptGeometry {
        first_usable: table.header.first_usable_lba,
        last_usable: table.header.last_usable_lba,
        align: table.align,
        disk_guid: table.header.disk_guid,
    }
}

/// Reads the entries through `GPT::iter`, which hands them out in the order
/// of their numbers. Every entry has a name, so there are as many names.
#[verifier::external_body]
fn gpt_read_entries(table: &GPT) -> (entries: Vec<GptEntry>)
    ensures
        entries@ == gpt_entries(*table),
        entries@.len() == gpt_names(*table).len(),
{
    table.iter().map(
        |(_, p)|
            GptEntry {
                type_guid: p.partition_type_guid,
                unique_guid: p.unique_partition_guid,
                first_lba: p.starting_lba,
                last_lba: p.ending_lba,
            },
    ).collect()
}

/// Sets the public field `align` of a `gptman::GPT`. Nothing else changes.
#[verifier::external_body]
fn gpt_set_align(table: &mut GPT, align: u64)
    ensures
        gpt_geometry(*final(table)).first_usable == gpt_geometry(*old(table)).first_usable,
        gpt_geometry(*final(table)).last_usable == gpt_geometry(*old(table)).last_usable,
        gpt_geometry(*final(table)).disk_guid == gpt_geometry(*old(table)).disk_guid,
        gpt_geometry(*final(table)).align == align,
        gpt_entries(*final(table)) == gpt_entries(*old(table)),
        gpt_names(*final(table)) == gpt_names(*old(table)),
{
    table.align = align;
}

/// Stores an entry under a partition number, by `IndexMut<u32>` of
/// `gptman::GPT`, which panics on a number that the table has no entry for.
/// The entry at that number is replaced, its attribute bits are 0 and
/// `name` is its name (the table keeps the whole name and writes the first
/// 36 UTF-16 units of it to disk); no other entry, no other name and
/// nothing of the geometry changes.
#[verifier::external_body]
fn gpt_set_entry(table: &mut GPT, num: u32, entry: &GptEntry, name: &str)
    requires
        1 <= num <= gpt_entries(*old(table)).len(),
    ensures
        gpt_entries(*final(table)) == gpt_entries(*old(table)).update(num - 1, *entry),
        gpt_names(*final(table)) == gpt_names(*old(table)).update(num - 1, name@),
        gpt_geometry(*final(table)) == gpt_geometry(*old(table)),
{
    table[num] = gptman::GPTPartitionEntry {
        partition_type_guid: entry.type_guid,
        unique_partition_guid: entry.unique_guid,
        starting_lba: entry.first_lba,
        ending_lba: entry.last_lba,
        attribute_bits: 0,
        partition_name: name.into(),
    };
}

/// The free ranges of a table, from `GPT::find_free_sectors`. That function
/// computes with the ends of the used entries and panics where they do not
/// follow one another, hence the demand for a consistent table. It depends
/// on the usable sectors, the alignment and the extents alone, moves the
/// start of every range up to a multiple of the alignment, and drops every
/// range of length 0.
#[verifier::external_body]
fn gpt_find_free_sectors(table: &GPT) -> (free: Vec<FreeRange>)
    requires
        gpt_consistent(gpt_geometry(*table), extents_of(gpt_entries(*table))),
    ensures
        free@ == gpt_free_sectors(
            gpt_geometry(*table).first_usable,
            gpt_geometry(*table).last_usable,
            gpt_geometry(*table).align,
            extents_of(gpt_entries(*table)),
        ),
        forall|k: int|
            0 <= k < free@.len() ==> (#[trigger] free@[k]).sectors > 0 && free@[k].start
                % gpt_geometry(*table).align == 0,
{
    table.find_free_sectors().into_iter().map(|(start, sectors)| FreeRange { start, sectors }).collect()
}

/// The first sector of the first free range of at least `size` sectors,
/// from `GPT::find_first_place`, which searches the ranges of
/// `GPT::find_free_sectors` in their order.
#[verifier::external_body]
fn gpt_find_first_place(table: &GPT, size: u64) -> (place: Option<u64>)
    requires
        gpt_consistent(gpt_geometry(*table), extents_of(gpt_entries(*table))),
    ensures
        place == first_fit(
            gpt_free_sectors(
                gpt_geometry(*table).first_usable,
                gpt_geometry(*table).last_usable,
                gpt_geometry(*table).align,
                extents_of(gpt_entries(*table)),
            ),
            size,
        ),
{
    table.find_first_place(size)
}

fn is_zero_guid(b: &[u8; 16]) -> (z: bool)
    ensures
        z == all_zero(b@),
{
    let mut i: usize = 0;
    while i < 16
        invariant
            i <= 16,
            b@.len() == 16,
            forall|j: int| 0 <= j < i ==> b@[j] == 0,
        decreases 16 - i,
    {
        if b[i] != 0 {
            return false;
        }
        i += 1;
    }
    true
}

/// The extents of a list of entries.
pub fn extents(entries: &Vec<GptEntry>) -> (ext: Vec<Extent>)
    ensures
        ext@ == extents_of(entries@),
{
    let mut ext: Vec<Extent> = Vec::new();
    let mut i: usize = 0;
    while i < entries.len()
        invariant
            i <= entries.len(),
            ext@.len() == i,
            forall|j: int| 0 <= j < i ==> ext@[j] == extent_of(entries@[j]),
        decreases entries.len() - i,
    {
        let e = &entries[i];
        if is_zero_guid(&e.type_guid) {
            ext.push(None);
        } else {
            ext.push(Some(Span { first: e.first_lba, last: e.last_lba }));
        }
        i += 1;
    }
    assert(ext@ =~= extents_of(entries@));
    ext
}

/// Whether a range of sectors fits into a table beside the entries other
/// than the one at `slot`.
pub fn fits(geo: &GptGeometry, ext: &Vec<Extent>, slot: usize, first: u64, last: u64) -> (ok: bool)
    ensures
        ok == gpt_fits(*geo, ext@, slot as int, first as int, last as int),
{
    if !(geo.first_usable <= first && first <= last && last <= geo.last_usable) {
        return false;
    }
    let mut j: usize = 0;
    while j < ext.len()
        invariant
            j <= ext.len(),
            forall|k: int|
                0 <= k < j && k != slot && (#[trigger] ext@[k]) is Some ==> !ranges_overlap(
                    first as int,
                    last as int,
                    ext@[k]->0.first as int,
                    ext@[k]->0.last as int,
                ),
        decreases ext.len() - j,
    {
        if j != slot {
            if let Some(span) = ext[j] {
                if first <= span.last && span.first <= last {
                    return false;
                }
            }
        }
        j += 1;
    }
    true
}

/// Whether space can be looked for in a table with this geometry and
/// these extents.
pub fn is_consistent(geo: &GptGeometry, ext: &Vec<Extent>) -> (ok: bool)
    ensures
        ok == gpt_consistent(*geo, ext@),
{
    if geo.align == 0 || geo.first_usable < 1 || geo.last_usable > u64::MAX - geo.align
        || geo.first_usable > geo.last_usable + 1 {
        return false;
    }
    let mut i: usize = 0;
    while i < ext.len()
        invariant
            i <= ext.len(),
            forall|k: int|
                0 <= k < i && (#[trigger] ext@[k]) is Some ==> gpt_fits(
                    *geo,
                    ext@,
                    k,
                    ext@[k]->0.first as int,
                    ext@[k]->0.last as int,
                ),
        decreases ext.len() - i,
    {
        if let Some(span) = ext[i] {
            if !fits(geo, ext, i, span.first, span.last) {
                return false;
            }
        }
        i += 1;
    }
    true
}

/// A consistent table stays consistent when a range that fits replaces the
/// entry at `slot`.
pub proof fn lemma_fit_keeps_consistent(
    geo: GptGeometry,
    extents: Seq<Extent>,
    slot: int,
    first: u64,
    last: u64,
)
    requires
        gpt_consistent(geo, extents),
        0 <= slot < extents.len(),
        gpt_fits(geo, extents, slot, first as int, last as int),
    ensures
        gpt_consistent(geo, extents.update(slot, Some(Span { first, last }))),
{
    let after = extents.update(slot, Some(Span { first, last }));
    assert forall|i: int| 0 <= i < after.len() && (#[trigger] after[i]) is Some implies gpt_fits(
        geo,
        after,
        i,
        after[i]->0.first as int,
        after[i]->0.last as int,
    ) by {
        if i == slot {
            assert forall|j: int|
                0 <= j < after.len() && j != i && (#[trigger] after[j]) is Some implies !ranges_overlap(
                first as int,
                last as int,
                after[j]->0.first as int,
                after[j]->0.last as int,
            ) by {
                assert(after[j] == extents[j]);
            }
        } else {
            assert(after[i] == extents[i]);
            assert forall|j: int|
                0 <= j < after.len() && j != i && (#[trigger] after[j]) is Some implies !ranges_overlap(
                after[i]->0.first as int,
                after[i]->0.last as int,
                after[j]->0.first as int,
                after[j]->0.last as int,
            ) by {
                if j == slot {
                    assert(extents[i] is Some);
                } else {
                    assert(after[j] == extents[j]);
                }
            }
        }
    }
}

/// The sectors of a partition of `size` sectors from `start` on, or why
/// it gets none. In this order: the partition is no swap partition; the
/// table has an entry for its number; the sectors fit into the table
/// beside the other entries.
pub open spec fn gpt_extent_spec(
    p: PartitionSpec,
    geo: GptGeometry,
    extents: Seq<Extent>,
    start: u64,
    size: u64,
) -> Result<Span, LayoutError> {
    if is_swap(p) {
        Err(LayoutError::Swap { num: p.num })
    } else if p.num > extents.len() {
        Err(LayoutError::NumberOutOfRange { num: p.num })
    } else if start + size - 1 > u64::MAX || !gpt_fits(
        geo,
        extents,
        p.num - 1,
        start as int,
        start + size - 1,
    ) {
        Err(LayoutError::InvalidBoundaries { num: p.num })
    } else {
        Ok(Span { first: start, last: (start + size - 1) as u64 })
    }
}

/// Where one partition comes to lie in a table with the given extents, or
/// why it cannot be placed. In this order: its number is not 0; its size
/// is settled (something is free, a size of 0 is for the last partition,
/// no partition is smaller than a mebibyte); its type has a GUID, and not
/// the one of 32 zeros, which marks an unused entry; its start is settled;
/// then what `gpt_extent_spec` asks.
pub open spec fn gpt_place_spec(
    p: PartitionSpec,
    num_partitions: u32,
    floor: u64,
    geo: GptGeometry,
    extents: Seq<Extent>,
) -> Result<Span, LayoutError> {
    let free = gpt_free_sectors(geo.first_usable, geo.last_usable, geo.align, extents);
    if p.num == 0 {
        Err(LayoutError::NumberZero)
    } else {
        match size_spec(p, num_partitions, floor, free) {
            Err(e) => Err(e),
            Ok(size) => match p.part_type.uuid_spec() {
                Err(cause) => Err(LayoutError::Type { num: p.num, cause }),
                Ok(t) => if t == 0 {
                    Err(LayoutError::EmptyType { num: p.num })
                } else {
                    match start_spec(p, floor, first_fit(free, size)) {
                        Err(e) => Err(e),
                        Ok(start) => gpt_extent_spec(p, geo, extents, start, size),
                    }
                },
            },
        }
    }
}

/// The extents of a table after the partitions from place `from` on have
/// been placed one after the other, each into the table that the ones
/// before it left.
pub open spec fn gpt_layout_spec(
    parts: Seq<PartitionSpec>,
    num_partitions: u32,
    floor: u64,
    geo: GptGeometry,
    extents: Seq<Extent>,
    from: int,
) -> Result<Seq<Extent>, LayoutError>
    decreases parts.len() - from,
{
    if from < 0 || from >= parts.len() {
        Ok(extents)
    } else {
        match gpt_place_spec(parts[from], num_partitions, floor, geo, extents) {
            Err(e) => Err(e),
            Ok(span) => gpt_layout_spec(
                parts,
                num_partitions,
                floor,
                geo,
                extents.update(parts[from].num - 1, Some(span)),
                from + 1,
            ),
        }
    }
}

/// The geometry of a table whose alignment has been set to a mebibyte.
pub open spec fn aligned_geometry(geo: GptGeometry, sector_size: u64) -> GptGeometry {
    GptGeometry {
        first_usable: geo.first_usable,
        last_usable: geo.last_usable,
        align: sectors_per_mebibyte(sector_size as int) as u64,
        disk_guid: geo.disk_guid,
    }
}

/// The extents of a table after the partitions of a device have been laid
/// out in it, or why they cannot be. Sectors are `sector_size` bytes long;
/// `geo` and `extents` describe the table before.
pub open spec fn partition_gpt_spec(
    device: DeviceSpec,
    sector_size: u64,
    geo: GptGeometry,
    extents: Seq<Extent>,
) -> Result<Seq<Extent>, LayoutError> {
    if sector_size == 0 || sector_size > MEBIBYTE {
        Err(LayoutError::UnsupportedSectorSize)
    } else if !gpt_consistent(aligned_geometry(geo, sector_size), extents) {
        Err(LayoutError::InconsistentTable)
    } else {
        gpt_layout_spec(
            device.partitions@,
            device.num_partitions,
            sectors_per_mebibyte(sector_size as int) as u64,
            aligned_geometry(geo, sector_size),
            extents,
            0,
        )
    }
}

/// Whether the record of partition `n` says what the table holds for it:
/// its number, the text of the GUID of its entry, and no filesystem yet.
pub open spec fn gpt_record_matches(record: PartitionData, n: u32, entries: Seq<GptEntry>) -> bool {
    &&& 1 <= n <= entries.len()
    &&& record.num == n
    &&& record.fs_uuid is None
    &&& record.part_uuid@ == guid_text(guid_from_mixed_endian(entries[n - 1].unique_guid@))
}

/// Decides the sectors of a partition of `size` sectors from `start` on.
pub fn gpt_partition_extent(
    p: &PartitionSpec,
    geo: &GptGeometry,
    ext: &Vec<Extent>,
    start: u64,
    size: u64,
) -> (r: Result<Span, LayoutError>)
    requires
        p.num >= 1,
        size >= 1,
    ensures
        r == gpt_extent_spec(*p, *geo, ext@, start, size),
{
    if partition_is_swap(p) {
        return Err(LayoutError::Swap { num: p.num });
    }
    if p.num as usize > ext.len() {
        return Err(LayoutError::NumberOutOfRange { num: p.num });
    }
    if start > u64::MAX - (size - 1) {
        return Err(LayoutError::InvalidBoundaries { num: p.num });
    }
    let last = start + (size - 1);
    if !fits(geo, ext, (p.num - 1) as usize, start, last) {
        return Err(LayoutError::InvalidBoundaries { num: p.num });
    }
    Ok(Span { first: start, last })
}

/// The verdict on placing one partition in a table with the given
/// geometry and extents, where sectors are `sector_size` bytes long: the
/// sectors that it gets, or why it gets none. Sectors hold from one byte to
/// a mebibyte, the table is consistent, and then `gpt_place_spec` decides.
pub open spec fn gpt_place_verdict(
    p: PartitionSpec,
    num_partitions: u32,
    sector_size: u64,
    geo: GptGeometry,
    extents: Seq<Extent>,
) -> Result<Span, LayoutError> {
    if sector_size == 0 || sector_size > MEBIBYTE {
        Err(LayoutError::UnsupportedSectorSize)
    } else if !gpt_consistent(geo, extents) {
        Err(LayoutError::InconsistentTable)
    } else {
        gpt_place_spec(
            p,
            num_partitions,
            sectors_per_mebibyte(sector_size as int) as u64,
            geo,
            extents,
        )
    }
}

/// Whether an entry holds the GUID of a type, the GUID of a partition and
/// the sectors of the partition, the GUIDs as a table stores them.
pub open spec fn gpt_entry_is(e: GptEntry, type_guid: u128, unique: u128, span: Span) -> bool {
    &&& e.type_guid@ == guid_mixed_endian(type_guid)
    &&& e.unique_guid@ == guid_mixed_endian(unique)
    &&& e.first_lba == span.first
    &&& e.last_lba == span.last
}

/// What placing one partition with the GUID `unique` in a table comes to:
/// the table before and after, and what is returned.
///
/// The geometry of the table stays as it is. On success the verdict of
/// `gpt_place_verdict` is the sectors of the partition; the entry of the
/// partition's number holds the GUID of its type, `unique` and those
/// sectors, and its name is the label of the partition; no other entry and
/// no other name changes; the table is consistent; a start that the table
/// has offered is a multiple of its alignment; and the record holds the
/// number and the text of `unique`, and no filesystem yet. On failure the
/// error is the verdict and the table is as it was.
pub open spec fn gpt_partition_placed(
    p: PartitionSpec,
    num_partitions: u32,
    sector_size: u64,
    unique: u128,
    before: GPT,
    after: GPT,
    r: Result<PartitionData, LayoutError>,
) -> bool {
    let geo = gpt_geometry(before);
    let extents = extents_of(gpt_entries(before));
    let verdict = gpt_place_verdict(p, num_partitions, sector_size, geo, extents);
    &&& gpt_geometry(after) == geo
    &&& match r {
        Ok(record) => {
            &&& verdict is Ok
            &&& 1 <= p.num <= gpt_entries(before).len()
            &&& p.part_type.uuid_spec() is Ok
            &&& gpt_entries(after) == gpt_entries(before).update(
                p.num - 1,
                gpt_entries(after)[p.num - 1],
            )
            &&& gpt_entry_is(
                gpt_entries(after)[p.num - 1],
                p.part_type.uuid_spec()->Ok_0,
                unique,
                verdict->Ok_0,
            )
            &&& extents_of(gpt_entries(after)) == extents.update(p.num - 1, Some(verdict->Ok_0))
            &&& gpt_names(after) == gpt_names(before).update(p.num - 1, entry_name(p))
            &&& gpt_consistent(geo, extents_of(gpt_entries(after)))
            &&& needs_offer(p) ==> verdict->Ok_0.first % geo.align == 0
            &&& record.num == p.num
            &&& record.fs_uuid is None
            &&& record.part_uuid@ == guid_text(unique)
        },
        Err(e) => {
            &&& verdict == Err::<Span, LayoutError>(e)
            &&& gpt_entries(after) == gpt_entries(before)
            &&& gpt_names(after) == gpt_names(before)
        },
    }
}

/// Places one partition in a table and gives it the GUID `unique`.
/// Sectors are `sector_size` bytes long; `num_partitions` is the declared
/// number of partitions of the device.
///
/// The partition gets the sectors that `gpt_place_verdict` gives for the
/// table as it is, the GUID of its type, and its label as its name. A
/// partition that cannot be placed leaves the table as it was.
pub fn place_gpt_partition(
    table: &mut GPT,
    p: &PartitionSpec,
    num_partitions: u32,
    sector_size: u64,
    unique: u128,
) -> (r: Result<PartitionData, LayoutError>)
    ensures
        gpt_partition_placed(*p, num_partitions, sector_size, unique, *old(table), *final(table), r),
{
    if sector_size == 0 || sector_size > MEBIBYTE {
        return Err(LayoutError::UnsupportedSectorSize);
    }
    let floor: u64 = MEBIBYTE / sector_size;
    assert(floor >= 1) by (nonlinear_arith)
        requires
            floor == MEBIBYTE as int / sector_size as int,
            0 < sector_size <= MEBIBYTE,
            MEBIBYTE == 1048576,
    ;
    let geo = gpt_read_geometry(table);
    let entries = gpt_read_entries(table);
    let ext = extents(&entries);
    if !is_consistent(&geo, &ext) {
        return Err(LayoutError::InconsistentTable);
    }
    if p.num == 0 {
        return Err(LayoutError::NumberZero);
    }
    let free = gpt_find_free_sectors(table);
    let size = match partition_size(p, num_partitions, floor, &free) {
        Err(e) => {
            return Err(e);
        },
        Ok(size) => size,
    };
    let type_guid = match p.part_type.to_uuid() {
        Err(cause) => {
            return Err(LayoutError::Type { num: p.num, cause });
        },
        Ok(t) => t,
    };
    if type_guid == 0 {
        return Err(LayoutError::EmptyType { num: p.num });
    }
    let offered = if p.start_sector.is_none() && p.num != 1 {
        gpt_find_first_place(table, size)
    } else {
        None
    };
    let start = match partition_start(p, floor, offered) {
        Err(e) => {
            return Err(e);
        },
        Ok(start) => start,
    };
    proof {
        if needs_offer(*p) {
            lemma_first_fit_is_a_range(free@, size);
        }
    }
    let span = match gpt_partition_extent(p, &geo, &ext, start, size) {
        Err(e) => {
            return Err(e);
        },
        Ok(span) => span,
    };
    let entry = GptEntry {
        type_guid: guid_to_bytes_le(type_guid),
        unique_guid: guid_to_bytes_le(unique),
        first_lba: span.first,
        last_lba: span.last,
    };
    proof {
        reveal_strlit("");
        assert(""@ =~= Seq::<char>::empty());
    }
    let name = match &p.label {
        Some(l) => l.as_str(),
        None => "",
    };
    gpt_set_entry(table, p.num, &entry, name);
    proof {
        let slot = p.num - 1;
        let after = gpt_entries(*table);
        lemma_guid_zero_bytes(type_guid);
        assert(extent_of(entry) == Some(span));
        assert(extents_of(after) =~= ext@.update(slot, Some(span)));
        lemma_fit_keeps_consistent(geo, ext@, slot, span.first, span.last);
        assert(after =~= entries@.update(slot, after[slot]));
    }
    Ok(PartitionData { num: p.num, part_uuid: guid_to_string(unique), fs_uuid: None })
}

/// What laying out the partitions of a device in a table comes to: the
/// table before and after, and what is returned.
///
/// On success the extents of the table are those that `partition_gpt_spec`
/// gives, the alignment of the table is a mebibyte, the table is
/// consistent, the identifier of the table is the text of the GUID of the
/// disk, there is one record for each partition number, each record holds
/// the text of the GUID that the entry of its partition got, and each
/// partition whose number is not used again has the GUID of its type in
/// its entry and its label as the name of its entry, and starts at a
/// multiple of a mebibyte unless its start is declared. On failure the error is the one that `partition_gpt_spec`
/// gives.
pub open spec fn gpt_partitioned(
    device: DeviceSpec,
    sector_size: u64,
    before: GPT,
    after: GPT,
    r: Result<PartitionMapData, LayoutError>,
) -> bool {
    match r {
        Ok(pm) => {
            &&& partition_gpt_spec(
                device,
                sector_size,
                gpt_geometry(before),
                extents_of(gpt_entries(before)),
            ) == Ok::<Seq<Extent>, LayoutError>(extents_of(gpt_entries(after)))
            &&& gpt_geometry(after) == aligned_geometry(gpt_geometry(before), sector_size)
            &&& gpt_consistent(gpt_geometry(after), extents_of(gpt_entries(after)))
            &&& pm.uuid@ == guid_text(guid_from_mixed_endian(gpt_geometry(before).disk_guid@))
            &&& forall|n: u32|
                pm.data@.contains_key(n) <==> number_used(
                    device.partitions@,
                    n,
                    device.partitions@.len() as int,
                )
            &&& forall|n: u32| #[trigger]
                pm.data@.contains_key(n) ==> gpt_record_matches(pm.data@[n], n, gpt_entries(after))
            &&& forall|k: int|
                0 <= k < device.partitions@.len() && #[trigger] last_of_number(
                    device.partitions@,
                    k,
                    device.partitions@.len() as int,
                ) ==> gpt_typed_as(gpt_entries(after), device.partitions@[k]) && gpt_named_as(
                    gpt_names(after),
                    device.partitions@[k],
                ) && (device.partitions@[k].start_sector is None ==> gpt_aligned_as(
                    extents_of(gpt_entries(after)),
                    device.partitions@[k],
                    gpt_geometry(after).align,
                ))
        },
        Err(e) => partition_gpt_spec(
            device,
            sector_size,
            gpt_geometry(before),
            extents_of(gpt_entries(before)),
        ) == Err::<Seq<Extent>, LayoutError>(e),
    }
}

/// Lays out the partitions of a device in a table and records the
/// identifiers of each. Sectors are `sector_size` bytes long.
///
/// The alignment of the table is set to a mebibyte. The partitions are
/// placed in the order in which they are listed; each gets a fresh random
/// GUID, the GUID of its type, its label as its name, and the sectors that
/// `partition_gpt_spec` gives. When all are placed the table is consistent:
/// its partitions lie in the usable sectors and no two of them overlap.
/// After a failure the table holds the partitions placed before it.
pub fn partition_gpt(device: &DeviceSpec, table: &mut GPT, sector_size: u64) -> (r: Result<
    PartitionMapData,
    LayoutError,
>)
    ensures
        gpt_partitioned(*device, sector_size, *old(table), *final(table), r),
{
    broadcast use vstd::std_specs::hash::group_hash_axioms;

    if sector_size == 0 || sector_size > MEBIBYTE {
        return Err(LayoutError::UnsupportedSectorSize);
    }
    let floor: u64 = MEBIBYTE / sector_size;
    gpt_set_align(table, floor);
    let geo = gpt_read_geometry(table);
    let entries = gpt_read_entries(table);
    let ext = extents(&entries);
    assert(geo == aligned_geometry(gpt_geometry(*old(table)), sector_size));
    if !is_consistent(&geo, &ext) {
        return Err(LayoutError::InconsistentTable);
    }
    let uuid = guid_to_string(guid_from_bytes_le(&geo.disk_guid));
    let mut data: HashMap<u32, PartitionData> = HashMap::new();
    let parts = &device.partitions;
    let num_partitions = device.num_partitions;
    let mut i: usize = 0;
    while i < parts.len()
        invariant
            i <= parts.len(),
            parts@ == device.partitions@,
            num_partitions == device.num_partitions,
            0 < sector_size <= MEBIBYTE,
            floor >= 1,
            floor == sectors_per_mebibyte(sector_size as int),
            geo == gpt_geometry(*table),
            geo.align == floor,
            gpt_consistent(geo, extents_of(gpt_entries(*table))),
            partition_gpt_spec(
                *device,
                sector_size,
                gpt_geometry(*old(table)),
                extents_of(gpt_entries(*old(table))),
            ) == gpt_layout_spec(
                parts@,
                num_partitions,
                floor,
                geo,
                extents_of(gpt_entries(*table)),
                i as int,
            ),
            forall|n: u32| data@.contains_key(n) <==> number_used(parts@, n, i as int),
            forall|n: u32| #[trigger]
                data@.contains_key(n) ==> gpt_record_matches(data@[n], n, gpt_entries(*table)),
            gpt_names(*table).len() == gpt_entries(*table).len(),
            forall|k: int|
                0 <= k < i && #[trigger] last_of_number(parts@, k, i as int) ==> gpt_typed_as(
                    gpt_entries(*table),
                    parts@[k],
                ) && gpt_named_as(gpt_names(*table), parts@[k]) && (parts@[k].start_sector is None
                    ==> gpt_aligned_as(extents_of(gpt_entries(*table)), parts@[k], floor)),
        decreases parts.len() - i,
    {
        let p = &parts[i];
        let ghost before = gpt_entries(*table);
        let ghost names_before = gpt_names(*table);
        let unique = random_guid();
        let record = match place_gpt_partition(table, p, num_partitions, sector_size, unique) {
            Err(e) => {
                return Err(e);
            },
            Ok(record) => record,
        };
        data.insert(p.num, record);
        proof {
            let after = gpt_entries(*table);
            let span = gpt_place_spec(*p, num_partitions, floor, geo, extents_of(before))->Ok_0;
            lemma_guid_round_trip(unique);
            assert(p.start_sector is None ==> span.first % floor == 0) by {
                if p.start_sector is None && p.num == 1 {
                    assert(span.first == floor);
                    assert(floor % floor == 0) by (nonlinear_arith)
                        requires
                            floor > 0,
                    ;
                }
            }
            assert forall|n: u32| data@.contains_key(n) <==> number_used(parts@, n, i + 1) by {
                if number_used(parts@, n, i + 1) {
                    let k = choose|k: int|
                        0 <= k < i + 1 && k < parts@.len() && (#[trigger] parts@[k]).num == n;
                    if k < i {
                        assert(number_used(parts@, n, i as int));
                    }
                }
                if number_used(parts@, n, i as int) {
                    let k = choose|k: int|
                        0 <= k < i && k < parts@.len() && (#[trigger] parts@[k]).num == n;
                    assert(0 <= k < i + 1 && parts@[k].num == n);
                }
                if n == p.num {
                    assert(0 <= i < i + 1 && parts@[i as int].num == n);
                }
            }
            assert forall|k: int|
                0 <= k < i + 1 && #[trigger] last_of_number(parts@, k, i + 1) implies gpt_typed_as(
                after,
                parts@[k],
            ) && gpt_named_as(gpt_names(*table), parts@[k]) && (parts@[k].start_sector is None
                ==> gpt_aligned_as(extents_of(after), parts@[k], floor)) by {
                if k < i {
                    assert(parts@[i as int].num != parts@[k].num);
                    assert(last_of_number(parts@, k, i as int));
                    assert(gpt_typed_as(before, parts@[k]));
                    assert(gpt_named_as(names_before, parts@[k]));
                    assert(extents_of(after)[parts@[k].num - 1] == extents_of(before)[parts@[k].num
                        - 1]);
                }
            }
        }
        i += 1;
    }
    Ok(PartitionMapData { uuid, data })
}

/// Whether the entry of a partition carries the GUID of its type.
pub open spec fn gpt_typed_as(entries: Seq<GptEntry>, p: PartitionSpec) -> bool {
    &&& 1 <= p.num <= entries.len()
    &&& p.part_type.uuid_spec() is Ok
    &&& entries[p.num - 1].type_guid@ == guid_mixed_endian(p.part_type.uuid_spec()->Ok_0)
}

/// Whether a partition lies at a multiple of `align` sectors.
pub open spec fn gpt_aligned_as(extents: Seq<Extent>, p: PartitionSpec, align: u64) -> bool {
    &&& 1 <= p.num <= extents.len()
    &&& extents[p.num - 1] is Some
    &&& align > 0
    &&& extents[p.num - 1]->0.first % align == 0
}

/// The name that the entry of a partition gets: its label, or nothing.
pub open spec fn entry_name(p: PartitionSpec) -> Seq<char> {
    match p.label {
        Some(l) => l@,
        None => Seq::empty(),
    }
}

/// Whether the entry of a partition carries the label of the partition as
/// its name.
pub open spec fn gpt_named_as(names: Seq<Seq<char>>, p: PartitionSpec) -> bool {
    1 <= p.num <= names.len() && names[p.num - 1] == entry_name(p)
}

} // verus!
