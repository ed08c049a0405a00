//! What holds of every layout that the two kinds of table accept.

use vstd::prelude::*;
use crate::device::DeviceSpec;
use crate::device_laws::lemma_checked_numbers_count_up;
use crate::mbr::boot_flag;
use crate::partition::PartTypeError;
use crate::gpt::gpt_consistent;
use crate::gpt::gpt_fits;
use crate::gpt::gpt_free_sectors;
use crate::gpt::gpt_layout_spec;
use crate::gpt::gpt_place_spec;
use crate::gpt::Extent;
use crate::gpt::GptGeometry;
use crate::layout::last_of_number;
use crate::layout::ranges_overlap;
use crate::layout::Span;
use crate::layout::first_fit;
use crate::layout::needs_offer;
use crate::layout::size_spec;
use crate::layout::start_spec;
use crate::layout::FreeRange;
use crate::layout::LayoutError;
use crate::mbr::mbr_consistent;
use crate::mbr::mbr_fits;
use crate::mbr::mbr_free_sectors;
use crate::mbr::mbr_layout_spec;
use crate::mbr::mbr_place_spec;
use crate::mbr::MbrEntry;
use crate::mbr::MbrGeometry;
use crate::partition::PartitionSpec;
use crate::partition::PartitionUsage;

verus! {

/// The size that asks for all the space that is left: a partition of size
/// 0 gets a size only if its number is the declared number of partitions.
/// Where something is free and the number is another one, the fault is
/// that the partition is not the last one.
pub proof fn lemma_max_sized_must_be_last(
    p: PartitionSpec,
    num_partitions: u32,
    floor: u64,
    free: Seq<FreeRange>,
)
    requires
        p.size_in_sectors == 0,
    ensures
        size_spec(p, num_partitions, floor, free) is Ok ==> p.num == num_partitions,
        free.len() > 0 && p.num != num_partitions ==> size_spec(p, num_partitions, floor, free)
            == Err::<u64, LayoutError>(LayoutError::MaxSizedNotLast { num: p.num }),
{
}

/// No overlap in a GPT: where a consistent table takes all partitions from
/// place `from` on, the table is consistent afterwards, so its partitions
/// lie in the usable sectors and no two of them share a sector.
pub proof fn lemma_gpt_layout_consistent(
    parts: Seq<PartitionSpec>,
    num_partitions: u32,
    floor: u64,
    geo: GptGeometry,
    extents: Seq<Extent>,
    from: int,
)
    requires
        gpt_consistent(geo, extents),
        gpt_layout_spec(parts, num_partitions, floor, geo, extents, from) is Ok,
    ensures
        ({
            let after = gpt_layout_spec(parts, num_partitions, floor, geo, extents, from)->Ok_0;
            &&& after.len() == extents.len()
            &&& gpt_consistent(geo, after)
            &&& forall|i: int, j: int|
                0 <= i < after.len() && 0 <= j < after.len() && i != j && (#[trigger] after[i]) is Some
                    && (#[trigger] after[j]) is Some ==> !ranges_overlap(
                    after[i]->0.first as int,
                    after[i]->0.last as int,
                    after[j]->0.first as int,
                    after[j]->0.last as int,
                )
        }),
    decreases parts.len() - from,
{
    if from < 0 || from >= parts.len() {
    } else {
        let p = parts[from];
        let span = gpt_place_spec(p, num_partitions, floor, geo, extents)->Ok_0;
        crate::gpt::lemma_fit_keeps_consistent(geo, extents, p.num - 1, span.first, span.last);
        lemma_gpt_layout_consistent(
            parts,
            num_partitions,
            floor,
            geo,
            extents.update(p.num - 1, Some(span)),
            from + 1,
        );
    }
}

proof fn lemma_gpt_untouched(
    parts: Seq<PartitionSpec>,
    num_partitions: u32,
    floor: u64,
    geo: GptGeometry,
    extents: Seq<Extent>,
    from: int,
    slot: int,
)
    requires
        0 <= from,
        gpt_layout_spec(parts, num_partitions, floor, geo, extents, from) is Ok,
        0 <= slot < extents.len(),
        forall|m: int| from <= m < parts.len() ==> (#[trigger] parts[m]).num - 1 != slot,
    ensures
        gpt_layout_spec(parts, num_partitions, floor, geo, extents, from)->Ok_0[slot]
            == extents[slot],
        gpt_layout_spec(parts, num_partitions, floor, geo, extents, from)->Ok_0.len()
            == extents.len(),
    decreases parts.len() - from,
{
    if from >= parts.len() {
    } else {
        let p = parts[from];
        let span = gpt_place_spec(p, num_partitions, floor, geo, extents)->Ok_0;
        lemma_gpt_untouched(
            parts,
            num_partitions,
            floor,
            geo,
            extents.update(p.num - 1, Some(span)),
            from + 1,
            slot,
        );
    }
}

/// Explicit starts in a GPT: where a table takes all partitions from
/// place `from` on, a partition with a declared first sector, whose number
/// no later partition repeats, starts at exactly that sector.
pub proof fn lemma_gpt_explicit_start_honored(
    parts: Seq<PartitionSpec>,
    num_partitions: u32,
    floor: u64,
    geo: GptGeometry,
    extents: Seq<Extent>,
    from: int,
    k: int,
)
    requires
        0 <= from <= k < parts.len(),
        gpt_layout_spec(parts, num_partitions, floor, geo, extents, from) is Ok,
        parts[k].start_sector is Some,
        last_of_number(parts, k, parts.len() as int),
    ensures
        ({
            let after = gpt_layout_spec(parts, num_partitions, floor, geo, extents, from)->Ok_0;
            &&& 1 <= parts[k].num <= after.len()
            &&& after[parts[k].num - 1] is Some
            &&& after[parts[k].num - 1]->0.first == parts[k].start_sector->0
        }),
    decreases k - from,
{
    let p = parts[from];
    let span = gpt_place_spec(p, num_partitions, floor, geo, extents)->Ok_0;
    let next = extents.update(p.num - 1, Some(span));
    if from == k {
        assert forall|m: int| from + 1 <= m < parts.len() implies (#[trigger] parts[m]).num - 1
            != p.num - 1 by {
            assert(parts[m].num != parts[k].num);
        }
        lemma_gpt_untouched(parts, num_partitions, floor, geo, next, from + 1, p.num - 1);
    } else {
        lemma_gpt_explicit_start_honored(parts, num_partitions, floor, geo, next, from + 1, k);
    }
}

/// The last partition of a GPT: where a table takes all partitions from
/// place `from` on, every one of them that asks for all the space that is
/// left has the declared number of partitions as its number.
pub proof fn lemma_gpt_max_sized_is_last(
    parts: Seq<PartitionSpec>,
    num_partitions: u32,
    floor: u64,
    geo: GptGeometry,
    extents: Seq<Extent>,
    from: int,
    k: int,
)
    requires
        0 <= from <= k < parts.len(),
        gpt_layout_spec(parts, num_partitions, floor, geo, extents, from) is Ok,
        parts[k].size_in_sectors == 0,
    ensures
        parts[k].num == num_partitions,
    decreases k - from,
{
    let p = parts[from];
    let span = gpt_place_spec(p, num_partitions, floor, geo, extents)->Ok_0;
    if from < k {
        lemma_gpt_max_sized_is_last(
            parts,
            num_partitions,
            floor,
            geo,
            extents.update(p.num - 1, Some(span)),
            from + 1,
            k,
        );
    }
}

/// No overlap in an MBR: where a consistent table takes all partitions
/// from place `from` on, the table is consistent afterwards, so its
/// partitions lie on the disk and no two of them share a sector.
pub proof fn lemma_mbr_layout_consistent(
    parts: Seq<PartitionSpec>,
    num_partitions: u32,
    floor: u32,
    geo: MbrGeometry,
    entries: Seq<MbrEntry>,
    from: int,
)
    requires
        floor >= 1,
        mbr_consistent(geo, entries),
        mbr_layout_spec(parts, num_partitions, floor, geo, entries, from) is Ok,
    ensures
        ({
            let after = mbr_layout_spec(parts, num_partitions, floor, geo, entries, from)->Ok_0;
            &&& mbr_consistent(geo, after)
            &&& forall|i: int, j: int|
                0 <= i < after.len() && 0 <= j < after.len() && i != j && (#[trigger] after[i]).sys
                    != 0 && (#[trigger] after[j]).sys != 0 ==> !ranges_overlap(
                    after[i].starting_lba as int,
                    after[i].starting_lba + after[i].sectors - 1,
                    after[j].starting_lba as int,
                    after[j].starting_lba + after[j].sectors - 1,
                )
        }),
    decreases parts.len() - from,
{
    if from < 0 || from >= parts.len() {
    } else {
        let p = parts[from];
        let entry = mbr_place_spec(p, num_partitions, floor, geo, entries)->Ok_0;
        crate::mbr::lemma_fit_keeps_consistent(geo, entries, p.num - 1, entry);
        lemma_mbr_layout_consistent(
            parts,
            num_partitions,
            floor,
            geo,
            entries.update(p.num - 1, entry),
            from + 1,
        );
    }
}

proof fn lemma_mbr_untouched(
    parts: Seq<PartitionSpec>,
    num_partitions: u32,
    floor: u32,
    geo: MbrGeometry,
    entries: Seq<MbrEntry>,
    from: int,
    slot: int,
)
    requires
        0 <= from,
        entries.len() == 4,
        mbr_layout_spec(parts, num_partitions, floor, geo, entries, from) is Ok,
        0 <= slot < entries.len(),
        forall|m: int| from <= m < parts.len() ==> (#[trigger] parts[m]).num - 1 != slot,
    ensures
        mbr_layout_spec(parts, num_partitions, floor, geo, entries, from)->Ok_0[slot]
            == entries[slot],
        mbr_layout_spec(parts, num_partitions, floor, geo, entries, from)->Ok_0.len()
            == entries.len(),
    decreases parts.len() - from,
{
    if from >= parts.len() {
    } else {
        let p = parts[from];
        let entry = mbr_place_spec(p, num_partitions, floor, geo, entries)->Ok_0;
        lemma_mbr_untouched(
            parts,
            num_partitions,
            floor,
            geo,
            entries.update(p.num - 1, entry),
            from + 1,
            slot,
        );
    }
}

/// Explicit starts in an MBR: where a table with four entries takes all
/// partitions from place `from` on, a partition with a declared first
/// sector, whose number no later partition repeats, starts at exactly that
/// sector.
pub proof fn lemma_mbr_explicit_start_honored(
    parts: Seq<PartitionSpec>,
    num_partitions: u32,
    floor: u32,
    geo: MbrGeometry,
    entries: Seq<MbrEntry>,
    from: int,
    k: int,
)
    requires
        0 <= from <= k < parts.len(),
        entries.len() == 4,
        mbr_layout_spec(parts, num_partitions, floor, geo, entries, from) is Ok,
        parts[k].start_sector is Some,
        last_of_number(parts, k, parts.len() as int),
    ensures
        ({
            let after = mbr_layout_spec(parts, num_partitions, floor, geo, entries, from)->Ok_0;
            &&& 1 <= parts[k].num <= 4
            &&& after.len() == 4
            &&& after[parts[k].num - 1].sys != 0
            &&& after[parts[k].num - 1].starting_lba == parts[k].start_sector->0
        }),
    decreases k - from,
{
    let p = parts[from];
    let entry = mbr_place_spec(p, num_partitions, floor, geo, entries)->Ok_0;
    let next = entries.update(p.num - 1, entry);
    if from == k {
        assert forall|m: int| from + 1 <= m < parts.len() implies (#[trigger] parts[m]).num - 1
            != p.num - 1 by {
            assert(parts[m].num != parts[k].num);
        }
        lemma_mbr_untouched(parts, num_partitions, floor, geo, next, from + 1, p.num - 1);
    } else {
        lemma_mbr_explicit_start_honored(parts, num_partitions, floor, geo, next, from + 1, k);
    }
}

/// The last partition of an MBR: where a table takes all partitions from
/// place `from` on, every one of them that asks for all the space that is
/// left has the declared number of partitions as its number.
pub proof fn lemma_mbr_max_sized_is_last(
    parts: Seq<PartitionSpec>,
    num_partitions: u32,
    floor: u32,
    geo: MbrGeometry,
    entries: Seq<MbrEntry>,
    from: int,
    k: int,
)
    requires
        0 <= from <= k < parts.len(),
        mbr_layout_spec(parts, num_partitions, floor, geo, entries, from) is Ok,
        parts[k].size_in_sectors == 0,
    ensures
        parts[k].num == num_partitions,
    decreases k - from,
{
    let p = parts[from];
    let entry = mbr_place_spec(p, num_partitions, floor, geo, entries)->Ok_0;
    if from < k {
        lemma_mbr_max_sized_is_last(
            parts,
            num_partitions,
            floor,
            geo,
            entries.update(p.num - 1, entry),
            from + 1,
            k,
        );
    }
}

/// No swap in a GPT: the table takes no partition of the swap type,
/// whatever it is used for, and no partition meant for swap, whatever its
/// type.
pub proof fn lemma_gpt_swap_is_never_placed(
    p: PartitionSpec,
    num_partitions: u32,
    floor: u64,
    geo: GptGeometry,
    extents: Seq<Extent>,
)
    requires
        p.part_type is Swap || p.usage == PartitionUsage::Swap,
    ensures
        gpt_place_spec(p, num_partitions, floor, geo, extents) is Err,
{
}

/// No swap in an MBR: the table takes no partition of the swap type,
/// whatever it is used for, and no partition meant for swap, whatever its
/// type.
pub proof fn lemma_mbr_swap_is_never_placed(
    p: PartitionSpec,
    num_partitions: u32,
    floor: u32,
    geo: MbrGeometry,
    entries: Seq<MbrEntry>,
)
    requires
        p.part_type is Swap || p.usage == PartitionUsage::Swap,
    ensures
        mbr_place_spec(p, num_partitions, floor, geo, entries) is Err,
{
}

/// No start inside the partition table of a GPT: the table takes no
/// partition that is told to start at sector 33 or before it.
pub proof fn lemma_gpt_low_start_is_never_placed(
    p: PartitionSpec,
    num_partitions: u32,
    floor: u64,
    geo: GptGeometry,
    extents: Seq<Extent>,
)
    requires
        p.start_sector is Some,
        p.start_sector->0 <= 33,
    ensures
        gpt_place_spec(p, num_partitions, floor, geo, extents) is Err,
{
}

/// No start inside the partition table of an MBR: the table takes no
/// partition that is told to start at sector 33 or before it.
pub proof fn lemma_mbr_low_start_is_never_placed(
    p: PartitionSpec,
    num_partitions: u32,
    floor: u32,
    geo: MbrGeometry,
    entries: Seq<MbrEntry>,
)
    requires
        p.start_sector is Some,
        p.start_sector->0 <= 33,
    ensures
        mbr_place_spec(p, num_partitions, floor, geo, entries) is Err,
{
}

/// The size of an MBR: the table takes no partition with a number above 4.
pub proof fn lemma_mbr_takes_four(
    p: PartitionSpec,
    num_partitions: u32,
    floor: u32,
    geo: MbrGeometry,
    entries: Seq<MbrEntry>,
)
    requires
        p.num > 4,
    ensures
        mbr_place_spec(p, num_partitions, floor, geo, entries) == Err::<MbrEntry, LayoutError>(
            LayoutError::ExtendedUnsupported { num: p.num },
        ),
{
}

/// The size of a GPT: the table takes no partition with a number for
/// which it has no entry; a table with 128 entries takes none above 128.
pub proof fn lemma_gpt_takes_its_entries(
    p: PartitionSpec,
    num_partitions: u32,
    floor: u64,
    geo: GptGeometry,
    extents: Seq<Extent>,
)
    requires
        p.num > extents.len(),
    ensures
        gpt_place_spec(p, num_partitions, floor, geo, extents) is Err,
{
}

proof fn lemma_gpt_slot_is_used(
    parts: Seq<PartitionSpec>,
    num_partitions: u32,
    floor: u64,
    geo: GptGeometry,
    extents: Seq<Extent>,
    from: int,
    k: int,
)
    requires
        0 <= from <= k < parts.len(),
        gpt_layout_spec(parts, num_partitions, floor, geo, extents, from) is Ok,
        last_of_number(parts, k, parts.len() as int),
    ensures
        ({
            let after = gpt_layout_spec(parts, num_partitions, floor, geo, extents, from)->Ok_0;
            &&& 1 <= parts[k].num <= after.len()
            &&& after[parts[k].num - 1] is Some
        }),
    decreases k - from,
{
    let p = parts[from];
    let span = gpt_place_spec(p, num_partitions, floor, geo, extents)->Ok_0;
    let next = extents.update(p.num - 1, Some(span));
    if from == k {
        assert forall|m: int| from + 1 <= m < parts.len() implies (#[trigger] parts[m]).num - 1
            != p.num - 1 by {
            assert(parts[m].num != parts[k].num);
        }
        lemma_gpt_untouched(parts, num_partitions, floor, geo, next, from + 1, p.num - 1);
    } else {
        lemma_gpt_slot_is_used(parts, num_partitions, floor, geo, next, from + 1, k);
    }
}

proof fn lemma_mbr_slot_is_set(
    parts: Seq<PartitionSpec>,
    num_partitions: u32,
    floor: u32,
    geo: MbrGeometry,
    entries: Seq<MbrEntry>,
    from: int,
    k: int,
)
    requires
        0 <= from <= k < parts.len(),
        entries.len() == 4,
        mbr_layout_spec(parts, num_partitions, floor, geo, entries, from) is Ok,
        last_of_number(parts, k, parts.len() as int),
    ensures
        ({
            let after = mbr_layout_spec(parts, num_partitions, floor, geo, entries, from)->Ok_0;
            &&& 1 <= parts[k].num <= 4
            &&& after.len() == 4
            &&& after[parts[k].num - 1].sys != 0
            &&& after[parts[k].num - 1].boot == boot_flag(parts[k].usage)
            &&& parts[k].part_type.byte_spec() == Ok::<u8, PartTypeError>(
                after[parts[k].num - 1].sys,
            )
        }),
    decreases k - from,
{
    let p = parts[from];
    let entry = mbr_place_spec(p, num_partitions, floor, geo, entries)->Ok_0;
    let next = entries.update(p.num - 1, entry);
    if from == k {
        assert forall|m: int| from + 1 <= m < parts.len() implies (#[trigger] parts[m]).num - 1
            != p.num - 1 by {
            assert(parts[m].num != parts[k].num);
        }
        lemma_mbr_untouched(parts, num_partitions, floor, geo, next, from + 1, p.num - 1);
    } else {
        lemma_mbr_slot_is_set(parts, num_partitions, floor, geo, next, from + 1, k);
    }
}

proof fn lemma_checked_numbers_are_last(d: DeviceSpec, scripts: Seq<String>, k: int)
    requires
        d.check_spec(scripts) is Ok,
        0 <= k < d.partitions@.len(),
    ensures
        last_of_number(d.partitions@, k, d.partitions@.len() as int),
        d.partitions@[k].num == k + 1,
{
    lemma_checked_numbers_count_up(d, scripts);
}

/// A checked device in a GPT: when the partitions of a device that passes
/// the check are laid out in a consistent table, the partition at place
/// `i` of the list gets entry `i` of the table, every declared start is
/// honored, and no two partitions of the device share a sector.
pub proof fn lemma_checked_gpt_layout(
    d: DeviceSpec,
    scripts: Seq<String>,
    floor: u64,
    geo: GptGeometry,
    extents: Seq<Extent>,
)
    requires
        d.check_spec(scripts) is Ok,
        gpt_consistent(geo, extents),
        gpt_layout_spec(d.partitions@, d.num_partitions, floor, geo, extents, 0) is Ok,
    ensures
        ({
            let after = gpt_layout_spec(
                d.partitions@,
                d.num_partitions,
                floor,
                geo,
                extents,
                0,
            )->Ok_0;
            &&& d.partitions@.len() <= after.len()
            &&& forall|i: int| 0 <= i < d.partitions@.len() ==> (#[trigger] after[i]) is Some
            &&& forall|i: int|
                0 <= i < d.partitions@.len() && (#[trigger] d.partitions@[i]).start_sector is Some
                    ==> after[i]->0.first == d.partitions@[i].start_sector->0
            &&& forall|i: int, j: int|
                0 <= i < j < d.partitions@.len() ==> !ranges_overlap(
                    (#[trigger] after[i])->0.first as int,
                    after[i]->0.last as int,
                    (#[trigger] after[j])->0.first as int,
                    after[j]->0.last as int,
                )
        }),
{
    let parts = d.partitions@;
    let after = gpt_layout_spec(parts, d.num_partitions, floor, geo, extents, 0)->Ok_0;
    lemma_gpt_layout_consistent(parts, d.num_partitions, floor, geo, extents, 0);
    assert forall|i: int| 0 <= i < parts.len() implies i < after.len() && (#[trigger] after[i])
        is Some by {
        lemma_checked_numbers_are_last(d, scripts, i);
        lemma_gpt_slot_is_used(parts, d.num_partitions, floor, geo, extents, 0, i);
    }
    if parts.len() > 0 {
        lemma_checked_numbers_are_last(d, scripts, parts.len() - 1);
        lemma_gpt_slot_is_used(parts, d.num_partitions, floor, geo, extents, 0, parts.len() - 1);
    }
    assert forall|i: int|
        0 <= i < parts.len() && (#[trigger] parts[i]).start_sector is Some implies after[i]->0.first
        == parts[i].start_sector->0 by {
        lemma_checked_numbers_are_last(d, scripts, i);
        lemma_gpt_explicit_start_honored(parts, d.num_partitions, floor, geo, extents, 0, i);
    }
}

/// A checked device in an MBR: when the partitions of a device that passes
/// the check are laid out in a consistent table, the partition at place
/// `i` of the list gets entry `i` of the table with the byte of its type,
/// the boot partition and no other is marked active, every declared start
/// is honored, and no two partitions of the device share a sector.
pub proof fn lemma_checked_mbr_layout(
    d: DeviceSpec,
    scripts: Seq<String>,
    floor: u32,
    geo: MbrGeometry,
    entries: Seq<MbrEntry>,
)
    requires
        floor >= 1,
        d.check_spec(scripts) is Ok,
        mbr_consistent(geo, entries),
        mbr_layout_spec(d.partitions@, d.num_partitions, floor, geo, entries, 0) is Ok,
    ensures
        ({
            let after = mbr_layout_spec(
                d.partitions@,
                d.num_partitions,
                floor,
                geo,
                entries,
                0,
            )->Ok_0;
            &&& d.partitions@.len() <= after.len() == 4
            &&& forall|i: int|
                0 <= i < d.partitions@.len() ==> {
                    &&& (#[trigger] after[i]).sys != 0
                    &&& d.partitions@[i].part_type.byte_spec() == Ok::<u8, PartTypeError>(
                        after[i].sys,
                    )
                    &&& after[i].boot == boot_flag(d.partitions@[i].usage)
                }
            &&& forall|i: int|
                0 <= i < d.partitions@.len() && (#[trigger] d.partitions@[i]).start_sector is Some
                    ==> after[i].starting_lba == d.partitions@[i].start_sector->0
            &&& forall|i: int, j: int|
                0 <= i < j < d.partitions@.len() ==> !ranges_overlap(
                    (#[trigger] after[i]).starting_lba as int,
                    after[i].starting_lba + after[i].sectors - 1,
                    (#[trigger] after[j]).starting_lba as int,
                    after[j].starting_lba + after[j].sectors - 1,
                )
        }),
{
    let parts = d.partitions@;
    let after = mbr_layout_spec(parts, d.num_partitions, floor, geo, entries, 0)->Ok_0;
    lemma_mbr_layout_consistent(parts, d.num_partitions, floor, geo, entries, 0);
    assert forall|i: int| 0 <= i < parts.len() implies i < 4 && (#[trigger] after[i]).sys != 0
        && parts[i].part_type.byte_spec() == Ok::<u8, PartTypeError>(after[i].sys) && after[i].boot
        == boot_flag(parts[i].usage) by {
        lemma_checked_numbers_are_last(d, scripts, i);
        lemma_mbr_slot_is_set(parts, d.num_partitions, floor, geo, entries, 0, i);
    }
    if parts.len() > 0 {
        lemma_checked_numbers_are_last(d, scripts, parts.len() - 1);
        lemma_mbr_slot_is_set(parts, d.num_partitions, floor, geo, entries, 0, parts.len() - 1);
    }
    assert forall|i: int|
        0 <= i < parts.len() && (#[trigger] parts[i]).start_sector is Some implies after[i].starting_lba
        == parts[i].start_sector->0 by {
        lemma_checked_numbers_are_last(d, scripts, i);
        lemma_mbr_explicit_start_honored(parts, d.num_partitions, floor, geo, entries, 0, i);
    }
}

proof fn lemma_first_fit_is_the_last(free: Seq<FreeRange>, size: u64)
    requires
        free.len() > 0,
        free.last().sectors >= size,
        forall|j: int| 0 <= j < free.len() - 1 ==> (#[trigger] free[j]).sectors < size,
    ensures
        first_fit(free, size) == Some(free.last().start),
    decreases free.len(),
{
    if free.len() > 1 {
        let rest = free.drop_first();
        assert(rest.last() == free.last());
        assert forall|j: int| 0 <= j < rest.len() - 1 implies (#[trigger] rest[j]).sectors
            < size by {
            assert(rest[j] == free[j + 1]);
        }
        lemma_first_fit_is_the_last(rest, size);
    }
}

/// The rest of the disk: a partition that asks for all the space that is
/// left, and whose start the table settles, gets all of the last free
/// range but its last sector, and starts where that range starts, as
/// long as no earlier free range is as large and the size is at least a
/// mebibyte.
pub proof fn lemma_rest_is_the_last_range(
    p: PartitionSpec,
    num_partitions: u32,
    floor: u64,
    free: Seq<FreeRange>,
)
    requires
        p.size_in_sectors == 0,
        p.num == num_partitions,
        needs_offer(p),
        free.len() > 0,
        free.last().sectors >= 1,
        free.last().sectors - 1 >= floor,
        forall|j: int|
            0 <= j < free.len() - 1 ==> (#[trigger] free[j]).sectors < free.last().sectors - 1,
    ensures
        size_spec(p, num_partitions, floor, free) == Ok::<u64, LayoutError>(
            (free.last().sectors - 1) as u64,
        ),
        start_spec(p, floor, first_fit(free, (free.last().sectors - 1) as u64)) == Ok::<
            u64,
            LayoutError,
        >(free.last().start),
{
    lemma_first_fit_is_the_last(free, (free.last().sectors - 1) as u64);
}

/// The shape of a place in a GPT: a partition that is placed has the size
/// that `size_spec` settles, which is at least a mebibyte and is the
/// declared size where one is declared; it starts where `start_spec`
/// settles, which is the declared start where one is declared and one
/// mebibyte into the disk for partition 1 without one; and its last
/// sector is its first sector and its size less one.
pub proof fn lemma_gpt_place_shape(
    p: PartitionSpec,
    num_partitions: u32,
    floor: u64,
    geo: GptGeometry,
    extents: Seq<Extent>,
)
    requires
        gpt_place_spec(p, num_partitions, floor, geo, extents) is Ok,
    ensures
        ({
            let span = gpt_place_spec(p, num_partitions, floor, geo, extents)->Ok_0;
            let free = gpt_free_sectors(geo.first_usable, geo.last_usable, geo.align, extents);
            let size = size_spec(p, num_partitions, floor, free);
            &&& size is Ok
            &&& size->Ok_0 >= floor
            &&& p.size_in_sectors != 0 ==> size->Ok_0 == p.size_in_sectors
            &&& start_spec(p, floor, first_fit(free, size->Ok_0)) == Ok::<u64, LayoutError>(
                span.first,
            )
            &&& p.start_sector is Some ==> span.first == p.start_sector->0
            &&& p.start_sector is None && p.num == 1 ==> span.first == floor
            &&& span.last == span.first + size->Ok_0 - 1
            &&& gpt_fits(geo, extents, p.num - 1, span.first as int, span.last as int)
        }),
{
}

/// The shape of a place in an MBR: a partition that is placed has the
/// number of sectors that `size_spec` settles, which is at least a
/// mebibyte and is the declared size where one is declared; it starts
/// where `start_spec` settles, which is the declared start where one is
/// declared and one mebibyte into the disk for partition 1 without one;
/// it has the byte of its type; and it is marked active exactly if it is
/// the boot partition.
pub proof fn lemma_mbr_place_shape(
    p: PartitionSpec,
    num_partitions: u32,
    floor: u32,
    geo: MbrGeometry,
    entries: Seq<MbrEntry>,
)
    requires
        mbr_place_spec(p, num_partitions, floor, geo, entries) is Ok,
    ensures
        ({
            let entry = mbr_place_spec(p, num_partitions, floor, geo, entries)->Ok_0;
            let free = mbr_free_sectors(geo.disk_size, geo.align, entries);
            let size = size_spec(p, num_partitions, floor as u64, free);
            &&& size == Ok::<u64, LayoutError>(entry.sectors as u64)
            &&& entry.sectors >= floor
            &&& p.size_in_sectors != 0 ==> entry.sectors == p.size_in_sectors
            &&& start_spec(p, floor as u64, first_fit(free, size->Ok_0)) == Ok::<u64, LayoutError>(
                entry.starting_lba as u64,
            )
            &&& p.start_sector is Some ==> entry.starting_lba == p.start_sector->0
            &&& p.start_sector is None && p.num == 1 ==> entry.starting_lba == floor
            &&& p.part_type.byte_spec() == Ok::<u8, PartTypeError>(entry.sys)
            &&& entry.boot == boot_flag(p.usage)
            &&& mbr_fits(
                geo.disk_size,
                entries,
                p.num - 1,
                entry.starting_lba as int,
                entry.starting_lba + entry.sectors - 1,
            )
        }),
{
}

/// The extents of a GPT before the partition at place `k` is placed: those
/// that the partitions from place `from` up to it have left.
pub open spec fn gpt_extents_before(
    parts: Seq<PartitionSpec>,
    num_partitions: u32,
    floor: u64,
    geo: GptGeometry,
    extents: Seq<Extent>,
    from: int,
    k: int,
) -> Seq<Extent>
    decreases k - from,
{
    if from >= k {
        extents
    } else {
        gpt_extents_before(
            parts,
            num_partitions,
            floor,
            geo,
            extents.update(
                parts[from].num - 1,
                Some(gpt_place_spec(parts[from], num_partitions, floor, geo, extents)->Ok_0),
            ),
            from + 1,
            k,
        )
    }
}

/// The entries of an MBR before the partition at place `k` is placed:
/// those that the partitions from place `from` up to it have left.
pub open spec fn mbr_entries_before(
    parts: Seq<PartitionSpec>,
    num_partitions: u32,
    floor: u32,
    geo: MbrGeometry,
    entries: Seq<MbrEntry>,
    from: int,
    k: int,
) -> Seq<MbrEntry>
    decreases k - from,
{
    if from >= k {
        entries
    } else {
        mbr_entries_before(
            parts,
            num_partitions,
            floor,
            geo,
            entries.update(
                parts[from].num - 1,
                mbr_place_spec(parts[from], num_partitions, floor, geo, entries)->Ok_0,
            ),
            from + 1,
            k,
        )
    }
}

/// Every entry of a GPT is its place: where a table takes all partitions
/// from place `from` on, the partition at place `k`, whose number no later
/// partition repeats, has in the end the sectors that `gpt_place_spec`
/// gave it in the table that the partitions before it had left. So its
/// last sector is its first and its size less one, its size is at least
/// a mebibyte, and partition 1 without a declared start starts one
/// mebibyte into the disk.
pub proof fn lemma_gpt_entry_is_its_place(
    parts: Seq<PartitionSpec>,
    num_partitions: u32,
    floor: u64,
    geo: GptGeometry,
    extents: Seq<Extent>,
    from: int,
    k: int,
)
    requires
        0 <= from <= k < parts.len(),
        gpt_layout_spec(parts, num_partitions, floor, geo, extents, from) is Ok,
        last_of_number(parts, k, parts.len() as int),
    ensures
        ({
            let after = gpt_layout_spec(parts, num_partitions, floor, geo, extents, from)->Ok_0;
            let before = gpt_extents_before(parts, num_partitions, floor, geo, extents, from, k);
            let place = gpt_place_spec(parts[k], num_partitions, floor, geo, before);
            &&& place is Ok
            &&& 1 <= parts[k].num <= after.len()
            &&& after[parts[k].num - 1] == Some(place->Ok_0)
            &&& place->Ok_0.last - place->Ok_0.first + 1 >= floor
            &&& parts[k].size_in_sectors != 0 ==> place->Ok_0.last == place->Ok_0.first
                + parts[k].size_in_sectors - 1
            &&& parts[k].start_sector is None && parts[k].num == 1 ==> place->Ok_0.first == floor
        }),
    decreases k - from,
{
    let p = parts[from];
    let span = gpt_place_spec(p, num_partitions, floor, geo, extents)->Ok_0;
    let next = extents.update(p.num - 1, Some(span));
    if from == k {
        assert forall|m: int| from + 1 <= m < parts.len() implies (#[trigger] parts[m]).num - 1
            != p.num - 1 by {
            assert(parts[m].num != parts[k].num);
        }
        lemma_gpt_untouched(parts, num_partitions, floor, geo, next, from + 1, p.num - 1);
        lemma_gpt_place_shape(p, num_partitions, floor, geo, extents);
    } else {
        lemma_gpt_entry_is_its_place(parts, num_partitions, floor, geo, next, from + 1, k);
    }
}

/// Every entry of an MBR is its place: where a table with four entries
/// takes all partitions from place `from` on, the partition at place `k`,
/// whose number no later partition repeats, has in the end the entry that
/// `mbr_place_spec` gave it in the table that the partitions before it had
/// left. So it has at least a mebibyte of sectors, the declared number of
/// sectors where one is declared, and partition 1 without a declared
/// start starts one mebibyte into the disk.
pub proof fn lemma_mbr_entry_is_its_place(
    parts: Seq<PartitionSpec>,
    num_partitions: u32,
    floor: u32,
    geo: MbrGeometry,
    entries: Seq<MbrEntry>,
    from: int,
    k: int,
)
    requires
        0 <= from <= k < parts.len(),
        entries.len() == 4,
        mbr_layout_spec(parts, num_partitions, floor, geo, entries, from) is Ok,
        last_of_number(parts, k, parts.len() as int),
    ensures
        ({
            let after = mbr_layout_spec(parts, num_partitions, floor, geo, entries, from)->Ok_0;
            let before = mbr_entries_before(parts, num_partitions, floor, geo, entries, from, k);
            let place = mbr_place_spec(parts[k], num_partitions, floor, geo, before);
            &&& place is Ok
            &&& 1 <= parts[k].num <= 4
            &&& after.len() == 4
            &&& after[parts[k].num - 1] == place->Ok_0
            &&& place->Ok_0.sectors >= floor
            &&& parts[k].size_in_sectors != 0 ==> place->Ok_0.sectors == parts[k].size_in_sectors
            &&& parts[k].start_sector is None && parts[k].num == 1 ==> place->Ok_0.starting_lba
                == floor
        }),
    decreases k - from,
{
    let p = parts[from];
    let entry = mbr_place_spec(p, num_partitions, floor, geo, entries)->Ok_0;
    let next = entries.update(p.num - 1, entry);
    if from == k {
        assert forall|m: int| from + 1 <= m < parts.len() implies (#[trigger] parts[m]).num - 1
            != p.num - 1 by {
            assert(parts[m].num != parts[k].num);
        }
        lemma_mbr_untouched(parts, num_partitions, floor, geo, next, from + 1, p.num - 1);
        lemma_mbr_place_shape(p, num_partitions, floor, geo, entries);
    } else {
        lemma_mbr_entry_is_its_place(parts, num_partitions, floor, geo, next, from + 1, k);
    }
}

/// The rest of a GPT: a partition that asks for all the space that is
/// left, whose start the table settles, and that is placed, starts where
/// the last free range of the table starts and ends one sector before
/// that range ends, as long as no earlier free range is as large. In a
/// table whose only free range reaches to the last usable sector, it ends
/// one sector before the last usable sector.
pub proof fn lemma_gpt_rest_of_the_disk(
    p: PartitionSpec,
    num_partitions: u32,
    floor: u64,
    geo: GptGeometry,
    extents: Seq<Extent>,
)
    requires
        p.size_in_sectors == 0,
        needs_offer(p),
        gpt_place_spec(p, num_partitions, floor, geo, extents) is Ok,
        ({
            let free = gpt_free_sectors(geo.first_usable, geo.last_usable, geo.align, extents);
            &&& free.len() > 0 ==> free.last().sectors >= 1
            &&& forall|j: int|
                0 <= j < free.len() - 1 ==> (#[trigger] free[j]).sectors < free.last().sectors - 1
        }),
    ensures
        ({
            let free = gpt_free_sectors(geo.first_usable, geo.last_usable, geo.align, extents);
            let span = gpt_place_spec(p, num_partitions, floor, geo, extents)->Ok_0;
            &&& free.len() > 0
            &&& p.num == num_partitions
            &&& span.first == free.last().start
            &&& span.last == free.last().start + free.last().sectors - 2
        }),
{
    let free = gpt_free_sectors(geo.first_usable, geo.last_usable, geo.align, extents);
    lemma_gpt_place_shape(p, num_partitions, floor, geo, extents);
    lemma_rest_is_the_last_range(p, num_partitions, floor, free);
}

/// Must be last, in a GPT: where something is free, a partition with a
/// number other than 0 that asks for all the space that is left and is not
/// the last one fails for that reason, whatever else is wrong with it.
pub proof fn lemma_gpt_must_be_last_comes_first(
    p: PartitionSpec,
    num_partitions: u32,
    floor: u64,
    geo: GptGeometry,
    extents: Seq<Extent>,
)
    requires
        p.num != 0,
        p.size_in_sectors == 0,
        p.num != num_partitions,
        gpt_free_sectors(geo.first_usable, geo.last_usable, geo.align, extents).len() > 0,
    ensures
        gpt_place_spec(p, num_partitions, floor, geo, extents) == Err::<Span, LayoutError>(
            LayoutError::MaxSizedNotLast { num: p.num },
        ),
{
}

/// Must be last, in an MBR: where something is free, a partition numbered
/// 1 to 4 that asks for all the space that is left and is not the last
/// one fails for that reason, whatever else is wrong with it.
pub proof fn lemma_mbr_must_be_last_comes_first(
    p: PartitionSpec,
    num_partitions: u32,
    floor: u32,
    geo: MbrGeometry,
    entries: Seq<MbrEntry>,
)
    requires
        1 <= p.num <= 4,
        p.size_in_sectors == 0,
        p.num != num_partitions,
        mbr_free_sectors(geo.disk_size, geo.align, entries).len() > 0,
    ensures
        mbr_place_spec(p, num_partitions, floor, geo, entries) == Err::<MbrEntry, LayoutError>(
            LayoutError::MaxSizedNotLast { num: p.num },
        ),
{
}

/// The limit of an MBR: where something is free, a partition numbered 1
/// to 4 with a declared size beyond 32 bits fails for that reason, and so
/// does one with a declared size of at least a mebibyte and a declared
/// start beyond 32 bits, whatever else is wrong with them.
pub proof fn lemma_mbr_limit_comes_first(
    p: PartitionSpec,
    num_partitions: u32,
    floor: u32,
    geo: MbrGeometry,
    entries: Seq<MbrEntry>,
)
    requires
        1 <= p.num <= 4,
        mbr_free_sectors(geo.disk_size, geo.align, entries).len() > 0,
        p.size_in_sectors > u32::MAX || (p.size_in_sectors != 0 && floor <= p.size_in_sectors
            && p.start_sector is Some && p.start_sector->0 > u32::MAX),
    ensures
        mbr_place_spec(p, num_partitions, floor, geo, entries) == Err::<MbrEntry, LayoutError>(
            LayoutError::ExceedsMbrLimit { num: p.num },
        ),
{
}

/// Numbers above 4 alone: an MBR gives the fault of a logical partition
/// to no partition numbered 1 to 4.
pub proof fn lemma_mbr_logical_fault_is_for_numbers_above_four(
    p: PartitionSpec,
    num_partitions: u32,
    floor: u32,
    geo: MbrGeometry,
    entries: Seq<MbrEntry>,
    n: u32,
)
    requires
        mbr_place_spec(p, num_partitions, floor, geo, entries) == Err::<MbrEntry, LayoutError>(
            LayoutError::ExtendedUnsupported { num: n },
        ),
    ensures
        p.num > 4,
        n == p.num,
{
}

} // verus!
