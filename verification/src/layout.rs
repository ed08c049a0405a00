//! What the two kinds of partition table have in common when partitions are
//! laid out: the size of a mebibyte in sectors, and the faults of a layout.

use vstd::prelude::*;
use vstd::string::*;
use crate::partition::PartTypeError;
use crate::partition::PartitionSpec;
use crate::partition::PartitionUsage;
use crate::text::decimal;
use crate::text::u64_to_decimal;

verus! {

/// The number of bytes in a mebibyte. Partitions are aligned to it, the first
/// partition starts one mebibyte into the disk, and no partition is smaller.
pub const MEBIBYTE: u64 = 1048576;

/// A range of sectors, given by its first and its last sector.
#[derive(Copy, Clone, Debug, PartialEq, Eq, Structural)]
pub struct Span {
    pub first: u64,
    pub last: u64,
}

/// A range of free sectors, given by its first sector and its length.
#[derive(Copy, Clone, Debug, PartialEq, Eq, Structural)]
pub struct FreeRange {
    pub start: u64,
    pub sectors: u64,
}

/// Why partitions cannot be laid out.
#[derive(Copy, Clone, Debug, PartialEq, Eq, Structural)]
pub enum LayoutError {
    /// The sector size is 0 or more than a mebibyte.
    UnsupportedSectorSize,
    /// The table handed in holds partitions that overlap or leave its usable
    /// sectors, or its sectors cannot be counted without overflow.
    InconsistentTable,
    /// A partition has the number 0.
    NumberZero,
    /// A partition has a number for which the table has no entry.
    NumberOutOfRange { num: u32 },
    /// A partition of an MBR has a number above 4: it would be a logical
    /// partition, and those are not built.
    ExtendedUnsupported { num: u32 },
    /// A partition of an MBR, numbered 1 to 4, has the type byte `0xd5`.
    /// The table would take it for a container of logical partitions and
    /// offer the sectors inside it to the partitions that follow, so no
    /// such partition is placed.
    ContainerType { num: u32 },
    /// The partition has the swap type, or is meant for swap.
    Swap { num: u32 },
    /// The partition is told to start inside the sectors kept for the
    /// partition table.
    StartOverlapsTable { num: u32 },
    /// Nothing is free any more when this partition is reached.
    NoFreeSpace { num: u32 },
    /// A partition that asks for all the space that is left is not the last one.
    MaxSizedNotLast { num: u32 },
    /// The partition would be smaller than a mebibyte.
    TooSmall { num: u32 },
    /// The size or the start of the partition does not fit the 32 bits of an MBR.
    ExceedsMbrLimit { num: u32 },
    /// The type of the partition has no form in this kind of table.
    Type { num: u32, cause: PartTypeError },
    /// The type of the partition is the one that marks an unused entry: the
    /// GUID of 32 zeros in a GPT, the byte 0 in an MBR. The entry would
    /// count as free and its sectors would be offered again, so no such
    /// partition is placed.
    EmptyType { num: u32 },
    /// No free range is large enough for the partition.
    NoSuitableSpace { num: u32 },
    /// The partition would leave the usable sectors or overlap another one.
    InvalidBoundaries { num: u32 },
}

impl LayoutError {
    /// The text shown to the user for this error.
    pub open spec fn text(self) -> Seq<char> {
        match self {
            LayoutError::UnsupportedSectorSize => "Sectors must hold at least one byte and at most a mebibyte."@,
            LayoutError::InconsistentTable => "The partition table holds partitions that overlap or leave the disk."@,
            LayoutError::NumberZero => "Partition number must start from 1."@,
            LayoutError::NumberOutOfRange { num } => "Partition number "@ + decimal(num as nat) + " exceeds the limit"@,
            LayoutError::ExtendedUnsupported { .. } => "Extended and logical partitions are not supported."@,
            LayoutError::Swap { .. } => "Swap partitions are not allowed on raw images."@,
            LayoutError::StartOverlapsTable { num } => "Starting sector of partition "@ + decimal(num as nat) + " overlaps the partition table itself."@,
            LayoutError::ContainerType { num } => "The type of partition "@ + decimal(num as nat) + " marks a container of logical partitions."@,
            LayoutError::NoFreeSpace { .. } => "No more free space available for new partitions"@,
            LayoutError::MaxSizedNotLast { .. } => "Max sized partition must stay at the end of the table."@,
            LayoutError::TooSmall { .. } => "Not enough free space to create a partition"@,
            LayoutError::ExceedsMbrLimit { .. } => "Partition size exceeds the limit of MBR"@,
            LayoutError::Type { cause, .. } => cause.text(),
            LayoutError::EmptyType { num } => "The type of partition "@ + decimal(num as nat) + " marks an unused entry."@,
            LayoutError::NoSuitableSpace { num } => "No suitable space found for partition "@ + decimal(num as nat) + "."@,
            LayoutError::InvalidBoundaries { num } => "Invalid boundaries of partition "@ + decimal(num as nat) + ": partitions must have positive size, must not overlap, and must fit within the disk"@,
        }
    }

    /// Renders the error for the user.
    pub fn message(&self) -> (s: String)
        ensures
            s@ == self.text(),
    {
        match self {
            LayoutError::UnsupportedSectorSize => {
                let mut s = String::from_str("Sectors must hold at least one byte and at most a mebibyte.");
                s
            },
            LayoutError::InconsistentTable => {
                let mut s = String::from_str("The partition table holds partitions that overlap or leave the disk.");
                s
            },
            LayoutError::NumberZero => {
                let mut s = String::from_str("Partition number must start from 1.");
                s
            },
            LayoutError::NumberOutOfRange { num } => {
                let mut s = String::from_str("Partition number ");
                s.append(u64_to_decimal(*num as u64).as_str());
                s.append(" exceeds the limit");
                assert(s@ =~= "Partition number "@ + decimal(*num as nat) + " exceeds the limit"@);
                s
            },
            LayoutError::ExtendedUnsupported { .. } => {
                let mut s = String::from_str("Extended and logical partitions are not supported.");
                s
            },
            LayoutError::Swap { .. } => {
                let mut s = String::from_str("Swap partitions are not allowed on raw images.");
                s
            },
            LayoutError::StartOverlapsTable { num } => {
                let mut s = String::from_str("Starting sector of partition ");
                s.append(u64_to_decimal(*num as u64).as_str());
                s.append(" overlaps the partition table itself.");
                assert(s@ =~= "Starting sector of partition "@ + decimal(*num as nat) + " overlaps the partition table itself."@);
                s
            },
            LayoutError::ContainerType { num } => {
                let mut s = String::from_str("The type of partition ");
                s.append(u64_to_decimal(*num as u64).as_str());
                s.append(" marks a container of logical partitions.");
                assert(s@ =~= "The type of partition "@ + decimal(*num as nat) + " marks a container of logical partitions."@);
                s
            },
            LayoutError::NoFreeSpace { .. } => {
                let mut s = String::from_str("No more free space available for new partitions");
                s
            },
            LayoutError::MaxSizedNotLast { .. } => {
                let mut s = String::from_str("Max sized partition must stay at the end of the table.");
                s
            },
            LayoutError::TooSmall { .. } => {
                let mut s = String::from_str("Not enough free space to create a partition");
                s
            },
            LayoutError::ExceedsMbrLimit { .. } => {
                let mut s = String::from_str("Partition size exceeds the limit of MBR");
                s
            },
            LayoutError::Type { cause, .. } => {
                let mut s = String::new();
                s.append(cause.message());
                s
            },
            LayoutError::EmptyType { num } => {
                let mut s = String::from_str("The type of partition ");
                s.append(u64_to_decimal(*num as u64).as_str());
                s.append(" marks an unused entry.");
                assert(s@ =~= "The type of partition "@ + decimal(*num as nat) + " marks an unused entry."@);
                s
            },
            LayoutError::NoSuitableSpace { num } => {
                let mut s = String::from_str("No suitable space found for partition ");
                s.append(u64_to_decimal(*num as u64).as_str());
                s.append(".");
                assert(s@ =~= "No suitable space found for partition "@ + decimal(*num as nat) + "."@);
                s
            },
            LayoutError::InvalidBoundaries { num } => {
                let mut s = String::from_str("Invalid boundaries of partition ");
                s.append(u64_to_decimal(*num as u64).as_str());
                s.append(": partitions must have positive size, must not overlap, and must fit within the disk");
                assert(s@ =~= "Invalid boundaries of partition "@ + decimal(*num as nat) + ": partitions must have positive size, must not overlap, and must fit within the disk"@);
                s
            },
        }
    }
}

/// The number of sectors of `sector_size` bytes in a mebibyte.
pub open spec fn sectors_per_mebibyte(sector_size: int) -> int {
    MEBIBYTE as int / sector_size
}

/// Whether two ranges of sectors, each given by its first and last sector,
/// have a sector in common.
pub open spec fn ranges_overlap(first_a: int, last_a: int, first_b: int, last_b: int) -> bool {
    first_a <= last_b && first_b <= last_a
}

/// The first free range of at least `size` sectors, by its first sector.
pub open spec fn first_fit(free: Seq<FreeRange>, size: u64) -> Option<u64>
    decreases free.len(),
{
    if free.len() == 0 {
        None
    } else if free[0].sectors >= size {
        Some(free[0].start)
    } else {
        first_fit(free.drop_first(), size)
    }
}

/// The size of a partition in sectors, given the free ranges of the table
/// at the time it is placed: the declared size, or, where that is 0, all of
/// the last free range but one sector. A size of 0 is for the partition
/// whose number is the declared number of partitions. Nothing is placed
/// when nothing is free, and no partition is smaller than `floor` sectors.
pub open spec fn size_spec(
    p: PartitionSpec,
    num_partitions: u32,
    floor: u64,
    free: Seq<FreeRange>,
) -> Result<u64, LayoutError> {
    if free.len() == 0 {
        Err(LayoutError::NoFreeSpace { num: p.num })
    } else if p.size_in_sectors == 0 && p.num != num_partitions {
        Err(LayoutError::MaxSizedNotLast { num: p.num })
    } else {
        let size = if p.size_in_sectors != 0 {
            p.size_in_sectors
        } else {
            (free.last().sectors - 1) as u64
        };
        if size < floor {
            Err(LayoutError::TooSmall { num: p.num })
        } else {
            Ok(size)
        }
    }
}

/// The last of the sectors at the start of a disk that are kept for the
/// partition table.
pub const LAST_TABLE_SECTOR: u64 = 33;

/// The first sector of a partition: the declared one, which lies behind
/// the sectors of the partition table; else, for partition 1, the sector
/// one mebibyte into the disk (`floor`); else the place that the table
/// offers, if it offers one.
pub open spec fn start_spec(p: PartitionSpec, floor: u64, offered: Option<u64>) -> Result<
    u64,
    LayoutError,
> {
    if p.start_sector is Some {
        if p.start_sector->0 <= LAST_TABLE_SECTOR {
            Err(LayoutError::StartOverlapsTable { num: p.num })
        } else {
            Ok(p.start_sector->0)
        }
    } else if p.num == 1 {
        Ok(floor)
    } else if offered is Some {
        Ok(offered->0)
    } else {
        Err(LayoutError::NoSuitableSpace { num: p.num })
    }
}

/// Decides the size of a partition from the free ranges of the table.
pub fn partition_size(p: &PartitionSpec, num_partitions: u32, floor: u64, free: &Vec<FreeRange>) -> (r:
    Result<u64, LayoutError>)
    requires
        forall|k: int| 0 <= k < free@.len() ==> (#[trigger] free@[k]).sectors > 0,
    ensures
        r == size_spec(*p, num_partitions, floor, free@),
{
    if free.len() == 0 {
        return Err(LayoutError::NoFreeSpace { num: p.num });
    }
    let size = if p.size_in_sectors != 0 {
        p.size_in_sectors
    } else {
        if p.num != num_partitions {
            return Err(LayoutError::MaxSizedNotLast { num: p.num });
        }
        free[free.len() - 1].sectors - 1
    };
    if size < floor {
        Err(LayoutError::TooSmall { num: p.num })
    } else {
        Ok(size)
    }
}

/// Decides the first sector of a partition; `offered` is the place that
/// the table offers for it.
pub fn partition_start(p: &PartitionSpec, floor: u64, offered: Option<u64>) -> (r: Result<
    u64,
    LayoutError,
>)
    ensures
        r == start_spec(*p, floor, offered),
{
    if let Some(start) = p.start_sector {
        if start <= LAST_TABLE_SECTOR {
            Err(LayoutError::StartOverlapsTable { num: p.num })
        } else {
            Ok(start)
        }
    } else if p.num == 1 {
        Ok(floor)
    } else {
        match offered {
            Some(start) => Ok(start),
            None => Err(LayoutError::NoSuitableSpace { num: p.num }),
        }
    }
}

/// Whether no partition between the places `k` and `upto` has the number
/// of the partition at place `k`.
pub open spec fn last_of_number(parts: Seq<PartitionSpec>, k: int, upto: int) -> bool {
    forall|m: int| k < m < upto && m < parts.len() ==> (#[trigger] parts[m]).num != parts[k].num
}

/// Whether one of the partitions before place `upto` has the number `n`.
pub open spec fn number_used(parts: Seq<PartitionSpec>, n: u32, upto: int) -> bool {
    exists|k: int| 0 <= k < upto && k < parts.len() && (#[trigger] parts[k]).num == n
}

/// Whether a partition is a swap partition, by its type or by its use.
/// No image is built with one.
pub open spec fn is_swap(p: PartitionSpec) -> bool {
    p.part_type is Swap || p.usage == PartitionUsage::Swap
}

/// Tells whether a partition is a swap partition.
pub fn partition_is_swap(p: &PartitionSpec) -> (b: bool)
    ensures
        b == is_swap(*p),
{
    if p.part_type.is_swap() {
        true
    } else {
        match p.usage {
            PartitionUsage::Swap => true,
            _ => false,
        }
    }
}

/// Whether the place that the table offers decides where a partition starts.
pub open spec fn needs_offer(p: PartitionSpec) -> bool {
    p.start_sector is None && p.num != 1
}

/// A place that is offered is the start of a free range that is large
/// enough.
pub proof fn lemma_first_fit_is_a_range(free: Seq<FreeRange>, size: u64)
    requires
        first_fit(free, size) is Some,
    ensures
        exists|k: int|
            0 <= k < free.len() && (#[trigger] free[k]).start == first_fit(free, size)->0
                && free[k].sectors >= size,
    decreases free.len(),
{
    if free[0].sectors >= size {
        assert(free[0].start == first_fit(free, size)->0);
    } else {
        lemma_first_fit_is_a_range(free.drop_first(), size);
        let k = choose|k: int|
            0 <= k < free.drop_first().len() && (#[trigger] free.drop_first()[k]).start
                == first_fit(free.drop_first(), size)->0 && free.drop_first()[k].sectors >= size;
        assert(free[k + 1].start == first_fit(free, size)->0);
    }
}

} // verus!
