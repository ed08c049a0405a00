//! Filesystems that a partition can carry, and the rules on their labels.

use vstd::prelude::*;
use vstd::string::*;
use vstd::utf8::*;
use crate::commands::CommandLine;
use crate::commands::CommandText;
use crate::device::DeviceSpec;
use crate::identity::partition_device;
use crate::identity::partition_device_spec;
use crate::partition::PartitionSpec;
use crate::partition::PartitionUsage;
use crate::text::byte_len;
use crate::text::texts_of;

verus! {

/// Which filesystem is created on a partition.
#[derive(Copy, Clone, Debug, PartialEq, Eq, PartialOrd, Ord, Structural)]
pub enum FilesystemType {
    /// Linux extended filesystem version 4.
    Ext4,
    /// XFS.
    Xfs,
    /// B-tree filesystem.
    Btrfs,
    /// FAT16.
    Fat16,
    /// FAT32.
    Fat32,
    /// The partition is left unformatted.
    Unformatted,
}

/// Why a filesystem request cannot be served.
#[derive(Copy, Clone, Debug, PartialEq, Eq, Structural)]
pub enum FsError {
    /// A FAT volume label holds a character outside ASCII.
    FatLabelNotAscii,
    /// A FAT volume label is longer than 11 bytes.
    FatLabelTooLong,
    /// A label of another filesystem is longer than 63 bytes.
    LabelTooLong,
    /// The partition is to stay unformatted, so it has no filesystem to name or create.
    NotFormattable,
}

impl FsError {
    /// The text shown to the user for this error.
    pub open spec fn text(self) -> Seq<char> {
        match self {
            FsError::FatLabelNotAscii => "FAT volume label can only contain ASCII characters."@,
            FsError::FatLabelTooLong => "FAT Volume labels can not be longer than 11 characters."@,
            FsError::LabelTooLong => "Filesystem labels are limited to up to 63 bytes."@,
            FsError::NotFormattable => "It is instructed to not being formatted"@,
        }
    }

    /// Renders the error for the user.
    pub fn message(&self) -> (s: &'static str)
        ensures
            s@ == self.text(),
    {
        match self {
            FsError::FatLabelNotAscii => "FAT volume label can only contain ASCII characters.",
            FsError::FatLabelTooLong => "FAT Volume labels can not be longer than 11 characters.",
            FsError::LabelTooLong => "Filesystem labels are limited to up to 63 bytes.",
            FsError::NotFormattable => "It is instructed to not being formatted",
        }
    }
}

impl FilesystemType {
    /// Whether this is one of the FAT family.
    pub open spec fn is_fat(self) -> bool {
        self == FilesystemType::Fat16 || self == FilesystemType::Fat32
    }

    /// The verdict on a filesystem label: FAT labels are ASCII and at most 11
    /// bytes long, every other label is at most 63 bytes long, and no label
    /// is always fine.
    pub open spec fn label_verdict(self, label: Option<Seq<char>>) -> Result<(), FsError> {
        match label {
            None => Ok(()),
            Some(l) => if self.is_fat() {
                if !is_ascii_chars(l) {
                    Err(FsError::FatLabelNotAscii)
                } else if encode_utf8(l).len() > 11 {
                    Err(FsError::FatLabelTooLong)
                } else {
                    Ok(())
                }
            } else if encode_utf8(l).len() > 63 {
                Err(FsError::LabelTooLong)
            } else {
                Ok(())
            },
        }
    }

    /// Checks a filesystem label against the rules of this filesystem.
    pub fn check(&self, label: &Option<String>) -> (r: Result<(), FsError>)
        ensures
            r == self.label_verdict(opt_text(*label)),
    {
        match label {
            None => Ok(()),
            Some(l) => {
                let l = l.as_str();
                let len = byte_len(l);
                match self {
                    FilesystemType::Fat16 | FilesystemType::Fat32 => {
                        if !l.is_ascii() {
                            Err(FsError::FatLabelNotAscii)
                        } else if len > 11 {
                            Err(FsError::FatLabelTooLong)
                        } else {
                            Ok(())
                        }
                    },
                    _ => {
                        if len > 63 {
                            Err(FsError::LabelTooLong)
                        } else {
                            Ok(())
                        }
                    },
                }
            },
        }
    }

    /// The name under which the operating system mounts this filesystem.
    pub open spec fn os_fstype(self) -> Result<Seq<char>, FsError> {
        match self {
            FilesystemType::Ext4 => Ok("ext4"@),
            FilesystemType::Xfs => Ok("xfs"@),
            FilesystemType::Btrfs => Ok("btrfs"@),
            FilesystemType::Fat16 | FilesystemType::Fat32 => Ok("vfat"@),
            FilesystemType::Unformatted => Err(FsError::NotFormattable),
        }
    }

    /// The filesystem type string for mounting and for the filesystem table;
    /// an unformatted partition has none.
    pub fn get_os_fstype(&self) -> (r: Result<&'static str, FsError>)
        ensures
            r is Ok <==> *self != FilesystemType::Unformatted,
            match r {
                Ok(s) => self.os_fstype() == Ok::<Seq<char>, FsError>(s@),
                Err(e) => self.os_fstype() == Err::<Seq<char>, FsError>(e),
            },
    {
        match self {
            FilesystemType::Ext4 => Ok("ext4"),
            FilesystemType::Xfs => Ok("xfs"),
            FilesystemType::Btrfs => Ok("btrfs"),
            FilesystemType::Fat16 | FilesystemType::Fat32 => Ok("vfat"),
            FilesystemType::Unformatted => Err(FsError::NotFormattable),
        }
    }

    /// The program that creates this filesystem.
    pub open spec fn mkfs_program(self) -> Seq<char> {
        match self {
            FilesystemType::Ext4 => "mkfs.ext4"@,
            FilesystemType::Btrfs => "mkfs.btrfs"@,
            FilesystemType::Xfs => "mkfs.xfs"@,
            _ => "mkfs.vfat"@,
        }
    }

    /// The option that introduces the label on that program's command line.
    pub open spec fn label_flag(self) -> Seq<char> {
        if self.is_fat() {
            "-n"@
        } else {
            "-L"@
        }
    }

    /// The arguments of the creation command: the label option and the
    /// label where there is one, then `--` and the device.
    pub open spec fn mkfs_args(self, path: Seq<char>, label: Option<Seq<char>>) -> Seq<Seq<char>> {
        match label {
            Some(l) => seq![self.label_flag(), l, "--"@, path],
            None => seq!["--"@, path],
        }
    }

    /// The command that creates this filesystem on the device at `path`:
    /// none for a partition that stays unformatted, none for a label that
    /// breaks the rules of the filesystem.
    pub open spec fn mkfs_plan(self, path: Seq<char>, label: Option<Seq<char>>) -> Result<
        CommandText,
        FsError,
    > {
        if self == FilesystemType::Unformatted {
            Err(FsError::NotFormattable)
        } else if self.label_verdict(label) is Err {
            Err(self.label_verdict(label)->Err_0)
        } else {
            Ok(CommandText { program: self.mkfs_program(), args: self.mkfs_args(path, label) })
        }
    }

    /// The command line that creates this filesystem on the device at `path`.
    ///
    /// Nothing is created for an unformatted partition, and a label that
    /// breaks the rules of the filesystem is refused.
    pub fn get_mkfs_cmdline(&self, path: &str, label: Option<String>) -> (r: Result<
        CommandLine,
        FsError,
    >)
        ensures
            command_result_is(r, self.mkfs_plan(path@, opt_text(label))),
    {
        if let FilesystemType::Unformatted = self {
            return Err(FsError::NotFormattable);
        }
        match self.check(&label) {
            Err(e) => {
                return Err(e);
            },
            Ok(_) => {},
        }
        let program = String::from_str(
            match self {
                FilesystemType::Ext4 => "mkfs.ext4",
                FilesystemType::Btrfs => "mkfs.btrfs",
                FilesystemType::Xfs => "mkfs.xfs",
                _ => "mkfs.vfat",
            },
        );
        let mut args: Vec<String> = Vec::new();
        if let Some(l) = label {
            let flag = match self {
                FilesystemType::Fat16 | FilesystemType::Fat32 => "-n",
                _ => "-L",
            };
            args.push(String::from_str(flag));
            args.push(l);
        }
        args.push(String::from_str("--"));
        args.push(String::from_str(path));
        assert(texts_of(args@) =~= self.mkfs_args(path@, opt_text(label)));
        Ok(CommandLine { program, args })
    }

    /// The filesystem that is really created on a partition: the one chosen
    /// at build time where one was chosen and the partition holds the root
    /// filesystem, the declared one otherwise.
    pub open spec fn effective_spec(
        self,
        usage: PartitionUsage,
        override_rootfs: Option<FilesystemType>,
    ) -> FilesystemType {
        if usage == PartitionUsage::Rootfs && override_rootfs is Some {
            override_rootfs->0
        } else {
            self
        }
    }

    /// Applies a build-time choice of root filesystem to a partition's
    /// declared filesystem. Only the root partition follows the choice.
    pub fn effective(&self, usage: &PartitionUsage, override_rootfs: &Option<FilesystemType>) -> (r:
        FilesystemType)
        ensures
            r == self.effective_spec(*usage, *override_rootfs),
    {
        match usage {
            PartitionUsage::Rootfs => match override_rootfs {
                Some(fs) => *fs,
                None => *self,
            },
            _ => *self,
        }
    }
}

/// The characters of an optional string.
pub open spec fn opt_text(s: Option<String>) -> Option<Seq<char>> {
    match s {
        Some(t) => Some(t@),
        None => None,
    }
}

/// Whether a command, or the refusal to give one, is what `plan` says.
pub open spec fn command_result_is(r: Result<CommandLine, FsError>, plan: Result<CommandText, FsError>) -> bool {
    match r {
        Ok(cmd) => plan == Ok::<CommandText, FsError>(cmd@),
        Err(e) => plan == Err::<CommandText, FsError>(e),
    }
}

/// The formatting of one partition.
#[derive(Debug, PartialEq, Eq)]
pub struct FormatStep {
    /// Number of the partition.
    pub num: u32,
    /// Device node of the partition.
    pub device: String,
    /// The filesystem that is created.
    pub filesystem: FilesystemType,
    /// The command that creates it, or why there is none.
    pub command: Result<CommandLine, FsError>,
}

/// The places of the partitions that are formatted: those whose declared
/// filesystem is not "unformatted", in the order of the table.
pub open spec fn formatted_places(parts: Seq<PartitionSpec>, upto: int) -> Seq<int>
    decreases upto,
{
    if upto <= 0 {
        Seq::empty()
    } else if parts[upto - 1].filesystem != FilesystemType::Unformatted {
        formatted_places(parts, upto - 1).push(upto - 1)
    } else {
        formatted_places(parts, upto - 1)
    }
}

/// Whether a step formats the partition `p` of the disk at `loopdev`: it
/// creates the filesystem that is in effect for the partition, labelled
/// with the label of the partition, on the device node of the partition.
pub open spec fn is_format_of(
    step: FormatStep,
    p: PartitionSpec,
    loopdev: Seq<char>,
    override_rootfs: Option<FilesystemType>,
) -> bool {
    &&& step.num == p.num
    &&& step.device@ == partition_device_spec(loopdev, p.num)
    &&& step.filesystem == p.filesystem.effective_spec(p.usage, override_rootfs)
    &&& command_result_is(
        step.command,
        step.filesystem.mkfs_plan(partition_device_spec(loopdev, p.num), opt_text(p.label)),
    )
}

/// What formatting the partitions of a device takes: one step for each
/// partition that is to carry a filesystem, in the order of the table.
/// The filesystem chosen at build time replaces that of the root partition
/// only.
pub fn format_partitions(device: &DeviceSpec, loopdev: &str, override_rootfs: &Option<FilesystemType>) -> (steps:
    Vec<FormatStep>)
    ensures
        steps@.len() == formatted_places(device.partitions@, device.partitions@.len() as int).len(),
        forall|j: int|
            0 <= j < steps@.len() ==> is_format_of(
                #[trigger] steps@[j],
                device.partitions@[formatted_places(
                    device.partitions@,
                    device.partitions@.len() as int,
                )[j]],
                loopdev@,
                *override_rootfs,
            ),
{
    let parts = &device.partitions;
    let mut steps: Vec<FormatStep> = Vec::new();
    let mut i: usize = 0;
    while i < parts.len()
        invariant
            i <= parts.len(),
            parts@ == device.partitions@,
            steps@.len() == formatted_places(parts@, i as int).len(),
            forall|j: int|
                0 <= j < steps@.len() ==> is_format_of(
                    #[trigger] steps@[j],
                    parts@[formatted_places(parts@, i as int)[j]],
                    loopdev@,
                    *override_rootfs,
                ),
        decreases parts.len() - i,
    {
        let p = &parts[i];
        match p.filesystem {
            FilesystemType::Unformatted => {},
            _ => {
                let filesystem = p.filesystem.effective(&p.usage, override_rootfs);
                let device_path = partition_device(loopdev, p.num);
                let label = match &p.label {
                    Some(l) => Some(l.clone()),
                    None => None,
                };
                let command = filesystem.get_mkfs_cmdline(device_path.as_str(), label);
                steps.push(FormatStep { num: p.num, device: device_path, filesystem, command });
            },
        }
        i += 1;
    }
    steps
}

} // verus!
