//! Device descriptions, and what a build learns about the partitions it made.

use std::collections::HashMap;
use vstd::prelude::*;
use vstd::string::*;
use vstd::utf8::*;
use crate::bootloader::BootloaderSpec;
use crate::bootloader::MIN_FLASH_OFFSET;
use crate::context::ImageVariant;
use crate::filesystem::opt_text;
use crate::filesystem::FilesystemType;
use crate::filesystem::FsError;
use crate::partition::PartitionSpec;
use crate::partition::PartitionUsage;
use crate::pm::Distro;
use crate::text::byte_len;
use crate::text::contains_forbidden_char;
use crate::text::decimal;
use crate::text::u64_to_decimal;
use crate::text::has_forbidden_char;
use crate::text::list_contains;
use crate::text::list_has;
use crate::text::str_eq;

verus! {

/// The kind of partition table of an image.
#[derive(Copy, Clone, Debug, PartialEq, Eq, Structural)]
pub enum PartitionMapType {
    MBR,
    GPT,
}

impl PartitionMapType {
    /// The most partitions that a table of this kind holds.
    pub open spec fn capacity(self) -> nat {
        match self {
            PartitionMapType::MBR => 4,
            PartitionMapType::GPT => 128,
        }
    }

    /// The lower-case name of the kind of table.
    pub open spec fn name_spec(self) -> Seq<char> {
        match self {
            PartitionMapType::MBR => "mbr"@,
            PartitionMapType::GPT => "gpt"@,
        }
    }

    /// The lower-case name of the kind of table, as scripts are told it.
    pub fn name(&self) -> (s: &'static str)
        ensures
            s@ == self.name_spec(),
    {
        match self {
            PartitionMapType::MBR => "mbr",
            PartitionMapType::GPT => "gpt",
        }
    }
}

/// The processor architecture of a device.
#[derive(Copy, Clone, Debug, PartialEq, Eq, PartialOrd, Ord, Structural)]
pub enum DeviceArch {
    /// x86-64
    Amd64,
    /// AArch64
    Arm64,
    /// LoongArch64
    LoongArch64,
    /// IBM POWER 8 and up, little endian
    Ppc64el,
    /// MIPS Loongson 3
    Loongson3,
    /// 64-bit RISC-V
    Riscv64,
    /// 64-bit MIPS release 6
    Mips64r6el,
}

/// The size of the image of each variant, in MiB.
#[derive(Copy, Clone, Debug, PartialEq, Eq, Structural)]
pub struct ImageVariantSizes {
    pub base: u64,
    pub desktop: u64,
    pub server: u64,
}

/// What writing a partition table yields: the identifier of the table and,
/// for each partition number, the identifiers of that partition.
pub struct PartitionMapData {
    /// GUID of a GPT, or the eight hexadecimal digits of an MBR's signature.
    pub uuid: String,
    /// The record of each partition, by its number.
    pub data: HashMap<u32, PartitionData>,
}

/// The identifiers of one partition.
#[derive(Clone, Debug, PartialEq, Eq)]
pub struct PartitionData {
    pub num: u32,
    /// Identifier of the partition in the table; known once the table is written.
    pub part_uuid: String,
    /// Identifier of the filesystem; known only once the partition is formatted.
    pub fs_uuid: Option<String>,
}

/// The description of a device: what an image for it must hold.
#[derive(Clone, Debug)]
pub struct DeviceSpec {
    /// Unique identifier of the device.
    pub id: String,
    /// Other names by which the device is found.
    pub aliases: Option<Vec<String>>,
    /// The distribution to install.
    pub distro: Distro,
    /// Vendor of the device.
    pub vendor: String,
    /// Processor architecture.
    pub arch: DeviceArch,
    /// Vendor of the system on chip.
    pub soc_vendor: Option<String>,
    /// Name of the device for humans.
    pub name: String,
    /// Model name, where it differs from the name.
    pub model: Option<String>,
    /// The `compatible` string of the device tree's root.
    pub of_compatible: Option<String>,
    /// Packages installed on top of the distribution.
    pub bsp_packages: Vec<String>,
    /// Whether the device boots without an initial ramdisk.
    pub initrdless: bool,
    /// Whether the first-boot wizard sets up user and locale.
    pub oobe_wizard: bool,
    /// The first-boot target whose packages are installed for the first boot only.
    pub devena_firstboot_target: Option<String>,
    /// Kind of partition table.
    pub partition_map: PartitionMapType,
    /// Number of partitions.
    pub num_partitions: u32,
    /// Image size by variant.
    pub size: ImageVariantSizes,
    /// The partitions, in the order of the table.
    pub partitions: Vec<PartitionSpec>,
    /// The steps that apply bootloaders.
    pub bootloaders: Option<Vec<BootloaderSpec>>,
    /// Where the description was read from.
    pub file_path: String,
}

impl PartitionMapData {
    /// The records after the filesystem of partition `num` has got its
    /// identifier.
    pub open spec fn with_fs_uuid(data: Map<u32, PartitionData>, num: u32, fs_uuid: String) -> Map<
        u32,
        PartitionData,
    > {
        data.insert(
            num,
            PartitionData {
                num: data[num].num,
                part_uuid: data[num].part_uuid,
                fs_uuid: Some(fs_uuid),
            },
        )
    }

    /// Records the identifier of the filesystem that was created on
    /// partition `num`. Only a partition that the table knows can get one.
    pub fn record_fs_uuid(&mut self, num: u32, fs_uuid: String) -> (known: bool)
        ensures
            known == old(self).data@.contains_key(num),
            final(self).uuid == old(self).uuid,
            known ==> final(self).data@ == Self::with_fs_uuid(old(self).data@, num, fs_uuid),
            !known ==> final(self).data@ == old(self).data@,
    {
        broadcast use vstd::std_specs::hash::group_hash_axioms;

        match self.data.remove(&num) {
            None => {
                assert(self.data@ =~= old(self).data@);
                false
            },
            Some(record) => {
                let updated = PartitionData {
                    num: record.num,
                    part_uuid: record.part_uuid,
                    fs_uuid: Some(fs_uuid),
                };
                self.data.insert(num, updated);
                assert(self.data@ =~= Self::with_fs_uuid(old(self).data@, num, fs_uuid));
                true
            },
        }
    }
}

impl Default for ImageVariantSizes {
    fn default() -> (sizes: ImageVariantSizes)
        ensures
            sizes == (ImageVariantSizes { base: 5120, desktop: 25600, server: 6144 }),
    {
        ImageVariantSizes { base: 5120, desktop: 25600, server: 6144 }
    }
}

impl ImageVariantSizes {
    /// The size of the image of a variant, in MiB.
    pub open spec fn variant_size(self, variant: ImageVariant) -> u64 {
        match variant {
            ImageVariant::Base => self.base,
            ImageVariant::Desktop => self.desktop,
            ImageVariant::Server => self.server,
        }
    }

    /// The size of the image of a variant, in MiB.
    pub fn get_variant_size(&self, variant: &ImageVariant) -> (size: u64)
        ensures
            size == self.variant_size(*variant),
    {
        match variant {
            ImageVariant::Base => self.base,
            ImageVariant::Desktop => self.desktop,
            ImageVariant::Server => self.server,
        }
    }

    /// The size of the image of a variant in bytes, if 64 bits hold it.
    pub fn get_variant_bytes(&self, variant: &ImageVariant) -> (bytes: Option<u64>)
        ensures
            match bytes {
                Some(b) => b == self.variant_size(*variant) * 1048576,
                None => self.variant_size(*variant) * 1048576 > u64::MAX,
            },
    {
        self.get_variant_size(variant).checked_mul(1048576)
    }
}

impl DeviceArch {
    /// The architecture that a machine has whose Rust target architecture
    /// is named `host`. The name `mips64` stands for two of them, which
    /// `mips_r6` tells apart.
    pub open spec fn native_arch(host: Seq<char>, mips_r6: bool) -> Option<DeviceArch> {
        if host == "x86_64"@ {
            Some(DeviceArch::Amd64)
        } else if host == "aarch64"@ {
            Some(DeviceArch::Arm64)
        } else if host == "loongarch64"@ {
            Some(DeviceArch::LoongArch64)
        } else if host == "mips64"@ {
            if mips_r6 {
                Some(DeviceArch::Mips64r6el)
            } else {
                Some(DeviceArch::Loongson3)
            }
        } else if host == "riscv64"@ {
            Some(DeviceArch::Riscv64)
        } else if host == "powerpc64"@ {
            Some(DeviceArch::Ppc64el)
        } else {
            None
        }
    }

    /// The architecture of the machine that the program runs on, from the
    /// name of its Rust target architecture.
    pub fn get_native_arch(host: &str, mips_r6: bool) -> (arch: Option<DeviceArch>)
        ensures
            arch == Self::native_arch(host@, mips_r6),
    {
        if str_eq(host, "x86_64") {
            Some(DeviceArch::Amd64)
        } else if str_eq(host, "aarch64") {
            Some(DeviceArch::Arm64)
        } else if str_eq(host, "loongarch64") {
            Some(DeviceArch::LoongArch64)
        } else if str_eq(host, "mips64") {
            if mips_r6 {
                Some(DeviceArch::Mips64r6el)
            } else {
                Some(DeviceArch::Loongson3)
            }
        } else if str_eq(host, "riscv64") {
            Some(DeviceArch::Riscv64)
        } else if str_eq(host, "powerpc64") {
            Some(DeviceArch::Ppc64el)
        } else {
            None
        }
    }

    /// Whether programs for this architecture run on the machine whose
    /// Rust target architecture is named `host` without emulation.
    pub fn is_native(&self, host: &str, mips_r6: bool) -> (native: bool)
        ensures
            native == (Self::native_arch(host@, mips_r6) == Some(*self)),
    {
        match Self::get_native_arch(host, mips_r6) {
            Some(a) => a == *self,
            None => false,
        }
    }

    /// The name under which the emulator for this architecture is
    /// registered with the kernel.
    pub open spec fn qemu_binfmt_name(self) -> Seq<char> {
        match self {
            DeviceArch::Amd64 => "qemu-x86_64"@,
            DeviceArch::Arm64 => "qemu-aarch64"@,
            DeviceArch::LoongArch64 => "qemu-loongarch64"@,
            DeviceArch::Ppc64el => "qemu-ppc64le"@,
            DeviceArch::Loongson3 => "qemu-mips64el"@,
            DeviceArch::Riscv64 => "qemu-riscv64"@,
            DeviceArch::Mips64r6el => "qemu-mips64el"@,
        }
    }

    /// The name under which the emulator for this architecture is
    /// registered with the kernel.
    pub fn get_qemu_binfmt_names(&self) -> (name: &'static str)
        ensures
            name@ == self.qemu_binfmt_name(),
    {
        match self {
            DeviceArch::Amd64 => "qemu-x86_64",
            DeviceArch::Arm64 => "qemu-aarch64",
            DeviceArch::LoongArch64 => "qemu-loongarch64",
            DeviceArch::Ppc64el => "qemu-ppc64le",
            DeviceArch::Loongson3 => "qemu-mips64el",
            DeviceArch::Riscv64 => "qemu-riscv64",
            DeviceArch::Mips64r6el => "qemu-mips64el",
        }
    }

    /// The lower-case name of the architecture.
    pub open spec fn name_spec(self) -> Seq<char> {
        match self {
            DeviceArch::Amd64 => "amd64"@,
            DeviceArch::Arm64 => "arm64"@,
            DeviceArch::LoongArch64 => "loongarch64"@,
            DeviceArch::Ppc64el => "ppc64el"@,
            DeviceArch::Loongson3 => "loongson3"@,
            DeviceArch::Riscv64 => "riscv64"@,
            DeviceArch::Mips64r6el => "mips64r6el"@,
        }
    }

    /// The lower-case name of the architecture, as file and directory
    /// names use it.
    pub fn name(&self) -> (s: &'static str)
        ensures
            s@ == self.name_spec(),
    {
        match self {
            DeviceArch::Amd64 => "amd64",
            DeviceArch::Arm64 => "arm64",
            DeviceArch::LoongArch64 => "loongarch64",
            DeviceArch::Ppc64el => "ppc64el",
            DeviceArch::Loongson3 => "loongson3",
            DeviceArch::Riscv64 => "riscv64",
            DeviceArch::Mips64r6el => "mips64r6el",
        }
    }
}

/// Why programs of a foreign architecture cannot be run.
#[derive(Copy, Clone, Debug, PartialEq, Eq, Structural)]
pub enum BinfmtError {
    /// The kernel offers no `binfmt_misc`.
    Unavailable,
    /// No emulator is registered for the architecture.
    NotRegistered { arch: DeviceArch },
}

/// The directory in which the kernel lists the registered emulators.
pub open spec fn binfmt_dir() -> Seq<char> {
    "/proc/sys/fs/binfmt_misc"@
}

/// The directory in which the kernel lists the registered emulators.
pub fn get_binfmt_dir() -> (dir: &'static str)
    ensures
        dir@ == binfmt_dir(),
{
    "/proc/sys/fs/binfmt_misc"
}

/// Whether programs for `arch` can run on this machine: the architecture
/// is the machine's own, or the kernel offers `binfmt_misc` and lists the
/// emulator of the architecture among the registered ones.
pub open spec fn binfmt_verdict(
    arch: DeviceArch,
    host: Seq<char>,
    mips_r6: bool,
    available: bool,
    registered: Seq<String>,
) -> Result<(), BinfmtError> {
    if DeviceArch::native_arch(host, mips_r6) == Some(arch) {
        Ok(())
    } else if !available {
        Err(BinfmtError::Unavailable)
    } else if !list_has(registered, arch.qemu_binfmt_name()) {
        Err(BinfmtError::NotRegistered { arch })
    } else {
        Ok(())
    }
}

/// Checks that programs for `arch` can run on this machine. `available`
/// says whether the directory of `binfmt_misc` exists, `registered` names
/// the files in it.
pub fn check_binfmt(
    arch: &DeviceArch,
    host: &str,
    mips_r6: bool,
    available: bool,
    registered: &Vec<String>,
) -> (r: Result<(), BinfmtError>)
    ensures
        r == binfmt_verdict(*arch, host@, mips_r6, available, registered@),
{
    if arch.is_native(host, mips_r6) {
        return Ok(());
    }
    if !available {
        return Err(BinfmtError::Unavailable);
    }
    if !list_contains(registered, arch.get_qemu_binfmt_names()) {
        return Err(BinfmtError::NotRegistered { arch: *arch });
    }
    Ok(())
}

/// A field of a device description that identifies the device.
#[derive(Copy, Clone, Debug, PartialEq, Eq, Structural)]
pub enum IdentField {
    Id,
    Vendor,
    /// The alias at this place of the list.
    Alias { index: usize },
    Compatible,
    Name,
    Model,
}

/// The first rule that a device description breaks.
#[derive(Copy, Clone, Debug, PartialEq, Eq, Structural)]
pub enum CheckError {
    /// An identifying field holds a character outside ASCII.
    NotAscii { field: IdentField },
    /// A field holds a character that may not stand in it.
    ForbiddenChar { field: IdentField },
    /// The device declares no partition.
    NoPartitions,
    /// The declared number of partitions is not the number of partitions listed.
    PartitionCountMismatch { declared: u32, listed: usize },
    /// More than four partitions on an MBR.
    TooManyForMbr,
    /// More than 128 partitions on a GPT.
    TooManyForGpt,
    /// A partition starts inside the sectors kept for the partition table.
    StartOverlapsTable { num: u32 },
    /// A partition has the swap type.
    SwapType,
    /// A partition is meant to be used as swap.
    SwapUsage,
    /// A partition has the number 0.
    PartitionNumberZero,
    /// A partition has a smaller number than the one before it.
    PartitionsOutOfOrder,
    /// A partition repeats the number of the one before it.
    DuplicatePartitionNumber { num: u32 },
    /// A partition skips a number.
    PartitionNumberGap { num: u32 },
    /// A second partition claims the root filesystem.
    MultipleRootPartitions,
    /// The root partition is not mounted at `/`.
    RootMountpointNotSlash,
    /// A partition of an MBR has a partition label.
    LabelOnMbr { num: u32 },
    /// A partition label is longer than 35 bytes.
    LabelTooLong { num: u32 },
    /// A filesystem label breaks the rules of its filesystem.
    Filesystem { num: u32, cause: FsError },
    /// No partition holds the root filesystem.
    NoRootPartition,
    /// The script of the bootloader step at this place is not beside the description.
    ScriptNotFound { index: usize },
    /// A bootloader is written onto a partition that carries a filesystem.
    BootloaderOnFilesystem { num: u32 },
    /// A bootloader is written onto a partition that does not exist.
    BootloaderPartitionNotFound { partition: u64 },
    /// A bootloader is written over the partition table.
    BootloaderOverlapsTable,
}

/// The text of an identifying field of a device; empty for a field that
/// the device does not have.
pub open spec fn ident_text(device: DeviceSpec, field: IdentField) -> Seq<char> {
    match field {
        IdentField::Id => device.id@,
        IdentField::Vendor => device.vendor@,
        IdentField::Alias { index } => if index < device.alias_list().len() {
            device.alias_list()[index as int]@
        } else {
            Seq::empty()
        },
        IdentField::Compatible => match device.of_compatible {
            Some(c) => c@,
            None => Seq::empty(),
        },
        IdentField::Name => device.name@,
        IdentField::Model => match device.model {
            Some(m) => m@,
            None => Seq::empty(),
        },
    }
}

/// The name of the script of the bootloader step at place `index`; empty
/// where that step runs no script.
pub open spec fn script_name(device: DeviceSpec, index: usize) -> Seq<char> {
    if index < device.bootloader_list().len() {
        match device.bootloader_list()[index as int] {
            BootloaderSpec::Script { name } => name@,
            _ => Seq::empty(),
        }
    } else {
        Seq::empty()
    }
}

fn ident_str<'a>(device: &'a DeviceSpec, field: &IdentField) -> (s: &'a str)
    ensures
        s@ == ident_text(*device, *field),
{
    proof {
        reveal_strlit("");
        assert(""@ =~= Seq::<char>::empty());
    }
    match field {
        IdentField::Id => device.id.as_str(),
        IdentField::Vendor => device.vendor.as_str(),
        IdentField::Alias { index } => match &device.aliases {
            Some(aliases) => if *index < aliases.len() {
                aliases[*index].as_str()
            } else {
                ""
            },
            None => "",
        },
        IdentField::Compatible => match &device.of_compatible {
            Some(c) => c.as_str(),
            None => "",
        },
        IdentField::Name => device.name.as_str(),
        IdentField::Model => match &device.model {
            Some(m) => m.as_str(),
            None => "",
        },
    }
}

fn script_str<'a>(device: &'a DeviceSpec, index: usize) -> (s: &'a str)
    ensures
        s@ == script_name(*device, index),
{
    proof {
        reveal_strlit("");
        assert(""@ =~= Seq::<char>::empty());
    }
    match &device.bootloaders {
        Some(steps) => if index < steps.len() {
            match &steps[index] {
                BootloaderSpec::Script { name } => name.as_str(),
                _ => "",
            }
        } else {
            ""
        },
        None => "",
    }
}

impl CheckError {
    /// The text shown to the user for this error.
    pub open spec fn text(self, device: DeviceSpec) -> Seq<char> {
        match self {
            CheckError::NotAscii { field } => "'"@ + ident_text(device, field) + "' contains non-ASCII characters"@,
            CheckError::ForbiddenChar { field } => "'"@ + ident_text(device, field) + "' contains one of the following characters:\n['\\'', '\"', '\\\\', '/', '{', '}', '[', ']', '!', '`', '*', '&']"@,
            CheckError::NoPartitions => "No partition defined for this device"@,
            CheckError::PartitionCountMismatch { declared, listed } => "Please update the num_partitions field: should be "@ + decimal(listed as nat) + ", got "@ + decimal(declared as nat),
            CheckError::TooManyForMbr => "MBR partition map can contain up to 4 partitions"@,
            CheckError::TooManyForGpt => "Too many partitions for GPT"@,
            CheckError::StartOverlapsTable { num } => "Starting sector of partition "@ + decimal(num as nat) + " overlaps the partition table itself."@,
            CheckError::SwapType => "Swap partitions are not allowed on raw images."@,
            CheckError::SwapUsage => "Swap partitions are not allowed on raw images."@,
            CheckError::PartitionNumberZero => "Partition numbers should start from 1."@,
            CheckError::PartitionsOutOfOrder => "Please keep the partitions in order"@,
            CheckError::DuplicatePartitionNumber { num } => "Duplicate partition number: "@ + decimal(num as nat),
            CheckError::PartitionNumberGap { num } => "Partition numbers must follow one another, found a gap before partition "@ + decimal(num as nat),
            CheckError::MultipleRootPartitions => "More than one root partition defined"@,
            CheckError::RootMountpointNotSlash => "Sorry, but for now root partition must have a mountpoint '/'."@,
            CheckError::LabelOnMbr { num } => "MBR partition map does not allow partition labels, found one in partition "@ + decimal(num as nat),
            CheckError::LabelTooLong { num } => "Label for partition "@ + decimal(num as nat) + " exceeds the 35-character limit"@,
            CheckError::Filesystem { cause, .. } => cause.text(),
            CheckError::NoRootPartition => "No root partition defined"@,
            CheckError::ScriptNotFound { index } => "Script '"@ + script_name(device, index) + "' not found within the same directory as the device.toml"@,
            CheckError::BootloaderOnFilesystem { num } => "A bootloader tries to write to partition "@ + decimal(num as nat) + " which already contains an active filesystem."@,
            CheckError::BootloaderPartitionNotFound { partition } => "Partition "@ + decimal(partition as nat) + " specified by a bootloader is not found."@,
            CheckError::BootloaderOverlapsTable => "A bootloader tries to overlap the partition table. It must start from at least 0x4400 (17408), or LBA 34."@,
        }
    }

    /// Renders the error for the user.
    pub fn message(&self, device: &DeviceSpec) -> (s: String)
        ensures
            s@ == self.text(*device),
    {
        match self {
            CheckError::NotAscii { field } => {
                let mut s = String::from_str("'");
                s.append(ident_str(device, field));
                s.append("' contains non-ASCII characters");
                assert(s@ =~= "'"@ + ident_text(*device, *field) + "' contains non-ASCII characters"@);
                s
            },
            CheckError::ForbiddenChar { field } => {
                let mut s = String::from_str("'");
                s.append(ident_str(device, field));
                s.append("' contains one of the following characters:\n['\\'', '\"', '\\\\', '/', '{', '}', '[', ']', '!', '`', '*', '&']");
                assert(s@ =~= "'"@ + ident_text(*device, *field) + "' contains one of the following characters:\n['\\'', '\"', '\\\\', '/', '{', '}', '[', ']', '!', '`', '*', '&']"@);
                s
            },
            CheckError::NoPartitions => {
                let mut s = String::from_str("No partition defined for this device");
                s
            },
            CheckError::PartitionCountMismatch { declared, listed } => {
                let mut s = String::from_str("Please update the num_partitions field: should be ");
                s.append(u64_to_decimal(*listed as u64).as_str());
                s.append(", got ");
                s.append(u64_to_decimal(*declared as u64).as_str());
                assert(s@ =~= "Please update the num_partitions field: should be "@ + decimal(*listed as nat) + ", got "@ + decimal(*declared as nat));
                s
            },
            CheckError::TooManyForMbr => {
                let mut s = String::from_str("MBR partition map can contain up to 4 partitions");
                s
            },
            CheckError::TooManyForGpt => {
                let mut s = String::from_str("Too many partitions for GPT");
                s
            },
            CheckError::StartOverlapsTable { num } => {
                let mut s = String::from_str("Starting sector of partition ");
                s.append(u64_to_decimal(*num as u64).as_str());
                s.append(" overlaps the partition table itself.");
                assert(s@ =~= "Starting sector of partition "@ + decimal(*num as nat) + " overlaps the partition table itself."@);
                s
            },
            CheckError::SwapType => {
                let mut s = String::from_str("Swap partitions are not allowed on raw images.");
                s
            },
            CheckError::SwapUsage => {
                let mut s = String::from_str("Swap partitions are not allowed on raw images.");
                s
            },
            CheckError::PartitionNumberZero => {
                let mut s = String::from_str("Partition numbers should start from 1.");
                s
            },
            CheckError::PartitionsOutOfOrder => {
                let mut s = String::from_str("Please keep the partitions in order");
                s
            },
            CheckError::DuplicatePartitionNumber { num } => {
                let mut s = String::from_str("Duplicate partition number: ");
                s.append(u64_to_decimal(*num as u64).as_str());
                assert(s@ =~= "Duplicate partition number: "@ + decimal(*num as nat));
                s
            },
            CheckError::PartitionNumberGap { num } => {
                let mut s = String::from_str("Partition numbers must follow one another, found a gap before partition ");
                s.append(u64_to_decimal(*num as u64).as_str());
                assert(s@ =~= "Partition numbers must follow one another, found a gap before partition "@ + decimal(*num as nat));
                s
            },
            CheckError::MultipleRootPartitions => {
                let mut s = String::from_str("More than one root partition defined");
                s
            },
            CheckError::RootMountpointNotSlash => {
                let mut s = String::from_str("Sorry, but for now root partition must have a mountpoint '/'.");
                s
            },
            CheckError::LabelOnMbr { num } => {
                let mut s = String::from_str("MBR partition map does not allow partition labels, found one in partition ");
                s.append(u64_to_decimal(*num as u64).as_str());
                assert(s@ =~= "MBR partition map does not allow partition labels, found one in partition "@ + decimal(*num as nat));
                s
            },
            CheckError::LabelTooLong { num } => {
                let mut s = String::from_str("Label for partition ");
                s.append(u64_to_decimal(*num as u64).as_str());
                s.append(" exceeds the 35-character limit");
                assert(s@ =~= "Label for partition "@ + decimal(*num as nat) + " exceeds the 35-character limit"@);
                s
            },
            CheckError::Filesystem { cause, .. } => {
                let mut s = String::new();
                s.append(cause.message());
                s
            },
            CheckError::NoRootPartition => {
                let mut s = String::from_str("No root partition defined");
                s
            },
            CheckError::ScriptNotFound { index } => {
                let mut s = String::from_str("Script '");
                s.append(script_str(device, *index));
                s.append("' not found within the same directory as the device.toml");
                assert(s@ =~= "Script '"@ + script_name(*device, *index) + "' not found within the same directory as the device.toml"@);
                s
            },
            CheckError::BootloaderOnFilesystem { num } => {
                let mut s = String::from_str("A bootloader tries to write to partition ");
                s.append(u64_to_decimal(*num as u64).as_str());
                s.append(" which already contains an active filesystem.");
                assert(s@ =~= "A bootloader tries to write to partition "@ + decimal(*num as nat) + " which already contains an active filesystem."@);
                s
            },
            CheckError::BootloaderPartitionNotFound { partition } => {
                let mut s = String::from_str("Partition ");
                s.append(u64_to_decimal(*partition as u64).as_str());
                s.append(" specified by a bootloader is not found.");
                assert(s@ =~= "Partition "@ + decimal(*partition as nat) + " specified by a bootloader is not found."@);
                s
            },
            CheckError::BootloaderOverlapsTable => {
                let mut s = String::from_str("A bootloader tries to overlap the partition table. It must start from at least 0x4400 (17408), or LBA 34.");
                s
            },
        }
    }
}

impl BinfmtError {
    /// The text shown to the user for this error.
    pub open spec fn text(self) -> Seq<char> {
        match self {
            BinfmtError::Unavailable => "binfmt_misc support is currently not available on your system. Cannot continue."@,
            BinfmtError::NotRegistered { arch } => arch.qemu_binfmt_name() + " is not found in registered binfmt_misc targets.\nPlease make sure QEMU static and binfmt file for this target are installed."@,
        }
    }

    /// Renders the error for the user.
    pub fn message(&self) -> (s: String)
        ensures
            s@ == self.text(),
    {
        match self {
            BinfmtError::Unavailable => {
                let mut s = String::from_str("binfmt_misc support is currently not available on your system. Cannot continue.");
                s
            },
            BinfmtError::NotRegistered { arch } => {
                let mut s = String::new();
                s.append(arch.get_qemu_binfmt_names());
                s.append(" is not found in registered binfmt_misc targets.\nPlease make sure QEMU static and binfmt file for this target are installed.");
                assert(s@ =~= arch.qemu_binfmt_name() + " is not found in registered binfmt_misc targets.\nPlease make sure QEMU static and binfmt file for this target are installed."@);
                s
            },
        }
    }
}

/// The fault of a field that must be ASCII and free of forbidden characters.
pub open spec fn strict_fault(text: Seq<char>, field: IdentField) -> Option<CheckError> {
    if !is_ascii_chars(text) {
        Some(CheckError::NotAscii { field })
    } else if has_forbidden_char(text) {
        Some(CheckError::ForbiddenChar { field })
    } else {
        None
    }
}

/// The fault of a field that must be free of forbidden characters.
pub open spec fn loose_fault(text: Seq<char>, field: IdentField) -> Option<CheckError> {
    if has_forbidden_char(text) {
        Some(CheckError::ForbiddenChar { field })
    } else {
        None
    }
}

/// The fault of the first faulty alias at or after place `from`.
pub open spec fn aliases_fault(aliases: Seq<String>, from: int) -> Option<CheckError>
    decreases aliases.len() - from,
{
    if from < 0 || from >= aliases.len() {
        None
    } else if strict_fault(aliases[from]@, IdentField::Alias { index: from as usize }) is Some {
        strict_fault(aliases[from]@, IdentField::Alias { index: from as usize })
    } else {
        aliases_fault(aliases, from + 1)
    }
}

/// Whether a mountpoint is the root of the filesystem tree.
pub open spec fn is_root_mountpoint(mountpoint: Option<String>) -> bool {
    mountpoint matches Some(m) && m@ == seq!['/']
}

/// Whether one of the partitions before place `i` holds the root filesystem.
pub open spec fn root_before(parts: Seq<PartitionSpec>, i: int) -> bool {
    exists|j: int| 0 <= j < i && j < parts.len() && (#[trigger] parts[j]).usage == PartitionUsage::Rootfs
}

/// The number of partitions that hold the root filesystem.
pub open spec fn root_count(parts: Seq<PartitionSpec>) -> nat
    decreases parts.len(),
{
    if parts.len() == 0 {
        0
    } else {
        root_count(parts.drop_last()) + if parts.last().usage == PartitionUsage::Rootfs {
            1nat
        } else {
            0nat
        }
    }
}

/// The rule that the partition at place `i` breaks, those before it being
/// in order: it is numbered `i + 1`, starts behind sector 33 where its start
/// is fixed, is no swap partition, is mounted at `/` and alone in that if it
/// holds the root filesystem, has a partition label only on a GPT and of at
/// most 35 bytes, and its filesystem label fits its filesystem.
pub open spec fn partition_fault(parts: Seq<PartitionSpec>, map: PartitionMapType, i: int) -> Option<
    CheckError,
> {
    let p = parts[i];
    if p.start_sector is Some && p.start_sector->0 <= 33 {
        Some(CheckError::StartOverlapsTable { num: p.num })
    } else if p.part_type is Swap {
        Some(CheckError::SwapType)
    } else if p.usage == PartitionUsage::Swap {
        Some(CheckError::SwapUsage)
    } else if p.num == 0 {
        Some(CheckError::PartitionNumberZero)
    } else if p.num < i {
        Some(CheckError::PartitionsOutOfOrder)
    } else if p.num == i {
        Some(CheckError::DuplicatePartitionNumber { num: p.num })
    } else if p.num > i + 1 {
        Some(CheckError::PartitionNumberGap { num: p.num })
    } else if p.usage == PartitionUsage::Rootfs && root_before(parts, i) {
        Some(CheckError::MultipleRootPartitions)
    } else if p.usage == PartitionUsage::Rootfs && !is_root_mountpoint(p.mountpoint) {
        Some(CheckError::RootMountpointNotSlash)
    } else if p.label is Some && map == PartitionMapType::MBR {
        Some(CheckError::LabelOnMbr { num: p.num })
    } else if p.label is Some && encode_utf8(p.label->0@).len() > 35 {
        Some(CheckError::LabelTooLong { num: p.num })
    } else if p.filesystem.label_verdict(opt_text(p.fs_label)) is Err {
        Some(
            CheckError::Filesystem {
                num: p.num,
                cause: p.filesystem.label_verdict(opt_text(p.fs_label))->Err_0,
            },
        )
    } else {
        None
    }
}

/// The fault of the first faulty partition at or after place `from`.
pub open spec fn partitions_fault(parts: Seq<PartitionSpec>, map: PartitionMapType, from: int) -> Option<
    CheckError,
>
    decreases parts.len() - from,
{
    if from < 0 || from >= parts.len() {
        None
    } else if partition_fault(parts, map, from) is Some {
        partition_fault(parts, map, from)
    } else {
        partitions_fault(parts, map, from + 1)
    }
}

/// The place of the first partition at or after place `from` that has the
/// number `n`.
pub open spec fn place_of_number(parts: Seq<PartitionSpec>, n: u64, from: int) -> Option<int>
    decreases parts.len() - from,
{
    if from < 0 || from >= parts.len() {
        None
    } else if parts[from].num == n {
        Some(from)
    } else {
        place_of_number(parts, n, from + 1)
    }
}

/// The rule that the bootloader step at place `k` breaks: a script lies
/// beside the description; a bootloader goes onto the partition of the
/// number that the step names, which exists and carries no filesystem; or
/// it goes to an offset behind the partition table.
pub open spec fn bootloader_fault(
    steps: Seq<BootloaderSpec>,
    parts: Seq<PartitionSpec>,
    scripts: Seq<String>,
    k: int,
) -> Option<CheckError> {
    match steps[k] {
        BootloaderSpec::Script { name } => if list_has(scripts, name@) {
            None
        } else {
            Some(CheckError::ScriptNotFound { index: k as usize })
        },
        BootloaderSpec::FlashPartition { path, partition } => match place_of_number(
            parts,
            partition,
            0,
        ) {
            None => Some(CheckError::BootloaderPartitionNotFound { partition }),
            Some(i) => if parts[i].filesystem != FilesystemType::Unformatted {
                Some(CheckError::BootloaderOnFilesystem { num: parts[i].num })
            } else {
                None
            },
        },
        BootloaderSpec::FlashOffset { path, offset } => if offset < MIN_FLASH_OFFSET {
            Some(CheckError::BootloaderOverlapsTable)
        } else {
            None
        },
    }
}

/// The fault of the first faulty bootloader step at or after place `from`.
pub open spec fn bootloaders_fault(
    steps: Seq<BootloaderSpec>,
    parts: Seq<PartitionSpec>,
    scripts: Seq<String>,
    from: int,
) -> Option<CheckError>
    decreases steps.len() - from,
{
    if from < 0 || from >= steps.len() {
        None
    } else if bootloader_fault(steps, parts, scripts, from) is Some {
        bootloader_fault(steps, parts, scripts, from)
    } else {
        bootloaders_fault(steps, parts, scripts, from + 1)
    }
}

impl DeviceSpec {
    /// The aliases of the device, none where the list is absent.
    pub open spec fn alias_list(self) -> Seq<String> {
        match self.aliases {
            Some(a) => a@,
            None => Seq::empty(),
        }
    }

    /// The bootloader steps of the device, none where the list is absent.
    pub open spec fn bootloader_list(self) -> Seq<BootloaderSpec> {
        match self.bootloaders {
            Some(b) => b@,
            None => Seq::empty(),
        }
    }

    /// The first fault among the fields that name the device: identifier,
    /// vendor, aliases and `compatible` string are ASCII without forbidden
    /// characters; name and model are free of forbidden characters.
    pub open spec fn naming_fault(self) -> Option<CheckError> {
        if strict_fault(self.id@, IdentField::Id) is Some {
            strict_fault(self.id@, IdentField::Id)
        } else if strict_fault(self.vendor@, IdentField::Vendor) is Some {
            strict_fault(self.vendor@, IdentField::Vendor)
        } else if aliases_fault(self.alias_list(), 0) is Some {
            aliases_fault(self.alias_list(), 0)
        } else if self.of_compatible is Some && strict_fault(
            self.of_compatible->0@,
            IdentField::Compatible,
        ) is Some {
            strict_fault(self.of_compatible->0@, IdentField::Compatible)
        } else if loose_fault(self.name@, IdentField::Name) is Some {
            loose_fault(self.name@, IdentField::Name)
        } else if self.model is Some && loose_fault(self.model->0@, IdentField::Model) is Some {
            loose_fault(self.model->0@, IdentField::Model)
        } else {
            None
        }
    }

    /// The first fault in the number of partitions: there is at least one,
    /// as many as declared, and no more than the table holds.
    pub open spec fn count_fault(self) -> Option<CheckError> {
        if self.partitions@.len() == 0 {
            Some(CheckError::NoPartitions)
        } else if self.num_partitions != self.partitions@.len() {
            Some(
                CheckError::PartitionCountMismatch {
                    declared: self.num_partitions,
                    listed: self.partitions@.len() as usize,
                },
            )
        } else if self.partitions@.len() > self.partition_map.capacity() {
            Some(
                match self.partition_map {
                    PartitionMapType::MBR => CheckError::TooManyForMbr,
                    PartitionMapType::GPT => CheckError::TooManyForGpt,
                },
            )
        } else {
            None
        }
    }

    /// The verdict on a device description, given the names of the scripts
    /// that lie beside it: the first rule that it breaks, in the order
    /// naming, number of partitions, each partition in turn, the presence
    /// of a root partition, each bootloader step in turn.
    pub open spec fn check_spec(self, scripts: Seq<String>) -> Result<(), CheckError> {
        if self.naming_fault() is Some {
            Err(self.naming_fault()->0)
        } else if self.count_fault() is Some {
            Err(self.count_fault()->0)
        } else if partitions_fault(self.partitions@, self.partition_map, 0) is Some {
            Err(partitions_fault(self.partitions@, self.partition_map, 0)->0)
        } else if !root_before(self.partitions@, self.partitions@.len() as int) {
            Err(CheckError::NoRootPartition)
        } else if bootloaders_fault(self.bootloader_list(), self.partitions@, scripts, 0) is Some {
            Err(bootloaders_fault(self.bootloader_list(), self.partitions@, scripts, 0)->0)
        } else {
            Ok(())
        }
    }

    /// Checks the description against the rules for devices. `scripts`
    /// names the files that lie in the directory of the description.
    pub fn check(&self, scripts: &Vec<String>) -> (r: Result<(), CheckError>)
        ensures
            r == self.check_spec(scripts@),
    {
        match self.check_naming() {
            Some(e) => {
                return Err(e);
            },
            None => {},
        }
        let len = self.partitions.len();
        if len == 0 {
            return Err(CheckError::NoPartitions);
        }
        if self.num_partitions as usize != len {
            return Err(
                CheckError::PartitionCountMismatch { declared: self.num_partitions, listed: len },
            );
        }
        match self.partition_map {
            PartitionMapType::MBR => {
                if len > 4 {
                    return Err(CheckError::TooManyForMbr);
                }
            },
            PartitionMapType::GPT => {
                if len > 128 {
                    return Err(CheckError::TooManyForGpt);
                }
            },
        }
        assert(self.count_fault() is None);
        match self.check_partitions() {
            Some(e) => {
                return Err(e);
            },
            None => {},
        }
        if !self.has_root_partition() {
            return Err(CheckError::NoRootPartition);
        }
        match self.check_bootloaders(scripts) {
            Some(e) => Err(e),
            None => Ok(()),
        }
    }

    fn check_naming(&self) -> (r: Option<CheckError>)
        ensures
            r == self.naming_fault(),
    {
        let f = strict_check(self.id.as_str(), IdentField::Id);
        if f.is_some() {
            return f;
        }
        let f = strict_check(self.vendor.as_str(), IdentField::Vendor);
        if f.is_some() {
            return f;
        }
        if let Some(aliases) = &self.aliases {
            let mut i: usize = 0;
            while i < aliases.len()
                invariant
                    i <= aliases.len(),
                    aliases@ == self.alias_list(),
                    strict_fault(self.id@, IdentField::Id) is None,
                    strict_fault(self.vendor@, IdentField::Vendor) is None,
                    aliases_fault(aliases@, 0) == aliases_fault(aliases@, i as int),
                decreases aliases.len() - i,
            {
                let f = strict_check(aliases[i].as_str(), IdentField::Alias { index: i });
                if f.is_some() {
                    return f;
                }
                i += 1;
            }
        }
        assert(aliases_fault(self.alias_list(), 0) is None);
        if let Some(c) = &self.of_compatible {
            let f = strict_check(c.as_str(), IdentField::Compatible);
            if f.is_some() {
                return f;
            }
        }
        let f = loose_check(self.name.as_str(), IdentField::Name);
        if f.is_some() {
            return f;
        }
        if let Some(m) = &self.model {
            let f = loose_check(m.as_str(), IdentField::Model);
            if f.is_some() {
                return f;
            }
        }
        None
    }

    fn check_partitions(&self) -> (r: Option<CheckError>)
        requires
            self.partitions@.len() <= 128,
        ensures
            r == partitions_fault(self.partitions@, self.partition_map, 0),
    {
        let parts = &self.partitions;
        let mut root_seen = false;
        let mut i: usize = 0;
        while i < parts.len()
            invariant
                i <= parts.len(),
                parts@.len() <= 128,
                parts@ == self.partitions@,
                root_seen == root_before(parts@, i as int),
                partitions_fault(parts@, self.partition_map, 0) == partitions_fault(
                    parts@,
                    self.partition_map,
                    i as int,
                ),
            decreases parts.len() - i,
        {
            let f = check_partition(parts, &self.partition_map, i, root_seen);
            if f.is_some() {
                return f;
            }
            if let PartitionUsage::Rootfs = parts[i].usage {
                root_seen = true;
            }
            assert(root_seen == root_before(parts@, i + 1)) by {
                if root_before(parts@, i + 1) {
                    let j = choose|j: int|
                        0 <= j < i + 1 && j < parts@.len() && (#[trigger] parts@[j]).usage
                            == PartitionUsage::Rootfs;
                    if j < i {
                        assert(root_before(parts@, i as int));
                    }
                }
            }
            i += 1;
        }
        None
    }

    /// Whether a partition holds the root filesystem.
    pub fn has_root_partition(&self) -> (b: bool)
        ensures
            b == root_before(self.partitions@, self.partitions@.len() as int),
    {
        let parts = &self.partitions;
        let mut i: usize = 0;
        while i < parts.len()
            invariant
                i <= parts.len(),
                parts@ == self.partitions@,
                !root_before(parts@, i as int),
            decreases parts.len() - i,
        {
            if let PartitionUsage::Rootfs = parts[i].usage {
                assert(parts@[i as int].usage == PartitionUsage::Rootfs);
                return true;
            }
            assert(!root_before(parts@, i + 1)) by {
                if root_before(parts@, i + 1) {
                    let j = choose|j: int|
                        0 <= j < i + 1 && j < parts@.len() && (#[trigger] parts@[j]).usage
                            == PartitionUsage::Rootfs;
                    if j < i {
                        assert(root_before(parts@, i as int));
                    }
                }
            }
            i += 1;
        }
        false
    }

    /// Finds the partition with the number `n`: the place of the first one
    /// in the list that has it.
    pub fn find_partition(&self, n: u64) -> (place: Option<usize>)
        ensures
            match place {
                Some(i) => {
                    &&& i < self.partitions@.len()
                    &&& self.partitions@[i as int].num == n
                    &&& place_of_number(self.partitions@, n, 0) == Some(i as int)
                },
                None => place_of_number(self.partitions@, n, 0) is None,
            },
    {
        let parts = &self.partitions;
        let mut i: usize = 0;
        while i < parts.len()
            invariant
                i <= parts.len(),
                parts@ == self.partitions@,
                place_of_number(parts@, n, 0) == place_of_number(parts@, n, i as int),
            decreases parts.len() - i,
        {
            if parts[i].num as u64 == n {
                return Some(i);
            }
            i += 1;
        }
        None
    }

    fn check_bootloaders(&self, scripts: &Vec<String>) -> (r: Option<CheckError>)
        ensures
            r == bootloaders_fault(self.bootloader_list(), self.partitions@, scripts@, 0),
    {
        if let Some(steps) = &self.bootloaders {
            let mut k: usize = 0;
            while k < steps.len()
                invariant
                    k <= steps.len(),
                    steps@ == self.bootloader_list(),
                    bootloaders_fault(steps@, self.partitions@, scripts@, 0) == bootloaders_fault(
                        steps@,
                        self.partitions@,
                        scripts@,
                        k as int,
                    ),
                decreases steps.len() - k,
            {
                let f = match &steps[k] {
                    BootloaderSpec::Script { name } => {
                        if list_contains(scripts, name.as_str()) {
                            None
                        } else {
                            Some(CheckError::ScriptNotFound { index: k })
                        }
                    },
                    BootloaderSpec::FlashPartition { path: _, partition } => {
                        match self.find_partition(*partition) {
                            None => Some(
                                CheckError::BootloaderPartitionNotFound { partition: *partition },
                            ),
                            Some(i) => {
                                let p = &self.partitions[i];
                                match p.filesystem {
                                    FilesystemType::Unformatted => None,
                                    _ => Some(CheckError::BootloaderOnFilesystem { num: p.num }),
                                }
                            },
                        }
                    },
                    BootloaderSpec::FlashOffset { path: _, offset } => {
                        if *offset < MIN_FLASH_OFFSET {
                            Some(CheckError::BootloaderOverlapsTable)
                        } else {
                            None
                        }
                    },
                };
                assert(f == bootloader_fault(steps@, self.partitions@, scripts@, k as int));
                if f.is_some() {
                    return f;
                }
                k += 1;
            }
        }
        None
    }
}

fn strict_check(text: &str, field: IdentField) -> (r: Option<CheckError>)
    ensures
        r == strict_fault(text@, field),
{
    if !text.is_ascii() {
        Some(CheckError::NotAscii { field })
    } else if contains_forbidden_char(text) {
        Some(CheckError::ForbiddenChar { field })
    } else {
        None
    }
}

fn loose_check(text: &str, field: IdentField) -> (r: Option<CheckError>)
    ensures
        r == loose_fault(text@, field),
{
    if contains_forbidden_char(text) {
        Some(CheckError::ForbiddenChar { field })
    } else {
        None
    }
}

fn check_partition(
    parts: &Vec<PartitionSpec>,
    map: &PartitionMapType,
    i: usize,
    root_seen: bool,
) -> (r: Option<CheckError>)
    requires
        i < parts@.len() <= 128,
        root_seen == root_before(parts@, i as int),
    ensures
        r == partition_fault(parts@, *map, i as int),
{
    let p = &parts[i];
    if let Some(start) = p.start_sector {
        if start <= 33 {
            return Some(CheckError::StartOverlapsTable { num: p.num });
        }
    }
    if p.part_type.is_swap() {
        return Some(CheckError::SwapType);
    }
    if let PartitionUsage::Swap = p.usage {
        return Some(CheckError::SwapUsage);
    }
    let expected: u32 = (i + 1) as u32;
    if p.num == 0 {
        return Some(CheckError::PartitionNumberZero);
    }
    if p.num < expected - 1 {
        return Some(CheckError::PartitionsOutOfOrder);
    }
    if p.num == expected - 1 {
        return Some(CheckError::DuplicatePartitionNumber { num: p.num });
    }
    if p.num > expected {
        return Some(CheckError::PartitionNumberGap { num: p.num });
    }
    if let PartitionUsage::Rootfs = p.usage {
        if root_seen {
            return Some(CheckError::MultipleRootPartitions);
        }
        let at_root = match &p.mountpoint {
            Some(m) => {
                proof {
                    reveal_strlit("/");
                }
                assert("/"@ =~= seq!['/']);
                str_eq(m.as_str(), "/")
            },
            None => false,
        };
        if !at_root {
            return Some(CheckError::RootMountpointNotSlash);
        }
    }
    if let Some(l) = &p.label {
        if let PartitionMapType::MBR = map {
            return Some(CheckError::LabelOnMbr { num: p.num });
        }
        if byte_len(l.as_str()) > 35 {
            return Some(CheckError::LabelTooLong { num: p.num });
        }
    }
    match p.filesystem.check(&p.fs_label) {
        Err(cause) => Some(CheckError::Filesystem { num: p.num, cause }),
        Ok(_) => None,
    }
}

} // verus!
