//! Partitions as a device description declares them.

use vstd::prelude::*;
use crate::device::PartitionMapType;
use crate::filesystem::FilesystemType;
use crate::text::str_eq;

verus! {

/// Type GUID of an EFI system partition, `C12A7328-F81F-11D2-BA4B-00A0C93EC93B`.
pub const PARTTYPE_EFI_UUID: u128 = 0xC12A7328_F81F_11D2_BA4B_00A0C93EC93B;

/// Type GUID of a Linux filesystem, `0FC63DAF-8483-4772-8E79-3D69D8477DE4`.
pub const PARTTYPE_LINUX_UUID: u128 = 0x0FC63DAF_8483_4772_8E79_3D69D8477DE4;

/// Type GUID of a Linux swap partition, `0657FD6D-A4AB-43C4-84E5-0933C84B4F4F`.
pub const PARTTYPE_SWAP_UUID: u128 = 0x0657FD6D_A4AB_43C4_84E5_0933C84B4F4F;

/// Type GUID of a basic data partition, `EBD0A0A2-B9E5-4433-87C0-68B6B72699C7`.
pub const PARTTYPE_BASIC_UUID: u128 = 0xEBD0A0A2_B9E5_4433_87C0_68B6B72699C7;

/// MBR type byte of an EFI system partition.
pub const PARTTYPE_EFI_BYTE: u8 = 0xEF;

/// MBR type byte of a Linux filesystem.
pub const PARTTYPE_LINUX_BYTE: u8 = 0x83;

/// MBR type byte of a Linux swap partition.
pub const PARTTYPE_SWAP_BYTE: u8 = 0x82;

/// MBR type byte of a basic data partition.
pub const PARTTYPE_BASIC_BYTE: u8 = 0x07;

/// The type recorded for a partition in the partition table: one byte in an
/// MBR, a GUID in a GPT. A GUID is held as its 128-bit value, the first
/// printed digit being the most significant.
#[derive(Clone, Debug, PartialEq, Eq)]
pub enum PartitionType {
    /// EFI system partition.
    EFI,
    /// Linux filesystem data.
    Linux,
    /// Swap partition. No image is built with one.
    Swap,
    /// Basic data partition.
    Basic,
    /// Any GUID; has no meaning in an MBR.
    Uuid { uuid: u128 },
    /// Any type byte; has no meaning in a GPT.
    Byte { byte: u8 },
    /// A partition table inside the partition. It can be declared and is
    /// never built, so only its kind is kept.
    Nested { table_type: PartitionMapType },
}

/// What a partition is used for.
#[derive(Copy, Clone, Debug, PartialEq, Eq, Structural)]
pub enum PartitionUsage {
    Boot,
    Rootfs,
    Swap,
    Data,
    Other,
}

/// One partition of a device, as declared.
#[derive(Clone, Debug, PartialEq, Eq)]
pub struct PartitionSpec {
    /// Number of the partition in the table, counted from 1.
    pub num: u32,
    /// Type recorded in the table.
    pub part_type: PartitionType,
    /// First sector, where the description fixes it.
    pub start_sector: Option<u64>,
    /// Size in sectors; 0 asks for all the space that is left.
    pub size_in_sectors: u64,
    /// Partition name; a GPT alone has room for one.
    pub label: Option<String>,
    /// Where the filesystem is mounted in the installed system.
    pub mountpoint: Option<String>,
    /// Filesystem created on the partition.
    pub filesystem: FilesystemType,
    /// Options for mounting the filesystem.
    pub mount_opts: Option<Vec<String>>,
    /// Label of the filesystem.
    pub fs_label: Option<String>,
    /// Role of the partition.
    pub usage: PartitionUsage,
}

/// Why a partition type has no form in a kind of table.
#[derive(Copy, Clone, Debug, PartialEq, Eq, Structural)]
pub enum PartTypeError {
    /// The byte marks an extended partition.
    ExtendedNotAllowed,
    /// A GUID was asked to stand in an MBR.
    UuidInMbr,
    /// A type byte was asked to stand in a GPT.
    ByteInGpt,
    /// Nested partition tables are not built.
    NestedUnsupported,
}

impl PartTypeError {
    /// The text shown to the user for this error.
    pub open spec fn text(self) -> Seq<char> {
        match self {
            PartTypeError::ExtendedNotAllowed => "Extended partitions are not allowed."@,
            PartTypeError::UuidInMbr => "Can not convert an arbitrary byte to UUID."@,
            PartTypeError::ByteInGpt => "Can not convert an MBR type to UUID."@,
            PartTypeError::NestedUnsupported => "Nested partition tables are not supported."@,
        }
    }

    /// Renders the error for the user.
    pub fn message(&self) -> (s: &'static str)
        ensures
            s@ == self.text(),
    {
        match self {
            PartTypeError::ExtendedNotAllowed => "Extended partitions are not allowed.",
            PartTypeError::UuidInMbr => "Can not convert an arbitrary byte to UUID.",
            PartTypeError::ByteInGpt => "Can not convert an MBR type to UUID.",
            PartTypeError::NestedUnsupported => "Nested partition tables are not supported.",
        }
    }
}

/// The type bytes that mark an extended partition and are therefore refused.
pub open spec fn is_extended_byte(b: u8) -> bool {
    b == 0x05 || b == 0x0f || b == 0x85 || b == 0xc5
}

impl PartitionType {
    /// The MBR type byte of each partition type.
    pub open spec fn byte_spec(self) -> Result<u8, PartTypeError> {
        match self {
            PartitionType::EFI => Ok(PARTTYPE_EFI_BYTE),
            PartitionType::Linux => Ok(PARTTYPE_LINUX_BYTE),
            PartitionType::Swap => Ok(PARTTYPE_SWAP_BYTE),
            PartitionType::Basic => Ok(PARTTYPE_BASIC_BYTE),
            PartitionType::Byte { byte } => if is_extended_byte(byte) {
                Err(PartTypeError::ExtendedNotAllowed)
            } else {
                Ok(byte)
            },
            PartitionType::Uuid { .. } => Err(PartTypeError::UuidInMbr),
            PartitionType::Nested { .. } => Err(PartTypeError::NestedUnsupported),
        }
    }

    /// The GPT type GUID of each partition type.
    pub open spec fn uuid_spec(self) -> Result<u128, PartTypeError> {
        match self {
            PartitionType::EFI => Ok(PARTTYPE_EFI_UUID),
            PartitionType::Linux => Ok(PARTTYPE_LINUX_UUID),
            PartitionType::Swap => Ok(PARTTYPE_SWAP_UUID),
            PartitionType::Basic => Ok(PARTTYPE_BASIC_UUID),
            PartitionType::Uuid { uuid } => Ok(uuid),
            PartitionType::Byte { .. } => Err(PartTypeError::ByteInGpt),
            PartitionType::Nested { .. } => Err(PartTypeError::NestedUnsupported),
        }
    }

    /// The type byte to write into an MBR.
    pub fn to_byte(&self) -> (r: Result<u8, PartTypeError>)
        ensures
            r == self.byte_spec(),
    {
        match self {
            PartitionType::EFI => Ok(PARTTYPE_EFI_BYTE),
            PartitionType::Linux => Ok(PARTTYPE_LINUX_BYTE),
            PartitionType::Swap => Ok(PARTTYPE_SWAP_BYTE),
            PartitionType::Basic => Ok(PARTTYPE_BASIC_BYTE),
            PartitionType::Byte { byte } => {
                let b: u8 = *byte;
                if b == 0x05 || b == 0xc5 || b == 0x85 || b == 0x0f {
                    Err(PartTypeError::ExtendedNotAllowed)
                } else {
                    Ok(b)
                }
            },
            PartitionType::Uuid { .. } => Err(PartTypeError::UuidInMbr),
            PartitionType::Nested { .. } => Err(PartTypeError::NestedUnsupported),
        }
    }

    /// The type GUID to write into a GPT.
    pub fn to_uuid(&self) -> (r: Result<u128, PartTypeError>)
        ensures
            r == self.uuid_spec(),
    {
        match self {
            PartitionType::EFI => Ok(PARTTYPE_EFI_UUID),
            PartitionType::Linux => Ok(PARTTYPE_LINUX_UUID),
            PartitionType::Swap => Ok(PARTTYPE_SWAP_UUID),
            PartitionType::Basic => Ok(PARTTYPE_BASIC_UUID),
            PartitionType::Uuid { uuid } => Ok(*uuid),
            PartitionType::Byte { .. } => Err(PartTypeError::ByteInGpt),
            PartitionType::Nested { .. } => Err(PartTypeError::NestedUnsupported),
        }
    }

    /// The word that names each partition type in a device description.
    pub open spec fn tag_spec(self) -> Seq<char> {
        match self {
            PartitionType::EFI => "efi"@,
            PartitionType::Linux => "linux"@,
            PartitionType::Swap => "swap"@,
            PartitionType::Basic => "basic"@,
            PartitionType::Uuid { .. } => "uuid"@,
            PartitionType::Byte { .. } => "byte"@,
            PartitionType::Nested { .. } => "nested"@,
        }
    }

    /// The word that names this partition type in a device description.
    pub fn tag(&self) -> (t: &'static str)
        ensures
            t@ == self.tag_spec(),
    {
        match self {
            PartitionType::EFI => "efi",
            PartitionType::Linux => "linux",
            PartitionType::Swap => "swap",
            PartitionType::Basic => "basic",
            PartitionType::Uuid { .. } => "uuid",
            PartitionType::Byte { .. } => "byte",
            PartitionType::Nested { .. } => "nested",
        }
    }

    /// The partition type that a device description names: one of the
    /// words `efi` (or `esp`), `linux`, `swap` and `basic`, or `uuid` with
    /// a GUID, `byte` with a type byte, or `nested` with a kind of table.
    pub open spec fn from_tag_spec(
        tag: Seq<char>,
        uuid: Option<u128>,
        byte: Option<u8>,
        table_type: Option<PartitionMapType>,
    ) -> Option<PartitionType> {
        if tag == "efi"@ || tag == "esp"@ {
            Some(PartitionType::EFI)
        } else if tag == "linux"@ {
            Some(PartitionType::Linux)
        } else if tag == "swap"@ {
            Some(PartitionType::Swap)
        } else if tag == "basic"@ {
            Some(PartitionType::Basic)
        } else if tag == "uuid"@ {
            match uuid {
                Some(uuid) => Some(PartitionType::Uuid { uuid }),
                None => None,
            }
        } else if tag == "byte"@ {
            match byte {
                Some(byte) => Some(PartitionType::Byte { byte }),
                None => None,
            }
        } else if tag == "nested"@ {
            match table_type {
                Some(table_type) => Some(PartitionType::Nested { table_type }),
                None => None,
            }
        } else {
            None
        }
    }

    /// Reads a partition type from the word that names it and the value
    /// that goes with the word, if the word is a known one and its value
    /// is there.
    pub fn from_tag(
        tag: &str,
        uuid: Option<u128>,
        byte: Option<u8>,
        table_type: Option<PartitionMapType>,
    ) -> (r: Option<PartitionType>)
        ensures
            r == Self::from_tag_spec(tag@, uuid, byte, table_type),
    {
        if str_eq(tag, "efi") || str_eq(tag, "esp") {
            Some(PartitionType::EFI)
        } else if str_eq(tag, "linux") {
            Some(PartitionType::Linux)
        } else if str_eq(tag, "swap") {
            Some(PartitionType::Swap)
        } else if str_eq(tag, "basic") {
            Some(PartitionType::Basic)
        } else if str_eq(tag, "uuid") {
            match uuid {
                Some(uuid) => Some(PartitionType::Uuid { uuid }),
                None => None,
            }
        } else if str_eq(tag, "byte") {
            match byte {
                Some(byte) => Some(PartitionType::Byte { byte }),
                None => None,
            }
        } else if str_eq(tag, "nested") {
            match table_type {
                Some(table_type) => Some(PartitionType::Nested { table_type }),
                None => None,
            }
        } else {
            None
        }
    }

    /// Whether this is the swap type.
    pub fn is_swap(&self) -> (b: bool)
        ensures
            b == (*self is Swap),
    {
        match self {
            PartitionType::Swap => true,
            _ => false,
        }
    }

    /// Whether this is the EFI system partition type.
    pub fn is_efi(&self) -> (b: bool)
        ensures
            b == (*self is EFI),
    {
        match self {
            PartitionType::EFI => true,
            _ => false,
        }
    }
}

} // verus!
