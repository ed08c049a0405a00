//! What the command line can ask for.

use vstd::prelude::*;
use crate::context::ImageVariant;
use crate::filesystem::FilesystemType;

verus! {

/// A filesystem that can be chosen for the root partition at build time.
#[derive(Copy, Clone, Debug, PartialEq, Eq, PartialOrd, Ord, Structural)]
pub enum RootFsType {
    Ext4,
    Btrfs,
    Xfs,
}

/// How the finished image is compressed.
#[derive(Copy, Clone, Debug, PartialEq, Eq, PartialOrd, Ord, Structural)]
pub enum Compression {
    /// LZMA2 in the xz format; the file ends in `.img.xz`.
    Xz,
    /// Zstandard; the file ends in `.img.zst`.
    Zstd,
    /// DEFLATE in the gzip format; the file ends in `.img.gz`.
    Gzip,
    /// The image is copied as it is; the file ends in `.img`.
    Uncompressed,
}

/// How the list of devices is printed.
#[derive(Copy, Clone, Debug, PartialEq, Eq, Structural)]
pub enum ListFormat {
    Pretty,
    Simple,
}

/// What the program is asked to do.
#[derive(Clone, Debug, PartialEq, Eq)]
pub enum Action {
    /// Build images for one device.
    Build {
        fstype: Option<RootFsType>,
        compression: Compression,
        variants: Vec<ImageVariant>,
        revision: Option<u32>,
        additional_packages: Option<Vec<String>>,
        topics: Option<Vec<String>>,
        device: String,
    },
    /// Build images for every device of the registry.
    BuildAll {
        fstype: Option<RootFsType>,
        compression: Compression,
        variants: Vec<ImageVariant>,
        revision: Option<u32>,
        additional_packages: Option<Vec<String>>,
        topics: Option<Vec<String>>,
    },
    /// Check one device, or all of them.
    Check { device: Option<String> },
    /// List the devices.
    List { format: ListFormat },
}

/// The command line as a whole.
#[derive(Clone, Debug, PartialEq, Eq)]
pub struct Cmdline {
    /// Whether debug output is wanted.
    pub debug: bool,
    /// The directory of the device registry, where it is given.
    pub registry: Option<String>,
    /// The working directory.
    pub workdir: String,
    /// The output directory.
    pub outdir: String,
    /// The mirror that packages come from.
    pub mirror: String,
    /// Name of the user of the installed system.
    pub user: String,
    /// Password of that user.
    pub password: String,
    /// Whether the sketches are removed after the build.
    pub cleanup: bool,
    /// Whether the bootstrapped distributions are removed after the build.
    pub cleanup_bootstrap: bool,
    /// What to do.
    pub action: Action,
}

impl RootFsType {
    /// The filesystem that this choice stands for.
    pub open spec fn filesystem_spec(self) -> FilesystemType {
        match self {
            RootFsType::Ext4 => FilesystemType::Ext4,
            RootFsType::Btrfs => FilesystemType::Btrfs,
            RootFsType::Xfs => FilesystemType::Xfs,
        }
    }

    /// The filesystem that this choice stands for.
    pub fn to_filesystem(&self) -> (fs: FilesystemType)
        ensures
            fs == self.filesystem_spec(),
    {
        match self {
            RootFsType::Ext4 => FilesystemType::Ext4,
            RootFsType::Btrfs => FilesystemType::Btrfs,
            RootFsType::Xfs => FilesystemType::Xfs,
        }
    }
}

impl Compression {
    /// What the name of a compressed image has after `.img`.
    pub open spec fn extension_spec(self) -> Seq<char> {
        match self {
            Compression::Xz => ".xz"@,
            Compression::Zstd => ".zst"@,
            Compression::Gzip => ".gz"@,
            Compression::Uncompressed => ""@,
        }
    }

    /// What the name of the image file has after `.img`.
    pub fn get_extension(&self) -> (ext: &'static str)
        ensures
            ext@ == self.extension_spec(),
    {
        match self {
            Compression::Xz => ".xz",
            Compression::Zstd => ".zst",
            Compression::Gzip => ".gz",
            Compression::Uncompressed => "",
        }
    }

    /// Whether the compressor works with several threads.
    pub open spec fn is_threaded_spec(self) -> bool {
        self == Compression::Xz || self == Compression::Zstd
    }

    /// Whether the compressor works with several threads.
    pub fn is_threaded(&self) -> (b: bool)
        ensures
            b == self.is_threaded_spec(),
    {
        match self {
            Compression::Xz | Compression::Zstd => true,
            _ => false,
        }
    }
}

/// The number of compression threads on a machine with `cpus` processors:
/// one for each, but at least 1 and at most 32.
pub open spec fn compression_threads_spec(cpus: usize) -> u32 {
    if cpus < 1 {
        1
    } else if cpus > 32 {
        32
    } else {
        cpus as u32
    }
}

/// The number of threads to compress with.
pub fn compression_threads(cpus: usize) -> (n: u32)
    ensures
        n == compression_threads_spec(cpus),
        1 <= n <= 32,
{
    if cpus < 1 {
        1
    } else if cpus > 32 {
        32
    } else {
        cpus as u32
    }
}

} // verus!
