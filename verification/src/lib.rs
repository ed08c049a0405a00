//! Building blocks for assembling bootable raw disk images: device
//! descriptions and their validation, partition table layout, the generated
//! identity files, and the bookkeeping of a build job.

pub mod bootloader;
pub mod cli;
pub mod commands;
pub mod context;
pub mod device;
pub mod device_laws;
pub mod filesystem;
pub mod gpt;
pub mod guid;
pub mod identity;
pub mod layout;
pub mod layout_laws;
pub mod mbr;
pub mod mounts;
pub mod partition;
pub mod paths;
pub mod pm;
pub mod registry;
pub mod text;
pub mod topics;
