//! How bootloader payloads reach the image.

use vstd::prelude::*;
use vstd::string::*;
use crate::device::DeviceSpec;
use crate::paths::file_name;
use crate::paths::join;
use crate::paths::join_path;
use crate::paths::path_file_name;
use crate::paths::trim_leading_slashes;
use crate::paths::without_leading_slashes;
use crate::text::decimal;
use crate::text::u64_to_decimal;

verus! {

/// One step of putting a bootloader onto the image. The steps of a device
/// run in the order in which they are declared.
#[derive(Clone, Debug, PartialEq, Eq)]
pub enum BootloaderSpec {
    /// Run a script that lies beside the device description.
    Script { name: String },
    /// Write a file of the target system onto a partition of the image.
    FlashPartition { path: String, partition: u64 },
    /// Write a file of the target system at a byte offset of the image.
    FlashOffset { path: String, offset: u64 },
}

/// The first byte offset at which a bootloader may be written: the sectors
/// before it hold the partition table.
pub const MIN_FLASH_OFFSET: u64 = 17408;

/// What a bootloader step does to the image.
#[derive(Clone, Debug, PartialEq, Eq)]
pub enum BootloaderAction {
    /// Copy the script at `source` to `staged` in the root filesystem and
    /// run it inside the root filesystem, where it lies at `inside`.
    RunScript { source: String, staged: String, inside: String },
    /// Copy the file at `image` onto the partition at `device`.
    WritePartition { image: String, device: String },
    /// Copy the file at `image` onto the disk at `device`, `offset` bytes
    /// from its start.
    WriteAtOffset { image: String, device: String, offset: u64 },
}

/// Why a bootloader step cannot be carried out.
#[derive(Copy, Clone, Debug, PartialEq, Eq, Structural)]
pub enum BootloaderError {
    /// The script of the step at this place has no file name.
    ScriptWithoutName { index: usize },
}

/// The device node of partition `n` of a disk.
pub open spec fn numbered_device(disk: Seq<char>, n: u64) -> Seq<char> {
    disk + seq!['p'] + decimal(n as nat)
}

/// Where a file of the target system lies on the workbench: at its path
/// below the root filesystem.
pub open spec fn image_path(rootfs: Seq<char>, path: Seq<char>) -> Seq<char> {
    join_path(rootfs, trim_leading_slashes(path))
}

/// Whether an action carries out a bootloader step of a device whose
/// description lies in `device_dir`, with the root filesystem at `rootfs`
/// and the disk at `loopdev`.
pub open spec fn action_matches(
    action: BootloaderAction,
    step: BootloaderSpec,
    rootfs: Seq<char>,
    loopdev: Seq<char>,
    device_dir: Seq<char>,
) -> bool {
    match step {
        BootloaderSpec::Script { name } => {
            &&& path_file_name(join_path(device_dir, name@)) is Some
            &&& action matches BootloaderAction::RunScript { source, staged, inside }
            &&& source@ == join_path(device_dir, name@)
            &&& staged@ == join_path(
                join_path(rootfs, "tmp"@),
                path_file_name(join_path(device_dir, name@))->0,
            )
            &&& inside@ == join_path("/tmp"@, path_file_name(join_path(device_dir, name@))->0)
        },
        BootloaderSpec::FlashPartition { path, partition } => {
            &&& action matches BootloaderAction::WritePartition { image, device }
            &&& image@ == image_path(rootfs, path@)
            &&& device@ == numbered_device(loopdev, partition)
        },
        BootloaderSpec::FlashOffset { path, offset } => {
            &&& action matches BootloaderAction::WriteAtOffset { image, device, offset: at }
            &&& image@ == image_path(rootfs, path@)
            &&& device@ == loopdev
            &&& at == offset
        },
    }
}

/// Whether a bootloader step can be carried out: a script has a file name.
pub open spec fn step_is_sound(step: BootloaderSpec, device_dir: Seq<char>) -> bool {
    step matches BootloaderSpec::Script { name } ==> path_file_name(join_path(device_dir, name@))
        is Some
}

/// Whether `action` is what a bootloader step takes, given the file name
/// of the step's script (`file_name`; it matters for a script alone): for
/// a script without a file name nothing; for a script the copying to the
/// directory `tmp` of the root filesystem under its file name and the run
/// from `/tmp`; for a file of the target system the writing of it onto the
/// partition of the step's number, or onto the disk at the step's offset.
pub open spec fn action_given(
    action: Option<BootloaderAction>,
    step: BootloaderSpec,
    rootfs: Seq<char>,
    loopdev: Seq<char>,
    device_dir: Seq<char>,
    file_name: Option<Seq<char>>,
) -> bool {
    match step {
        BootloaderSpec::Script { name } => match file_name {
            None => action is None,
            Some(base) => {
                &&& action matches Some(BootloaderAction::RunScript { source, staged, inside })
                &&& source@ == join_path(device_dir, name@)
                &&& staged@ == join_path(join_path(rootfs, "tmp"@), base)
                &&& inside@ == join_path("/tmp"@, base)
            },
        },
        BootloaderSpec::FlashPartition { path, partition } => {
            &&& action matches Some(BootloaderAction::WritePartition { image, device })
            &&& image@ == image_path(rootfs, path@)
            &&& device@ == numbered_device(loopdev, partition)
        },
        BootloaderSpec::FlashOffset { path, offset } => {
            &&& action matches Some(BootloaderAction::WriteAtOffset { image, device, offset: at })
            &&& image@ == image_path(rootfs, path@)
            &&& device@ == loopdev
            &&& at == offset
        },
    }
}

/// The text of an optional string slice.
pub open spec fn opt_str(s: Option<&str>) -> Option<Seq<char>> {
    match s {
        Some(t) => Some(t@),
        None => None,
    }
}

/// Decides what a bootloader step takes. `file_name` is the file name of
/// the path of the step's script, where the step runs one and the path has
/// one.
pub fn bootloader_action(
    step: &BootloaderSpec,
    rootfs: &str,
    loopdev: &str,
    device_dir: &str,
    file_name: Option<&str>,
) -> (r: Option<BootloaderAction>)
    ensures
        action_given(r, *step, rootfs@, loopdev@, device_dir@, opt_str(file_name)),
{
    match step {
        BootloaderSpec::Script { name } => {
            match file_name {
                None => None,
                Some(base) => {
                    let source = join(device_dir, name.as_str());
                    let staged = join(join(rootfs, "tmp").as_str(), base);
                    let inside = join("/tmp", base);
                    Some(BootloaderAction::RunScript { source, staged, inside })
                },
            }
        },
        BootloaderSpec::FlashPartition { path, partition } => {
            proof {
                reveal_strlit("p");
                assert("p"@ =~= seq!['p']);
            }
            let image = join(rootfs, without_leading_slashes(path.as_str()));
            let mut device = String::from_str(loopdev);
            device.append("p");
            device.append(u64_to_decimal(*partition).as_str());
            Some(BootloaderAction::WritePartition { image, device })
        },
        BootloaderSpec::FlashOffset { path, offset } => {
            let image = join(rootfs, without_leading_slashes(path.as_str()));
            Some(
                BootloaderAction::WriteAtOffset {
                    image,
                    device: String::from_str(loopdev),
                    offset: *offset,
                },
            )
        },
    }
}

fn action_of_step(step: &BootloaderSpec, rootfs: &str, loopdev: &str, device_dir: &str) -> (r:
    Option<BootloaderAction>)
    ensures
        match r {
            Some(action) => action_matches(action, *step, rootfs@, loopdev@, device_dir@),
            None => !step_is_sound(*step, device_dir@),
        },
{
    match step {
        BootloaderSpec::Script { name } => {
            let source = join(device_dir, name.as_str());
            match file_name(source.as_str()) {
                None => bootloader_action(step, rootfs, loopdev, device_dir, None),
                Some(base) => bootloader_action(
                    step,
                    rootfs,
                    loopdev,
                    device_dir,
                    Some(base.as_str()),
                ),
            }
        },
        _ => bootloader_action(step, rootfs, loopdev, device_dir, None),
    }
}

/// What applying the bootloaders of a device takes: one action for each
/// step, in the order of the steps. `device_dir` is the directory of the
/// description, `rootfs` the root filesystem on the workbench, `loopdev`
/// the disk.
pub fn apply_bootloaders(device: &DeviceSpec, rootfs: &str, loopdev: &str, device_dir: &str) -> (r:
    Result<Vec<BootloaderAction>, BootloaderError>)
    ensures
        match r {
            Ok(actions) => {
                &&& actions@.len() == device.bootloader_list().len()
                &&& forall|k: int|
                    0 <= k < actions@.len() ==> action_matches(
                        #[trigger] actions@[k],
                        device.bootloader_list()[k],
                        rootfs@,
                        loopdev@,
                        device_dir@,
                    )
            },
            Err(BootloaderError::ScriptWithoutName { index }) => {
                &&& index < device.bootloader_list().len()
                &&& !step_is_sound(device.bootloader_list()[index as int], device_dir@)
                &&& forall|k: int|
                    0 <= k < index ==> step_is_sound(
                        #[trigger] device.bootloader_list()[k],
                        device_dir@,
                    )
            },
        },
{
    let mut actions: Vec<BootloaderAction> = Vec::new();
    if let Some(steps) = &device.bootloaders {
        let mut k: usize = 0;
        while k < steps.len()
            invariant
                k <= steps.len(),
                steps@ == device.bootloader_list(),
                actions@.len() == k,
                forall|j: int|
                    0 <= j < k ==> action_matches(
                        #[trigger] actions@[j],
                        steps@[j],
                        rootfs@,
                        loopdev@,
                        device_dir@,
                    ),
                forall|j: int| 0 <= j < k ==> step_is_sound(#[trigger] steps@[j], device_dir@),
            decreases steps.len() - k,
        {
            match action_of_step(&steps[k], rootfs, loopdev, device_dir) {
                None => {
                    return Err(BootloaderError::ScriptWithoutName { index: k });
                },
                Some(action) => {
                    actions.push(action);
                },
            }
            k += 1;
        }
    }
    Ok(actions)
}

} // verus!
