//! The files that tell the installed system and the build scripts what the
//! image is: the filesystem table, the environment of the scripts, and the
//! host name.

use std::collections::HashMap;
use vstd::prelude::*;
use vstd::string::*;
use crate::device::DeviceSpec;
use crate::device::PartitionData;
use crate::device::PartitionMapData;
use crate::filesystem::FilesystemType;
use crate::partition::PartitionSpec;
use crate::partition::PartitionUsage;
use crate::pm::Distro;
use crate::text::decimal;
use crate::text::hex_digits;
use crate::text::to_hex;
use crate::text::u64_to_decimal;

verus! {

/// Why an identity file cannot be written.
#[derive(Copy, Clone, Debug, PartialEq, Eq, Structural)]
pub enum IdentityError {
    /// Nothing was recorded for this partition when the table was written.
    MissingPartitionData { num: u32 },
    /// The record found under this number is that of another partition.
    MismatchedPartitionData { num: u32 },
    /// The partition is mounted by the identifier of its filesystem, and
    /// it has none yet: it was never formatted.
    MissingFsUuid { num: u32 },
    /// The partition has a mountpoint and no filesystem.
    NotFormattable { num: u32 },
}

impl IdentityError {
    /// The text shown to the user for this error.
    pub open spec fn text(self) -> Seq<char> {
        match self {
            IdentityError::MissingPartitionData { num } => "Unable to get partition data for partition "@ + decimal(num as nat),
            IdentityError::MismatchedPartitionData { num } => "The partition data found for partition "@ + decimal(num as nat) + " belongs to another partition"@,
            IdentityError::MissingFsUuid { .. } => "Partition with a mountpoint must have a valid filesystem"@,
            IdentityError::NotFormattable { .. } => "It is instructed to not being formatted"@,
        }
    }

    /// Renders the error for the user.
    pub fn message(&self) -> (s: String)
        ensures
            s@ == self.text(),
    {
        match self {
            IdentityError::MissingPartitionData { num } => {
                let mut s = String::from_str("Unable to get partition data for partition ");
                s.append(u64_to_decimal(*num as u64).as_str());
                assert(s@ =~= "Unable to get partition data for partition "@ + decimal(*num as nat));
                s
            },
            IdentityError::MismatchedPartitionData { num } => {
                let mut s = String::from_str("The partition data found for partition ");
                s.append(u64_to_decimal(*num as u64).as_str());
                s.append(" belongs to another partition");
                assert(s@ =~= "The partition data found for partition "@ + decimal(*num as nat) + " belongs to another partition"@);
                s
            },
            IdentityError::MissingFsUuid { .. } => {
                let mut s = String::from_str("Partition with a mountpoint must have a valid filesystem");
                s
            },
            IdentityError::NotFormattable { .. } => {
                let mut s = String::from_str("It is instructed to not being formatted");
                s
            },
        }
    }
}

/// The device node of partition `num` of a disk.
pub open spec fn partition_device_spec(disk: Seq<char>, num: u32) -> Seq<char> {
    disk + seq!['p'] + decimal(num as nat)
}

/// The device node of partition `num` of the disk at `disk`.
pub fn partition_device(disk: &str, num: u32) -> (path: String)
    ensures
        path@ == partition_device_spec(disk@, num),
{
    let mut path = String::from_str(disk);
    proof {
        reveal_strlit("p");
        assert("p"@ =~= seq!['p']);
    }
    path.append("p");
    path.append(u64_to_decimal(num as u64).as_str());
    path
}

/// What stands first in the part of the filesystem table that is generated.
pub open spec fn fstab_header() -> Seq<char> {
    "\n# ---- Auto generated by mkrawimg ----\n"@
}

/// The first column of a line of the filesystem table: the partition by
/// its own identifier where the device boots without an initial ramdisk,
/// by the identifier of its filesystem otherwise.
pub open spec fn fstab_source(initrdless: bool, record: PartitionData) -> Seq<char> {
    if initrdless {
        "PARTUUID=\""@ + record.part_uuid@ + "\""@
    } else {
        "UUID=\""@ + record.fs_uuid->0@ + "\""@
    }
}

/// The line of the filesystem table for a partition with a mountpoint:
/// source, mountpoint, filesystem, the options `defaults`, no dump, and
/// the pass of the filesystem check (1 for the root filesystem, 2 for the
/// others), separated by tabs.
pub open spec fn fstab_entry(p: PartitionSpec, initrdless: bool, data: Map<u32, PartitionData>) -> Result<
    Seq<char>,
    IdentityError,
> {
    if !data.contains_key(p.num) {
        Err(IdentityError::MissingPartitionData { num: p.num })
    } else if !initrdless && data[p.num].fs_uuid is None {
        Err(IdentityError::MissingFsUuid { num: p.num })
    } else if p.filesystem.os_fstype() is Err {
        Err(IdentityError::NotFormattable { num: p.num })
    } else {
        Ok(
            fstab_source(initrdless, data[p.num]) + "\t"@ + p.mountpoint->0@ + "\t"@
                + p.filesystem.os_fstype()->Ok_0 + "\tdefaults\t0\t"@ + (if p.usage
                == PartitionUsage::Rootfs {
                "1\n"@
            } else {
                "2\n"@
            }),
        )
    }
}

/// The generated part of the filesystem table up to the partition at place
/// `upto`: the header, then a line for each partition with a mountpoint.
pub open spec fn fstab_upto(
    parts: Seq<PartitionSpec>,
    initrdless: bool,
    data: Map<u32, PartitionData>,
    upto: int,
) -> Result<Seq<char>, IdentityError>
    decreases upto,
{
    if upto <= 0 {
        Ok(fstab_header())
    } else {
        match fstab_upto(parts, initrdless, data, upto - 1) {
            Err(e) => Err(e),
            Ok(text) => if parts[upto - 1].mountpoint is None {
                Ok(text)
            } else {
                match fstab_entry(parts[upto - 1], initrdless, data) {
                    Err(e) => Err(e),
                    Ok(line) => Ok(text + line),
                }
            },
        }
    }
}

/// The generated part of the filesystem table of a device.
pub open spec fn fstab_spec(device: DeviceSpec, data: Map<u32, PartitionData>) -> Result<
    Seq<char>,
    IdentityError,
> {
    fstab_upto(device.partitions@, device.initrdless, data, device.partitions@.len() as int)
}

proof fn lemma_fstab_error_stays(
    parts: Seq<PartitionSpec>,
    initrdless: bool,
    data: Map<u32, PartitionData>,
    at: int,
    upto: int,
)
    requires
        0 <= at <= upto,
        fstab_upto(parts, initrdless, data, at) is Err,
    ensures
        fstab_upto(parts, initrdless, data, upto) == fstab_upto(parts, initrdless, data, at),
    decreases upto - at,
{
    if at < upto {
        lemma_fstab_error_stays(parts, initrdless, data, at, upto - 1);
    }
}

/// Writes what is appended to the filesystem table of the installed
/// system. Partitions without a mountpoint have no line.
pub fn generate_fstab(device: &DeviceSpec, pm_data: &PartitionMapData) -> (r: Result<
    String,
    IdentityError,
>)
    ensures
        match r {
            Ok(content) => fstab_spec(*device, pm_data.data@) == Ok::<Seq<char>, IdentityError>(
                content@,
            ),
            Err(e) => fstab_spec(*device, pm_data.data@) == Err::<Seq<char>, IdentityError>(e),
        },
{
    broadcast use vstd::std_specs::hash::group_hash_axioms;

    let mut content = String::from_str("\n# ---- Auto generated by mkrawimg ----\n");
    let parts = &device.partitions;
    let initrdless = device.initrdless;
    let mut i: usize = 0;
    while i < parts.len()
        invariant
            i <= parts.len(),
            parts@ == device.partitions@,
            initrdless == device.initrdless,
            fstab_upto(parts@, initrdless, pm_data.data@, i as int) == Ok::<
                Seq<char>,
                IdentityError,
            >(content@),
        decreases parts.len() - i,
    {
        let p = &parts[i];
        if let Some(mountpoint) = &p.mountpoint {
            match fstab_line(p, mountpoint.as_str(), initrdless, &pm_data.data) {
                Err(e) => {
                    proof {
                        lemma_fstab_error_stays(
                            parts@,
                            initrdless,
                            pm_data.data@,
                            i + 1,
                            parts@.len() as int,
                        );
                    }
                    return Err(e);
                },
                Ok(line) => {
                    content.append(line.as_str());
                },
            }
        }
        i += 1;
    }
    Ok(content)
}

fn fstab_line(
    p: &PartitionSpec,
    mountpoint: &str,
    initrdless: bool,
    data: &HashMap<u32, PartitionData>,
) -> (r: Result<String, IdentityError>)
    requires
        p.mountpoint is Some,
        p.mountpoint->0@ == mountpoint@,
    ensures
        match r {
            Ok(line) => fstab_entry(*p, initrdless, data@) == Ok::<Seq<char>, IdentityError>(line@),
            Err(e) => fstab_entry(*p, initrdless, data@) == Err::<Seq<char>, IdentityError>(e),
        },
{
    broadcast use vstd::std_specs::hash::group_hash_axioms;

    let record = match data.get(&p.num) {
        None => {
            return Err(IdentityError::MissingPartitionData { num: p.num });
        },
        Some(record) => record,
    };
    let mut line = if initrdless {
        let mut s = String::from_str("PARTUUID=\"");
        s.append(record.part_uuid.as_str());
        s
    } else {
        match &record.fs_uuid {
            None => {
                return Err(IdentityError::MissingFsUuid { num: p.num });
            },
            Some(fs_uuid) => {
                let mut s = String::from_str("UUID=\"");
                s.append(fs_uuid.as_str());
                s
            },
        }
    };
    line.append("\"");
    let fstype = match p.filesystem.get_os_fstype() {
        Err(_) => {
            return Err(IdentityError::NotFormattable { num: p.num });
        },
        Ok(fstype) => fstype,
    };
    line.append("\t");
    line.append(mountpoint);
    line.append("\t");
    line.append(fstype);
    line.append("\tdefaults\t0\t");
    match p.usage {
        PartitionUsage::Rootfs => line.append("1\n"),
        _ => line.append("2\n"),
    }
    assert(line@ =~= fstab_entry(*p, initrdless, data@)->Ok_0);
    Ok(line)
}

/// The number of the partition that holds the root filesystem: where
/// several claim it, the last of them.
pub open spec fn root_number_upto(parts: Seq<PartitionSpec>, upto: int) -> Option<u32>
    decreases upto,
{
    if upto <= 0 {
        None
    } else if parts[upto - 1].usage == PartitionUsage::Rootfs {
        Some(parts[upto - 1].num)
    } else {
        root_number_upto(parts, upto - 1)
    }
}

/// Finds the partition that holds the root filesystem.
pub fn root_partition_number(device: &DeviceSpec) -> (num: Option<u32>)
    ensures
        num == root_number_upto(device.partitions@, device.partitions@.len() as int),
{
    let parts = &device.partitions;
    let mut num: Option<u32> = None;
    let mut i: usize = 0;
    while i < parts.len()
        invariant
            i <= parts.len(),
            parts@ == device.partitions@,
            num == root_number_upto(parts@, i as int),
        decreases parts.len() - i,
    {
        if let PartitionUsage::Rootfs = parts[i].usage {
            num = Some(parts[i].num);
        }
        i += 1;
    }
    num
}

/// The head of the environment of the build scripts: what identifies the
/// device and its disk.
pub open spec fn script_head(
    device: DeviceSpec,
    loopdev: Seq<char>,
    rootpart: Seq<char>,
    disk_uuid: Seq<char>,
) -> Seq<char> {
    "DEVICE_ID='"@ + device.id@ + "'\nDEVICE_COMPATIBLE='"@ + (match device.of_compatible {
        Some(c) => c@,
        None => Seq::empty(),
    }) + "'\nLOOPDEV='"@ + loopdev + "'\nNUM_PARTITIONS='"@ + decimal(device.num_partitions as nat)
        + "'\nROOTPART='"@ + rootpart + "'\nDISKLABEL='"@ + device.partition_map.name_spec()
        + "'\nDISKUUID='"@ + disk_uuid + "'\n"@
}

/// The line that gives an identifier of partition `num`; `kind` is
/// `PARTUUID` or `FSUUID`.
pub open spec fn script_value(num: u32, kind: Seq<char>, value: Seq<char>) -> Seq<char> {
    "PART"@ + decimal(num as nat) + "_"@ + kind + "='"@ + value + "'\n"@
}

/// The line that lets a role (`ROOT`, `BOOT` or `EFI`) stand for
/// partition `num`.
pub open spec fn script_alias(role: Seq<char>, num: u32, kind: Seq<char>) -> Seq<char> {
    role + "_"@ + kind + "=\"$PART"@ + decimal(num as nat) + "_"@ + kind + "\"\n"@
}

/// The lines that let the roles of a partition stand for it: `ROOT` for
/// the root filesystem or else `BOOT` for the boot partition, then `EFI`
/// for a partition of the EFI type.
pub open spec fn script_aliases(p: PartitionSpec, kind: Seq<char>) -> Seq<char> {
    (if p.usage == PartitionUsage::Rootfs {
        script_alias("ROOT"@, p.num, kind)
    } else if p.usage == PartitionUsage::Boot {
        script_alias("BOOT"@, p.num, kind)
    } else {
        Seq::empty()
    }) + (if p.part_type is EFI {
        script_alias("EFI"@, p.num, kind)
    } else {
        Seq::empty()
    })
}

/// The lines of the environment for one partition: its own identifier and
/// its roles, then the same for the identifier of its filesystem where it
/// has one.
pub open spec fn script_part(p: PartitionSpec, data: Map<u32, PartitionData>) -> Result<
    Seq<char>,
    IdentityError,
> {
    if !data.contains_key(p.num) {
        Err(IdentityError::MissingPartitionData { num: p.num })
    } else if data[p.num].num != p.num {
        Err(IdentityError::MismatchedPartitionData { num: p.num })
    } else {
        Ok(
            script_value(p.num, "PARTUUID"@, data[p.num].part_uuid@) + script_aliases(
                p,
                "PARTUUID"@,
            ) + (match data[p.num].fs_uuid {
                Some(fs_uuid) => script_value(p.num, "FSUUID"@, fs_uuid@) + script_aliases(
                    p,
                    "FSUUID"@,
                ),
                None => Seq::empty(),
            }),
        )
    }
}

/// The environment of the build scripts up to the partition at place
/// `upto`: the head, then the lines of each partition.
pub open spec fn script_upto(
    device: DeviceSpec,
    loopdev: Seq<char>,
    rootpart: Seq<char>,
    disk_uuid: Seq<char>,
    data: Map<u32, PartitionData>,
    upto: int,
) -> Result<Seq<char>, IdentityError>
    decreases upto,
{
    if upto <= 0 {
        Ok(script_head(device, loopdev, rootpart, disk_uuid))
    } else {
        match script_upto(device, loopdev, rootpart, disk_uuid, data, upto - 1) {
            Err(e) => Err(e),
            Ok(text) => match script_part(device.partitions@[upto - 1], data) {
                Err(e) => Err(e),
                Ok(lines) => Ok(text + lines),
            },
        }
    }
}

proof fn lemma_script_error_stays(
    device: DeviceSpec,
    loopdev: Seq<char>,
    rootpart: Seq<char>,
    disk_uuid: Seq<char>,
    data: Map<u32, PartitionData>,
    at: int,
    upto: int,
)
    requires
        0 <= at <= upto,
        script_upto(device, loopdev, rootpart, disk_uuid, data, at) is Err,
    ensures
        script_upto(device, loopdev, rootpart, disk_uuid, data, upto) == script_upto(
            device,
            loopdev,
            rootpart,
            disk_uuid,
            data,
            at,
        ),
    decreases upto - at,
{
    if at < upto {
        lemma_script_error_stays(device, loopdev, rootpart, disk_uuid, data, at, upto - 1);
    }
}

fn append_value(script: &mut String, num: u32, kind: &str, value: &str)
    ensures
        final(script)@ == old(script)@ + script_value(num, kind@, value@),
{
    script.append("PART");
    script.append(u64_to_decimal(num as u64).as_str());
    script.append("_");
    script.append(kind);
    script.append("='");
    script.append(value);
    script.append("'\n");
    assert(script@ =~= old(script)@ + script_value(num, kind@, value@));
}

fn append_alias(script: &mut String, role: &str, num: u32, kind: &str)
    ensures
        final(script)@ == old(script)@ + script_alias(role@, num, kind@),
{
    script.append(role);
    script.append("_");
    script.append(kind);
    script.append("=\"$PART");
    script.append(u64_to_decimal(num as u64).as_str());
    script.append("_");
    script.append(kind);
    script.append("\"\n");
    assert(script@ =~= old(script)@ + script_alias(role@, num, kind@));
}

fn append_aliases(script: &mut String, p: &PartitionSpec, kind: &str)
    ensures
        final(script)@ == old(script)@ + script_aliases(*p, kind@),
{
    match p.usage {
        PartitionUsage::Rootfs => append_alias(script, "ROOT", p.num, kind),
        PartitionUsage::Boot => append_alias(script, "BOOT", p.num, kind),
        _ => {},
    }
    if p.part_type.is_efi() {
        append_alias(script, "EFI", p.num, kind);
    }
    assert(script@ =~= old(script)@ + script_aliases(*p, kind@));
}

fn script_part_of(p: &PartitionSpec, data: &HashMap<u32, PartitionData>) -> (r: Result<
    String,
    IdentityError,
>)
    ensures
        match r {
            Ok(lines) => script_part(*p, data@) == Ok::<Seq<char>, IdentityError>(lines@),
            Err(e) => script_part(*p, data@) == Err::<Seq<char>, IdentityError>(e),
        },
{
    broadcast use vstd::std_specs::hash::group_hash_axioms;

    let record = match data.get(&p.num) {
        None => {
            return Err(IdentityError::MissingPartitionData { num: p.num });
        },
        Some(record) => record,
    };
    if record.num != p.num {
        return Err(IdentityError::MismatchedPartitionData { num: p.num });
    }
    let mut lines = String::new();
    append_value(&mut lines, p.num, "PARTUUID", record.part_uuid.as_str());
    append_aliases(&mut lines, p, "PARTUUID");
    if let Some(fs_uuid) = &record.fs_uuid {
        append_value(&mut lines, p.num, "FSUUID", fs_uuid.as_str());
        append_aliases(&mut lines, p, "FSUUID");
    }
    assert(lines@ =~= script_part(*p, data@)->Ok_0);
    Ok(lines)
}

/// Writes the environment that every build script reads first: the device,
/// the disk at `loopdev`, its root partition at `rootpart`, and the
/// identifiers of the disk and of each partition.
pub fn write_spec_script(
    device: &DeviceSpec,
    loopdev: &str,
    rootpart: &str,
    pm_data: &PartitionMapData,
) -> (r: Result<String, IdentityError>)
    ensures
        match r {
            Ok(script) => script_upto(
                *device,
                loopdev@,
                rootpart@,
                pm_data.uuid@,
                pm_data.data@,
                device.partitions@.len() as int,
            ) == Ok::<Seq<char>, IdentityError>(script@),
            Err(e) => script_upto(
                *device,
                loopdev@,
                rootpart@,
                pm_data.uuid@,
                pm_data.data@,
                device.partitions@.len() as int,
            ) == Err::<Seq<char>, IdentityError>(e),
        },
{
    broadcast use vstd::std_specs::hash::group_hash_axioms;

    let mut script = String::from_str("DEVICE_ID='");
    script.append(device.id.as_str());
    script.append("'\nDEVICE_COMPATIBLE='");
    match &device.of_compatible {
        Some(c) => script.append(c.as_str()),
        None => {},
    }
    script.append("'\nLOOPDEV='");
    script.append(loopdev);
    script.append("'\nNUM_PARTITIONS='");
    script.append(u64_to_decimal(device.num_partitions as u64).as_str());
    script.append("'\nROOTPART='");
    script.append(rootpart);
    script.append("'\nDISKLABEL='");
    script.append(device.partition_map.name());
    script.append("'\nDISKUUID='");
    script.append(pm_data.uuid.as_str());
    script.append("'\n");
    assert(script@ =~= script_head(*device, loopdev@, rootpart@, pm_data.uuid@));
    let parts = &device.partitions;
    let mut i: usize = 0;
    while i < parts.len()
        invariant
            i <= parts.len(),
            parts@ == device.partitions@,
            script_upto(*device, loopdev@, rootpart@, pm_data.uuid@, pm_data.data@, i as int)
                == Ok::<Seq<char>, IdentityError>(script@),
        decreases parts.len() - i,
    {
        match script_part_of(&parts[i], &pm_data.data) {
            Err(e) => {
                proof {
                    lemma_script_error_stays(
                        *device,
                        loopdev@,
                        rootpart@,
                        pm_data.uuid@,
                        pm_data.data@,
                        i + 1,
                        parts@.len() as int,
                    );
                }
                return Err(e);
            },
            Ok(lines) => {
                script.append(lines.as_str());
            },
        }
        i += 1;
    }
    Ok(script)
}

/// The host name of an installed system: the distribution, the identifier
/// of the device, and eight hexadecimal digits that tell the installations
/// apart.
pub open spec fn hostname_spec(distro: Distro, id: Seq<char>, serial: u32) -> Seq<char> {
    distro.name_spec() + seq!['-'] + id + seq!['-'] + hex_digits(serial as nat, 8)
}

/// Writes the host name of an installed system with the given serial.
pub fn hostname_for(device: &DeviceSpec, serial: u32) -> (name: String)
    ensures
        name@ == hostname_spec(device.distro, device.id@, serial),
{
    proof {
        reveal_strlit("-");
        assert("-"@ =~= seq!['-']);
    }
    let mut name = String::from_str(device.distro.name());
    name.append("-");
    name.append(device.id.as_str());
    name.append("-");
    name.append(to_hex(serial as u64, 8).as_str());
    name
}

/// A random number, from `rand::random`. Nothing is claimed of its value.
#[verifier::external_body]
fn random_serial() -> (serial: u32) {
    rand::random::<u32>()
}

/// Makes up the host name of an installed system: that of the device with
/// a random serial.
pub fn new_hostname(device: &DeviceSpec) -> (name: String)
    ensures
        exists|serial: u32| name@ == hostname_spec(device.distro, device.id@, serial),
{
    hostname_for(device, random_serial())
}

/// What is appended to the list of hosts for a host name: the name at both
/// loopback addresses.
pub open spec fn hosts_entries_spec(hostname: Seq<char>) -> Seq<char> {
    "\n127.0.0.1\t"@ + hostname + "\n::1\t"@ + hostname + "\n"@
}

/// Writes what is appended to the list of hosts for a host name.
pub fn hosts_entries(hostname: &str) -> (content: String)
    ensures
        content@ == hosts_entries_spec(hostname@),
{
    let mut content = String::from_str("\n127.0.0.1\t");
    content.append(hostname);
    content.append("\n::1\t");
    content.append(hostname);
    content.append("\n");
    content
}

/// The locale configuration that makes `locale` the language of the system.
pub open spec fn locale_conf_spec(locale: Seq<char>) -> Seq<char> {
    "LANG=\""@ + locale + "\""@
}

/// Writes the locale configuration that makes `locale` the language.
pub fn locale_conf(locale: &str) -> (content: String)
    ensures
        content@ == locale_conf_spec(locale@),
{
    let mut content = String::from_str("LANG=\"");
    content.append(locale);
    content.append("\"");
    content
}

/// The source column follows the way the device boots: a line of the
/// filesystem table names the partition by `PARTUUID=` and its own
/// identifier where the device boots without an initial ramdisk, and by
/// `UUID=` and the identifier of its filesystem otherwise; in that case
/// there is no line for a partition whose filesystem has no identifier yet.
pub proof fn lemma_fstab_source_follows_boot_mode(
    p: PartitionSpec,
    initrdless: bool,
    data: Map<u32, PartitionData>,
)
    requires
        data.contains_key(p.num),
    ensures
        initrdless && p.filesystem != FilesystemType::Unformatted ==> {
            &&& fstab_entry(p, initrdless, data) is Ok
            &&& ("PARTUUID=\""@ + data[p.num].part_uuid@ + "\""@).is_prefix_of(
                fstab_entry(p, initrdless, data)->Ok_0,
            )
        },
        !initrdless && data[p.num].fs_uuid is None ==> fstab_entry(p, initrdless, data) == Err::<
            Seq<char>,
            IdentityError,
        >(IdentityError::MissingFsUuid { num: p.num }),
        !initrdless && data[p.num].fs_uuid is Some && p.filesystem != FilesystemType::Unformatted
            ==> {
            &&& fstab_entry(p, initrdless, data) is Ok
            &&& ("UUID=\""@ + data[p.num].fs_uuid->0@ + "\""@).is_prefix_of(
                fstab_entry(p, initrdless, data)->Ok_0,
            )
        },
{
}

/// No filesystem table without the identifiers it needs: where a device
/// boots with an initial ramdisk, the table cannot be generated as long as
/// a partition with a mountpoint has no filesystem identifier.
pub proof fn lemma_fstab_needs_fs_uuid(device: DeviceSpec, data: Map<u32, PartitionData>, k: int)
    requires
        !device.initrdless,
        0 <= k < device.partitions@.len(),
        device.partitions@[k].mountpoint is Some,
        data.contains_key(device.partitions@[k].num),
        data[device.partitions@[k].num].fs_uuid is None,
    ensures
        fstab_spec(device, data) is Err,
{
    let parts = device.partitions@;
    assert(fstab_upto(parts, device.initrdless, data, k + 1) is Err);
    lemma_fstab_error_stays(parts, device.initrdless, data, k + 1, parts.len() as int);
}

} // verus!
