use std::collections::HashMap;

use mkrawimg::device::{
    DeviceArch, DeviceSpec, ImageVariantSizes, PartitionData, PartitionMapData, PartitionMapType,
};
use mkrawimg::filesystem::FilesystemType;
use mkrawimg::identity::{
    generate_fstab, hostname_for, hosts_entries, locale_conf, new_hostname, partition_device,
    root_partition_number, write_spec_script, IdentityError,
};
use mkrawimg::partition::{PartitionSpec, PartitionType, PartitionUsage};
use mkrawimg::pm::Distro;

fn part(num: u32, part_type: PartitionType, usage: PartitionUsage) -> PartitionSpec {
    PartitionSpec {
        num,
        part_type,
        start_sector: None,
        size_in_sectors: 4096,
        label: None,
        mountpoint: None,
        filesystem: FilesystemType::Unformatted,
        mount_opts: None,
        fs_label: None,
        usage,
    }
}

fn device(partitions: Vec<PartitionSpec>) -> DeviceSpec {
    DeviceSpec {
        id: "rpi-9".to_string(),
        aliases: None,
        distro: Distro::AOSC,
        vendor: "raspberrypi".to_string(),
        arch: DeviceArch::Arm64,
        soc_vendor: None,
        name: "Raspberry Pi 9".to_string(),
        model: None,
        of_compatible: Some("raspberrypi,9-model-b".to_string()),
        bsp_packages: Vec::new(),
        initrdless: false,
        oobe_wizard: false,
        devena_firstboot_target: None,
        partition_map: PartitionMapType::GPT,
        num_partitions: partitions.len() as u32,
        size: ImageVariantSizes { base: 5120, desktop: 25600, server: 6144 },
        partitions,
        bootloaders: None,
        file_path: "devices/raspberrypi/rpi-9/device.toml".to_string(),
    }
}

fn esp_and_root() -> DeviceSpec {
    let mut esp = part(1, PartitionType::EFI, PartitionUsage::Boot);
    esp.filesystem = FilesystemType::Fat32;
    esp.mountpoint = Some("/efi".to_string());
    esp.mount_opts = Some(vec!["umask=0077".to_string()]);
    let mut root = part(2, PartitionType::Linux, PartitionUsage::Rootfs);
    root.filesystem = FilesystemType::Ext4;
    root.mountpoint = Some("/".to_string());
    let spare = part(3, PartitionType::Basic, PartitionUsage::Data);
    device(vec![esp, root, spare])
}

fn records(fs: bool) -> PartitionMapData {
    let mut data = HashMap::new();
    for (n, fs_uuid) in [(1u32, "AAAA-BBBB"), (2, "0f0e0d0c-0b0a-0908-0706-050403020100")] {
        data.insert(
            n,
            PartitionData {
                num: n,
                part_uuid: format!("11111111-2222-3333-4444-55555555555{}", n),
                fs_uuid: if fs { Some(fs_uuid.to_string()) } else { None },
            },
        );
    }
    data.insert(
        3,
        PartitionData {
            num: 3,
            part_uuid: "11111111-2222-3333-4444-555555555553".to_string(),
            fs_uuid: None,
        },
    );
    PartitionMapData { uuid: "99999999-8888-7777-6666-555555555555".to_string(), data }
}

#[test]
fn fstab_by_filesystem_uuid() {
    let dev = esp_and_root();
    assert_eq!(
        generate_fstab(&dev, &records(true)).unwrap(),
        "\n# ---- Auto generated by mkrawimg ----\n\
         UUID=\"AAAA-BBBB\"\t/efi\tvfat\tdefaults\t0\t2\n\
         UUID=\"0f0e0d0c-0b0a-0908-0706-050403020100\"\t/\text4\tdefaults\t0\t1\n"
    );
}

#[test]
fn fstab_by_partition_uuid_without_initrd() {
    let mut dev = esp_and_root();
    dev.initrdless = true;
    let expected = "\n# ---- Auto generated by mkrawimg ----\n\
         PARTUUID=\"11111111-2222-3333-4444-555555555551\"\t/efi\tvfat\tdefaults\t0\t2\n\
         PARTUUID=\"11111111-2222-3333-4444-555555555552\"\t/\text4\tdefaults\t0\t1\n";
    assert_eq!(generate_fstab(&dev, &records(true)).unwrap(), expected);
    assert_eq!(generate_fstab(&dev, &records(false)).unwrap(), expected);
}

#[test]
fn fstab_needs_what_it_names() {
    let dev = esp_and_root();
    assert_eq!(
        generate_fstab(&dev, &records(false)),
        Err(IdentityError::MissingFsUuid { num: 1 })
    );
    assert_eq!(
        IdentityError::MissingFsUuid { num: 1 }.message(),
        "Partition with a mountpoint must have a valid filesystem"
    );
    let mut pm = records(true);
    pm.data.remove(&2);
    assert_eq!(
        generate_fstab(&dev, &pm),
        Err(IdentityError::MissingPartitionData { num: 2 })
    );
    assert_eq!(
        IdentityError::MissingPartitionData { num: 2 }.message(),
        "Unable to get partition data for partition 2"
    );
    let mut dev = esp_and_root();
    dev.initrdless = true;
    dev.partitions[2].mountpoint = Some("/data".to_string());
    assert_eq!(
        generate_fstab(&dev, &records(true)),
        Err(IdentityError::NotFormattable { num: 3 })
    );
    assert_eq!(
        IdentityError::NotFormattable { num: 3 }.message(),
        "It is instructed to not being formatted"
    );
    let empty = device(Vec::new());
    assert_eq!(
        generate_fstab(&empty, &records(false)).unwrap(),
        "\n# ---- Auto generated by mkrawimg ----\n"
    );
}

#[test]
fn spec_script_lists_the_identifiers() {
    let dev = esp_and_root();
    let script = write_spec_script(&dev, "/dev/loop3", "/dev/loop3p2", &records(true)).unwrap();
    assert_eq!(
        script,
        "DEVICE_ID='rpi-9'\n\
         DEVICE_COMPATIBLE='raspberrypi,9-model-b'\n\
         LOOPDEV='/dev/loop3'\n\
         NUM_PARTITIONS='3'\n\
         ROOTPART='/dev/loop3p2'\n\
         DISKLABEL='gpt'\n\
         DISKUUID='99999999-8888-7777-6666-555555555555'\n\
         PART1_PARTUUID='11111111-2222-3333-4444-555555555551'\n\
         BOOT_PARTUUID=\"$PART1_PARTUUID\"\n\
         EFI_PARTUUID=\"$PART1_PARTUUID\"\n\
         PART1_FSUUID='AAAA-BBBB'\n\
         BOOT_FSUUID=\"$PART1_FSUUID\"\n\
         EFI_FSUUID=\"$PART1_FSUUID\"\n\
         PART2_PARTUUID='11111111-2222-3333-4444-555555555552'\n\
         ROOT_PARTUUID=\"$PART2_PARTUUID\"\n\
         PART2_FSUUID='0f0e0d0c-0b0a-0908-0706-050403020100'\n\
         ROOT_FSUUID=\"$PART2_FSUUID\"\n\
         PART3_PARTUUID='11111111-2222-3333-4444-555555555553'\n"
    );
}

#[test]
fn spec_script_of_an_mbr_device_without_compatible() {
    let mut dev = esp_and_root();
    dev.partition_map = PartitionMapType::MBR;
    dev.of_compatible = None;
    dev.partitions.truncate(2);
    dev.partitions[0].part_type = PartitionType::Byte { byte: 0x0c };
    dev.num_partitions = 2;
    let mut pm = records(false);
    pm.uuid = "12345678".to_string();
    let script = write_spec_script(&dev, "/dev/loop0", "/dev/loop0p2", &pm).unwrap();
    assert_eq!(
        script,
        "DEVICE_ID='rpi-9'\n\
         DEVICE_COMPATIBLE=''\n\
         LOOPDEV='/dev/loop0'\n\
         NUM_PARTITIONS='2'\n\
         ROOTPART='/dev/loop0p2'\n\
         DISKLABEL='mbr'\n\
         DISKUUID='12345678'\n\
         PART1_PARTUUID='11111111-2222-3333-4444-555555555551'\n\
         BOOT_PARTUUID=\"$PART1_PARTUUID\"\n\
         PART2_PARTUUID='11111111-2222-3333-4444-555555555552'\n\
         ROOT_PARTUUID=\"$PART2_PARTUUID\"\n"
    );
}

#[test]
fn spec_script_needs_the_records() {
    let dev = esp_and_root();
    let mut pm = records(true);
    pm.data.remove(&3);
    assert_eq!(
        write_spec_script(&dev, "/dev/loop3", "/dev/loop3p2", &pm),
        Err(IdentityError::MissingPartitionData { num: 3 })
    );
    let mut pm = records(true);
    pm.data.get_mut(&1).unwrap().num = 7;
    assert_eq!(
        write_spec_script(&dev, "/dev/loop3", "/dev/loop3p2", &pm),
        Err(IdentityError::MismatchedPartitionData { num: 1 })
    );
    assert_eq!(
        IdentityError::MismatchedPartitionData { num: 1 }.message(),
        "The partition data found for partition 1 belongs to another partition"
    );
}

#[test]
fn fs_uuid_is_recorded_after_formatting() {
    let mut pm = records(false);
    assert!(pm.record_fs_uuid(2, "abcd".to_string()));
    assert_eq!(pm.data[&2].fs_uuid, Some("abcd".to_string()));
    assert_eq!(pm.data[&2].part_uuid, "11111111-2222-3333-4444-555555555552");
    assert_eq!(pm.data[&2].num, 2);
    assert_eq!(pm.data[&1].fs_uuid, None);
    assert!(!pm.record_fs_uuid(9, "abcd".to_string()));
    assert_eq!(pm.data.len(), 3);
    assert_eq!(pm.uuid, "99999999-8888-7777-6666-555555555555");
    let mut dev = esp_and_root();
    dev.partitions.truncate(2);
    assert_eq!(
        generate_fstab(&dev, &pm),
        Err(IdentityError::MissingFsUuid { num: 1 })
    );
    assert!(pm.record_fs_uuid(1, "1234-5678".to_string()));
    assert!(generate_fstab(&dev, &pm).unwrap().contains("UUID=\"1234-5678\"\t/efi\tvfat"));
}

#[test]
fn root_partition_and_device_nodes() {
    assert_eq!(root_partition_number(&esp_and_root()), Some(2));
    assert_eq!(root_partition_number(&device(Vec::new())), None);
    let two_roots = device(vec![
        part(1, PartitionType::Linux, PartitionUsage::Rootfs),
        part(2, PartitionType::Linux, PartitionUsage::Data),
        part(3, PartitionType::Linux, PartitionUsage::Rootfs),
    ]);
    assert_eq!(root_partition_number(&two_roots), Some(3));
    assert_eq!(partition_device("/dev/loop0", 1), "/dev/loop0p1");
    assert_eq!(partition_device("/dev/loop12", 128), "/dev/loop12p128");
    assert_eq!(partition_device("/dev/loop0", 0), "/dev/loop0p0");
    assert_eq!(partition_device("x", u32::MAX), "xp4294967295");
}

#[test]
fn hostname_and_hosts() {
    let dev = esp_and_root();
    assert_eq!(hostname_for(&dev, 0xdeadbeef), "AOSC-rpi-9-deadbeef");
    assert_eq!(hostname_for(&dev, 0x1f), "AOSC-rpi-9-0000001f");
    let mut debian = esp_and_root();
    debian.distro = Distro::Debian;
    assert_eq!(hostname_for(&debian, 0), "Debian-rpi-9-00000000");
    let fresh = new_hostname(&dev);
    assert!(fresh.starts_with("AOSC-rpi-9-"));
    assert_eq!(fresh.len(), "AOSC-rpi-9-".len() + 8);
    assert!(fresh["AOSC-rpi-9-".len()..]
        .chars()
        .all(|c| c.is_ascii_digit() || ('a'..='f').contains(&c)));
    assert_eq!(
        hosts_entries("AOSC-rpi-9-deadbeef"),
        "\n127.0.0.1\tAOSC-rpi-9-deadbeef\n::1\tAOSC-rpi-9-deadbeef\n"
    );
    assert_eq!(locale_conf("en_US.UTF-8"), "LANG=\"en_US.UTF-8\"");
}
