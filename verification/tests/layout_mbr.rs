use std::io::{Cursor, Seek, SeekFrom};

use mbrman::MBR;
use mkrawimg::device::{DeviceArch, DeviceSpec, ImageVariantSizes, PartitionMapType};
use mkrawimg::filesystem::FilesystemType;
use mkrawimg::layout::LayoutError;
use mkrawimg::mbr::{partition_mbr, place_mbr_partition};
use mkrawimg::partition::{PartTypeError, PartitionSpec, PartitionType, PartitionUsage};
use mkrawimg::pm::Distro;

/// A disk of a given size of which nothing is read.
struct BlankDisk {
    len: u64,
    pos: u64,
}

impl Seek for BlankDisk {
    fn seek(&mut self, to: SeekFrom) -> std::io::Result<u64> {
        self.pos = match to {
            SeekFrom::Start(p) => p,
            SeekFrom::End(d) => (self.len as i64 + d) as u64,
            SeekFrom::Current(d) => (self.pos as i64 + d) as u64,
        };
        Ok(self.pos)
    }
}

fn part(num: u32, part_type: PartitionType, size: u64, usage: PartitionUsage) -> PartitionSpec {
    PartitionSpec {
        num,
        part_type,
        start_sector: None,
        size_in_sectors: size,
        label: None,
        mountpoint: None,
        filesystem: FilesystemType::Unformatted,
        mount_opts: None,
        fs_label: None,
        usage,
    }
}

fn device(partitions: Vec<PartitionSpec>) -> DeviceSpec {
    DeviceSpec {
        id: "board".to_string(),
        aliases: None,
        distro: Distro::AOSC,
        vendor: "vendor".to_string(),
        arch: DeviceArch::Arm64,
        soc_vendor: None,
        name: "Board".to_string(),
        model: None,
        of_compatible: None,
        bsp_packages: Vec::new(),
        initrdless: false,
        oobe_wizard: false,
        devena_firstboot_target: None,
        partition_map: PartitionMapType::MBR,
        num_partitions: partitions.len() as u32,
        size: ImageVariantSizes { base: 5120, desktop: 25600, server: 6144 },
        partitions,
        bootloaders: None,
        file_path: "devices/vendor/board/device.toml".to_string(),
    }
}

fn blank_table(mib: u64, signature: [u8; 4]) -> MBR {
    let mut disk = BlankDisk { len: mib << 20, pos: 0 };
    MBR::new_from(&mut disk, 512, signature).unwrap()
}

#[test]
fn mbr_boot_and_root_layout() {
    let boot = part(1, PartitionType::EFI, 614400, PartitionUsage::Boot);
    let root = part(2, PartitionType::Linux, 0, PartitionUsage::Rootfs);
    let dev = device(vec![boot, root]);
    let mut table = blank_table(5120, [0x78, 0x56, 0x34, 0x12]);
    let disk_size = table.disk_size;
    assert_eq!(disk_size, 5120 * 2048);
    let pm = partition_mbr(&dev, &mut table, 512).unwrap();
    assert_eq!(table[1].starting_lba, 2048);
    assert_eq!(table[1].sectors, 614400);
    assert_eq!(table[1].sys, 0xef);
    assert_eq!(table[1].boot, mbrman::BOOT_ACTIVE);
    assert!(table[1].is_active());
    assert_eq!(table[2].starting_lba, 616448);
    assert_eq!(table[2].sectors, disk_size - 616448 - 1);
    assert_eq!(table[2].sys, 0x83);
    assert_eq!(table[2].boot, mbrman::BOOT_INACTIVE);
    assert!(table[3].is_unused());
    assert!(table[4].is_unused());
    assert_eq!(pm.uuid, "12345678");
    assert_eq!(pm.data.len(), 2);
    assert_eq!(pm.data[&1].part_uuid, "12345678-01");
    assert_eq!(pm.data[&2].part_uuid, "12345678-02");
    assert_eq!(pm.data[&2].num, 2);
    assert_eq!(pm.data[&2].fs_uuid, None);
}

#[test]
fn mbr_signature_is_padded_with_zeros() {
    let only = part(1, PartitionType::Linux, 4096, PartitionUsage::Rootfs);
    let mut table = blank_table(64, [0x0a, 0x00, 0x00, 0x00]);
    let pm = partition_mbr(&device(vec![only]), &mut table, 512).unwrap();
    assert_eq!(pm.uuid, "0000000a");
    assert_eq!(pm.data[&1].part_uuid, "0000000a-01");
    let only = part(1, PartitionType::Linux, 4096, PartitionUsage::Rootfs);
    let mut table = blank_table(64, [0xef, 0xcd, 0xab, 0xff]);
    let pm = partition_mbr(&device(vec![only]), &mut table, 512).unwrap();
    assert_eq!(pm.uuid, "ffabcdef");
}

#[test]
fn mbr_holds_four_partitions_and_no_fifth() {
    let four: Vec<PartitionSpec> = (1..=4)
        .map(|n| part(n, PartitionType::Linux, 4096, PartitionUsage::Data))
        .collect();
    let mut table = blank_table(64, [1, 2, 3, 4]);
    let pm = partition_mbr(&device(four.clone()), &mut table, 512).unwrap();
    assert_eq!(pm.data.len(), 4);
    assert_eq!(pm.data[&4].part_uuid, "04030201-04");
    let starts: Vec<u32> = (1..=4).map(|n| table[n].starting_lba).collect();
    assert_eq!(starts, vec![2048, 6144, 10240, 14336]);
    let mut five = four;
    five.push(part(5, PartitionType::Linux, 4096, PartitionUsage::Data));
    let mut table = blank_table(64, [1, 2, 3, 4]);
    assert_eq!(
        partition_mbr(&device(five), &mut table, 512).err(),
        Some(LayoutError::ExtendedUnsupported { num: 5 })
    );
    assert_eq!(
        LayoutError::ExtendedUnsupported { num: 5 }.message(),
        "Extended and logical partitions are not supported."
    );
    assert_eq!(mbr_len(&table), 4);
}

fn mbr_len(table: &MBR) -> usize {
    table.iter().filter(|(_, p)| p.is_used()).count()
}

#[test]
fn mbr_refusals() {
    let mut table = blank_table(64, [0; 4]);
    let zero = part(0, PartitionType::Linux, 4096, PartitionUsage::Data);
    assert_eq!(
        partition_mbr(&device(vec![zero]), &mut table, 512).err(),
        Some(LayoutError::NumberZero)
    );
    let small = part(1, PartitionType::Linux, 2047, PartitionUsage::Data);
    assert_eq!(
        partition_mbr(&device(vec![small]), &mut table, 512).err(),
        Some(LayoutError::TooSmall { num: 1 })
    );
    let huge = part(1, PartitionType::Linux, 1 << 32, PartitionUsage::Data);
    assert_eq!(
        partition_mbr(&device(vec![huge]), &mut table, 512).err(),
        Some(LayoutError::ExceedsMbrLimit { num: 1 })
    );
    let mut far = part(1, PartitionType::Linux, 4096, PartitionUsage::Data);
    far.start_sector = Some(1 << 32);
    assert_eq!(
        partition_mbr(&device(vec![far]), &mut table, 512).err(),
        Some(LayoutError::ExceedsMbrLimit { num: 1 })
    );
    let guid = part(1, PartitionType::Uuid { uuid: 9 }, 4096, PartitionUsage::Data);
    assert_eq!(
        partition_mbr(&device(vec![guid]), &mut table, 512).err(),
        Some(LayoutError::Type { num: 1, cause: PartTypeError::UuidInMbr })
    );
    let extended = part(1, PartitionType::Byte { byte: 0x0f }, 4096, PartitionUsage::Data);
    assert_eq!(
        partition_mbr(&device(vec![extended]), &mut table, 512).err(),
        Some(LayoutError::Type { num: 1, cause: PartTypeError::ExtendedNotAllowed })
    );
    let container = part(1, PartitionType::Byte { byte: 0xd5 }, 4096, PartitionUsage::Data);
    assert_eq!(
        partition_mbr(&device(vec![container.clone()]), &mut table, 512).err(),
        Some(LayoutError::ContainerType { num: 1 })
    );
    let fifth = part(5, PartitionType::Linux, 4096, PartitionUsage::Data);
    assert_eq!(
        partition_mbr(&device(vec![container, fifth.clone()]), &mut table, 512).err(),
        Some(LayoutError::ContainerType { num: 1 })
    );
    assert_eq!(
        partition_mbr(&device(vec![fifth]), &mut table, 512).err(),
        Some(LayoutError::ExtendedUnsupported { num: 5 })
    );
    let unused = part(1, PartitionType::Byte { byte: 0 }, 4096, PartitionUsage::Data);
    assert_eq!(
        partition_mbr(&device(vec![unused]), &mut table, 512).err(),
        Some(LayoutError::EmptyType { num: 1 })
    );
    let first = part(1, PartitionType::Linux, 0, PartitionUsage::Rootfs);
    let second = part(2, PartitionType::Linux, 4096, PartitionUsage::Data);
    assert_eq!(
        partition_mbr(&device(vec![first, second]), &mut table, 512).err(),
        Some(LayoutError::MaxSizedNotLast { num: 1 })
    );
    assert_eq!(
        partition_mbr(&device(Vec::new()), &mut table, 0).err(),
        Some(LayoutError::UnsupportedSectorSize)
    );
    assert_eq!(mbr_len(&table), 0);
    let first = part(1, PartitionType::Linux, 8192, PartitionUsage::Rootfs);
    let mut second = part(2, PartitionType::Linux, 4096, PartitionUsage::Data);
    second.start_sector = Some(4096);
    assert_eq!(
        partition_mbr(&device(vec![first, second]), &mut table, 512).err(),
        Some(LayoutError::InvalidBoundaries { num: 2 })
    );
    assert_eq!(mbr_len(&table), 1);
}

#[test]
fn mbr_explicit_starts_and_written_table() {
    let mut first = part(1, PartitionType::Byte { byte: 0x0c }, 4096, PartitionUsage::Boot);
    first.start_sector = Some(64);
    let second = part(2, PartitionType::Linux, 0, PartitionUsage::Rootfs);
    let dev = device(vec![first, second]);
    let mut disk = Cursor::new(vec![0u8; 16 << 20]);
    let mut table = MBR::new_from(&mut disk, 512, [0xdd, 0xcc, 0xbb, 0xaa]).unwrap();
    let pm = partition_mbr(&dev, &mut table, 512).unwrap();
    assert_eq!((table[1].starting_lba, table[1].sectors), (64, 4096));
    assert_eq!(table[1].sys, 0x0c);
    assert_eq!(table[2].starting_lba, 6144);
    assert_eq!(table[2].starting_lba + table[2].sectors - 1, table.disk_size - 2);
    table.write_into(&mut disk).unwrap();
    let read = MBR::read_from(&mut disk, 512).unwrap();
    assert_eq!(read.header.disk_signature, [0xdd, 0xcc, 0xbb, 0xaa]);
    assert_eq!(pm.uuid, "aabbccdd");
    assert_eq!(read[1].starting_lba, 64);
    assert_eq!(read[2].starting_lba, 6144);
    assert!(read[1].is_active());
    assert!(!read[2].is_active());
}

#[test]
fn mbr_table_with_foreign_partitions_is_refused() {
    let dev = device(vec![part(1, PartitionType::Linux, 4096, PartitionUsage::Rootfs)]);
    let mut table = blank_table(64, [0; 4]);
    table[3] = mbrman::MBRPartitionEntry {
        boot: mbrman::BOOT_INACTIVE,
        first_chs: mbrman::CHS::empty(),
        sys: 0x05,
        last_chs: mbrman::CHS::empty(),
        starting_lba: 4096,
        sectors: 4096,
    };
    assert_eq!(
        partition_mbr(&dev, &mut table, 512).err(),
        Some(LayoutError::InconsistentTable)
    );
    let mut table = blank_table(64, [0; 4]);
    table[3] = mbrman::MBRPartitionEntry {
        boot: mbrman::BOOT_INACTIVE,
        first_chs: mbrman::CHS::empty(),
        sys: 0x83,
        last_chs: mbrman::CHS::empty(),
        starting_lba: 0,
        sectors: 0,
    };
    assert_eq!(
        partition_mbr(&dev, &mut table, 512).err(),
        Some(LayoutError::InconsistentTable)
    );
    let mut table = blank_table(64, [0; 4]);
    table[3] = mbrman::MBRPartitionEntry {
        boot: mbrman::BOOT_INACTIVE,
        first_chs: mbrman::CHS::empty(),
        sys: 0x83,
        last_chs: mbrman::CHS::empty(),
        starting_lba: 2048,
        sectors: 2048,
    };
    assert_eq!(
        partition_mbr(&dev, &mut table, 512).err(),
        Some(LayoutError::InvalidBoundaries { num: 1 })
    );
    table[3].starting_lba = 8192;
    partition_mbr(&dev, &mut table, 512).unwrap();
    assert_eq!(table[1].starting_lba, 2048);
    assert_eq!(table[3].starting_lba, 8192);
    assert_eq!(mbr_len(&table), 2);
}

#[test]
fn mbr_refuses_swap_and_starts_inside_the_table() {
    let mut table = blank_table(64, [0; 4]);
    let by_type = part(1, PartitionType::Swap, 4096, PartitionUsage::Data);
    assert_eq!(
        partition_mbr(&device(vec![by_type]), &mut table, 512).err(),
        Some(LayoutError::Swap { num: 1 })
    );
    let by_usage = part(1, PartitionType::Linux, 4096, PartitionUsage::Swap);
    assert_eq!(
        partition_mbr(&device(vec![by_usage]), &mut table, 512).err(),
        Some(LayoutError::Swap { num: 1 })
    );
    let mut low = part(1, PartitionType::Linux, 4096, PartitionUsage::Rootfs);
    low.start_sector = Some(33);
    assert_eq!(
        partition_mbr(&device(vec![low.clone()]), &mut table, 512).err(),
        Some(LayoutError::StartOverlapsTable { num: 1 })
    );
    low.start_sector = Some(34);
    partition_mbr(&device(vec![low]), &mut table, 512).unwrap();
    assert_eq!((table[1].starting_lba, table[1].sectors), (34, 4096));
}

#[test]
fn mbr_size_is_settled_before_swap_is_refused() {
    let mut table = blank_table(64, [0; 4]);
    let rest_first = part(1, PartitionType::Swap, 0, PartitionUsage::Swap);
    let second = part(2, PartitionType::Linux, 4096, PartitionUsage::Rootfs);
    assert_eq!(
        partition_mbr(&device(vec![rest_first, second]), &mut table, 512).err(),
        Some(LayoutError::MaxSizedNotLast { num: 1 })
    );
    let huge = part(1, PartitionType::Swap, 1 << 32, PartitionUsage::Data);
    assert_eq!(
        partition_mbr(&device(vec![huge]), &mut table, 512).err(),
        Some(LayoutError::ExceedsMbrLimit { num: 1 })
    );
    let mut far = part(1, PartitionType::Linux, 4096, PartitionUsage::Swap);
    far.start_sector = Some(1 << 32);
    assert_eq!(
        partition_mbr(&device(vec![far]), &mut table, 512).err(),
        Some(LayoutError::ExceedsMbrLimit { num: 1 })
    );
    let small = part(1, PartitionType::Swap, 100, PartitionUsage::Data);
    assert_eq!(
        partition_mbr(&device(vec![small]), &mut table, 512).err(),
        Some(LayoutError::TooSmall { num: 1 })
    );
    let guid = part(1, PartitionType::Uuid { uuid: 7 }, 4096, PartitionUsage::Swap);
    assert_eq!(
        partition_mbr(&device(vec![guid]), &mut table, 512).err(),
        Some(LayoutError::Type { num: 1, cause: PartTypeError::UuidInMbr })
    );
    assert_eq!(mbr_len(&table), 0);
}

#[test]
fn mbr_partitions_are_placed_one_by_one() {
    let mut table = blank_table(64, [0x78, 0x56, 0x34, 0x12]);
    let mut boot = part(1, PartitionType::Byte { byte: 0x0c }, 4096, PartitionUsage::Boot);
    boot.start_sector = Some(64);
    let record = place_mbr_partition(&mut table, &boot, 2, 512).unwrap();
    assert_eq!(record.num, 1);
    assert_eq!(record.part_uuid, "12345678-01");
    assert_eq!(record.fs_uuid, None);
    assert_eq!((table[1].starting_lba, table[1].sectors), (64, 4096));
    assert_eq!((table[1].sys, table[1].boot), (0x0c, mbrman::BOOT_ACTIVE));
    let rest = part(2, PartitionType::Linux, 0, PartitionUsage::Rootfs);
    let record = place_mbr_partition(&mut table, &rest, 2, 512).unwrap();
    assert_eq!(record.part_uuid, "12345678-02");
    assert_eq!(table[2].starting_lba, 6144);
    assert_eq!(table[2].starting_lba + table[2].sectors - 1, table.disk_size - 2);
    assert_eq!(table[2].boot, mbrman::BOOT_INACTIVE);
    let kept = table.clone();
    let over = part(3, PartitionType::Linux, 4096, PartitionUsage::Data);
    assert_eq!(
        place_mbr_partition(&mut table, &over, 3, 512).err(),
        Some(LayoutError::NoFreeSpace { num: 3 })
    );
    assert_eq!(
        place_mbr_partition(&mut table, &over, 3, 0).err(),
        Some(LayoutError::UnsupportedSectorSize)
    );
    assert_eq!(table, kept);
    let mut table = blank_table(64, [0; 4]);
    let first = part(1, PartitionType::Linux, 8192, PartitionUsage::Rootfs);
    place_mbr_partition(&mut table, &first, 2, 512).unwrap();
    let kept = table.clone();
    let mut clash = part(2, PartitionType::Linux, 4096, PartitionUsage::Data);
    clash.start_sector = Some(4096);
    assert_eq!(
        place_mbr_partition(&mut table, &clash, 2, 512).err(),
        Some(LayoutError::InvalidBoundaries { num: 2 })
    );
    assert_eq!(table, kept);
}
