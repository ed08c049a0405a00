use std::io::{Cursor, Read, Seek, SeekFrom};

use gptman::GPT;
use mkrawimg::bootloader::BootloaderSpec;
use mkrawimg::device::{DeviceArch, DeviceSpec, ImageVariantSizes, PartitionMapType};
use mkrawimg::filesystem::FilesystemType;
use mkrawimg::gpt::{partition_gpt, place_gpt_partition};
use mkrawimg::layout::LayoutError;
use mkrawimg::partition::{PartTypeError, PartitionSpec, PartitionType, PartitionUsage};
use mkrawimg::pm::Distro;
use uuid::Uuid;

/// A disk of a given size that holds nothing but zeros.
struct BlankDisk {
    len: u64,
    pos: u64,
}

impl Read for BlankDisk {
    fn read(&mut self, buf: &mut [u8]) -> std::io::Result<usize> {
        let left = self.len.saturating_sub(self.pos);
        let n = (buf.len() as u64).min(left) as usize;
        for b in buf[..n].iter_mut() {
            *b = 0;
        }
        self.pos += n as u64;
        Ok(n)
    }
}

impl Seek for BlankDisk {
    fn seek(&mut self, to: SeekFrom) -> std::io::Result<u64> {
        self.pos = match to {
            SeekFrom::Start(p) => p,
            SeekFrom::End(d) => (self.len as i64 + d) as u64,
            SeekFrom::Current(d) => (self.pos as i64 + d) as u64,
        };
        Ok(self.pos)
    }
}

fn part(num: u32, part_type: PartitionType, size: u64, usage: PartitionUsage) -> PartitionSpec {
    PartitionSpec {
        num,
        part_type,
        start_sector: None,
        size_in_sectors: size,
        label: None,
        mountpoint: None,
        filesystem: FilesystemType::Unformatted,
        mount_opts: None,
        fs_label: None,
        usage,
    }
}

fn device(partitions: Vec<PartitionSpec>) -> DeviceSpec {
    DeviceSpec {
        id: "board".to_string(),
        aliases: None,
        distro: Distro::AOSC,
        vendor: "vendor".to_string(),
        arch: DeviceArch::Arm64,
        soc_vendor: None,
        name: "Board".to_string(),
        model: None,
        of_compatible: None,
        bsp_packages: Vec::new(),
        initrdless: false,
        oobe_wizard: false,
        devena_firstboot_target: None,
        partition_map: PartitionMapType::GPT,
        num_partitions: partitions.len() as u32,
        size: ImageVariantSizes { base: 5120, desktop: 25600, server: 6144 },
        partitions,
        bootloaders: None::<Vec<BootloaderSpec>>,
        file_path: "devices/vendor/board/device.toml".to_string(),
    }
}

fn blank_table(mib: u64) -> GPT {
    let mut disk = BlankDisk { len: mib << 20, pos: 0 };
    GPT::new_from(&mut disk, 512, Uuid::new_v4().to_bytes_le()).unwrap()
}

fn esp_and_root() -> DeviceSpec {
    let mut esp = part(1, PartitionType::EFI, 614400, PartitionUsage::Boot);
    esp.filesystem = FilesystemType::Fat32;
    esp.mountpoint = Some("/efi".to_string());
    let mut root = part(2, PartitionType::Linux, 0, PartitionUsage::Rootfs);
    root.filesystem = FilesystemType::Ext4;
    root.mountpoint = Some("/".to_string());
    device(vec![esp, root])
}

#[test]
fn gpt_esp_and_root_layout() {
    let dev = esp_and_root();
    let mut table = blank_table(5120);
    let last_usable = table.header.last_usable_lba;
    let pm = partition_gpt(&dev, &mut table, 512).unwrap();
    assert_eq!(table[1].starting_lba, 2048);
    assert_eq!(table[1].ending_lba, 616447);
    assert_eq!(table[2].starting_lba, 616448);
    assert_eq!(table[2].starting_lba % 2048, 0);
    assert_eq!(table[2].ending_lba, last_usable - 1);
    assert_eq!(table.align, 2048);
    assert_eq!(pm.data.len(), 2);
    assert_eq!(pm.data[&1].num, 1);
    assert_eq!(pm.data[&2].num, 2);
    assert_eq!(pm.data[&1].fs_uuid, None);
}

#[test]
fn gpt_types_and_guids_are_stored_mixed_endian() {
    let dev = esp_and_root();
    let mut table = blank_table(5120);
    let disk_guid = Uuid::from_bytes_le(table.header.disk_guid);
    let pm = partition_gpt(&dev, &mut table, 512).unwrap();
    assert_eq!(pm.uuid, disk_guid.to_string());
    let efi = Uuid::parse_str("C12A7328-F81F-11D2-BA4B-00A0C93EC93B").unwrap();
    let linux = Uuid::parse_str("0FC63DAF-8483-4772-8E79-3D69D8477DE4").unwrap();
    assert_eq!(table[1].partition_type_guid, efi.to_bytes_le());
    assert_eq!(table[2].partition_type_guid, linux.to_bytes_le());
    assert_eq!(
        table[1].partition_type_guid,
        [0x28, 0x73, 0x2a, 0xc1, 0x1f, 0xf8, 0xd2, 0x11, 0xba, 0x4b, 0x00, 0xa0, 0xc9, 0x3e, 0xc9, 0x3b]
    );
    for n in 1..=2u32 {
        let stored = Uuid::from_bytes_le(table[n].unique_partition_guid);
        assert_eq!(pm.data[&n].part_uuid, stored.to_string());
        assert_eq!(pm.data[&n].part_uuid.len(), 36);
    }
    assert_ne!(pm.data[&1].part_uuid, pm.data[&2].part_uuid);
}

#[test]
fn gpt_round_trip_through_a_written_table() {
    let mut first = part(1, PartitionType::EFI, 4096, PartitionUsage::Boot);
    first.label = Some("Boot".to_string());
    let mut second = part(2, PartitionType::Basic, 2048, PartitionUsage::Data);
    second.label = Some("Data".to_string());
    let third = part(3, PartitionType::Linux, 0, PartitionUsage::Rootfs);
    let dev = device(vec![first, second, third]);
    let mut disk = Cursor::new(vec![0u8; 16 << 20]);
    let disk_guid = Uuid::new_v4();
    let mut table = GPT::new_from(&mut disk, 512, disk_guid.to_bytes_le()).unwrap();
    let pm = partition_gpt(&dev, &mut table, 512).unwrap();
    GPT::write_protective_mbr_into(&mut disk, 512).unwrap();
    table.write_into(&mut disk).unwrap();
    let read = GPT::read_from(&mut disk, 512).unwrap();
    assert_eq!(Uuid::from_bytes_le(read.header.disk_guid).to_string(), pm.uuid);
    assert_eq!(pm.uuid, disk_guid.to_string());
    for n in 1..=3u32 {
        assert!(read[n].is_used());
        assert_eq!(
            Uuid::from_bytes_le(read[n].unique_partition_guid).to_string(),
            pm.data[&n].part_uuid
        );
        assert_eq!(read[n].starting_lba, table[n].starting_lba);
        assert_eq!(read[n].ending_lba, table[n].ending_lba);
    }
    assert_eq!(read[1].partition_name.as_str(), "Boot");
    assert_eq!(read[2].partition_name.as_str(), "Data");
    assert_eq!(read[3].partition_name.as_str(), "");
    assert!(read[4].is_unused());
}

#[test]
fn gpt_explicit_starts_are_honored() {
    let mut tpl = part(1, PartitionType::Basic, 16320, PartitionUsage::Other);
    tpl.start_sector = Some(64);
    let mut uboot = part(2, PartitionType::Basic, 16384, PartitionUsage::Other);
    uboot.start_sector = Some(16384);
    let esp = part(3, PartitionType::EFI, 614400, PartitionUsage::Boot);
    let root = part(4, PartitionType::Linux, 0, PartitionUsage::Rootfs);
    let dev = device(vec![tpl, uboot, esp, root]);
    let mut table = blank_table(6144);
    let last_usable = table.header.last_usable_lba;
    partition_gpt(&dev, &mut table, 512).unwrap();
    assert_eq!((table[1].starting_lba, table[1].ending_lba), (64, 16383));
    assert_eq!((table[2].starting_lba, table[2].ending_lba), (16384, 32767));
    assert_eq!((table[3].starting_lba, table[3].ending_lba), (32768, 647167));
    assert_eq!((table[4].starting_lba, table[4].ending_lba), (647168, last_usable - 1));
    let mut spans: Vec<(u64, u64)> =
        (1..=4u32).map(|n| (table[n].starting_lba, table[n].ending_lba)).collect();
    spans.sort();
    for w in spans.windows(2) {
        assert!(w[0].1 < w[1].0);
    }
}

#[test]
fn gpt_overlapping_explicit_start_is_refused() {
    let first = part(1, PartitionType::Linux, 8192, PartitionUsage::Rootfs);
    let mut second = part(2, PartitionType::Basic, 4096, PartitionUsage::Data);
    second.start_sector = Some(4096);
    let dev = device(vec![first, second]);
    let mut table = blank_table(64);
    assert_eq!(
        partition_gpt(&dev, &mut table, 512).err(),
        Some(LayoutError::InvalidBoundaries { num: 2 })
    );
    assert!(table[1].is_used());
    assert!(table[2].is_unused());
}

#[test]
fn gpt_max_sized_partition_must_be_last() {
    let first = part(1, PartitionType::Linux, 0, PartitionUsage::Rootfs);
    let second = part(2, PartitionType::Basic, 4096, PartitionUsage::Data);
    let dev = device(vec![first, second]);
    let mut table = blank_table(64);
    assert_eq!(
        partition_gpt(&dev, &mut table, 512).err(),
        Some(LayoutError::MaxSizedNotLast { num: 1 })
    );
    let only = part(1, PartitionType::Linux, 0, PartitionUsage::Rootfs);
    let mut table = blank_table(64);
    assert!(partition_gpt(&device(vec![only]), &mut table, 512).is_ok());
}

#[test]
fn gpt_partition_number_bounds() {
    let mut table = blank_table(64);
    let zero = part(0, PartitionType::Linux, 4096, PartitionUsage::Rootfs);
    assert_eq!(
        partition_gpt(&device(vec![zero]), &mut table, 512).err(),
        Some(LayoutError::NumberZero)
    );
    let mut table = blank_table(64);
    let last = part(128, PartitionType::Linux, 4096, PartitionUsage::Rootfs);
    let mut dev = device(vec![last]);
    dev.num_partitions = 128;
    let pm = partition_gpt(&dev, &mut table, 512).unwrap();
    assert!(table[128].is_used());
    assert!(pm.data.contains_key(&128));
    let mut table = blank_table(64);
    let beyond = part(129, PartitionType::Linux, 4096, PartitionUsage::Rootfs);
    assert_eq!(
        partition_gpt(&device(vec![beyond]), &mut table, 512).err(),
        Some(LayoutError::NumberOutOfRange { num: 129 })
    );
}

#[test]
fn gpt_refuses_types_without_a_guid() {
    let mut table = blank_table(64);
    let byte = part(1, PartitionType::Byte { byte: 0x0c }, 4096, PartitionUsage::Data);
    assert_eq!(
        partition_gpt(&device(vec![byte]), &mut table, 512).err(),
        Some(LayoutError::Type { num: 1, cause: PartTypeError::ByteInGpt })
    );
    let nested = part(
        1,
        PartitionType::Nested { table_type: PartitionMapType::MBR },
        4096,
        PartitionUsage::Data,
    );
    assert_eq!(
        partition_gpt(&device(vec![nested]), &mut table, 512).err(),
        Some(LayoutError::Type { num: 1, cause: PartTypeError::NestedUnsupported })
    );
    let nil = part(1, PartitionType::Uuid { uuid: 0 }, 4096, PartitionUsage::Data);
    assert_eq!(
        partition_gpt(&device(vec![nil]), &mut table, 512).err(),
        Some(LayoutError::EmptyType { num: 1 })
    );
    let custom = Uuid::parse_str("933AC7E1-2EB4-4F13-B844-0E14E2AEF915").unwrap();
    let any = part(1, PartitionType::Uuid { uuid: custom.as_u128() }, 4096, PartitionUsage::Data);
    partition_gpt(&device(vec![any]), &mut table, 512).unwrap();
    assert_eq!(table[1].partition_type_guid, custom.to_bytes_le());
}

#[test]
fn gpt_sizes_and_space() {
    let mut table = blank_table(64);
    let small = part(1, PartitionType::Linux, 2047, PartitionUsage::Rootfs);
    assert_eq!(
        partition_gpt(&device(vec![small]), &mut table, 512).err(),
        Some(LayoutError::TooSmall { num: 1 })
    );
    let mut table = blank_table(64);
    let first = part(1, PartitionType::Linux, 4096, PartitionUsage::Rootfs);
    let huge = part(2, PartitionType::Basic, 1 << 30, PartitionUsage::Data);
    assert_eq!(
        partition_gpt(&device(vec![first, huge]), &mut table, 512).err(),
        Some(LayoutError::NoSuitableSpace { num: 2 })
    );
    let mut table = blank_table(64);
    let mut all = part(1, PartitionType::Linux, 0, PartitionUsage::Rootfs);
    all.start_sector = Some(34);
    let dev = device(vec![all.clone(), part(2, PartitionType::Basic, 2048, PartitionUsage::Data)]);
    let mut dev_one = device(vec![all]);
    dev_one.num_partitions = 1;
    partition_gpt(&dev_one, &mut table, 512).unwrap();
    assert_eq!(table[1].starting_lba, 34);
    let mut table = blank_table(64);
    let mut only = dev.clone();
    only.partitions[0].size_in_sectors = table.header.last_usable_lba - 33;
    assert_eq!(
        partition_gpt(&only, &mut table, 512).err(),
        Some(LayoutError::NoFreeSpace { num: 2 })
    );
}

#[test]
fn gpt_sector_size_and_table_state() {
    let dev = esp_and_root();
    let mut table = blank_table(5120);
    assert_eq!(
        partition_gpt(&dev, &mut table, 0).err(),
        Some(LayoutError::UnsupportedSectorSize)
    );
    assert_eq!(
        partition_gpt(&dev, &mut table, (1 << 20) + 1).err(),
        Some(LayoutError::UnsupportedSectorSize)
    );
    let mut table = blank_table(5120);
    table[1] = gptman::GPTPartitionEntry {
        partition_type_guid: [1; 16],
        unique_partition_guid: [2; 16],
        starting_lba: 10,
        ending_lba: 5000,
        attribute_bits: 0,
        partition_name: "".into(),
    };
    assert_eq!(
        partition_gpt(&dev, &mut table, 512).err(),
        Some(LayoutError::InconsistentTable)
    );
    let mut disk = BlankDisk { len: 5120 << 20, pos: 0 };
    let mut table = GPT::new_from(&mut disk, 4096, [7; 16]).unwrap();
    let last_usable = table.header.last_usable_lba;
    partition_gpt(&dev, &mut table, 4096).unwrap();
    assert_eq!(table.align, 256);
    assert_eq!(table[1].starting_lba, 256);
    assert_eq!(table[1].ending_lba, 256 + 614400 - 1);
    assert_eq!(table[2].starting_lba % 256, 0);
    assert_eq!(table[2].ending_lba, last_usable - 1);
}

#[test]
fn gpt_refuses_swap_and_starts_inside_the_table() {
    let mut table = blank_table(64);
    let by_type = part(1, PartitionType::Swap, 4096, PartitionUsage::Data);
    assert_eq!(
        partition_gpt(&device(vec![by_type]), &mut table, 512).err(),
        Some(LayoutError::Swap { num: 1 })
    );
    let by_usage = part(1, PartitionType::Linux, 4096, PartitionUsage::Swap);
    assert_eq!(
        partition_gpt(&device(vec![by_usage]), &mut table, 512).err(),
        Some(LayoutError::Swap { num: 1 })
    );
    let mut low = part(1, PartitionType::Linux, 4096, PartitionUsage::Rootfs);
    low.start_sector = Some(33);
    assert_eq!(
        partition_gpt(&device(vec![low.clone()]), &mut table, 512).err(),
        Some(LayoutError::StartOverlapsTable { num: 1 })
    );
    low.start_sector = Some(34);
    partition_gpt(&device(vec![low]), &mut table, 512).unwrap();
    assert_eq!((table[1].starting_lba, table[1].ending_lba), (34, 4129));
}

#[test]
fn gpt_size_is_settled_before_swap_and_number_are_refused() {
    let mut table = blank_table(64);
    let rest_first = part(1, PartitionType::Swap, 0, PartitionUsage::Swap);
    let second = part(2, PartitionType::Linux, 4096, PartitionUsage::Rootfs);
    assert_eq!(
        partition_gpt(&device(vec![rest_first, second]), &mut table, 512).err(),
        Some(LayoutError::MaxSizedNotLast { num: 1 })
    );
    let beyond = part(129, PartitionType::Linux, 0, PartitionUsage::Rootfs);
    let mut dev = device(vec![beyond]);
    dev.num_partitions = 130;
    assert_eq!(
        partition_gpt(&dev, &mut table, 512).err(),
        Some(LayoutError::MaxSizedNotLast { num: 129 })
    );
    let small = part(200, PartitionType::Swap, 100, PartitionUsage::Swap);
    assert_eq!(
        partition_gpt(&device(vec![small]), &mut table, 512).err(),
        Some(LayoutError::TooSmall { num: 200 })
    );
    let byte = part(1, PartitionType::Byte { byte: 0x82 }, 4096, PartitionUsage::Swap);
    assert_eq!(
        partition_gpt(&device(vec![byte]), &mut table, 512).err(),
        Some(LayoutError::Type { num: 1, cause: PartTypeError::ByteInGpt })
    );
    let swap_beyond = part(129, PartitionType::Swap, 4096, PartitionUsage::Data);
    assert_eq!(
        partition_gpt(&device(vec![swap_beyond]), &mut table, 512).err(),
        Some(LayoutError::Swap { num: 129 })
    );
    for n in 1..=128u32 {
        assert!(table[n].is_unused());
    }
}

#[test]
fn gpt_partitions_are_placed_one_by_one_with_given_guids() {
    let mut table = blank_table(5120);
    let last_usable = table.header.last_usable_lba;
    let first = Uuid::parse_str("a1a2a3a4-b1b2-c1c2-d1d2-d3d4d5d6d7d8").unwrap();
    let second = Uuid::parse_str("00112233-4455-6677-8899-aabbccddeeff").unwrap();
    let mut esp = part(1, PartitionType::EFI, 614400, PartitionUsage::Boot);
    esp.label = Some("EFI".to_string());
    let record = place_gpt_partition(&mut table, &esp, 2, 512, first.as_u128()).unwrap();
    assert_eq!(record.num, 1);
    assert_eq!(record.part_uuid, "a1a2a3a4-b1b2-c1c2-d1d2-d3d4d5d6d7d8");
    assert_eq!(record.fs_uuid, None);
    assert_eq!(
        table[1].unique_partition_guid,
        [0xa4, 0xa3, 0xa2, 0xa1, 0xb2, 0xb1, 0xc2, 0xc1, 0xd1, 0xd2, 0xd3, 0xd4, 0xd5, 0xd6, 0xd7, 0xd8]
    );
    assert_eq!((table[1].starting_lba, table[1].ending_lba), (2048, 616447));
    assert_eq!(table[1].partition_name.as_str(), "EFI");
    assert_eq!(table[1].attribute_bits, 0);
    assert_eq!(table.find_free_sectors(), vec![(616448, last_usable - 616447)]);
    let root = part(2, PartitionType::Linux, 0, PartitionUsage::Rootfs);
    let record = place_gpt_partition(&mut table, &root, 2, 512, second.as_u128()).unwrap();
    assert_eq!(record.part_uuid, second.to_string());
    assert_eq!(table[2].unique_partition_guid, second.to_bytes_le());
    assert_eq!((table[2].starting_lba, table[2].ending_lba), (616448, last_usable - 1));
    assert_eq!(table[2].partition_name.as_str(), "");
    let kept = table.clone();
    let third = part(3, PartitionType::Linux, 4096, PartitionUsage::Data);
    assert_eq!(
        place_gpt_partition(&mut table, &third, 3, 512, 1).err(),
        Some(LayoutError::NoFreeSpace { num: 3 })
    );
    assert_eq!(
        place_gpt_partition(&mut table, &third, 3, 0, 1).err(),
        Some(LayoutError::UnsupportedSectorSize)
    );
    assert_eq!(table, kept);
    let mut table = blank_table(64);
    let first = part(1, PartitionType::Linux, 8192, PartitionUsage::Rootfs);
    place_gpt_partition(&mut table, &first, 2, 512, 5).unwrap();
    let kept = table.clone();
    let mut clash = part(2, PartitionType::Linux, 4096, PartitionUsage::Data);
    clash.start_sector = Some(4096);
    assert_eq!(
        place_gpt_partition(&mut table, &clash, 2, 512, 6).err(),
        Some(LayoutError::InvalidBoundaries { num: 2 })
    );
    assert_eq!(table, kept);
}
