use mkrawimg::device::{DeviceArch, DeviceSpec, ImageVariantSizes, PartitionMapType};
use mkrawimg::filesystem::FilesystemType;
use mkrawimg::mounts::{
    binds, mount_partitions, mount_partitions_in_root, setup_chroot_mounts, MountRequest,
    MountStack, TeardownStep, SETTLE_MILLIS,
};
use mkrawimg::partition::{PartitionSpec, PartitionType, PartitionUsage};
use mkrawimg::paths::{join, without_leading_slashes};
use mkrawimg::pm::Distro;

fn part(num: u32, fs: FilesystemType, usage: PartitionUsage, mountpoint: Option<&str>) -> PartitionSpec {
    PartitionSpec {
        num,
        part_type: PartitionType::Linux,
        start_sector: None,
        size_in_sectors: 4096,
        label: None,
        mountpoint: mountpoint.map(|m| m.to_string()),
        filesystem: fs,
        mount_opts: None,
        fs_label: None,
        usage,
    }
}

fn device(partitions: Vec<PartitionSpec>) -> DeviceSpec {
    DeviceSpec {
        id: "board".to_string(),
        aliases: None,
        distro: Distro::AOSC,
        vendor: "vendor".to_string(),
        arch: DeviceArch::Arm64,
        soc_vendor: None,
        name: "Board".to_string(),
        model: None,
        of_compatible: None,
        bsp_packages: Vec::new(),
        initrdless: false,
        oobe_wizard: false,
        devena_firstboot_target: None,
        partition_map: PartitionMapType::GPT,
        num_partitions: partitions.len() as u32,
        size: ImageVariantSizes { base: 5120, desktop: 25600, server: 6144 },
        partitions,
        bootloaders: None,
        file_path: "devices/vendor/board/device.toml".to_string(),
    }
}

fn four() -> DeviceSpec {
    let mut efi = part(2, FilesystemType::Fat32, PartitionUsage::Boot, Some("/efi"));
    efi.mount_opts = Some(vec![
        "defaults".to_string(),
        "umask=0077".to_string(),
        "shortname=winnt".to_string(),
    ]);
    let mut root = part(3, FilesystemType::Btrfs, PartitionUsage::Rootfs, Some("/"));
    root.mount_opts = Some(vec!["defaults".to_string()]);
    device(vec![
        part(1, FilesystemType::Unformatted, PartitionUsage::Other, None),
        efi,
        root,
        part(4, FilesystemType::Ext4, PartitionUsage::Data, Some("///srv/data")),
        part(5, FilesystemType::Xfs, PartitionUsage::Data, None),
    ])
}

/// Stands for the kernel: it remembers what was unmounted, in order.
struct Kernel {
    unmounted: Vec<String>,
}

impl Kernel {
    fn unmount(&mut self, path: &str) {
        self.unmounted.push(path.to_string());
    }
}

#[test]
fn mount_stack_unwinds_in_reverse() {
    let mut stack = MountStack::new();
    assert!(stack.is_empty());
    for path in ["/work/mnt/p1", "/work/mnt/p2", "/work/mnt/p2/tmp"] {
        stack.push(path.to_string());
    }
    assert_eq!(stack.len(), 3);
    let mut kernel = Kernel { unmounted: Vec::new() };
    while let Some(path) = stack.pop() {
        kernel.unmount(&path);
    }
    assert_eq!(kernel.unmounted, vec!["/work/mnt/p2/tmp", "/work/mnt/p2", "/work/mnt/p1"]);
    assert!(stack.is_empty());
    assert_eq!(stack.pop(), None);
    assert_eq!(stack.len(), 0);
}

#[test]
fn mount_stack_unwind_gives_the_whole_order() {
    let mut stack = MountStack::new();
    assert_eq!(stack.unwind(), Vec::<String>::new());
    stack.push("a".to_string());
    stack.push("b".to_string());
    assert_eq!(stack.pop(), Some("b".to_string()));
    stack.push("c".to_string());
    stack.push("d".to_string());
    assert_eq!(stack.unwind(), vec!["d", "c", "a"]);
    assert!(stack.is_empty());
    stack.push("e".to_string());
    assert_eq!(stack.unwind(), vec!["e"]);
}

fn request(source: &str, target: &str, fstype: &str, options: Option<&str>) -> MountRequest {
    MountRequest {
        source: source.to_string(),
        target: target.to_string(),
        fstype: fstype.to_string(),
        options: options.map(|o| o.to_string()),
    }
}

#[test]
fn scratch_mounts_of_the_formatted_partitions() {
    assert_eq!(
        mount_partitions(&four(), "/dev/loop7", "/work/sketches/board-Base/mnt"),
        vec![
            request(
                "/dev/loop7p2",
                "/work/sketches/board-Base/mnt/p2",
                "vfat",
                Some("umask=0077,shortname=winnt")
            ),
            request("/dev/loop7p3", "/work/sketches/board-Base/mnt/p3", "btrfs", Some("")),
            request("/dev/loop7p4", "/work/sketches/board-Base/mnt/p4", "ext4", None),
            request("/dev/loop7p5", "/work/sketches/board-Base/mnt/p5", "xfs", None),
        ]
    );
    assert_eq!(mount_partitions(&device(Vec::new()), "/dev/loop7", "/mnt"), Vec::new());
}

#[test]
fn inner_mounts_leave_out_the_root_partition() {
    assert_eq!(
        mount_partitions_in_root(&four(), "/dev/loop7", "/work/mnt/p3"),
        vec![
            request("/dev/loop7p2", "/work/mnt/p3/efi", "vfat", None),
            request("/dev/loop7p4", "/work/mnt/p3/srv/data", "ext4", None),
        ]
    );
    assert_eq!(
        setup_chroot_mounts("/work/mnt/p3"),
        request("tmpfs", "/work/mnt/p3/tmp", "tmpfs", None)
    );
}

#[test]
fn binds_show_the_disk_and_its_partitions() {
    assert_eq!(
        binds(&four(), "/dev/loop7"),
        vec!["/dev/loop7", "/dev/loop7p1", "/dev/loop7p2", "/dev/loop7p3", "/dev/loop7p4", "/dev/loop7p5"]
    );
    assert_eq!(binds(&device(Vec::new()), "/dev/loop0"), vec!["/dev/loop0"]);
}

#[test]
fn paths_are_joined_as_the_standard_library_joins_them() {
    for (base, rel) in [
        ("/work", "mnt"),
        ("/work/", "mnt"),
        ("", "mnt"),
        ("/", "tmp"),
        ("/work", "/abs"),
        ("/work", ""),
        ("work", "a/b"),
        ("/wörk", "ü"),
    ] {
        assert_eq!(
            join(base, rel),
            std::path::Path::new(base).join(rel).to_string_lossy(),
            "{:?} {:?}",
            base,
            rel
        );
    }
    assert_eq!(join("/work", "mnt"), "/work/mnt");
    assert_eq!(join("/work/", "mnt"), "/work/mnt");
    assert_eq!(join("/work", "/abs"), "/abs");
}

#[test]
fn leading_slashes_come_off() {
    for s in ["/efi", "///srv/data", "boot/", "", "/", "//", "é/ü", "/é"] {
        assert_eq!(without_leading_slashes(s), s.trim_start_matches('/'), "{:?}", s);
    }
    assert_eq!(without_leading_slashes("//usr/lib/"), "usr/lib/");
}

#[test]
fn teardown_syncs_unmounts_and_waits_for_each_mount() {
    let mut stack = MountStack::new();
    assert_eq!(stack.teardown(SETTLE_MILLIS), Vec::new());
    stack.push("/mnt/p1".to_string());
    stack.push("/mnt/p2".to_string());
    stack.push("/mnt/p2/efi".to_string());
    let path = |p: &str| p.to_string();
    assert_eq!(
        stack.teardown(SETTLE_MILLIS),
        vec![
            TeardownStep::Sync { path: path("/mnt/p2/efi") },
            TeardownStep::Unmount { path: path("/mnt/p2/efi") },
            TeardownStep::Settle { millis: 100 },
            TeardownStep::Sync { path: path("/mnt/p2") },
            TeardownStep::Unmount { path: path("/mnt/p2") },
            TeardownStep::Settle { millis: 100 },
            TeardownStep::Sync { path: path("/mnt/p1") },
            TeardownStep::Unmount { path: path("/mnt/p1") },
            TeardownStep::Settle { millis: 100 },
        ]
    );
    assert!(stack.is_empty());
    assert_eq!(stack.teardown(5), Vec::new());
    stack.push("/mnt/p1".to_string());
    assert_eq!(
        stack.teardown(250),
        vec![
            TeardownStep::Sync { path: path("/mnt/p1") },
            TeardownStep::Unmount { path: path("/mnt/p1") },
            TeardownStep::Settle { millis: 250 },
        ]
    );
    assert_eq!(SETTLE_MILLIS, 100);
}
