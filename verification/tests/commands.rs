use mkrawimg::bootloader::{
    apply_bootloaders, bootloader_action, BootloaderAction, BootloaderError, BootloaderSpec,
};
use mkrawimg::cli::Compression;
use mkrawimg::commands::{
    add_user, bootstrap_distribution, command_verdict, refresh_partition_table,
    rsync_sysroot, run_script_with_chroot, run_str_script_with_chroot, sparse_file_tail,
    CommandError, CommandLine,
};
use mkrawimg::context::{
    bootstrap_dir, image_filename, ImageContext, ImageVariant, JobError, JobPlan, PostInstall,
};
use mkrawimg::device::{DeviceArch, DeviceSpec, ImageVariantSizes, PartitionMapType};
use mkrawimg::filesystem::FilesystemType;
use mkrawimg::partition::{PartitionSpec, PartitionType, PartitionUsage};
use mkrawimg::pm::Distro;

fn cmd(program: &str, args: &[&str]) -> CommandLine {
    CommandLine {
        program: program.to_string(),
        args: args.iter().map(|a| a.to_string()).collect(),
    }
}

fn strings(items: &[&str]) -> Vec<String> {
    items.iter().map(|s| s.to_string()).collect()
}

fn device() -> DeviceSpec {
    let root = PartitionSpec {
        num: 2,
        part_type: PartitionType::Linux,
        start_sector: None,
        size_in_sectors: 0,
        label: None,
        mountpoint: Some("/".to_string()),
        filesystem: FilesystemType::Ext4,
        mount_opts: None,
        fs_label: None,
        usage: PartitionUsage::Rootfs,
    };
    let mut boot = root.clone();
    boot.num = 1;
    boot.usage = PartitionUsage::Boot;
    boot.size_in_sectors = 614400;
    boot.mountpoint = Some("/efi".to_string());
    boot.filesystem = FilesystemType::Fat32;
    DeviceSpec {
        id: "rpi-5b".to_string(),
        aliases: None,
        distro: Distro::AOSC,
        vendor: "raspberrypi".to_string(),
        arch: DeviceArch::Arm64,
        soc_vendor: None,
        name: "Raspberry Pi 5 Model B".to_string(),
        model: None,
        of_compatible: None,
        bsp_packages: strings(&["linux+kernel+rpi64", "rpi-firmware-boot"]),
        initrdless: false,
        oobe_wizard: false,
        devena_firstboot_target: None,
        partition_map: PartitionMapType::GPT,
        num_partitions: 2,
        size: ImageVariantSizes { base: 5120, desktop: 25600, server: 6144 },
        partitions: vec![boot, root],
        bootloaders: None,
        file_path: "/reg/raspberrypi/rpi-5b/device.toml".to_string(),
    }
}

#[test]
fn command_lines_of_the_tools() {
    assert_eq!(
        refresh_partition_table("/dev/loop4"),
        cmd("partprobe", &["--summary", "/dev/loop4"])
    );
    assert_eq!(
        rsync_sysroot("/work/bootstrap/base-arm64", "/work/mnt/p2"),
        cmd(
            "rsync",
            &[
                "-axAHXSW",
                "--numeric-ids",
                "--info=progress2",
                "--no-i-r",
                "/work/bootstrap/base-arm64/",
                "/work/mnt/p2/"
            ]
        )
    );
    let common = |recipe: &str, arch: &str| {
        cmd(
            "aoscbootstrap",
            &[
                "stable",
                "/work/bootstrap/x",
                "https://repo.aosc.io/debs",
                "-x",
                "--config",
                "/usr/share/aoscbootstrap/config/aosc-mainline.toml",
                "--arch",
                arch,
                "-s",
                "/usr/share/aoscbootstrap/scripts/reset-repo.sh",
                "-s",
                "/usr/share/aoscbootstrap/scripts/enable-dkms.sh",
                "--include-files",
                recipe,
            ],
        )
    };
    assert_eq!(
        bootstrap_distribution(
            &ImageVariant::Desktop,
            "/work/bootstrap/x",
            DeviceArch::Arm64,
            "https://repo.aosc.io/debs"
        ),
        common("/usr/share/aoscbootstrap/recipes/mainline/kde-common.lst", "arm64")
    );
    assert_eq!(
        bootstrap_distribution(
            &ImageVariant::Base,
            "/work/bootstrap/x",
            DeviceArch::LoongArch64,
            "https://repo.aosc.io/debs"
        ),
        common("/usr/share/aoscbootstrap/recipes/mainline/base-common.lst", "loongarch64")
    );
    assert_eq!(
        bootstrap_distribution(
            &ImageVariant::Server,
            "/work/bootstrap/x",
            DeviceArch::Amd64,
            "https://repo.aosc.io/debs"
        ),
        common("/usr/share/aoscbootstrap/recipes/mainline/server-common.lst", "amd64")
    );
}

#[test]
fn sandbox_command_lines() {
    assert_eq!(
        run_str_script_with_chroot("/mnt/p2", "create-devena-initrd", &Vec::new(), Some("/bin/bash")),
        cmd(
            "systemd-nspawn",
            &[
                "-q",
                "-D",
                "/mnt/p2",
                "--",
                "/bin/bash",
                "-c",
                "--",
                "source /tmp/spec.sh ;create-devena-initrd",
                "<tmp_script>"
            ]
        )
    );
    assert_eq!(
        run_script_with_chroot(
            "/mnt/p2",
            "/tmp/postinst.bash",
            &strings(&["/dev/loop0", "/dev/loop0p1"]),
            None
        ),
        cmd(
            "systemd-nspawn",
            &[
                "-q",
                "-D",
                "/mnt/p2",
                "--bind",
                "/dev/loop0",
                "--bind",
                "/dev/loop0p1",
                "--",
                "/bin/bash",
                "-c",
                "--",
                "source /tmp/spec.sh ; source /tmp/postinst.bash",
                "/tmp/postinst.bash"
            ]
        )
    );
    assert_eq!(
        run_str_script_with_chroot("/r", "true", &strings(&["/dev/loop9"]), Some("/bin/sh")).args,
        strings(&["-q", "-D", "/r", "--bind", "/dev/loop9", "--", "/bin/sh", "-c", "--", "source /tmp/spec.sh ;true", "<tmp_script>"])
    );
}

#[test]
fn user_commands() {
    let plan = add_user("/mnt/p2", "aosc", "anthon", Some("Default User"), None, None);
    assert_eq!(
        plan.useradd,
        cmd(
            "chroot",
            &[
                "/mnt/p2",
                "useradd",
                "-m",
                "-d",
                "/home/aosc",
                "-G",
                "audio,video,cdrom,plugdev,tty,wheel",
                "-c",
                "Default User",
                "aosc"
            ]
        )
    );
    assert_eq!(plan.chpasswd, cmd("chroot", &["/mnt/p2", "chpasswd"]));
    assert_eq!(plan.chpasswd_input, "aosc:anthon");
    let plan = add_user("/r", "me", "pw", None, Some("/srv/me"), Some(&strings(&["wheel"])));
    assert_eq!(
        plan.useradd,
        cmd("chroot", &["/r", "useradd", "-m", "-d", "/srv/me", "-G", "wheel", "me"])
    );
    assert_eq!(plan.chpasswd_input, "me:pw");
}

#[test]
fn verdict_on_a_program() {
    assert_eq!(command_verdict(true, Some(0)), Ok(()));
    assert_eq!(command_verdict(true, None), Ok(()));
    assert_eq!(command_verdict(false, Some(2)), Err(CommandError::ExitCode { code: 2 }));
    assert_eq!(command_verdict(false, Some(-1)), Err(CommandError::ExitCode { code: -1 }));
    assert_eq!(command_verdict(false, None), Err(CommandError::Abnormal));
    let failed = cmd("mkfs.ext4", &["-L", "AOSC OS", "--", "/dev/loop0p2"]);
    assert_eq!(failed.render(), "\"mkfs.ext4\" \"-L\" \"AOSC OS\" \"--\" \"/dev/loop0p2\"");
    assert_eq!(cmd("sync", &[]).render(), "\"sync\"");
    assert_eq!(
        CommandError::ExitCode { code: 1 }.message(&failed),
        "The following command failed with exit code 1:\n\"mkfs.ext4\" \"-L\" \"AOSC OS\" \"--\" \"/dev/loop0p2\""
    );
    assert_eq!(
        CommandError::ExitCode { code: -127 }.message(&cmd("x", &[])),
        "The following command failed with exit code -127:\n\"x\""
    );
    assert_eq!(
        CommandError::ExitCode { code: i32::MIN }.message(&cmd("x", &[])),
        "The following command failed with exit code -2147483648:\n\"x\""
    );
    assert_eq!(
        CommandError::Abnormal.message(&cmd("rsync", &["a/", "b/"])),
        "The following command exited abnormally:\n\"rsync\" \"a/\" \"b/\""
    );
    assert_eq!(sparse_file_tail(0), None);
    assert_eq!(sparse_file_tail(1), Some(0));
    assert_eq!(sparse_file_tail(5120 << 20), Some((5120 << 20) - 1));
}

#[test]
fn bootloader_actions() {
    let mut dev = device();
    assert_eq!(apply_bootloaders(&dev, "/mnt/p2", "/dev/loop1", "/reg/rpi"), Ok(Vec::new()));
    dev.bootloaders = Some(vec![
        BootloaderSpec::FlashPartition {
            path: "/usr/lib/u-boot/idbloader.img".to_string(),
            partition: 1,
        },
        BootloaderSpec::FlashOffset { path: "usr/lib/u-boot/u-boot.itb".to_string(), offset: 8388608 },
        BootloaderSpec::Script { name: "finish-bootloaders.sh".to_string() },
        BootloaderSpec::Script { name: "more/../tools/./late.sh/".to_string() },
    ]);
    assert_eq!(
        apply_bootloaders(&dev, "/mnt/p2", "/dev/loop1", "/reg/rpi"),
        Ok(vec![
            BootloaderAction::WritePartition {
                image: "/mnt/p2/usr/lib/u-boot/idbloader.img".to_string(),
                device: "/dev/loop1p1".to_string(),
            },
            BootloaderAction::WriteAtOffset {
                image: "/mnt/p2/usr/lib/u-boot/u-boot.itb".to_string(),
                device: "/dev/loop1".to_string(),
                offset: 8388608,
            },
            BootloaderAction::RunScript {
                source: "/reg/rpi/finish-bootloaders.sh".to_string(),
                staged: "/mnt/p2/tmp/finish-bootloaders.sh".to_string(),
                inside: "/tmp/finish-bootloaders.sh".to_string(),
            },
            BootloaderAction::RunScript {
                source: "/reg/rpi/more/../tools/./late.sh/".to_string(),
                staged: "/mnt/p2/tmp/late.sh".to_string(),
                inside: "/tmp/late.sh".to_string(),
            },
        ])
    );
    dev.bootloaders = Some(vec![
        BootloaderSpec::Script { name: "ok.sh".to_string() },
        BootloaderSpec::Script { name: "..".to_string() },
    ]);
    assert_eq!(
        apply_bootloaders(&dev, "/mnt/p2", "/dev/loop1", "/reg/rpi"),
        Err(BootloaderError::ScriptWithoutName { index: 1 })
    );
}

#[test]
fn image_file_names() {
    let dev = device();
    assert_eq!(
        image_filename(&ImageVariant::Desktop, &dev, "20241108", None, &Compression::Xz),
        "aosc-os_desktop_rawimg_raspberrypi_rpi-5b_20241108_arm64.img.xz"
    );
    assert_eq!(
        image_filename(&ImageVariant::Base, &dev, "20241108", Some(1), &Compression::Zstd),
        "aosc-os_base_rawimg_raspberrypi_rpi-5b_20241108.1_arm64.img.zst"
    );
    assert_eq!(
        image_filename(&ImageVariant::Server, &dev, "20250101", Some(12), &Compression::Uncompressed),
        "aosc-os_server_rawimg_raspberrypi_rpi-5b_20250101.12_arm64.img"
    );
    assert_eq!(
        image_filename(&ImageVariant::Server, &dev, "20250101", None, &Compression::Gzip),
        "aosc-os_server_rawimg_raspberrypi_rpi-5b_20250101_arm64.img.gz"
    );
    assert_eq!(
        bootstrap_dir("./work", &ImageVariant::Desktop, &DeviceArch::Arm64),
        "./work/bootstrap/desktop-arm64"
    );
}

fn context<'a>(
    dev: &'a DeviceSpec,
    variant: &'a ImageVariant,
    over: &'a Option<FilesystemType>,
    packages: &'a Option<Vec<String>>,
    compress: &'a Compression,
) -> ImageContext<'a> {
    ImageContext {
        device: dev,
        variant,
        workdir: "/work",
        outdir: "/out",
        user: "aosc",
        password: "anthon",
        filename: "image.img.xz".to_string(),
        base_dist: "/work/bootstrap/desktop-arm64".to_string(),
        override_rootfs_fstype: over,
        additional_packages: packages,
        compress,
        topics: None,
    }
}

#[test]
fn job_plan() {
    let dev = device();
    let ctx = context(&dev, &ImageVariant::Desktop, &None, &None, &Compression::Xz);
    assert_eq!(
        ctx.execute(),
        Ok(JobPlan {
            workdir_base: "/work/sketches/rpi-5b-Desktop".to_string(),
            outdir_base: "/out/os-arm64/desktop/rawimg/raspberrypi".to_string(),
            outfile_path: "/out/os-arm64/desktop/rawimg/raspberrypi/image.img.xz".to_string(),
            mountdir_base: "/work/sketches/rpi-5b-Desktop/mnt".to_string(),
            rawimg_path: "/work/sketches/rpi-5b-Desktop/rawmedia.img".to_string(),
            rootfs_mount: "/work/sketches/rpi-5b-Desktop/mnt/p2".to_string(),
            size: 25600 << 20,
            root_dev_num: 2,
        })
    );
    let mut rootless = device();
    rootless.partitions[1].usage = PartitionUsage::Data;
    let ctx = context(&rootless, &ImageVariant::Base, &None, &None, &Compression::Xz);
    assert_eq!(ctx.execute(), Err(JobError::NoRootFilesystem));
    assert_eq!(JobError::NoRootFilesystem.message(), "Unable to find a root filesystem");
    let mut huge = device();
    huge.size.base = u64::MAX;
    huge.partitions.clear();
    let ctx = context(&huge, &ImageVariant::Base, &None, &None, &Compression::Xz);
    assert_eq!(ctx.execute(), Err(JobError::ImageTooLarge));
}

#[test]
fn context_steps() {
    let dev = device();
    let over = Some(FilesystemType::Xfs);
    let ctx = context(&dev, &ImageVariant::Base, &over, &None, &Compression::Xz);
    let steps = ctx.format_partitions("/dev/loop3");
    assert_eq!(steps.len(), 2);
    assert_eq!(steps[0].filesystem, FilesystemType::Fat32);
    assert_eq!(steps[1].filesystem, FilesystemType::Xfs);
    assert_eq!(steps[1].command, Ok(cmd("mkfs.xfs", &["--", "/dev/loop3p2"])));
    assert_eq!(
        ctx.install_packages(&dev.bsp_packages, true),
        Ok(Some(
            "oma --no-check-dbus install --no-progress --no-refresh-topics --force-confnew --yes -- linux+kernel+rpi64 rpi-firmware-boot"
                .to_string()
        ))
    );
    assert_eq!(ctx.install_packages(&Vec::new(), true), Ok(None));
    assert_eq!(ctx.apply_bootloaders("/mnt/p2", "/dev/loop3", "/reg"), Ok(Vec::new()));
    let (hostname, hosts) = ctx.set_hostname();
    assert!(hostname.starts_with("AOSC-rpi-5b-"));
    assert_eq!(hosts, format!("\n127.0.0.1\t{0}\n::1\t{0}\n", hostname));
    assert_eq!(
        ctx.postinst_step(&strings(&["device.toml", "postinst", "postinst.sh"])),
        PostInstall {
            add_user: true,
            locale: "en_US.UTF-8".to_string(),
            script: Some("postinst.sh".to_string()),
        }
    );
    assert_eq!(
        ctx.postinst_step(&strings(&["postinst", "postinst.bash"])).script,
        Some("postinst.bash".to_string())
    );
    assert_eq!(ctx.postinst_step(&strings(&["postinst"])).script, Some("postinst".to_string()));
    let mut wizard = device();
    wizard.oobe_wizard = true;
    let ctx = context(&wizard, &ImageVariant::Base, &None, &None, &Compression::Xz);
    assert_eq!(
        ctx.postinst_step(&strings(&["device.toml"])),
        PostInstall { add_user: false, locale: "C.UTF-8".to_string(), script: None }
    );
}

#[test]
fn bootloader_action_from_a_file_name() {
    let script = BootloaderSpec::Script { name: "sub/finish.sh".to_string() };
    assert_eq!(
        bootloader_action(&script, "/mnt/p2", "/dev/loop1", "/reg/rpi", Some("finish.sh")),
        Some(BootloaderAction::RunScript {
            source: "/reg/rpi/sub/finish.sh".to_string(),
            staged: "/mnt/p2/tmp/finish.sh".to_string(),
            inside: "/tmp/finish.sh".to_string(),
        })
    );
    assert_eq!(bootloader_action(&script, "/mnt/p2", "/dev/loop1", "/reg/rpi", None), None);
    let flash = BootloaderSpec::FlashPartition { path: "//boot/u-boot.img".to_string(), partition: 12 };
    assert_eq!(
        bootloader_action(&flash, "/mnt/p2", "/dev/loop1", "/reg/rpi", None),
        Some(BootloaderAction::WritePartition {
            image: "/mnt/p2/boot/u-boot.img".to_string(),
            device: "/dev/loop1p12".to_string(),
        })
    );
    let at = BootloaderSpec::FlashOffset { path: "boot.img".to_string(), offset: 32768 };
    assert_eq!(
        bootloader_action(&at, "/mnt/p2", "/dev/loop1", "/reg/rpi", Some("ignored")),
        Some(BootloaderAction::WriteAtOffset {
            image: "/mnt/p2/boot.img".to_string(),
            device: "/dev/loop1".to_string(),
            offset: 32768,
        })
    );
}
