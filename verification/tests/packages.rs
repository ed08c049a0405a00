use mkrawimg::context::ImageVariant;
use mkrawimg::device::DeviceArch;
use mkrawimg::pm::{
    firstboot_package, firstboot_removal, install_packages, install_packages_aosc, oobe_package,
    Distro, Oma, PackageManager, PmError, APT,
};
use mkrawimg::topics::{
    filter_topics, topic_sources, Topic, TopicError, ATM_LIST, ATM_STATE, DEFAULT_MIRROR,
    TOPIC_MANIFEST_URL,
};

fn pkgs(names: &[&str]) -> Vec<String> {
    names.iter().map(|n| n.to_string()).collect()
}

const OMA: &str =
    "oma --no-check-dbus install --no-progress --no-refresh-topics --force-confnew --yes --";
const APT_GET: &str =
    "export DEBIAN_FRONTEND=noninteractive;apt-get install --yes -o Dpkg::Options::=--force-confnew --";

#[test]
fn install_commands() {
    assert_eq!(
        Oma::install(&pkgs(&["linux+kernel+rpi64", "rpi-firmware-boot"])),
        format!("{} linux+kernel+rpi64 rpi-firmware-boot", OMA)
    );
    assert_eq!(Oma::install(&pkgs(&[])), OMA);
    assert_eq!(APT::install(&pkgs(&["u-boot"])), format!("{} u-boot", APT_GET));
    assert_eq!(APT::install(&pkgs(&[])), APT_GET);
}

#[test]
fn package_manager_by_architecture() {
    let p = pkgs(&["a", "b"]);
    for arch in [
        DeviceArch::Amd64,
        DeviceArch::Arm64,
        DeviceArch::LoongArch64,
        DeviceArch::Ppc64el,
        DeviceArch::Loongson3,
        DeviceArch::Riscv64,
        DeviceArch::Mips64r6el,
    ] {
        assert_eq!(install_packages_aosc(&p, &arch, true), format!("{} a b", OMA));
        let foreign = install_packages_aosc(&p, &arch, false);
        if arch == DeviceArch::Riscv64 || arch == DeviceArch::Mips64r6el {
            assert_eq!(foreign, format!("{} a b", APT_GET));
        } else {
            assert_eq!(foreign, format!("{} a b", OMA));
        }
    }
}

#[test]
fn install_plan_by_distribution() {
    let p = pkgs(&["a"]);
    assert_eq!(
        install_packages(&Distro::AOSC, &p, &DeviceArch::Arm64, false),
        Ok(Some(format!("{} a", OMA)))
    );
    assert_eq!(install_packages(&Distro::AOSC, &pkgs(&[]), &DeviceArch::Arm64, false), Ok(None));
    assert_eq!(install_packages(&Distro::Fedora, &pkgs(&[]), &DeviceArch::Arm64, false), Ok(None));
    for distro in [Distro::Debian, Distro::Ubuntu, Distro::ArchLinux, Distro::Fedora] {
        assert_eq!(
            install_packages(&distro, &p, &DeviceArch::Arm64, true),
            Err(PmError::UnsupportedDistro { distro })
        );
    }
    assert_eq!(Distro::default(), Distro::AOSC);
    assert_eq!(Distro::ArchLinux.name(), "ArchLinux");
}

#[test]
fn first_boot_packages() {
    assert_eq!(firstboot_package("rk3588"), "devena-firstboot-rk3588");
    assert_eq!(
        firstboot_removal("rk3588"),
        "oma remove --no-check-dbus --purge --yes devena-firstboot-rk3588"
    );
    assert_eq!(oobe_package(&ImageVariant::Desktop), "aosc-os-oobe-gui");
    assert_eq!(oobe_package(&ImageVariant::Base), "aosc-os-oobe-cli");
    assert_eq!(oobe_package(&ImageVariant::Server), "aosc-os-oobe-cli");
}

fn topic(name: &str) -> Topic {
    Topic {
        name: name.to_string(),
        description: Some(format!("About {}", name)),
        date: 1700000000,
        update_date: 1700000001,
        arch: vec!["arm64".to_string()],
        packages: vec![format!("{}-pkg", name)],
        draft: false,
    }
}

#[test]
fn topics_are_filtered_by_name() {
    let all = || vec![topic("kde-6"), topic("mesa-24"), topic("rust-1.80"), topic("mesa-24")];
    let chosen = filter_topics(&pkgs(&["rust-1.80", "mesa-24", "nothing"]), all()).unwrap();
    assert_eq!(chosen, vec![topic("mesa-24"), topic("rust-1.80"), topic("mesa-24")]);
    assert_eq!(filter_topics(&pkgs(&["kde-6"]), all()), Ok(vec![topic("kde-6")]));
    assert_eq!(
        filter_topics(&pkgs(&["kde"]), all()),
        Err(TopicError::NoneExist { available: pkgs(&["kde-6", "mesa-24", "rust-1.80", "mesa-24"]) })
    );
    assert_eq!(
        filter_topics(&pkgs(&[]), all()),
        Err(TopicError::NoneExist { available: pkgs(&["kde-6", "mesa-24", "rust-1.80", "mesa-24"]) })
    );
    assert_eq!(
        filter_topics(&pkgs(&["kde-6"]), Vec::new()),
        Err(TopicError::NoneExist { available: Vec::new() })
    );
}

#[test]
fn topic_sources_list() {
    assert_eq!(
        topic_sources(&vec![topic("kde-6"), topic("mesa-24")]),
        "deb https://repo.aosc.io/debs kde-6 main\ndeb https://repo.aosc.io/debs mesa-24 main\n"
    );
    assert_eq!(topic_sources(&Vec::new()), "");
    assert_eq!(
        topic_sources(&vec![topic("x")]),
        format!("deb {} x main\n", DEFAULT_MIRROR)
    );
    assert_eq!(ATM_STATE, "var/lib/atm/state");
    assert_eq!(ATM_LIST, "etc/apt/sources.list.d/atm.list");
    assert_eq!(TOPIC_MANIFEST_URL, "https://repo.aosc.io/debs/manifest/topics.json");
}

#[test]
fn test_save_empty_topics() {
    let topics = Vec::<Topic>::new();
    assert_eq!(topic_sources(&topics), "");
}
