//! Distributions and their package managers.

use vstd::prelude::*;
use vstd::string::*;
use crate::context::ImageVariant;
use crate::device::DeviceArch;
use crate::text::append_each;
use crate::text::each_prefixed;
use crate::text::texts_of;

verus! {

/// The distribution installed on a device.
#[derive(Copy, Clone, Debug, PartialEq, Eq, Structural)]
pub enum Distro {
    AOSC,
    Debian,
    Ubuntu,
    ArchLinux,
    Fedora,
}

impl Default for Distro {
    fn default() -> (d: Distro)
        ensures
            d == Distro::AOSC,
    {
        Distro::AOSC
    }
}

impl Distro {
    /// The name of the distribution as host names carry it.
    pub open spec fn name_spec(self) -> Seq<char> {
        match self {
            Distro::AOSC => "AOSC"@,
            Distro::Debian => "Debian"@,
            Distro::Ubuntu => "Ubuntu"@,
            Distro::ArchLinux => "ArchLinux"@,
            Distro::Fedora => "Fedora"@,
        }
    }

    /// The name of the distribution as host names carry it.
    pub fn name(&self) -> (s: &'static str)
        ensures
            s@ == self.name_spec(),
    {
        match self {
            Distro::AOSC => "AOSC",
            Distro::Debian => "Debian",
            Distro::Ubuntu => "Ubuntu",
            Distro::ArchLinux => "ArchLinux",
            Distro::Fedora => "Fedora",
        }
    }
}

/// The package manager `apt-get`.
pub struct APT;

/// The package manager `oma`.
pub struct Oma;

/// A package manager: it knows the shell command that installs packages
/// in the target system.
pub trait PackageManager {
    /// The command that installs `packages`.
    spec fn install_script(packages: Seq<Seq<char>>) -> Seq<char>;

    /// Writes the command that installs `packages`.
    fn install(packages: &Vec<String>) -> (script: String)
        ensures
            script@ == Self::install_script(texts_of(packages@)),
    ;
}

impl PackageManager for APT {
    open spec fn install_script(packages: Seq<Seq<char>>) -> Seq<char> {
        "export DEBIAN_FRONTEND=noninteractive;apt-get install --yes -o Dpkg::Options::=--force-confnew --"@
            + each_prefixed(seq![' '], packages)
    }

    fn install(packages: &Vec<String>) -> (script: String) {
        let mut script = String::from_str(
            "export DEBIAN_FRONTEND=noninteractive;apt-get install --yes -o Dpkg::Options::=--force-confnew --",
        );
        proof {
            reveal_strlit(" ");
            assert(" "@ =~= seq![' ']);
        }
        append_each(&mut script, " ", packages);
        script
    }
}

impl PackageManager for Oma {
    open spec fn install_script(packages: Seq<Seq<char>>) -> Seq<char> {
        "oma --no-check-dbus install --no-progress --no-refresh-topics --force-confnew --yes --"@
            + each_prefixed(seq![' '], packages)
    }

    fn install(packages: &Vec<String>) -> (script: String) {
        let mut script = String::from_str(
            "oma --no-check-dbus install --no-progress --no-refresh-topics --force-confnew --yes --",
        );
        proof {
            reveal_strlit(" ");
            assert(" "@ =~= seq![' ']);
        }
        append_each(&mut script, " ", packages);
        script
    }
}

/// Why packages cannot be installed.
#[derive(Copy, Clone, Debug, PartialEq, Eq, Structural)]
pub enum PmError {
    /// Nothing is known of how this distribution installs packages.
    UnsupportedDistro { distro: Distro },
}

/// Whether packages for `arch` are installed with `apt-get`: on a foreign
/// machine, for the two architectures on which `oma` does not run emulated.
pub open spec fn uses_apt(arch: DeviceArch, native: bool) -> bool {
    !native && (arch == DeviceArch::Riscv64 || arch == DeviceArch::Mips64r6el)
}

/// The command that installs `packages` into a system of AOSC OS for
/// `arch`; `native` says whether that is the architecture of this machine.
pub open spec fn aosc_script(packages: Seq<Seq<char>>, arch: DeviceArch, native: bool) -> Seq<char> {
    if uses_apt(arch, native) {
        APT::install_script(packages)
    } else {
        Oma::install_script(packages)
    }
}

/// Writes the command that installs `packages` into a system of AOSC OS.
pub fn install_packages_aosc(packages: &Vec<String>, arch: &DeviceArch, native: bool) -> (script:
    String)
    ensures
        script@ == aosc_script(texts_of(packages@), *arch, native),
{
    if native {
        Oma::install(packages)
    } else {
        match arch {
            DeviceArch::Riscv64 | DeviceArch::Mips64r6el => APT::install(packages),
            _ => Oma::install(packages),
        }
    }
}

/// What installing `packages` takes: nothing for no packages, else the
/// command of the package manager; none is known for distributions other
/// than AOSC OS.
pub open spec fn install_plan(
    distro: Distro,
    packages: Seq<Seq<char>>,
    arch: DeviceArch,
    native: bool,
) -> Result<Option<Seq<char>>, PmError> {
    if packages.len() == 0 {
        Ok(None)
    } else if distro == Distro::AOSC {
        Ok(Some(aosc_script(packages, arch, native)))
    } else {
        Err(PmError::UnsupportedDistro { distro })
    }
}

/// Decides how `packages` are installed into the target system.
pub fn install_packages(distro: &Distro, packages: &Vec<String>, arch: &DeviceArch, native: bool) -> (r:
    Result<Option<String>, PmError>)
    ensures
        match r {
            Ok(Some(script)) => install_plan(*distro, texts_of(packages@), *arch, native) == Ok::<
                Option<Seq<char>>,
                PmError,
            >(Some(script@)),
            Ok(None) => install_plan(*distro, texts_of(packages@), *arch, native) == Ok::<
                Option<Seq<char>>,
                PmError,
            >(None),
            Err(e) => install_plan(*distro, texts_of(packages@), *arch, native) == Err::<
                Option<Seq<char>>,
                PmError,
            >(e),
        },
{
    if packages.len() == 0 {
        return Ok(None);
    }
    match distro {
        Distro::AOSC => Ok(Some(install_packages_aosc(packages, arch, native))),
        _ => Err(PmError::UnsupportedDistro { distro: *distro }),
    }
}

/// The package of the first-boot setup for a target.
pub open spec fn firstboot_package_spec(target: Seq<char>) -> Seq<char> {
    "devena-firstboot-"@ + target
}

/// The package of the first-boot setup for a target.
pub fn firstboot_package(target: &str) -> (name: String)
    ensures
        name@ == firstboot_package_spec(target@),
{
    let mut name = String::from_str("devena-firstboot-");
    name.append(target);
    name
}

/// The command that removes the first-boot setup again.
pub open spec fn firstboot_removal_spec(target: Seq<char>) -> Seq<char> {
    "oma remove --no-check-dbus --purge --yes devena-firstboot-"@ + target
}

/// The command that removes the first-boot setup again.
pub fn firstboot_removal(target: &str) -> (script: String)
    ensures
        script@ == firstboot_removal_spec(target@),
{
    let mut script = String::from_str("oma remove --no-check-dbus --purge --yes devena-firstboot-");
    script.append(target);
    script
}

/// The package of the first-boot wizard for a variant: the graphical one
/// for the desktop, the one for the console otherwise.
pub open spec fn oobe_package_spec(variant: ImageVariant) -> Seq<char> {
    if variant == ImageVariant::Desktop {
        "aosc-os-oobe-gui"@
    } else {
        "aosc-os-oobe-cli"@
    }
}

/// The package of the first-boot wizard for a variant.
pub fn oobe_package(variant: &ImageVariant) -> (name: &'static str)
    ensures
        name@ == oobe_package_spec(*variant),
{
    match variant {
        ImageVariant::Desktop => "aosc-os-oobe-gui",
        _ => "aosc-os-oobe-cli",
    }
}

} // verus!
