//! One build job, and the order of its steps.

use gptman::GPT;
use mbrman::MBR;
use vstd::prelude::*;
use vstd::string::*;
use crate::bootloader::action_matches;
use crate::bootloader::step_is_sound;
use crate::bootloader::BootloaderAction;
use crate::bootloader::BootloaderError;
use crate::cli::Compression;
use crate::device::DeviceArch;
use crate::device::DeviceSpec;
use crate::device::PartitionMapData;
use crate::filesystem::formatted_places;
use crate::filesystem::is_format_of;
use crate::filesystem::FilesystemType;
use crate::filesystem::FormatStep;
use crate::gpt::gpt_partitioned;
use crate::identity::fstab_spec;
use crate::identity::hostname_spec;
use crate::identity::hosts_entries_spec;
use crate::identity::root_number_upto;
use crate::identity::script_upto;
use crate::identity::IdentityError;
use crate::layout::LayoutError;
use crate::mbr::mbr_partitioned;
use crate::paths::join;
use crate::paths::join_path;
use crate::pm::install_plan;
use crate::pm::PmError;
use crate::text::decimal;
use crate::text::list_contains;
use crate::text::list_has;
use crate::text::texts_of;
use crate::text::u64_to_decimal;
use crate::topics::Topic;

verus! {

/// The flavour of the system that an image carries.
#[derive(Copy, Clone, Debug, PartialEq, Eq, PartialOrd, Ord, Structural)]
pub enum ImageVariant {
    Base,
    Desktop,
    Server,
}

impl ImageVariant {
    /// The lower-case name of the variant.
    pub open spec fn name_spec(self) -> Seq<char> {
        match self {
            ImageVariant::Base => "base"@,
            ImageVariant::Desktop => "desktop"@,
            ImageVariant::Server => "server"@,
        }
    }

    /// The lower-case name of the variant, as file and directory names use it.
    pub fn name(&self) -> (s: &'static str)
        ensures
            s@ == self.name_spec(),
    {
        match self {
            ImageVariant::Base => "base",
            ImageVariant::Desktop => "desktop",
            ImageVariant::Server => "server",
        }
    }

    /// The name of the variant as it is displayed.
    pub open spec fn display_spec(self) -> Seq<char> {
        match self {
            ImageVariant::Base => "Base"@,
            ImageVariant::Desktop => "Desktop"@,
            ImageVariant::Server => "Server"@,
        }
    }

    /// The name of the variant as it is displayed.
    pub fn display_name(&self) -> (s: &'static str)
        ensures
            s@ == self.display_spec(),
    {
        match self {
            ImageVariant::Base => "Base",
            ImageVariant::Desktop => "Desktop",
            ImageVariant::Server => "Server",
        }
    }
}

/// A step of a build job. The steps run in this order.
#[derive(Copy, Clone, Debug, PartialEq, Eq, Structural)]
pub enum BuildStage {
    /// Create the sparse image and attach it to a loop device.
    Init,
    /// Write the partition table.
    Partition,
    /// Create the filesystems.
    Format,
    /// Mount the partitions on the workbench.
    MountScratch,
    /// Copy the distribution into the root filesystem.
    PopulateRootfs,
    /// Mount the other partitions inside the root filesystem.
    MountInRoot,
    /// Write the filesystem table, the host name and the script environment.
    GenerateIdentity,
    /// Install the packages of the device.
    InstallPackages,
    /// Set up the system and run the script of the device.
    PostInstallScript,
    /// Apply the bootloaders.
    ApplyBootloaders,
    /// Fill the free space of the root filesystem with zeros.
    FillFreeSpaceWithZeroes,
    /// Unmount everything, last mounted first.
    Unmount,
    /// Detach the loop device.
    DetachLoopDevice,
    /// Compress the image into the output directory.
    Compress,
    /// Nothing is left to do.
    Finished,
}

/// How a step ended.
#[derive(Copy, Clone, Debug, PartialEq, Eq, Structural)]
pub enum StepResult {
    Done,
    Failed,
}

/// Where a build job stands: the step to run next, and whether a step has
/// failed so far.
#[derive(Copy, Clone, Debug, PartialEq, Eq, Structural)]
pub struct BuildState {
    pub stage: BuildStage,
    pub failed: bool,
}

impl BuildStage {
    /// The place of a step in the order of the steps.
    pub open spec fn rank(self) -> nat {
        match self {
            BuildStage::Init => 0,
            BuildStage::Partition => 1,
            BuildStage::Format => 2,
            BuildStage::MountScratch => 3,
            BuildStage::PopulateRootfs => 4,
            BuildStage::MountInRoot => 5,
            BuildStage::GenerateIdentity => 6,
            BuildStage::InstallPackages => 7,
            BuildStage::PostInstallScript => 8,
            BuildStage::ApplyBootloaders => 9,
            BuildStage::FillFreeSpaceWithZeroes => 10,
            BuildStage::Unmount => 11,
            BuildStage::DetachLoopDevice => 12,
            BuildStage::Compress => 13,
            BuildStage::Finished => 14,
        }
    }

    /// The step that follows this one when all goes well.
    pub open spec fn successor(self) -> BuildStage {
        match self {
            BuildStage::Init => BuildStage::Partition,
            BuildStage::Partition => BuildStage::Format,
            BuildStage::Format => BuildStage::MountScratch,
            BuildStage::MountScratch => BuildStage::PopulateRootfs,
            BuildStage::PopulateRootfs => BuildStage::MountInRoot,
            BuildStage::MountInRoot => BuildStage::GenerateIdentity,
            BuildStage::GenerateIdentity => BuildStage::InstallPackages,
            BuildStage::InstallPackages => BuildStage::PostInstallScript,
            BuildStage::PostInstallScript => BuildStage::ApplyBootloaders,
            BuildStage::ApplyBootloaders => BuildStage::FillFreeSpaceWithZeroes,
            BuildStage::FillFreeSpaceWithZeroes => BuildStage::Unmount,
            BuildStage::Unmount => BuildStage::DetachLoopDevice,
            BuildStage::DetachLoopDevice => BuildStage::Compress,
            BuildStage::Compress => BuildStage::Finished,
            BuildStage::Finished => BuildStage::Finished,
        }
    }

    /// Whether the step comes before the unwinding, so that a failure in
    /// it must be followed by the unwinding.
    pub open spec fn holds_resources(self) -> bool {
        self.rank() <= 10
    }

    /// The step that follows this one when all goes well.
    pub fn next(&self) -> (stage: BuildStage)
        ensures
            stage == self.successor(),
    {
        match self {
            BuildStage::Init => BuildStage::Partition,
            BuildStage::Partition => BuildStage::Format,
            BuildStage::Format => BuildStage::MountScratch,
            BuildStage::MountScratch => BuildStage::PopulateRootfs,
            BuildStage::PopulateRootfs => BuildStage::MountInRoot,
            BuildStage::MountInRoot => BuildStage::GenerateIdentity,
            BuildStage::GenerateIdentity => BuildStage::InstallPackages,
            BuildStage::InstallPackages => BuildStage::PostInstallScript,
            BuildStage::PostInstallScript => BuildStage::ApplyBootloaders,
            BuildStage::ApplyBootloaders => BuildStage::FillFreeSpaceWithZeroes,
            BuildStage::FillFreeSpaceWithZeroes => BuildStage::Unmount,
            BuildStage::Unmount => BuildStage::DetachLoopDevice,
            BuildStage::DetachLoopDevice => BuildStage::Compress,
            BuildStage::Compress => BuildStage::Finished,
            BuildStage::Finished => BuildStage::Finished,
        }
    }
}

impl BuildState {
    /// The state of a job after its current step ended with `result`.
    ///
    /// When all goes well the steps follow one another. A failure of a
    /// step before the unmounting jumps to the unmounting, which takes
    /// down what is mounted by then. The loop device is detached whether
    /// or not the unmounting failed. After a failure the image is not
    /// compressed.
    pub open spec fn after(self, result: StepResult) -> BuildState {
        if self.stage == BuildStage::Finished {
            self
        } else if result == StepResult::Done {
            if self.failed && self.stage == BuildStage::DetachLoopDevice {
                BuildState { stage: BuildStage::Finished, failed: true }
            } else {
                BuildState { stage: self.stage.successor(), failed: self.failed }
            }
        } else if self.stage.holds_resources() {
            BuildState { stage: BuildStage::Unmount, failed: true }
        } else if self.stage == BuildStage::Unmount {
            BuildState { stage: BuildStage::DetachLoopDevice, failed: true }
        } else {
            BuildState { stage: BuildStage::Finished, failed: true }
        }
    }

    /// The state of a job that has not begun.
    pub fn start() -> (state: BuildState)
        ensures
            state == (BuildState { stage: BuildStage::Init, failed: false }),
    {
        BuildState { stage: BuildStage::Init, failed: false }
    }

    /// Moves on after the current step ended with `result`.
    pub fn advance(&self, result: StepResult) -> (state: BuildState)
        ensures
            state == self.after(result),
    {
        match self.stage {
            BuildStage::Finished => *self,
            stage => match result {
                StepResult::Done => {
                    if self.failed && stage == BuildStage::DetachLoopDevice {
                        BuildState { stage: BuildStage::Finished, failed: true }
                    } else {
                        BuildState { stage: stage.next(), failed: self.failed }
                    }
                },
                StepResult::Failed => match stage {
                    BuildStage::DetachLoopDevice | BuildStage::Compress => BuildState {
                        stage: BuildStage::Finished,
                        failed: true,
                    },
                    BuildStage::Unmount => BuildState {
                        stage: BuildStage::DetachLoopDevice,
                        failed: true,
                    },
                    _ => BuildState { stage: BuildStage::Unmount, failed: true },
                },
            },
        }
    }

    /// Whether nothing is left to do.
    pub fn is_finished(&self) -> (b: bool)
        ensures
            b == (self.stage == BuildStage::Finished),
    {
        self.stage == BuildStage::Finished
    }

    /// Whether the job is over and has produced its image.
    pub fn succeeded(&self) -> (b: bool)
        ensures
            b == (self.stage == BuildStage::Finished && !self.failed),
    {
        self.stage == BuildStage::Finished && !self.failed
    }
}

/// The steps that a job runs from `state` on when they end as `results`
/// say, one result for each step that is run.
pub open spec fn stages_run(state: BuildState, results: Seq<StepResult>) -> Seq<BuildStage>
    decreases results.len(),
{
    if results.len() == 0 || state.stage == BuildStage::Finished {
        Seq::empty()
    } else {
        seq![state.stage] + stages_run(state.after(results[0]), results.drop_first())
    }
}

/// The state that a job reaches from `state` when its steps end as
/// `results` say.
pub open spec fn state_after(state: BuildState, results: Seq<StepResult>) -> BuildState
    decreases results.len(),
{
    if results.len() == 0 || state.stage == BuildStage::Finished {
        state
    } else {
        state_after(state.after(results[0]), results.drop_first())
    }
}

/// How often a step occurs in a run.
pub open spec fn times_run(stage: BuildStage, run: Seq<BuildStage>) -> nat
    decreases run.len(),
{
    if run.len() == 0 {
        0
    } else {
        times_run(stage, run.drop_first()) + if run[0] == stage {
            1nat
        } else {
            0nat
        }
    }
}

/// Every step moves a job forward: as long as it is not over, the step
/// that comes next lies later in the order than the one that ended.
pub proof fn lemma_steps_move_forward(state: BuildState, result: StepResult)
    requires
        state.stage != BuildStage::Finished,
    ensures
        state.after(result).stage.rank() > state.stage.rank(),
        state.failed ==> state.after(result).failed,
        result == StepResult::Failed ==> state.after(result).failed,
{
}

proof fn lemma_no_earlier_stage(state: BuildState, results: Seq<StepResult>, stage: BuildStage)
    requires
        stage.rank() < state.stage.rank(),
    ensures
        times_run(stage, stages_run(state, results)) == 0,
    decreases results.len(),
{
    if results.len() == 0 || state.stage == BuildStage::Finished {
    } else {
        let run = stages_run(state, results);
        assert(run.drop_first() =~= stages_run(state.after(results[0]), results.drop_first()));
        lemma_no_earlier_stage(state.after(results[0]), results.drop_first(), stage);
    }
}

/// The unwinding runs exactly once: a job that has not reached the
/// unmounting yet unmounts exactly once and detaches the loop device
/// exactly once before it is over, however its steps end; it compresses
/// the image at most once; and it ends as failed only if a step has
/// failed.
pub proof fn lemma_unwinding_runs_once(state: BuildState, results: Seq<StepResult>)
    requires
        state.stage.rank() <= 11,
        state_after(state, results).stage == BuildStage::Finished,
    ensures
        times_run(BuildStage::Unmount, stages_run(state, results)) == 1,
        times_run(BuildStage::DetachLoopDevice, stages_run(state, results)) == 1,
        times_run(BuildStage::Compress, stages_run(state, results)) <= 1,
        state_after(state, results).failed ==> state.failed || exists|i: int|
            0 <= i < results.len() && results[i] == StepResult::Failed,
    decreases results.len(),
{
    assert(results.len() > 0);
    let run = stages_run(state, results);
    let next = state.after(results[0]);
    let rest = results.drop_first();
    assert(run.drop_first() =~= stages_run(next, rest));
    assert(state_after(state, results) == state_after(next, rest));
    lemma_no_earlier_stage(next, rest, state.stage);
    if state.stage == BuildStage::Unmount {
        lemma_after_unmount(next, rest);
        lemma_no_earlier_stage(next, rest, BuildStage::Unmount);
    } else {
        lemma_unwinding_runs_once(next, rest);
    }
    if state_after(state, results).failed && !state.failed {
        if results[0] != StepResult::Failed {
            let i = choose|i: int| 0 <= i < rest.len() && rest[i] == StepResult::Failed;
            assert(results[i + 1] == StepResult::Failed);
        }
    }
}

proof fn lemma_after_unmount(state: BuildState, results: Seq<StepResult>)
    requires
        state.stage == BuildStage::DetachLoopDevice,
        state_after(state, results).stage == BuildStage::Finished,
    ensures
        times_run(BuildStage::DetachLoopDevice, stages_run(state, results)) == 1,
        times_run(BuildStage::Compress, stages_run(state, results)) <= 1,
        state_after(state, results).failed ==> state.failed || exists|i: int|
            0 <= i < results.len() && results[i] == StepResult::Failed,
{
    assert(results.len() > 0);
    let run = stages_run(state, results);
    let next = state.after(results[0]);
    let rest = results.drop_first();
    assert(run.drop_first() =~= stages_run(next, rest));
    assert(state_after(state, results) == state_after(next, rest));
    lemma_no_earlier_stage(next, rest, BuildStage::DetachLoopDevice);
    if next.stage == BuildStage::Compress {
        assert(rest.len() > 0);
        let last = next.after(rest[0]);
        let tail = rest.drop_first();
        assert(last.stage == BuildStage::Finished);
        assert(state_after(next, rest) == state_after(last, tail));
        assert(state_after(last, tail) == last);
        assert(stages_run(next, rest).drop_first() =~= stages_run(last, tail));
        assert(stages_run(last, tail) =~= Seq::<BuildStage>::empty());
        assert(times_run(BuildStage::Compress, stages_run(last, tail)) == 0);
        assert(times_run(BuildStage::Compress, stages_run(next, rest)) == 1);
        if state_after(state, results).failed && !state.failed && results[0]
            != StepResult::Failed {
            assert(rest[0] == StepResult::Failed);
            assert(results[1] == StepResult::Failed);
        }
    } else {
        assert(next.stage == BuildStage::Finished);
        assert(state_after(next, rest) == next);
        assert(stages_run(next, rest) =~= Seq::<BuildStage>::empty());
        assert(times_run(BuildStage::Compress, stages_run(next, rest)) == 0);
    }
}

/// Every job unwinds: a job that is run from its start to its end
/// unmounts exactly once and detaches the loop device exactly once,
/// however its steps end.
pub proof fn lemma_every_job_unwinds(results: Seq<StepResult>)
    requires
        state_after(BuildState { stage: BuildStage::Init, failed: false }, results).stage
            == BuildStage::Finished,
    ensures
        times_run(
            BuildStage::Unmount,
            stages_run(BuildState { stage: BuildStage::Init, failed: false }, results),
        ) == 1,
        times_run(
            BuildStage::DetachLoopDevice,
            stages_run(BuildState { stage: BuildStage::Init, failed: false }, results),
        ) == 1,
{
    lemma_unwinding_runs_once(BuildState { stage: BuildStage::Init, failed: false }, results);
}

/// No image of a failed job: a job that compresses its image has seen no
/// step fail before.
pub proof fn lemma_compress_only_after_success(state: BuildState, result: StepResult)
    requires
        state.after(result).stage == BuildStage::Compress,
    ensures
        !state.after(result).failed,
        state.stage == BuildStage::DetachLoopDevice,
        result == StepResult::Done,
{
}

/// One build job: an image of one variant for one device.
pub struct ImageContext<'a> {
    pub device: &'a DeviceSpec,
    pub variant: &'a ImageVariant,
    /// Where the job works.
    pub workdir: &'a str,
    /// Where the image goes.
    pub outdir: &'a str,
    /// Name of the user of the installed system.
    pub user: &'a str,
    /// Password of that user.
    pub password: &'a str,
    /// Name of the image file.
    pub filename: String,
    /// Where the bootstrapped distribution lies.
    pub base_dist: String,
    /// The filesystem chosen for the root partition at build time.
    pub override_rootfs_fstype: &'a Option<FilesystemType>,
    /// Packages asked for on the command line.
    pub additional_packages: &'a Option<Vec<String>>,
    /// How the image is compressed.
    pub compress: &'a Compression,
    /// The topics that the installed system follows.
    pub topics: Option<&'a Vec<Topic>>,
}

/// Why a job cannot begin.
#[derive(Copy, Clone, Debug, PartialEq, Eq, Structural)]
pub enum JobError {
    /// The size of the image in bytes does not fit 64 bits.
    ImageTooLarge,
    /// No partition holds the root filesystem.
    NoRootFilesystem,
}

impl JobError {
    /// The text shown to the user for this error.
    pub open spec fn text(self) -> Seq<char> {
        match self {
            JobError::ImageTooLarge => "The size of the image in bytes does not fit 64 bits"@,
            JobError::NoRootFilesystem => "Unable to find a root filesystem"@,
        }
    }

    /// Renders the error for the user.
    pub fn message(&self) -> (s: String)
        ensures
            s@ == self.text(),
    {
        match self {
            JobError::ImageTooLarge => {
                let mut s = String::from_str("The size of the image in bytes does not fit 64 bits");
                s
            },
            JobError::NoRootFilesystem => {
                let mut s = String::from_str("Unable to find a root filesystem");
                s
            },
        }
    }
}

/// What a job works with: its directories and files, the size of the
/// image, and the number of the root partition.
#[derive(Clone, Debug, PartialEq, Eq)]
pub struct JobPlan {
    /// The directory of the job on the workbench.
    pub workdir_base: String,
    /// The directory that the image goes to.
    pub outdir_base: String,
    /// The image file.
    pub outfile_path: String,
    /// The directory below which the partitions are mounted.
    pub mountdir_base: String,
    /// The raw image on the workbench.
    pub rawimg_path: String,
    /// Where the root filesystem is mounted.
    pub rootfs_mount: String,
    /// Size of the raw image in bytes.
    pub size: u64,
    /// Number of the root partition.
    pub root_dev_num: u32,
}

/// The name of an image file: distribution, variant, kind, vendor, device,
/// date, revision where there is one, architecture, and the extensions.
pub open spec fn image_filename_spec(
    variant: ImageVariant,
    vendor: Seq<char>,
    id: Seq<char>,
    date: Seq<char>,
    revision: Option<u32>,
    arch: DeviceArch,
    compress: Compression,
) -> Seq<char> {
    "aosc-os_"@ + variant.name_spec() + "_rawimg_"@ + vendor + "_"@ + id + "_"@ + date + (match revision {
        Some(r) => "."@ + decimal(r as nat),
        None => Seq::empty(),
    }) + "_"@ + arch.name_spec() + ".img"@ + compress.extension_spec()
}

/// Writes the name of the image file of a variant for a device, built on
/// the day `date`.
pub fn image_filename(
    variant: &ImageVariant,
    device: &DeviceSpec,
    date: &str,
    revision: Option<u32>,
    compress: &Compression,
) -> (name: String)
    ensures
        name@ == image_filename_spec(
            *variant,
            device.vendor@,
            device.id@,
            date@,
            revision,
            device.arch,
            *compress,
        ),
{
    let mut name = String::from_str("aosc-os_");
    name.append(variant.name());
    name.append("_rawimg_");
    name.append(device.vendor.as_str());
    name.append("_");
    name.append(device.id.as_str());
    name.append("_");
    name.append(date);
    match revision {
        Some(r) => {
            name.append(".");
            name.append(u64_to_decimal(r as u64).as_str());
        },
        None => {},
    }
    name.append("_");
    name.append(device.arch.name());
    name.append(".img");
    name.append(compress.get_extension());
    assert(name@ =~= image_filename_spec(
        *variant,
        device.vendor@,
        device.id@,
        date@,
        revision,
        device.arch,
        *compress,
    ));
    name
}

/// Where the bootstrapped distribution of a variant for an architecture
/// lies below the working directory.
pub open spec fn bootstrap_dir_spec(workdir: Seq<char>, variant: ImageVariant, arch: DeviceArch) -> Seq<char> {
    join_path(workdir, "bootstrap/"@ + variant.name_spec() + "-"@ + arch.name_spec())
}

/// Where the bootstrapped distribution of a variant for an architecture
/// lies below the working directory.
pub fn bootstrap_dir(workdir: &str, variant: &ImageVariant, arch: &DeviceArch) -> (path: String)
    ensures
        path@ == bootstrap_dir_spec(workdir@, *variant, *arch),
{
    let mut rel = String::from_str("bootstrap/");
    rel.append(variant.name());
    rel.append("-");
    rel.append(arch.name());
    join(workdir, rel.as_str())
}

/// What is done after the packages are installed.
#[derive(Clone, Debug, PartialEq, Eq)]
pub struct PostInstall {
    /// Whether the built-in user is added.
    pub add_user: bool,
    /// The language of the system.
    pub locale: String,
    /// The script of the device that is run, by its file name.
    pub script: Option<String>,
}

/// The script that is run after installation: the first of
/// `postinst.bash`, `postinst.sh` and `postinst` that lies beside the
/// description.
pub open spec fn postinst_script(present: Seq<String>) -> Option<Seq<char>> {
    if list_has(present, "postinst.bash"@) {
        Some("postinst.bash"@)
    } else if list_has(present, "postinst.sh"@) {
        Some("postinst.sh"@)
    } else if list_has(present, "postinst"@) {
        Some("postinst"@)
    } else {
        None
    }
}

impl<'a> ImageContext<'a> {
    /// The directory of the job below the working directory.
    pub open spec fn workdir_base_spec(self) -> Seq<char> {
        join_path(
            self.workdir@,
            "sketches/"@ + self.device.id@ + "-"@ + self.variant.display_spec(),
        )
    }

    /// The directory that the image goes to, below the output directory:
    /// by architecture, variant and vendor.
    pub open spec fn outdir_base_spec(self) -> Seq<char> {
        join_path(
            self.outdir@,
            "os-"@ + self.device.arch.name_spec() + "/"@ + self.variant.name_spec() + "/rawimg/"@
                + self.device.vendor@,
        )
    }

    /// Whether a plan is the plan of this job.
    pub open spec fn plan_matches(self, plan: JobPlan) -> bool {
        &&& plan.workdir_base@ == self.workdir_base_spec()
        &&& plan.outdir_base@ == self.outdir_base_spec()
        &&& plan.outfile_path@ == join_path(self.outdir_base_spec(), self.filename@)
        &&& plan.mountdir_base@ == join_path(self.workdir_base_spec(), "mnt"@)
        &&& plan.rawimg_path@ == join_path(self.workdir_base_spec(), "rawmedia.img"@)
        &&& plan.rootfs_mount@ == join_path(
            join_path(self.workdir_base_spec(), "mnt"@),
            "p"@ + decimal(plan.root_dev_num as nat),
        )
        &&& plan.size == self.device.size.variant_size(*self.variant) * 1048576
        &&& Some(plan.root_dev_num) == root_number_upto(
            self.device.partitions@,
            self.device.partitions@.len() as int,
        )
    }

    /// Prepares the job: settles where it works and what it produces. The
    /// steps themselves then run in the order that `BuildState` keeps.
    ///
    /// There is no job for an image whose size in bytes does not fit 64
    /// bits, nor for a device without a root partition.
    pub fn execute(&self) -> (r: Result<JobPlan, JobError>)
        ensures
            match r {
                Ok(plan) => self.plan_matches(plan),
                Err(JobError::ImageTooLarge) => self.device.size.variant_size(*self.variant)
                    * 1048576 > u64::MAX,
                Err(JobError::NoRootFilesystem) => {
                    &&& self.device.size.variant_size(*self.variant) * 1048576 <= u64::MAX
                    &&& root_number_upto(
                        self.device.partitions@,
                        self.device.partitions@.len() as int,
                    ) is None
                },
            },
    {
        let mut rel = String::from_str("sketches/");
        rel.append(self.device.id.as_str());
        rel.append("-");
        rel.append(self.variant.display_name());
        let workdir_base = join(self.workdir, rel.as_str());
        let mut out_rel = String::from_str("os-");
        out_rel.append(self.device.arch.name());
        out_rel.append("/");
        out_rel.append(self.variant.name());
        out_rel.append("/rawimg/");
        out_rel.append(self.device.vendor.as_str());
        let outdir_base = join(self.outdir, out_rel.as_str());
        let outfile_path = join(outdir_base.as_str(), self.filename.as_str());
        let mountdir_base = join(workdir_base.as_str(), "mnt");
        let rawimg_path = join(workdir_base.as_str(), "rawmedia.img");
        let size = match self.device.size.get_variant_bytes(self.variant) {
            None => {
                return Err(JobError::ImageTooLarge);
            },
            Some(size) => size,
        };
        let root_dev_num = match crate::identity::root_partition_number(self.device) {
            None => {
                return Err(JobError::NoRootFilesystem);
            },
            Some(num) => num,
        };
        let mut root_rel = String::from_str("p");
        root_rel.append(u64_to_decimal(root_dev_num as u64).as_str());
        let rootfs_mount = join(mountdir_base.as_str(), root_rel.as_str());
        Ok(
            JobPlan {
                workdir_base,
                outdir_base,
                outfile_path,
                mountdir_base,
                rawimg_path,
                rootfs_mount,
                size,
                root_dev_num,
            },
        )
    }

    /// Lays out the partitions of the device in a GUID partition table.
    pub fn partition_gpt(&self, table: &mut GPT, sector_size: u64) -> (r: Result<
        PartitionMapData,
        LayoutError,
    >)
        ensures
            gpt_partitioned(*self.device, sector_size, *old(table), *final(table), r),
    {
        crate::gpt::partition_gpt(self.device, table, sector_size)
    }

    /// Lays out the partitions of the device in a master boot record.
    pub fn partition_mbr(&self, table: &mut MBR, sector_size: u32) -> (r: Result<
        PartitionMapData,
        LayoutError,
    >)
        ensures
            mbr_partitioned(*self.device, sector_size, *old(table), *final(table), r),
    {
        crate::mbr::partition_mbr(self.device, table, sector_size)
    }

    /// Writes the environment that every build script reads first.
    pub fn write_spec_script(&self, loopdev: &str, rootpart: &str, pm_data: &PartitionMapData) -> (r:
        Result<String, IdentityError>)
        ensures
            match r {
                Ok(script) => script_upto(
                    *self.device,
                    loopdev@,
                    rootpart@,
                    pm_data.uuid@,
                    pm_data.data@,
                    self.device.partitions@.len() as int,
                ) == Ok::<Seq<char>, IdentityError>(script@),
                Err(e) => script_upto(
                    *self.device,
                    loopdev@,
                    rootpart@,
                    pm_data.uuid@,
                    pm_data.data@,
                    self.device.partitions@.len() as int,
                ) == Err::<Seq<char>, IdentityError>(e),
            },
    {
        crate::identity::write_spec_script(self.device, loopdev, rootpart, pm_data)
    }

    /// Writes what is appended to the filesystem table of the installed
    /// system.
    pub fn generate_fstab(&self, pm_data: &PartitionMapData) -> (r: Result<String, IdentityError>)
        ensures
            match r {
                Ok(content) => fstab_spec(*self.device, pm_data.data@) == Ok::<
                    Seq<char>,
                    IdentityError,
                >(content@),
                Err(e) => fstab_spec(*self.device, pm_data.data@) == Err::<Seq<char>, IdentityError>(
                    e,
                ),
            },
    {
        crate::identity::generate_fstab(self.device, pm_data)
    }

    /// Makes up the host name of the installed system and what is appended
    /// to its list of hosts: the pair of them.
    pub fn set_hostname(&self) -> (r: (String, String))
        ensures
            exists|serial: u32|
                r.0@ == hostname_spec(self.device.distro, self.device.id@, serial),
            r.1@ == hosts_entries_spec(r.0@),
    {
        let name = crate::identity::new_hostname(self.device);
        let hosts = crate::identity::hosts_entries(name.as_str());
        (name, hosts)
    }

    /// What formatting the partitions takes: one step for each partition
    /// that is to carry a filesystem.
    pub fn format_partitions(&self, loopdev: &str) -> (steps: Vec<FormatStep>)
        ensures
            steps@.len() == formatted_places(
                self.device.partitions@,
                self.device.partitions@.len() as int,
            ).len(),
            forall|j: int|
                0 <= j < steps@.len() ==> is_format_of(
                    #[trigger] steps@[j],
                    self.device.partitions@[formatted_places(
                        self.device.partitions@,
                        self.device.partitions@.len() as int,
                    )[j]],
                    loopdev@,
                    *self.override_rootfs_fstype,
                ),
    {
        crate::filesystem::format_partitions(self.device, loopdev, self.override_rootfs_fstype)
    }

    /// Decides how `packages` are installed into the target system;
    /// `native` says whether the device has the architecture of this
    /// machine.
    pub fn install_packages(&self, packages: &Vec<String>, native: bool) -> (r: Result<
        Option<String>,
        PmError,
    >)
        ensures
            match r {
                Ok(Some(script)) => install_plan(
                    self.device.distro,
                    texts_of(packages@),
                    self.device.arch,
                    native,
                ) == Ok::<Option<Seq<char>>, PmError>(Some(script@)),
                Ok(None) => install_plan(
                    self.device.distro,
                    texts_of(packages@),
                    self.device.arch,
                    native,
                ) == Ok::<Option<Seq<char>>, PmError>(None),
                Err(e) => install_plan(
                    self.device.distro,
                    texts_of(packages@),
                    self.device.arch,
                    native,
                ) == Err::<Option<Seq<char>>, PmError>(e),
            },
    {
        crate::pm::install_packages(&self.device.distro, packages, &self.device.arch, native)
    }

    /// What applying the bootloaders takes: one action for each step.
    pub fn apply_bootloaders(&self, rootfs: &str, loopdev: &str, device_dir: &str) -> (r: Result<
        Vec<BootloaderAction>,
        BootloaderError,
    >)
        ensures
            match r {
                Ok(actions) => {
                    &&& actions@.len() == self.device.bootloader_list().len()
                    &&& forall|k: int|
                        0 <= k < actions@.len() ==> action_matches(
                            #[trigger] actions@[k],
                            self.device.bootloader_list()[k],
                            rootfs@,
                            loopdev@,
                            device_dir@,
                        )
                },
                Err(BootloaderError::ScriptWithoutName { index }) => {
                    &&& index < self.device.bootloader_list().len()
                    &&& !step_is_sound(self.device.bootloader_list()[index as int], device_dir@)
                    &&& forall|k: int|
                        0 <= k < index ==> step_is_sound(
                            #[trigger] self.device.bootloader_list()[k],
                            device_dir@,
                        )
                },
            },
    {
        crate::bootloader::apply_bootloaders(self.device, rootfs, loopdev, device_dir)
    }

    /// Decides what is done after the packages are installed. `present`
    /// names the files that lie beside the description of the device.
    ///
    /// Where the first-boot wizard sets up the system, no user is added
    /// and the language is the neutral one; otherwise the built-in user is
    /// added and the language is American English.
    pub fn postinst_step(&self, present: &Vec<String>) -> (plan: PostInstall)
        ensures
            plan.add_user == !self.device.oobe_wizard,
            plan.locale@ == (if self.device.oobe_wizard {
                "C.UTF-8"@
            } else {
                "en_US.UTF-8"@
            }),
            match plan.script {
                Some(name) => postinst_script(present@) == Some(name@),
                None => postinst_script(present@) is None,
            },
    {
        let locale = if self.device.oobe_wizard {
            String::from_str("C.UTF-8")
        } else {
            String::from_str("en_US.UTF-8")
        };
        let script = if list_contains(present, "postinst.bash") {
            Some(String::from_str("postinst.bash"))
        } else if list_contains(present, "postinst.sh") {
            Some(String::from_str("postinst.sh"))
        } else if list_contains(present, "postinst") {
            Some(String::from_str("postinst"))
        } else {
            None
        };
        PostInstall { add_user: !self.device.oobe_wizard, locale, script }
    }
}

} // verus!
