//! The mounts of a build job: which filesystems are mounted where, and the
//! stack that remembers them so that they are unmounted again, last first.

use vstd::prelude::*;
use vstd::string::*;
use crate::device::DeviceSpec;
use crate::filesystem::FilesystemType;
use crate::identity::partition_device;
use crate::identity::partition_device_spec;
use crate::partition::PartitionSpec;
use crate::partition::PartitionUsage;
use crate::paths::join;
use crate::paths::join_path;
use crate::paths::trim_leading_slashes;
use crate::paths::without_leading_slashes;
use crate::text::decimal;
use crate::text::joined;
use crate::text::str_eq;
use crate::text::texts_of;
use crate::text::u64_to_decimal;

verus! {

/// The mountpoints of a job that are live, in the order in which they were
/// mounted.
pub struct MountStack {
    paths: Vec<String>,
}

impl View for MountStack {
    type V = Seq<Seq<char>>;

    closed spec fn view(&self) -> Seq<Seq<char>> {
        texts_of(self.paths@)
    }
}

impl MountStack {
    /// A stack without mounts.
    pub fn new() -> (stack: MountStack)
        ensures
            stack@ == Seq::<Seq<char>>::empty(),
    {
        let stack = MountStack { paths: Vec::new() };
        assert(stack@ =~= Seq::<Seq<char>>::empty());
        stack
    }

    /// The number of live mounts.
    pub fn len(&self) -> (n: usize)
        ensures
            n == self@.len(),
    {
        self.paths.len()
    }

    /// Whether nothing is mounted.
    pub fn is_empty(&self) -> (b: bool)
        ensures
            b == (self@.len() == 0),
    {
        self.paths.len() == 0
    }

    /// Records a mount that succeeded.
    pub fn push(&mut self, path: String)
        ensures
            final(self)@ == old(self)@.push(path@),
    {
        self.paths.push(path);
        assert(self@ =~= old(self)@.push(path@));
    }

    /// Takes the mount that is unmounted next: the one mounted last.
    pub fn pop(&mut self) -> (path: Option<String>)
        ensures
            old(self)@.len() == 0 ==> path is None && final(self)@ == old(self)@,
            old(self)@.len() > 0 ==> path is Some && path->0@ == old(self)@.last() && final(self)@
                == old(self)@.drop_last(),
    {
        let path = self.paths.pop();
        assert(self@ =~= if old(self)@.len() == 0 {
            old(self)@
        } else {
            old(self)@.drop_last()
        });
        path
    }

    /// Empties the stack and gives the order in which its mounts are
    /// unmounted: the reverse of the order in which they were mounted.
    pub fn unwind(&mut self) -> (order: Vec<String>)
        ensures
            texts_of(order@) == old(self)@.reverse(),
            final(self)@.len() == 0,
    {
        let mut order: Vec<String> = Vec::new();
        let ghost all = self@;
        while self.paths.len() > 0
            invariant
                self@.len() + order@.len() == all.len(),
                self@ == all.take(self@.len() as int),
                forall|j: int|
                    0 <= j < order@.len() ==> (#[trigger] order@[j])@ == all[all.len() - 1 - j],
            decreases self.paths.len(),
        {
            let ghost before = self@;
            match self.pop() {
                Some(path) => {
                    proof {
                        assert(self@ =~= all.take(self@.len() as int));
                    }
                    order.push(path);
                },
                None => {},
            }
        }
        assert(texts_of(order@) =~= all.reverse());
        order
    }
}

/// One thing done to take a mount down.
#[derive(Clone, Debug, PartialEq, Eq)]
pub enum TeardownStep {
    /// Write out what the filesystem at `path` still holds in memory.
    Sync { path: String },
    /// Unmount the filesystem at `path`.
    Unmount { path: String },
    /// Wait so many milliseconds for the kernel to settle the block device.
    Settle { millis: u64 },
}

/// How long to wait after each unmount, in milliseconds, unless the
/// caller knows better.
pub const SETTLE_MILLIS: u64 = 100;

/// Whether three steps take down the mount at `path`: sync it, unmount
/// it, wait `millis` milliseconds.
pub open spec fn takes_down(
    a: TeardownStep,
    b: TeardownStep,
    c: TeardownStep,
    path: Seq<char>,
    millis: u64,
) -> bool {
    &&& a matches TeardownStep::Sync { path: p } && p@ == path
    &&& b matches TeardownStep::Unmount { path: p } && p@ == path
    &&& c matches TeardownStep::Settle { millis: m } && m == millis
}

impl MountStack {
    /// Empties the stack and gives what takes its mounts down: for each
    /// mount, the one mounted last first, a sync, an unmount and a pause of
    /// `settle_millis` milliseconds.
    pub fn teardown(&mut self, settle_millis: u64) -> (steps: Vec<TeardownStep>)
        ensures
            final(self)@.len() == 0,
            steps@.len() == 3 * old(self)@.len(),
            forall|j: int|
                0 <= j < old(self)@.len() ==> takes_down(
                    steps@[3 * j],
                    steps@[3 * j + 1],
                    steps@[3 * j + 2],
                    #[trigger] old(self)@.reverse()[j],
                    settle_millis,
                ),
    {
        let order = self.unwind();
        let ghost reversed = old(self)@.reverse();
        assert(reversed.len() == order@.len()) by {
            assert(texts_of(order@).len() == order@.len());
        }
        let mut steps: Vec<TeardownStep> = Vec::new();
        let mut j: usize = 0;
        while j < order.len()
            invariant
                j <= order.len(),
                steps@.len() == 3 * j,
                reversed == texts_of(order@),
                forall|k: int|
                    0 <= k < j ==> takes_down(
                        steps@[3 * k],
                        steps@[3 * k + 1],
                        steps@[3 * k + 2],
                        #[trigger] reversed[k],
                        settle_millis,
                    ),
            decreases order.len() - j,
        {
            steps.push(TeardownStep::Sync { path: order[j].clone() });
            steps.push(TeardownStep::Unmount { path: order[j].clone() });
            steps.push(TeardownStep::Settle { millis: settle_millis });
            j += 1;
        }
        steps
    }
}

/// One mount to make.
#[derive(Clone, Debug, PartialEq, Eq)]
pub struct MountRequest {
    /// What is mounted: a device node, or the name of a virtual filesystem.
    pub source: String,
    /// Where it is mounted.
    pub target: String,
    /// The type of the filesystem.
    pub fstype: String,
    /// The options for the filesystem, where the partition declares some.
    pub options: Option<String>,
}

/// The mount options of a partition that are passed on: all but the word
/// `defaults`.
pub open spec fn kept_options(opts: Seq<Seq<char>>) -> Seq<Seq<char>>
    decreases opts.len(),
{
    if opts.len() == 0 {
        Seq::empty()
    } else if opts.last() == "defaults"@ {
        kept_options(opts.drop_last())
    } else {
        kept_options(opts.drop_last()).push(opts.last())
    }
}

/// The option string of a mount.
pub open spec fn option_string(opts: Option<Vec<String>>) -> Option<Seq<char>> {
    match opts {
        Some(list) => Some(joined(seq![','], kept_options(texts_of(list@)))),
        None => None,
    }
}

/// Whether a request asks for what the four texts say.
pub open spec fn request_is(
    r: MountRequest,
    source: Seq<char>,
    target: Seq<char>,
    fstype: Seq<char>,
    options: Option<Seq<char>>,
) -> bool {
    &&& r.source@ == source
    &&& r.target@ == target
    &&& r.fstype@ == fstype
    &&& match options {
        Some(o) => r.options is Some && r.options->0@ == o,
        None => r.options is None,
    }
}

/// The places of the partitions that are mounted on the workbench: those
/// with a filesystem, in the order of the table.
pub open spec fn scratch_places(parts: Seq<PartitionSpec>, upto: int) -> Seq<int>
    decreases upto,
{
    if upto <= 0 {
        Seq::empty()
    } else if parts[upto - 1].filesystem != FilesystemType::Unformatted {
        scratch_places(parts, upto - 1).push(upto - 1)
    } else {
        scratch_places(parts, upto - 1)
    }
}

/// Whether a request mounts a partition on the workbench: its device node
/// at the directory `p` and its number below `base`, as its filesystem,
/// with its options.
pub open spec fn is_scratch_mount(r: MountRequest, p: PartitionSpec, loop_dev: Seq<char>, base: Seq<char>) -> bool {
    request_is(
        r,
        partition_device_spec(loop_dev, p.num),
        join_path(base, seq!['p'] + decimal(p.num as nat)),
        p.filesystem.os_fstype()->Ok_0,
        option_string(p.mount_opts),
    )
}

/// The places of the partitions that are mounted inside the root
/// filesystem: those with a filesystem and a mountpoint that do not hold
/// the root filesystem themselves, in the order of the table.
pub open spec fn inner_places(parts: Seq<PartitionSpec>, upto: int) -> Seq<int>
    decreases upto,
{
    if upto <= 0 {
        Seq::empty()
    } else if parts[upto - 1].filesystem != FilesystemType::Unformatted && parts[upto - 1].usage
        != PartitionUsage::Rootfs && parts[upto - 1].mountpoint is Some {
        inner_places(parts, upto - 1).push(upto - 1)
    } else {
        inner_places(parts, upto - 1)
    }
}

/// Whether a request mounts a partition inside the root filesystem: its
/// device node at its mountpoint below `root`, as its filesystem.
pub open spec fn is_inner_mount(r: MountRequest, p: PartitionSpec, loop_dev: Seq<char>, root: Seq<char>) -> bool {
    request_is(
        r,
        partition_device_spec(loop_dev, p.num),
        join_path(root, trim_leading_slashes(p.mountpoint->0@)),
        p.filesystem.os_fstype()->Ok_0,
        None,
    )
}

fn kept_options_of(opts: &Vec<String>) -> (kept: Vec<String>)
    ensures
        texts_of(kept@) == kept_options(texts_of(opts@)),
{
    let mut kept: Vec<String> = Vec::new();
    let ghost all = texts_of(opts@);
    let mut i: usize = 0;
    assert(all.take(0) =~= Seq::<Seq<char>>::empty());
    assert(texts_of(kept@) =~= kept_options(all.take(0)));
    while i < opts.len()
        invariant
            i <= opts.len(),
            all == texts_of(opts@),
            texts_of(kept@) == kept_options(all.take(i as int)),
        decreases opts.len() - i,
    {
        let ghost before = texts_of(kept@);
        proof {
            assert(all.take(i + 1).drop_last() =~= all.take(i as int));
            assert(all.take(i + 1).last() == opts@[i as int]@);
        }
        if !str_eq(opts[i].as_str(), "defaults") {
            kept.push(opts[i].clone());
            assert(texts_of(kept@) =~= before.push(opts@[i as int]@));
        }
        i += 1;
    }
    assert(all.take(opts@.len() as int) =~= all);
    kept
}

fn scratch_mount(p: &PartitionSpec, loop_dev: &str, base: &str) -> (r: MountRequest)
    requires
        p.filesystem != FilesystemType::Unformatted,
    ensures
        is_scratch_mount(r, *p, loop_dev@, base@),
{
    proof {
        reveal_strlit("p");
        reveal_strlit(",");
        assert("p"@ =~= seq!['p']);
        assert(","@ =~= seq![',']);
    }
    let mut dir = String::from_str("p");
    dir.append(u64_to_decimal(p.num as u64).as_str());
    let fstype = match p.filesystem.get_os_fstype() {
        Ok(s) => s,
        Err(_) => "",
    };
    let options = match &p.mount_opts {
        Some(opts) => Some(crate::text::join(",", &kept_options_of(opts))),
        None => None,
    };
    MountRequest {
        source: partition_device(loop_dev, p.num),
        target: join(base, dir.as_str()),
        fstype: String::from_str(fstype),
        options,
    }
}

/// The mounts that put every partition with a filesystem on the workbench,
/// each at the directory `p` and its number below `mntdir_base`.
pub fn mount_partitions(device: &DeviceSpec, loop_dev: &str, mntdir_base: &str) -> (requests: Vec<
    MountRequest,
>)
    ensures
        requests@.len() == scratch_places(device.partitions@, device.partitions@.len() as int).len(),
        forall|j: int|
            0 <= j < requests@.len() ==> is_scratch_mount(
                #[trigger] requests@[j],
                device.partitions@[scratch_places(
                    device.partitions@,
                    device.partitions@.len() as int,
                )[j]],
                loop_dev@,
                mntdir_base@,
            ),
{
    let parts = &device.partitions;
    let mut requests: Vec<MountRequest> = Vec::new();
    let mut i: usize = 0;
    while i < parts.len()
        invariant
            i <= parts.len(),
            parts@ == device.partitions@,
            requests@.len() == scratch_places(parts@, i as int).len(),
            forall|j: int|
                0 <= j < requests@.len() ==> is_scratch_mount(
                    #[trigger] requests@[j],
                    parts@[scratch_places(parts@, i as int)[j]],
                    loop_dev@,
                    mntdir_base@,
                ),
        decreases parts.len() - i,
    {
        match parts[i].filesystem {
            FilesystemType::Unformatted => {},
            _ => {
                requests.push(scratch_mount(&parts[i], loop_dev, mntdir_base));
            },
        }
        i += 1;
    }
    requests
}

fn inner_mount(p: &PartitionSpec, mountpoint: &str, loop_dev: &str, root: &str) -> (r: MountRequest)
    requires
        p.filesystem != FilesystemType::Unformatted,
        p.mountpoint is Some,
        p.mountpoint->0@ == mountpoint@,
    ensures
        is_inner_mount(r, *p, loop_dev@, root@),
{
    let fstype = match p.filesystem.get_os_fstype() {
        Ok(s) => s,
        Err(_) => "",
    };
    MountRequest {
        source: partition_device(loop_dev, p.num),
        target: join(root, without_leading_slashes(mountpoint)),
        fstype: String::from_str(fstype),
        options: None,
    }
}

/// The mounts that put the partitions with a mountpoint into the populated
/// root filesystem at `rootdir`, so that what runs inside it sees the
/// final layout. The root partition is there already.
pub fn mount_partitions_in_root(device: &DeviceSpec, loop_dev: &str, rootdir: &str) -> (requests: Vec<
    MountRequest,
>)
    ensures
        requests@.len() == inner_places(device.partitions@, device.partitions@.len() as int).len(),
        forall|j: int|
            0 <= j < requests@.len() ==> is_inner_mount(
                #[trigger] requests@[j],
                device.partitions@[inner_places(
                    device.partitions@,
                    device.partitions@.len() as int,
                )[j]],
                loop_dev@,
                rootdir@,
            ),
{
    let parts = &device.partitions;
    let mut requests: Vec<MountRequest> = Vec::new();
    let mut i: usize = 0;
    while i < parts.len()
        invariant
            i <= parts.len(),
            parts@ == device.partitions@,
            requests@.len() == inner_places(parts@, i as int).len(),
            forall|j: int|
                0 <= j < requests@.len() ==> is_inner_mount(
                    #[trigger] requests@[j],
                    parts@[inner_places(parts@, i as int)[j]],
                    loop_dev@,
                    rootdir@,
                ),
        decreases parts.len() - i,
    {
        let p = &parts[i];
        let formatted = match p.filesystem {
            FilesystemType::Unformatted => false,
            _ => true,
        };
        let is_root = match p.usage {
            PartitionUsage::Rootfs => true,
            _ => false,
        };
        if formatted && !is_root {
            if let Some(mountpoint) = &p.mountpoint {
                requests.push(inner_mount(p, mountpoint.as_str(), loop_dev, rootdir));
            }
        }
        i += 1;
    }
    requests
}

/// The mount of a temporary filesystem at the directory `tmp` of the root
/// filesystem, where scripts are put while they run.
pub fn setup_chroot_mounts(rootdir: &str) -> (r: MountRequest)
    ensures
        request_is(r, "tmpfs"@, join_path(rootdir@, "tmp"@), "tmpfs"@, None),
{
    MountRequest {
        source: String::from_str("tmpfs"),
        target: join(rootdir, "tmp"),
        fstype: String::from_str("tmpfs"),
        options: None,
    }
}

/// The paths that are shown to what runs inside the root filesystem: the
/// disk and the device node of each partition.
pub open spec fn bind_paths(loop_dev: Seq<char>, parts: Seq<PartitionSpec>) -> Seq<Seq<char>> {
    Seq::new(
        parts.len() + 1,
        |j: int|
            if j == 0 {
                loop_dev
            } else {
                partition_device_spec(loop_dev, parts[j - 1].num)
            },
    )
}

/// Lists the device nodes that the sandbox of the scripts must show: the
/// disk, then each of its partitions.
pub fn binds(device: &DeviceSpec, loop_dev: &str) -> (paths: Vec<String>)
    ensures
        texts_of(paths@) == bind_paths(loop_dev@, device.partitions@),
{
    let parts = &device.partitions;
    let mut paths: Vec<String> = Vec::new();
    paths.push(String::from_str(loop_dev));
    let mut i: usize = 0;
    while i < parts.len()
        invariant
            i <= parts.len(),
            parts@ == device.partitions@,
            paths@.len() == i + 1,
            paths@[0]@ == loop_dev@,
            forall|j: int|
                1 <= j <= i ==> (#[trigger] paths@[j])@ == partition_device_spec(
                    loop_dev@,
                    parts@[j - 1].num,
                ),
        decreases parts.len() - i,
    {
        paths.push(partition_device(loop_dev, parts[i].num));
        i += 1;
    }
    assert(texts_of(paths@) =~= bind_paths(loop_dev@, device.partitions@));
    paths
}

} // verus!
