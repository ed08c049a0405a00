//! The command lines of the programs that a build runs, and the verdict on
//! how a program ended.

use vstd::prelude::*;
use vstd::string::*;
use crate::context::ImageVariant;
use crate::device::DeviceArch;
use crate::text::decimal;
use crate::text::join;
use crate::text::u64_to_decimal;
use crate::text::joined;
use crate::text::texts_of;

verus! {

/// A program and its arguments, in order.
#[derive(Clone, Debug, PartialEq, Eq)]
pub struct CommandLine {
    pub program: String,
    pub args: Vec<String>,
}

/// A program and its arguments as texts.
pub struct CommandText {
    pub program: Seq<char>,
    pub args: Seq<Seq<char>>,
}

impl View for CommandLine {
    type V = CommandText;

    open spec fn view(&self) -> CommandText {
        CommandText { program: self.program@, args: texts_of(self.args@) }
    }
}

/// Whether a command line runs `program` with `args`.
pub open spec fn command_is(cmd: CommandLine, program: Seq<char>, args: Seq<Seq<char>>) -> bool {
    cmd.program@ == program && texts_of(cmd.args@) == args
}

/// How a program ended badly.
#[derive(Copy, Clone, Debug, PartialEq, Eq, Structural)]
pub enum CommandError {
    /// The program exited with a code other than 0.
    ExitCode { code: i32 },
    /// The program was ended from outside and has no exit code.
    Abnormal,
}

/// The words in a row, each in double quotes, with a space between them.
pub open spec fn quoted_words(words: Seq<Seq<char>>) -> Seq<char>
    decreases words.len(),
{
    if words.len() == 0 {
        Seq::empty()
    } else {
        quoted_words(words.drop_last()) + " \""@ + words.last() + "\""@
    }
}

/// A command line as it is shown to the user: the program and each
/// argument in double quotes.
pub open spec fn command_text(cmd: CommandText) -> Seq<char> {
    "\""@ + cmd.program + "\""@ + quoted_words(cmd.args)
}

impl CommandLine {
    /// Shows the command line to the user.
    pub fn render(&self) -> (s: String)
        ensures
            s@ == command_text(self@),
    {
        let mut s = String::from_str("\"");
        s.append(self.program.as_str());
        s.append("\"");
        let ghost head = s@;
        let ghost all = texts_of(self.args@);
        let mut i: usize = 0;
        assert(all.take(0) =~= Seq::<Seq<char>>::empty());
        assert(s@ =~= head + quoted_words(all.take(0)));
        while i < self.args.len()
            invariant
                i <= self.args.len(),
                all == texts_of(self.args@),
                s@ == head + quoted_words(all.take(i as int)),
            decreases self.args.len() - i,
        {
            s.append(" \"");
            s.append(self.args[i].as_str());
            s.append("\"");
            proof {
                assert(all.take(i + 1).drop_last() =~= all.take(i as int));
                assert(all.take(i + 1).last() == self.args@[i as int]@);
                assert(s@ =~= head + quoted_words(all.take(i + 1)));
            }
            i += 1;
        }
        assert(all.take(self.args@.len() as int) =~= all);
        s
    }
}

impl CommandError {
    /// The text shown to the user when the command `cmd` ended badly: the
    /// exit code, where there is one, and the command.
    pub open spec fn text(self, cmd: CommandText) -> Seq<char> {
        match self {
            CommandError::ExitCode { code } => "The following command failed with exit code "@
                + signed_decimal(code as int) + ":\n"@ + command_text(cmd),
            CommandError::Abnormal => "The following command exited abnormally:\n"@
                + command_text(cmd),
        }
    }

    /// Renders the error for the user.
    pub fn message(&self, cmd: &CommandLine) -> (s: String)
        ensures
            s@ == self.text(cmd@),
    {
        match self {
            CommandError::ExitCode { code } => {
                let mut s = String::from_str("The following command failed with exit code ");
                s.append(i32_to_decimal(*code).as_str());
                s.append(":\n");
                s.append(cmd.render().as_str());
                s
            },
            CommandError::Abnormal => {
                let mut s = String::from_str("The following command exited abnormally:\n");
                s.append(cmd.render().as_str());
                s
            },
        }
    }
}

/// The decimal numeral of an integer, with a minus sign where it is
/// negative.
pub open spec fn signed_decimal(n: int) -> Seq<char> {
    if n < 0 {
        seq!['-'] + decimal((-n) as nat)
    } else {
        decimal(n as nat)
    }
}

/// Writes an integer in decimal.
pub fn i32_to_decimal(n: i32) -> (s: String)
    ensures
        s@ == signed_decimal(n as int),
{
    if n < 0 {
        proof {
            reveal_strlit("-");
            assert("-"@ =~= seq!['-']);
        }
        let mut s = String::from_str("-");
        let magnitude: u64 = (-(n as i64)) as u64;
        s.append(u64_to_decimal(magnitude).as_str());
        s
    } else {
        u64_to_decimal(n as u64)
    }
}

/// The verdict on a program that has ended: `success` says whether it
/// reported success, `code` is its exit code where it has one.
pub open spec fn command_verdict_spec(success: bool, code: Option<i32>) -> Result<(), CommandError> {
    if success {
        Ok(())
    } else {
        match code {
            Some(code) => Err(CommandError::ExitCode { code }),
            None => Err(CommandError::Abnormal),
        }
    }
}

/// Decides whether a program that has ended has done its work.
pub fn command_verdict(success: bool, code: Option<i32>) -> (r: Result<(), CommandError>)
    ensures
        r == command_verdict_spec(success, code),
{
    if success {
        Ok(())
    } else {
        match code {
            Some(code) => Err(CommandError::ExitCode { code }),
            None => Err(CommandError::Abnormal),
        }
    }
}

/// The groups that the user of the installed system belongs to.
pub open spec fn default_groups() -> Seq<Seq<char>> {
    seq!["audio"@, "video"@, "cdrom"@, "plugdev"@, "tty"@, "wheel"@]
}

/// The directory in which the bootstrap tool keeps its recipes.
pub open spec fn ab_dir() -> Seq<char> {
    "/usr/share/aoscbootstrap"@
}

fn push_str(args: &mut Vec<String>, s: &str)
    ensures
        texts_of(final(args)@) == texts_of(old(args)@).push(s@),
{
    args.push(String::from_str(s));
    assert(texts_of(args@) =~= texts_of(old(args)@).push(s@));
}

fn push_string(args: &mut Vec<String>, s: String)
    ensures
        texts_of(final(args)@) == texts_of(old(args)@).push(s@),
{
    args.push(s);
    assert(texts_of(args@) =~= texts_of(old(args)@).push(s@));
}

/// The command that tells the kernel to read the partition table of a
/// disk again.
pub fn refresh_partition_table(dev: &str) -> (cmd: CommandLine)
    ensures
        command_is(cmd, "partprobe"@, seq!["--summary"@, dev@]),
{
    let mut args: Vec<String> = Vec::new();
    push_str(&mut args, "--summary");
    push_str(&mut args, dev);
    assert(texts_of(args@) =~= seq!["--summary"@, dev@]);
    CommandLine { program: String::from_str("partprobe"), args }
}

/// The recipe of the bootstrap tool for a variant: `kde` for the desktop,
/// the name of the variant otherwise.
pub open spec fn recipe_name(variant: ImageVariant) -> Seq<char> {
    if variant == ImageVariant::Desktop {
        "kde"@
    } else {
        variant.name_spec()
    }
}

/// The arguments with which the bootstrap tool makes the distribution of
/// a variant for an architecture in the directory `path`.
pub open spec fn bootstrap_args(
    variant: ImageVariant,
    path: Seq<char>,
    arch: DeviceArch,
    mirror: Seq<char>,
) -> Seq<Seq<char>> {
    seq![
        "stable"@,
        path,
        mirror,
        "-x"@,
        "--config"@,
        "/usr/share/aoscbootstrap/config/aosc-mainline.toml"@,
        "--arch"@,
        arch.name_spec(),
        "-s"@,
        "/usr/share/aoscbootstrap/scripts/reset-repo.sh"@,
        "-s"@,
        "/usr/share/aoscbootstrap/scripts/enable-dkms.sh"@,
        "--include-files"@,
        "/usr/share/aoscbootstrap/recipes/mainline/"@ + recipe_name(variant) + "-common.lst"@,
    ]
}

/// The command that bootstraps the distribution of a variant.
pub fn bootstrap_distribution(variant: &ImageVariant, path: &str, arch: DeviceArch, mirror: &str) -> (cmd:
    CommandLine)
    ensures
        command_is(cmd, "aoscbootstrap"@, bootstrap_args(*variant, path@, arch, mirror@)),
{
    let mut recipe = String::from_str("/usr/share/aoscbootstrap/recipes/mainline/");
    match variant {
        ImageVariant::Desktop => recipe.append("kde"),
        _ => recipe.append(variant.name()),
    }
    recipe.append("-common.lst");
    let mut args: Vec<String> = Vec::new();
    push_str(&mut args, "stable");
    push_str(&mut args, path);
    push_str(&mut args, mirror);
    push_str(&mut args, "-x");
    push_str(&mut args, "--config");
    push_str(&mut args, "/usr/share/aoscbootstrap/config/aosc-mainline.toml");
    push_str(&mut args, "--arch");
    push_str(&mut args, arch.name());
    push_str(&mut args, "-s");
    push_str(&mut args, "/usr/share/aoscbootstrap/scripts/reset-repo.sh");
    push_str(&mut args, "-s");
    push_str(&mut args, "/usr/share/aoscbootstrap/scripts/enable-dkms.sh");
    push_str(&mut args, "--include-files");
    push_string(&mut args, recipe);
    assert(texts_of(args@) =~= bootstrap_args(*variant, path@, arch, mirror@));
    CommandLine { program: String::from_str("aoscbootstrap"), args }
}

/// The command that copies the distribution in `src` into the root
/// filesystem at `dst`, with all attributes and without leaving `src`'s
/// filesystem.
pub fn rsync_sysroot(src: &str, dst: &str) -> (cmd: CommandLine)
    ensures
        command_is(
            cmd,
            "rsync"@,
            seq![
                "-axAHXSW"@,
                "--numeric-ids"@,
                "--info=progress2"@,
                "--no-i-r"@,
                src@ + seq!['/'],
                dst@ + seq!['/'],
            ],
        ),
{
    proof {
        reveal_strlit("/");
        assert("/"@ =~= seq!['/']);
    }
    let mut from = String::from_str(src);
    from.append("/");
    let mut to = String::from_str(dst);
    to.append("/");
    let mut args: Vec<String> = Vec::new();
    push_str(&mut args, "-axAHXSW");
    push_str(&mut args, "--numeric-ids");
    push_str(&mut args, "--info=progress2");
    push_str(&mut args, "--no-i-r");
    push_string(&mut args, from);
    push_string(&mut args, to);
    assert(texts_of(args@) =~= seq![
        "-axAHXSW"@,
        "--numeric-ids"@,
        "--info=progress2"@,
        "--no-i-r"@,
        src@ + seq!['/'],
        dst@ + seq!['/'],
    ]);
    CommandLine { program: String::from_str("rsync"), args }
}

/// The `--bind` options that show `binds` inside the sandbox.
pub open spec fn bind_options(binds: Seq<Seq<char>>) -> Seq<Seq<char>>
    decreases binds.len(),
{
    if binds.len() == 0 {
        Seq::empty()
    } else {
        bind_options(binds.drop_last()).push("--bind"@).push(binds.last())
    }
}

/// The arguments with which the sandbox runs the command `script` in the
/// root filesystem at `root`: quiet, in that directory, with the `binds`
/// shown, and in the shell what `script` says, under the name `name`.
pub open spec fn sandbox_args(
    root: Seq<char>,
    binds: Seq<Seq<char>>,
    shell: Seq<char>,
    script: Seq<char>,
    name: Seq<char>,
) -> Seq<Seq<char>> {
    seq!["-q"@, "-D"@, root] + bind_options(binds) + seq!["--"@, shell, "-c"@, "--"@, script, name]
}

/// The shell that runs a script: the one asked for, or `/bin/bash`.
pub open spec fn shell_or_default(shell: Option<Seq<char>>) -> Seq<char> {
    match shell {
        Some(s) => s,
        None => "/bin/bash"@,
    }
}

fn sandbox_command(root: &str, binds: &Vec<String>, shell: Option<&str>, script: String, name: &str) -> (cmd:
    CommandLine)
    ensures
        command_is(
            cmd,
            "systemd-nspawn"@,
            sandbox_args(
                root@,
                texts_of(binds@),
                shell_or_default(
                    match shell {
                        Some(s) => Some(s@),
                        None => None,
                    },
                ),
                script@,
                name@,
            ),
        ),
{
    let mut args: Vec<String> = Vec::new();
    push_str(&mut args, "-q");
    push_str(&mut args, "-D");
    push_str(&mut args, root);
    let ghost head = texts_of(args@);
    let ghost all = texts_of(binds@);
    let mut i: usize = 0;
    assert(all.take(0) =~= Seq::<Seq<char>>::empty());
    assert(texts_of(args@) =~= head + bind_options(all.take(0)));
    while i < binds.len()
        invariant
            i <= binds.len(),
            all == texts_of(binds@),
            texts_of(args@) == head + bind_options(all.take(i as int)),
        decreases binds.len() - i,
    {
        let ghost before = texts_of(args@);
        push_str(&mut args, "--bind");
        push_str(&mut args, binds[i].as_str());
        proof {
            assert(all.take(i + 1).drop_last() =~= all.take(i as int));
            assert(all.take(i + 1).last() == binds@[i as int]@);
            assert(texts_of(args@) =~= head + bind_options(all.take(i + 1)));
        }
        i += 1;
    }
    assert(all.take(binds@.len() as int) =~= all);
    let ghost middle = texts_of(args@);
    push_str(&mut args, "--");
    match shell {
        Some(s) => push_str(&mut args, s),
        None => push_str(&mut args, "/bin/bash"),
    }
    push_str(&mut args, "-c");
    push_str(&mut args, "--");
    let ghost script_text = script@;
    push_string(&mut args, script);
    push_str(&mut args, name);
    assert(head =~= seq!["-q"@, "-D"@, root@]);
    assert(texts_of(args@) =~= sandbox_args(
        root@,
        all,
        shell_or_default(
            match shell {
                Some(s) => Some(s@),
                None => None,
            },
        ),
        script_text,
        name@,
    ));
    CommandLine { program: String::from_str("systemd-nspawn"), args }
}

/// The command that runs a line of shell inside the root filesystem at
/// `root`, after the environment of the build has been read.
pub fn run_str_script_with_chroot(root: &str, script: &str, binds: &Vec<String>, shell: Option<&str>) -> (cmd:
    CommandLine)
    ensures
        command_is(
            cmd,
            "systemd-nspawn"@,
            sandbox_args(
                root@,
                texts_of(binds@),
                shell_or_default(
                    match shell {
                        Some(s) => Some(s@),
                        None => None,
                    },
                ),
                "source /tmp/spec.sh ;"@ + script@,
                "<tmp_script>"@,
            ),
        ),
{
    let mut full = String::from_str("source /tmp/spec.sh ;");
    full.append(script);
    sandbox_command(root, binds, shell, full, "<tmp_script>")
}

/// The command that runs the script at `script` (a path inside the root
/// filesystem) inside the root filesystem at `root`, after the
/// environment of the build has been read.
pub fn run_script_with_chroot(root: &str, script: &str, binds: &Vec<String>, shell: Option<&str>) -> (cmd:
    CommandLine)
    ensures
        command_is(
            cmd,
            "systemd-nspawn"@,
            sandbox_args(
                root@,
                texts_of(binds@),
                shell_or_default(
                    match shell {
                        Some(s) => Some(s@),
                        None => None,
                    },
                ),
                "source /tmp/spec.sh ; source "@ + script@,
                script@,
            ),
        ),
{
    let mut full = String::from_str("source /tmp/spec.sh ; source ");
    full.append(script);
    sandbox_command(root, binds, shell, full, script)
}

/// The arguments with which `chroot` adds the user `name` to the system
/// at `root`: with a home directory, in the given groups, and with a
/// comment where there is one.
pub open spec fn useradd_args(
    root: Seq<char>,
    name: Seq<char>,
    comment: Option<Seq<char>>,
    homedir: Seq<char>,
    groups: Seq<Seq<char>>,
) -> Seq<Seq<char>> {
    seq![root, "useradd"@, "-m"@, "-d"@, homedir, "-G"@, joined(seq![','], groups)] + (match comment {
        Some(c) => seq!["-c"@, c],
        None => Seq::empty(),
    }) + seq![name]
}

/// The home directory of a user: the one asked for, or the directory of
/// the user's name below `/home`.
pub open spec fn home_or_default(name: Seq<char>, homedir: Option<Seq<char>>) -> Seq<char> {
    match homedir {
        Some(h) => h,
        None => "/home/"@ + name,
    }
}

/// What adding a user takes: the command that adds it, the command that
/// sets its password, and what that command reads.
pub struct AddUser {
    pub useradd: CommandLine,
    pub chpasswd: CommandLine,
    pub chpasswd_input: String,
}

fn default_group_list() -> (groups: Vec<String>)
    ensures
        texts_of(groups@) == default_groups(),
{
    let mut groups: Vec<String> = Vec::new();
    push_str(&mut groups, "audio");
    push_str(&mut groups, "video");
    push_str(&mut groups, "cdrom");
    push_str(&mut groups, "plugdev");
    push_str(&mut groups, "tty");
    push_str(&mut groups, "wheel");
    assert(texts_of(groups@) =~= default_groups());
    groups
}

/// The commands that add a user with a password to the system at `root`.
/// Without `homedir` the user lives below `/home`; without `groups` the
/// user is in the usual ones.
pub fn add_user(
    root: &str,
    name: &str,
    password: &str,
    comment: Option<&str>,
    homedir: Option<&str>,
    groups: Option<&Vec<String>>,
) -> (plan: AddUser)
    ensures
        command_is(
            plan.useradd,
            "chroot"@,
            useradd_args(
                root@,
                name@,
                match comment {
                    Some(c) => Some(c@),
                    None => None,
                },
                home_or_default(
                    name@,
                    match homedir {
                        Some(h) => Some(h@),
                        None => None,
                    },
                ),
                match groups {
                    Some(g) => texts_of(g@),
                    None => default_groups(),
                },
            ),
        ),
        command_is(plan.chpasswd, "chroot"@, seq![root@, "chpasswd"@]),
        plan.chpasswd_input@ == name@ + seq![':'] + password@,
{
    proof {
        reveal_strlit(":");
        reveal_strlit(",");
        assert(":"@ =~= seq![':']);
        assert(","@ =~= seq![',']);
    }
    let home = match homedir {
        Some(h) => String::from_str(h),
        None => {
            let mut h = String::from_str("/home/");
            h.append(name);
            h
        },
    };
    let group_text = match groups {
        Some(g) => join(",", g),
        None => join(",", &default_group_list()),
    };
    let mut args: Vec<String> = Vec::new();
    push_str(&mut args, root);
    push_str(&mut args, "useradd");
    push_str(&mut args, "-m");
    push_str(&mut args, "-d");
    let ghost home_text = home@;
    push_string(&mut args, home);
    push_str(&mut args, "-G");
    let ghost groups_joined = group_text@;
    push_string(&mut args, group_text);
    match comment {
        Some(c) => {
            push_str(&mut args, "-c");
            push_str(&mut args, c);
        },
        None => {},
    }
    push_str(&mut args, name);
    assert(texts_of(args@) =~= useradd_args(
        root@,
        name@,
        match comment {
            Some(c) => Some(c@),
            None => None,
        },
        home_text,
        match groups {
            Some(g) => texts_of(g@),
            None => default_groups(),
        },
    ));
    let mut chpasswd_args: Vec<String> = Vec::new();
    push_str(&mut chpasswd_args, root);
    push_str(&mut chpasswd_args, "chpasswd");
    assert(texts_of(chpasswd_args@) =~= seq![root@, "chpasswd"@]);
    let mut input = String::from_str(name);
    input.append(":");
    input.append(password);
    AddUser {
        useradd: CommandLine { program: String::from_str("chroot"), args },
        chpasswd: CommandLine { program: String::from_str("chroot"), args: chpasswd_args },
        chpasswd_input: input,
    }
}

/// Where the byte is written that gives a sparse file of `size` bytes its
/// size: at its last byte. A file of no bytes has none.
pub fn sparse_file_tail(size: u64) -> (offset: Option<u64>)
    ensures
        size == 0 ==> offset is None,
        size > 0 ==> offset == Some((size - 1) as u64),
{
    if size == 0 {
        None
    } else {
        Some(size - 1)
    }
}

} // verus!
