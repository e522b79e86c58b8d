//! Invocation descriptors, the classification of a finished spawn, and the
//! table that names the package providing a missing executable.
use vstd::prelude::*;
use crate::error::InstallerError;
use crate::text::{chars_of, push_str, slice, spells, text_of, trim_bounds, trimmed};

verus! {

/// How an invocation uses the terminal.
#[derive(Debug)]
pub enum Mode {
    /// The program inherits the caller's input, output and error streams.
    Interactive,
    /// Streams are captured while a progress indicator runs; `progress` is
    /// shown meanwhile and `done` on success.
    Silent { progress: String, done: String },
    /// The error stream is inherited and the output stream captured.
    Capture,
    /// The output stream is appended to the file at `path`.
    Append { path: String },
    /// Output is discarded and any failure ignored.
    BestEffort,
}

/// One external program to run: its name, its arguments as discrete tokens,
/// and how it is run.
#[derive(Debug)]
pub struct Invocation {
    pub program: String,
    pub args: Vec<String>,
    pub mode: Mode,
}

/// A mode with its texts as character sequences.
pub enum ModeView {
    Interactive,
    Silent { progress: Seq<char>, done: Seq<char> },
    Capture,
    Append { path: Seq<char> },
    BestEffort,
}

impl View for Mode {
    type V = ModeView;

    open spec fn view(&self) -> ModeView {
        match self {
            Mode::Interactive => ModeView::Interactive,
            Mode::Silent { progress, done } => ModeView::Silent { progress: progress@, done: done@ },
            Mode::Capture => ModeView::Capture,
            Mode::Append { path } => ModeView::Append { path: path@ },
            Mode::BestEffort => ModeView::BestEffort,
        }
    }
}

/// An invocation with its texts as character sequences.
pub struct InvocationView {
    pub program: Seq<char>,
    pub args: Seq<Seq<char>>,
    pub mode: ModeView,
}

/// The characters of each text.
pub open spec fn texts_view(v: Seq<String>) -> Seq<Seq<char>> {
    v.map_values(|a: String| a@)
}

impl View for Invocation {
    type V = InvocationView;

    open spec fn view(&self) -> InvocationView {
        InvocationView { program: self.program@, args: texts_view(self.args@), mode: self.mode@ }
    }
}

/// Owned copies of `args`, in order.
pub fn owned_args(args: &[&str]) -> (r: Vec<String>)
    ensures
        r@.len() == args@.len(),
        forall|i: int| 0 <= i < args@.len() ==> (#[trigger] r@[i])@ == args@[i]@,
{
    let mut r: Vec<String> = Vec::new();
    let mut i: usize = 0;
    while i < args.len()
        invariant
            i <= args@.len(),
            r@.len() == i,
            forall|j: int| 0 <= j < i ==> (#[trigger] r@[j])@ == args@[j]@,
        decreases args.len() - i,
    {
        r.push(String::from_str(args[i]));
        i = i + 1;
    }
    r
}

impl Invocation {
    /// An invocation of `program` with the arguments `args`, run as `mode`
    /// says.
    pub fn new(program: &str, args: &[&str], mode: Mode) -> (r: Invocation)
        ensures
            r.program@ == program@,
            r.args@.len() == args@.len(),
            forall|i: int| 0 <= i < args@.len() ==> (#[trigger] r.args@[i])@ == args@[i]@,
            r.mode == mode,
    {
        Invocation { program: String::from_str(program), args: owned_args(args), mode }
    }

    /// How a dry run shows this invocation: the program and its arguments
    /// separated by spaces, and for an appending run ` >> ` and the file.
    pub fn describe(&self) -> (r: String)
        ensures
            r@ == described(self@),
    {
        let mut out: Vec<char> = Vec::new();
        push_str(&mut out, self.program.as_str());
        let mut i: usize = 0;
        while i < self.args.len()
            invariant
                i <= self.args@.len(),
                out@ == command_line(self.program@, texts_view(self.args@).take(i as int)),
            decreases self.args.len() - i,
        {
            push_str(&mut out, " ");
            push_str(&mut out, self.args[i].as_str());
            proof {
                let a = texts_view(self.args@);
                assert(a.take(i + 1).drop_last() =~= a.take(i as int));
            }
            i = i + 1;
        }
        assert(texts_view(self.args@).take(self.args@.len() as int) =~= texts_view(self.args@));
        if let Mode::Append { path } = &self.mode {
            push_str(&mut out, " >> ");
            push_str(&mut out, path.as_str());
        }
        text_of(&out)
    }
}

/// The program followed by each argument, each after one space.
pub open spec fn command_line(program: Seq<char>, args: Seq<Seq<char>>) -> Seq<char>
    decreases args.len(),
{
    if args.len() == 0 {
        program
    } else {
        command_line(program, args.drop_last()) + " "@ + args.last()
    }
}

/// What a dry run shows for an invocation.
pub open spec fn described(inv: InvocationView) -> Seq<char> {
    match inv.mode {
        ModeView::Append { path } => command_line(inv.program, inv.args) + " >> "@ + path,
        _ => command_line(inv.program, inv.args),
    }
}

impl Mode {
    /// The pause, in milliseconds, by which a dry run stands in for the real
    /// duration of a run in this mode.
    pub fn simulated_delay_ms(&self) -> (r: u64)
        ensures
            r == match self {
                Mode::Interactive => 1500u64,
                Mode::Silent { .. } => 800u64,
                Mode::Capture => 200u64,
                Mode::Append { .. } => 300u64,
                Mode::BestEffort => 100u64,
            },
    {
        match self {
            Mode::Interactive => 1500,
            Mode::Silent { .. } => 800,
            Mode::Capture => 200,
            Mode::Append { .. } => 300,
            Mode::BestEffort => 100,
        }
    }
}

/// What became of an attempt to spawn a process and wait for it.
#[derive(Debug)]
pub enum SpawnResult {
    /// The executable could not be located.
    Missing,
    /// Spawning failed for another reason, described by the text.
    SpawnError(String),
    /// The process ran; its exit code when the platform reported one, and
    /// its captured output when the mode captures it.
    Exited { code: Option<i32>, output: Option<String> },
}

/// The typed result of one invocation.
#[derive(Debug)]
pub enum Outcome {
    Success(Option<String>),
    NotFound(String),
    Failed(String, i32),
    IoFailure(String),
}

/// The outcome of a spawn of `program`: a missing executable is `NotFound`,
/// any other spawn failure `IoFailure`, an exit code other than 0 (or none
/// reported, read as -1) `Failed`, and exit code 0 `Success`.
pub open spec fn classify_spec(program: String, raw: SpawnResult) -> Outcome {
    match raw {
        SpawnResult::Missing => Outcome::NotFound(program),
        SpawnResult::SpawnError(cause) => Outcome::IoFailure(cause),
        SpawnResult::Exited { code, output } => match code {
            Some(0) => Outcome::Success(output),
            Some(c) => Outcome::Failed(program, c),
            None => Outcome::Failed(program, -1i32),
        },
    }
}

/// The result that an outcome surfaces to the caller.
pub open spec fn outcome_result(o: Outcome) -> Result<Option<String>, InstallerError> {
    match o {
        Outcome::Success(text) => Ok(text),
        Outcome::NotFound(p) => Err(InstallerError::CommandNotFound(p)),
        Outcome::Failed(p, c) => Err(InstallerError::CommandFailed(p, c)),
        Outcome::IoFailure(cause) => Err(InstallerError::Io(cause)),
    }
}

/// Classifies a finished spawn of `program`.
pub fn classify(program: &String, raw: SpawnResult) -> (r: Outcome)
    ensures
        r == classify_spec(*program, raw),
{
    match raw {
        SpawnResult::Missing => Outcome::NotFound(program.clone()),
        SpawnResult::SpawnError(cause) => Outcome::IoFailure(cause),
        SpawnResult::Exited { code, output } => match code {
            Some(0) => Outcome::Success(output),
            Some(c) => Outcome::Failed(program.clone(), c),
            None => Outcome::Failed(program.clone(), -1),
        },
    }
}

impl Outcome {
    /// The result this outcome surfaces to the caller.
    pub fn into_result(self) -> (r: Result<Option<String>, InstallerError>)
        ensures
            r == outcome_result(self),
    {
        match self {
            Outcome::Success(text) => Ok(text),
            Outcome::NotFound(p) => Err(InstallerError::CommandNotFound(p)),
            Outcome::Failed(p, c) => Err(InstallerError::CommandFailed(p, c)),
            Outcome::IoFailure(cause) => Err(InstallerError::Io(cause)),
        }
    }
}

/// The streams of a failed silent run worth showing: each trimmed, in order
/// (output, then errors), and only when not empty.
pub open spec fn report_of(stdout: Seq<char>, stderr: Seq<char>) -> Seq<Seq<char>> {
    let o = trimmed(stdout);
    let e = trimmed(stderr);
    if o.len() > 0 && e.len() > 0 {
        seq![o, e]
    } else if o.len() > 0 {
        seq![o]
    } else if e.len() > 0 {
        seq![e]
    } else {
        Seq::empty()
    }
}

fn trimmed_text(s: &str) -> (r: String)
    ensures
        r@ == trimmed(s@),
{
    let v = chars_of(s);
    let (a, b) = trim_bounds(&v, 0, v.len());
    assert(v@.subrange(0, v.len() as int) =~= s@);
    text_of(&slice(&v, a, b))
}

/// The captured streams of a failed silent run to show the operator.
pub fn failure_report(stdout: &str, stderr: &str) -> (r: Vec<String>)
    ensures
        texts_view(r@) == report_of(stdout@, stderr@),
{
    let o = trimmed_text(stdout);
    let e = trimmed_text(stderr);
    let mut r: Vec<String> = Vec::new();
    let ghost ov = o@;
    let ghost ev = e@;
    if !o.as_str().is_empty() {
        r.push(o);
    }
    if !e.as_str().is_empty() {
        r.push(e);
    }
    assert(texts_view(r@) =~= report_of(stdout@, stderr@));
    r
}

/// The package that provides the executable `p`; an executable that the table
/// does not list is its own package.
pub open spec fn package_of(p: Seq<char>) -> Seq<char> {
    if p == "mkfs.fat"@ || p == "mkfs.vfat"@ || p == "fsck.fat"@ || p == "fatlabel"@ {
        "dosfstools"@
    } else if p == "mkfs.ext4"@ || p == "mkfs.ext3"@ || p == "mkfs.ext2"@ || p == "e2fsck"@
        || p == "resize2fs"@ || p == "tune2fs"@ {
        "e2fsprogs"@
    } else if p == "mkfs.btrfs"@ || p == "btrfs"@ {
        "btrfs-progs"@
    } else if p == "mkfs.xfs"@ || p == "xfs_repair"@ {
        "xfsprogs"@
    } else if p == "mkswap"@ || p == "swapon"@ || p == "swapoff"@ || p == "mount"@
        || p == "umount"@ || p == "cfdisk"@ || p == "fdisk"@ || p == "lsblk"@ || p == "blkid"@
        || p == "findmnt"@ {
        "util-linux"@
    } else if p == "basestrap"@ || p == "fstabgen"@ || p == "artix-chroot"@ {
        "artools"@
    } else if p == "rc-service"@ || p == "rc-update"@ || p == "openrc"@ {
        "openrc"@
    } else if p == "ntpd"@ || p == "ntpdate"@ || p == "ntpq"@ {
        "ntp"@
    } else {
        p
    }
}

fn is_one_of(v: &Vec<char>, names: &[&str]) -> (r: bool)
    ensures
        r == exists|i: int| 0 <= i < names@.len() && v@ == (#[trigger] names@[i])@,
{
    let mut i: usize = 0;
    while i < names.len()
        invariant
            i <= names@.len(),
            forall|j: int| 0 <= j < i ==> v@ != (#[trigger] names@[j])@,
        decreases names.len() - i,
    {
        assert(v@.subrange(0, v.len() as int) =~= v@);
        if spells(v, 0, v.len(), names[i]) {
            return true;
        }
        i = i + 1;
    }
    false
}

/// The package that provides the executable `program`.
pub fn package_for(program: &str) -> (r: String)
    ensures
        r@ == package_of(program@),
{
    let v = chars_of(program);
    let pkg = if is_one_of(&v, &["mkfs.fat", "mkfs.vfat", "fsck.fat", "fatlabel"]) {
        "dosfstools"
    } else if is_one_of(
        &v,
        &["mkfs.ext4", "mkfs.ext3", "mkfs.ext2", "e2fsck", "resize2fs", "tune2fs"],
    ) {
        "e2fsprogs"
    } else if is_one_of(&v, &["mkfs.btrfs", "btrfs"]) {
        "btrfs-progs"
    } else if is_one_of(&v, &["mkfs.xfs", "xfs_repair"]) {
        "xfsprogs"
    } else if is_one_of(
        &v,
        &[
            "mkswap",
            "swapon",
            "swapoff",
            "mount",
            "umount",
            "cfdisk",
            "fdisk",
            "lsblk",
            "blkid",
            "findmnt",
        ],
    ) {
        "util-linux"
    } else if is_one_of(&v, &["basestrap", "fstabgen", "artix-chroot"]) {
        "artools"
    } else if is_one_of(&v, &["rc-service", "rc-update", "openrc"]) {
        "openrc"
    } else if is_one_of(&v, &["ntpd", "ntpdate", "ntpq"]) {
        "ntp"
    } else {
        program
    };
    String::from_str(pkg)
}

} // verus!
