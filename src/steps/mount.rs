//! Mounting the partitions into the installation tree under `/mnt`.
use vstd::prelude::*;
use crate::cmd::{Invocation, InvocationView, Mode, ModeView};
use crate::config::Config;
use crate::steps::format::{plan_view, silent, silent_view};
use crate::text::{concat2, concat3};

verus! {

/// The commands that mount a layout, in order: the root partition at `/mnt`;
/// for a swap partition a best-effort `swapoff` (it may still be active from
/// an earlier run) and then `swapon`; the boot mount point; the EFI partition
/// at `/mnt/boot`.
pub open spec fn mount_plan(efi: Seq<char>, swap: Option<Seq<char>>, root: Seq<char>) -> Seq<
    InvocationView,
> {
    let root_mount = silent_view(
        "mount"@,
        seq![root, "/mnt"@],
        "Mounting "@ + root + " → /mnt…"@,
        root + " mounted at /mnt."@,
    );
    let boot_dir = silent_view(
        "mkdir"@,
        seq!["-p"@, "/mnt/boot"@],
        "Creating /mnt/boot…"@,
        "Directory /mnt/boot created."@,
    );
    let efi_mount = silent_view(
        "mount"@,
        seq![efi, "/mnt/boot"@],
        "Mounting "@ + efi + " → /mnt/boot…"@,
        efi + " mounted at /mnt/boot."@,
    );
    match swap {
        Some(sw) => seq![
            root_mount,
            InvocationView { program: "swapoff"@, args: seq![sw], mode: ModeView::BestEffort },
            silent_view(
                "swapon"@,
                seq![sw],
                "Activating swap on "@ + sw + "…"@,
                "Swap on "@ + sw + " activated."@,
            ),
            boot_dir,
            efi_mount,
        ],
        None => seq![root_mount, boot_dir, efi_mount],
    }
}

/// The commands that mount the partitions of `config`, in the order they run;
/// the caller stops at the first failure of a command that is not best-effort.
pub fn run(config: &Config) -> (r: Vec<Invocation>)
    ensures
        plan_view(r@) == mount_plan(
            config.efi_partition@,
            match config.swap_partition {
                Some(s) => Some(s@),
                None => None,
            },
            config.root_partition@,
        ),
{
    let efi = config.efi_partition.as_str();
    let root = config.root_partition.as_str();
    let mut r: Vec<Invocation> = Vec::new();
    let args = [root, "/mnt"];
    assert(args@.map_values(|a: &str| a@) =~= seq![root@, "/mnt"@]);
    r.push(
        silent(
            "mount",
            &args,
            concat3("Mounting ", root, " → /mnt…"),
            concat2(root, " mounted at /mnt."),
        ),
    );
    if let Some(sw) = &config.swap_partition {
        let sw = sw.as_str();
        let args = [sw];
        assert(args@.map_values(|a: &str| a@) =~= seq![sw@]);
        let off = Invocation::new("swapoff", &args, Mode::BestEffort);
        assert(off@.args =~= seq![sw@]);
        r.push(off);
        r.push(
            silent(
                "swapon",
                &args,
                concat3("Activating swap on ", sw, "…"),
                concat3("Swap on ", sw, " activated."),
            ),
        );
    }
    let args = ["-p", "/mnt/boot"];
    assert(args@.map_values(|a: &str| a@) =~= seq!["-p"@, "/mnt/boot"@]);
    r.push(
        silent(
            "mkdir",
            &args,
            String::from_str("Creating /mnt/boot…"),
            String::from_str("Directory /mnt/boot created."),
        ),
    );
    let args = [efi, "/mnt/boot"];
    assert(args@.map_values(|a: &str| a@) =~= seq![efi@, "/mnt/boot"@]);
    r.push(
        silent(
            "mount",
            &args,
            concat3("Mounting ", efi, " → /mnt/boot…"),
            concat2(efi, " mounted at /mnt/boot."),
        ),
    );
    assert(plan_view(r@) =~= mount_plan(
        config.efi_partition@,
        match config.swap_partition {
            Some(s) => Some(s@),
            None => None,
        },
        config.root_partition@,
    ));
    r
}

} // verus!
