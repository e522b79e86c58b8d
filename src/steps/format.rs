//! Formatting the partitions according to their roles.
use vstd::prelude::*;
use crate::cmd::{Invocation, InvocationView, Mode, ModeView};
use crate::config::Config;
use crate::text::{concat2, concat3};

verus! {

/// A run of `program` on `args` with a progress indicator.
pub open spec fn silent_view(
    program: Seq<char>,
    args: Seq<Seq<char>>,
    progress: Seq<char>,
    done: Seq<char>,
) -> InvocationView {
    InvocationView { program, args, mode: ModeView::Silent { progress, done } }
}

/// The commands that format the partitions, in order: the EFI partition as
/// FAT32, the swap partition if there is one, the root partition as ext4.
pub open spec fn format_plan(efi: Seq<char>, swap: Option<Seq<char>>, root: Seq<char>) -> Seq<
    InvocationView,
> {
    let fat = silent_view(
        "mkfs.fat"@,
        seq!["-F32"@, efi],
        "Formatting "@ + efi + " as FAT32…"@,
        efi + " formatted as FAT32 (EFI/boot)."@,
    );
    let ext4 = silent_view(
        "mkfs.ext4"@,
        seq![root],
        "Formatting "@ + root + " as ext4…"@,
        root + " formatted as ext4 (root)."@,
    );
    match swap {
        Some(sw) => seq![
            fat,
            silent_view(
                "mkswap"@,
                seq![sw],
                "Initialising swap on "@ + sw + "…"@,
                sw + " initialised as swap."@,
            ),
            ext4,
        ],
        None => seq![fat, ext4],
    }
}

/// The views of a list of invocations.
pub open spec fn plan_view(v: Seq<Invocation>) -> Seq<InvocationView> {
    v.map_values(|i: Invocation| i@)
}

/// A silent run of `program` on the arguments `args`.
pub fn silent(program: &str, args: &[&str], progress: String, done: String) -> (r: Invocation)
    ensures
        r@ == silent_view(program@, args@.map_values(|a: &str| a@), progress@, done@),
{
    let r = Invocation::new(program, args, Mode::Silent { progress, done });
    assert(r@.args =~= args@.map_values(|a: &str| a@));
    r
}

/// The commands that format the partitions of `config`, in the order they
/// run; the caller runs each one silently and stops at the first failure.
pub fn run(config: &Config) -> (r: Vec<Invocation>)
    ensures
        plan_view(r@) == format_plan(
            config.efi_partition@,
            match config.swap_partition {
                Some(s) => Some(s@),
                None => None,
            },
            config.root_partition@,
        ),
{
    let efi = config.efi_partition.as_str();
    let root = config.root_partition.as_str();
    let mut r: Vec<Invocation> = Vec::new();
    let args = ["-F32", efi];
    assert(args@.map_values(|a: &str| a@) =~= seq!["-F32"@, efi@]);
    let fat = silent(
        "mkfs.fat",
        &args,
        concat3("Formatting ", efi, " as FAT32…"),
        concat2(efi, " formatted as FAT32 (EFI/boot)."),
    );
    r.push(fat);
    if let Some(sw) = &config.swap_partition {
        let sw = sw.as_str();
        let args = [sw];
        assert(args@.map_values(|a: &str| a@) =~= seq![sw@]);
        r.push(
            silent(
                "mkswap",
                &args,
                concat3("Initialising swap on ", sw, "…"),
                concat2(sw, " initialised as swap."),
            ),
        );
    }
    let args = [root];
    assert(args@.map_values(|a: &str| a@) =~= seq![root@]);
    r.push(
        silent(
            "mkfs.ext4",
            &args,
            concat3("Formatting ", root, " as ext4…"),
            concat2(root, " formatted as ext4 (root)."),
        ),
    );
    assert(plan_view(r@) =~= format_plan(
        config.efi_partition@,
        match config.swap_partition {
            Some(s) => Some(s@),
            None => None,
        },
        config.root_partition@,
    ));
    r
}

} // verus!
