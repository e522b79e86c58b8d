//! Detecting the boot mode.
use vstd::prelude::*;
use crate::error::InstallerError;

verus! {

/// Whether the installation targets UEFI: a dry run always does, so that
/// every prompt can be exercised; otherwise it does when the firmware exposes
/// EFI variables.
pub fn check(dry_run: bool, efi_variables_present: bool) -> (r: Result<bool, InstallerError>)
    ensures
        r == Ok::<bool, InstallerError>(dry_run || efi_variables_present),
{
    if dry_run {
        Ok(true)
    } else {
        Ok(efi_variables_present)
    }
}

} // verus!
