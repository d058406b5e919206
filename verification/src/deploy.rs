//! The deploy subcommand's option record and its one piece of decision
//! logic: which deploy script a package calls for.

use vstd::prelude::*;
use crate::chars::{contains_seq, str_contains};

verus! {

/// The options of the deploy subcommand.
pub struct Args {
    /// Target repository checkout, when not the default one.
    pub repo: Option<String>,
    /// Identifier of the device under test to deploy to.
    pub dut: String,
    /// Package to build and deploy.
    pub package: String,
    /// Log in to the device automatically after deploying.
    pub autologin: bool,
}

/// Whether the package is a kernel package, which deploys through the
/// kernel-update script rather than the ordinary deploy flow.
pub fn is_kernel_package(package: &str) -> (r: bool)
    ensures
        r == contains_seq(package@, "chromeos-kernel-"@),
{
    str_contains(package, "chromeos-kernel-")
}

} // verus!
