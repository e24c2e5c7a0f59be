//! Packages installed with dpkg (Debian and derivatives): removal and
//! description. The listing of installed dpkg packages is not provided, so
//! dpkg applications appear only where a caller lists them.

use vstd::prelude::*;
use crate::applications::models::PackageSource;
use crate::applications::traits::{PackageManagerProvider, str_views};

verus! {

/// The dpkg/APT package manager.
pub struct DpkgProvider;

impl DpkgProvider {
    pub fn new() -> (r: Self) {
        DpkgProvider
    }
}

impl PackageManagerProvider for DpkgProvider {
    fn name(&self) -> (r: &'static str)
        ensures
            r@ == "APT"@,
    {
        "APT"
    }

    fn source(&self) -> (r: PackageSource)
        ensures
            r == PackageSource::Dpkg,
    {
        PackageSource::Dpkg
    }

    /// Removes with `apt-get remove -y <package>`.
    fn uninstall_command(&self, package_id: &str) -> (r: (String, Vec<String>))
        ensures
            r.0@ == "apt-get"@,
            str_views(r.1@) == seq!["remove"@, "-y"@, package_id@],
    {
        ("apt-get".to_owned(), vec!["remove".to_owned(), "-y".to_owned(), package_id.to_owned()])
    }

    /// Describes with `dpkg -s <package>`.
    fn details_command(&self, package_id: &str) -> (r: (String, Vec<String>))
        ensures
            r.0@ == "dpkg"@,
            str_views(r.1@) == seq!["-s"@, package_id@],
    {
        ("dpkg".to_owned(), vec!["-s".to_owned(), package_id.to_owned()])
    }
}

} // verus!
