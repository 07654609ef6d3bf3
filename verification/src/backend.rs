//! The backend contract: the closed set of supported package managers,
//! their cyclic toggle order, and the exact command lines each one answers to.

use vstd::prelude::*;
use vstd::string::StringExecFns;

verus! {

/// One of the supported package-manager integrations.
#[derive(Clone, Copy, Debug, PartialEq, Eq, Structural)]
pub enum PackageManager {
    Pkg,
    Apt,
    Pip,
}

impl PackageManager {
    /// The successor in the cyclic toggle order Pkg -> Apt -> Pip -> Pkg.
    pub open spec fn spec_next(self) -> PackageManager {
        match self {
            PackageManager::Pkg => PackageManager::Apt,
            PackageManager::Apt => PackageManager::Pip,
            PackageManager::Pip => PackageManager::Pkg,
        }
    }

    /// Computes the backend that a toggle switches to.
    pub fn next(self) -> (r: PackageManager)
        ensures
            r == self.spec_next(),
    {
        match self {
            PackageManager::Pkg => PackageManager::Apt,
            PackageManager::Apt => PackageManager::Pip,
            PackageManager::Pip => PackageManager::Pkg,
        }
    }
}

/// Toggling the backend three times returns it to where it started:
/// the cycle Pkg -> Apt -> Pip -> Pkg is closed.
pub proof fn lemma_toggle_cycle(pm: PackageManager)
    ensures
        pm.spec_next().spec_next().spec_next() == pm,
{
}

/// The program each backend's commands run.
pub open spec fn spec_program(pm: PackageManager) -> Seq<char> {
    match pm {
        PackageManager::Pkg => "pkg"@,
        PackageManager::Apt => "apt"@,
        PackageManager::Pip => "pip"@,
    }
}

/// The command that lists installed packages: the program name and its
/// arguments, exactly as the external process must receive them.
pub fn list_command(pm: PackageManager) -> (r: (&'static str, Vec<&'static str>))
    ensures
        r.0@ == spec_program(pm),
        match pm {
            PackageManager::Pkg => r.1@.len() == 1 && r.1@[0]@ == "list-installed"@,
            PackageManager::Apt => r.1@.len() == 2 && r.1@[0]@ == "list"@ && r.1@[1]@
                == "--installed"@,
            PackageManager::Pip => r.1@.len() == 1 && r.1@[0]@ == "list"@,
        },
{
    match pm {
        PackageManager::Pkg => {
            let mut args: Vec<&'static str> = Vec::new();
            args.push("list-installed");
            ("pkg", args)
        },
        PackageManager::Apt => {
            let mut args: Vec<&'static str> = Vec::new();
            args.push("list");
            args.push("--installed");
            ("apt", args)
        },
        PackageManager::Pip => {
            let mut args: Vec<&'static str> = Vec::new();
            args.push("list");
            ("pip", args)
        },
    }
}

/// The command that shows one package's details: the program name and its
/// arguments, with the package name as the final argument.
pub fn show_command(pm: PackageManager, name: &str) -> (r: (&'static str, Vec<String>))
    ensures
        r.0@ == spec_program(pm),
        r.1@.len() == 2,
        r.1@[0]@ == "show"@,
        r.1@[1]@ == name@,
{
    let program = match pm {
        PackageManager::Pkg => "pkg",
        PackageManager::Apt => "apt",
        PackageManager::Pip => "pip",
    };
    let mut args: Vec<String> = Vec::new();
    args.push(String::from_str("show"));
    args.push(String::from_str(name));
    (program, args)
}

/// The title of the list view for the active backend.
pub open spec fn spec_title(pm: PackageManager) -> Seq<char> {
    match pm {
        PackageManager::Pkg => "Installed Packages (pkg)"@,
        PackageManager::Apt => "Installed Packages (apt)"@,
        PackageManager::Pip => "Installed Packages (pip)"@,
    }
}

/// The list view's title string for the active backend.
pub fn title(pm: PackageManager) -> (r: &'static str)
    ensures
        r@ == spec_title(pm),
{
    match pm {
        PackageManager::Pkg => "Installed Packages (pkg)",
        PackageManager::Apt => "Installed Packages (apt)",
        PackageManager::Pip => "Installed Packages (pip)",
    }
}

} // verus!
