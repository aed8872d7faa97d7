//! The host-platform model: the operating systems the resolver knows, path
//! joining, platform-specific shared-library file names, and the choice of
//! interpreter executable.

use vstd::prelude::*;

use crate::errors::BuildError;

verus! {

/// The operating systems the resolution conventions distinguish.
#[derive(Debug, Clone, Copy, PartialEq, Eq, Structural)]
pub enum Os {
    Linux,
    MacOs,
    Windows,
    Other,
}

/// Joining a directory and an entry name with the portable separator.
pub open spec fn spec_join(a: Seq<char>, b: Seq<char>) -> Seq<char> {
    a + "/"@ + b
}

/// Joins a directory and an entry name.
pub fn path_join(a: &str, b: &str) -> (r: String)
    ensures
        r@ == spec_join(a@, b@),
{
    let mut out = String::from_str(a);
    out.append("/");
    out.append(b);
    out
}

/// The file name of a shared library `name` on `os`, where that convention
/// exists: `lib<name>.so` or `<name>.dll`.
pub open spec fn spec_shared_library_file_name(name: Seq<char>, os: Os) -> Option<Seq<char>> {
    match os {
        Os::Linux => Some("lib"@ + name + ".so"@),
        Os::Windows => Some(name + ".dll"@),
        _ => None,
    }
}

/// The platform-specific file name of shared library `name`; `None` on a
/// platform without a known naming convention, where artifact probing always
/// reports absence.
pub fn shared_library_file_name(name: &str, os: Os) -> (r: Option<String>)
    ensures
        match r {
            Some(f) => spec_shared_library_file_name(name@, os) == Some(f@),
            None => spec_shared_library_file_name(name@, os) is None,
        },
{
    match os {
        Os::Linux => {
            let mut out = String::from_str("lib");
            out.append(name);
            out.append(".so");
            Some(out)
        },
        Os::Windows => {
            let mut out = String::from_str(name);
            out.append(".dll");
            Some(out)
        },
        _ => None,
    }
}

/// The interpreter executable to invoke for the embedded-interpreter probe:
/// inside a virtual environment the bare name, else the versioned name; on
/// the platform with suffixed executables, the suffixed name.
pub fn find_python_interpreter(os: Os, virtual_env_set: bool) -> (r: Result<String, BuildError>)
    ensures
        match r {
            Ok(p) => {
                &&& (os is Linux || os is MacOs || os is Windows)
                &&& p@ == if os is Windows {
                    "python.exe"@
                } else if virtual_env_set {
                    "python"@
                } else {
                    "python3"@
                }
            },
            Err(e) => os is Other && e == BuildError::UnsupportedPlatform,
        },
{
    match os {
        Os::Linux | Os::MacOs => {
            if virtual_env_set {
                Ok(String::from_str("python"))
            } else {
                Ok(String::from_str("python3"))
            }
        },
        Os::Windows => Ok(String::from_str("python.exe")),
        Os::Other => Err(BuildError::UnsupportedPlatform),
    }
}

} // verus!
