//! Error taxonomy of the resolution engine. Every failure aborts the build;
//! callers surface one descriptive message per variant.

use vstd::prelude::*;

verus! {

/// The ways resolution, capability detection, architecture parsing or the
/// version gate can fail.
#[derive(Debug, Clone, PartialEq, Eq)]
pub enum BuildError {
    /// No resolution source succeeded.
    NotFound,
    /// The interpreter probe subprocess failed or its output was malformed.
    ProbeScriptError(String),
    /// GPU support was demanded but no GPU runtime was detected.
    GpuUnavailable,
    /// A CUDA architecture token did not match `MAJOR.MINOR[+PTX]` or an alias.
    InvalidArchSpec(String),
    /// Device enumeration found no GPU device.
    NoDeviceFound,
    /// The reported library version differs from the expected one.
    VersionMismatch { expected: String, found: String },
    /// The host platform has no supported convention for this operation.
    UnsupportedPlatform,
    /// Neither `lib64` nor `lib` exists under a configured toolkit home.
    MissingCudaLibDir,
    /// No output directory was configured and none was inherited.
    MissingOutDir,
}

} // verus!
