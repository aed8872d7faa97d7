//! The resolution engine: the ordered fallback chain that locates the
//! library, capability detection from artifact presence, parsing of the
//! interpreter probe's output, ABI detection and the version gate.

use vstd::prelude::*;

use crate::errors::BuildError;
use crate::library::{Api, CudaApi, CudaSplitApi, HipApi, Library};
use crate::platform::{path_join, spec_join, Os};
use crate::strutil::{
    has_prefix, spec_split, spec_trim, split_str, str_eq, strip_prefix_str, trim_str,
};

verus! {

// ---------------------------------------------------------------------------
// The resolution chain.
// ---------------------------------------------------------------------------

/// How the library directory is to be found: the first applicable source of
/// the fallback chain.
#[derive(Debug, Clone, PartialEq, Eq)]
pub enum LibtorchSource {
    /// The explicit override path, taken verbatim.
    Manual(String),
    /// The well-known system prefix.
    System,
    /// Probe the embedded interpreter's installation.
    PyTorch,
    /// Download and extract an archive.
    Download,
}

/// Selects the resolution source. The chain is: explicit override; the
/// well-known system library on the one platform with that convention; the
/// embedded interpreter when so requested; download when permitted; else
/// resolution fails.
pub fn select_libtorch_source(
    libtorch_env: &Option<String>,
    os: Os,
    system_libtorch_exists: bool,
    use_pytorch: bool,
    download_enabled: bool,
) -> (r: Result<LibtorchSource, BuildError>)
    ensures
        match r {
            Ok(s) => match s {
                LibtorchSource::Manual(p) => libtorch_env matches Some(q) && p@ == q@,
                LibtorchSource::System => {
                    &&& libtorch_env is None
                    &&& os is Linux && system_libtorch_exists
                },
                LibtorchSource::PyTorch => {
                    &&& libtorch_env is None
                    &&& !(os is Linux && system_libtorch_exists)
                    &&& use_pytorch
                },
                LibtorchSource::Download => {
                    &&& libtorch_env is None
                    &&& !(os is Linux && system_libtorch_exists)
                    &&& !use_pytorch
                    &&& download_enabled
                },
            },
            Err(e) => {
                &&& e == BuildError::NotFound
                &&& libtorch_env is None
                &&& !(os is Linux && system_libtorch_exists)
                &&& !use_pytorch
                &&& !download_enabled
            },
        },
{
    match libtorch_env {
        Some(dir) => Ok(LibtorchSource::Manual(dir.clone())),
        None => {
            if matches!(os, Os::Linux) && system_libtorch_exists {
                Ok(LibtorchSource::System)
            } else if use_pytorch {
                Ok(LibtorchSource::PyTorch)
            } else if download_enabled {
                Ok(LibtorchSource::Download)
            } else {
                Err(BuildError::NotFound)
            }
        },
    }
}

// ---------------------------------------------------------------------------
// Capability detection.
// ---------------------------------------------------------------------------

/// Which GPU runtime artifacts exist in the resolved `lib` directory, as
/// probed by the caller with the platform's shared-library naming.
#[derive(Debug, Clone, Copy, PartialEq, Eq, Structural)]
pub struct LibArtifacts {
    pub torch_hip: bool,
    pub torch_cuda_cu: bool,
    pub torch_cuda_cpp: bool,
    pub torch_cuda: bool,
}

/// The detection rule: HIP first, and only when its artifact is present;
/// then the split CUDA modules; then the monolithic CUDA runtime.
/// Configuration alone never upgrades capability — only artifact presence
/// does — and artifacts without configuration detect nothing.
pub open spec fn spec_api_matches(
    r: Api,
    rocm_home: Option<String>,
    cuda_home: Option<String>,
    cudnn_home: Option<String>,
    artifacts: LibArtifacts,
) -> bool {
    if rocm_home matches Some(_) && artifacts.torch_hip {
        &&& r matches Api::Hip(h)
        &&& rocm_home matches Some(rh) && h.rocm_home@ == rh@ && h.miopen_home@ == spec_join(
            rh@,
            "miopen"@,
        )
    } else if cuda_home matches Some(_) && artifacts.torch_cuda_cu && artifacts.torch_cuda_cpp {
        &&& r matches Api::CudaSplit(a)
        &&& cuda_home matches Some(ch) && a.cuda_home@ == ch@
        &&& spec_cudnn_matches(a.cudnn_home, cudnn_home)
    } else if cuda_home matches Some(_) && artifacts.torch_cuda {
        &&& r matches Api::Cuda(a)
        &&& cuda_home matches Some(ch) && a.cuda_home@ == ch@
        &&& spec_cudnn_matches(a.cudnn_home, cudnn_home)
    } else {
        r is Cpu
    }
}

/// The stored deep-learning library home mirrors the configured one.
pub open spec fn spec_cudnn_matches(stored: Option<String>, given: Option<String>) -> bool {
    match given {
        Some(c) => stored matches Some(d) && d@ == c@,
        None => stored is None,
    }
}

/// Detects the GPU API variant from toolkit configuration and artifact
/// presence. A toolkit configured without its runtime artifact downgrades to
/// no GPU support rather than failing; the caller may warn.
pub fn probe_cuda_api(
    rocm_home: &Option<String>,
    cuda_home: &Option<String>,
    cudnn_home: &Option<String>,
    artifacts: LibArtifacts,
) -> (r: Api)
    ensures
        spec_api_matches(r, *rocm_home, *cuda_home, *cudnn_home, artifacts),
{
    match rocm_home {
        Some(rh) if artifacts.torch_hip => {
            let miopen_home = path_join(rh.as_str(), "miopen");
            return Api::Hip(HipApi { rocm_home: rh.clone(), miopen_home });
        },
        _ => {},
    }
    match cuda_home {
        Some(ch) => {
            let cudnn = match cudnn_home {
                Some(c) => Some(c.clone()),
                None => None,
            };
            if artifacts.torch_cuda_cu && artifacts.torch_cuda_cpp {
                Api::CudaSplit(CudaSplitApi { cuda_home: ch.clone(), cudnn_home: cudnn })
            } else if artifacts.torch_cuda {
                Api::Cuda(CudaApi { cuda_home: ch.clone(), cudnn_home: cudnn })
            } else {
                Api::Cpu
            }
        },
        None => Api::Cpu,
    }
}

/// With no toolkit configured, detection reports no GPU support, whatever
/// artifacts are present: removing configuration while artifacts remain
/// leaves detection at nothing.
pub proof fn lemma_api_needs_configuration(r: Api, artifacts: LibArtifacts)
    requires
        spec_api_matches(r, None, None, None, artifacts),
    ensures
        r is Cpu,
{
}

/// With a CUDA toolkit configured, adding the expected artifact upgrades
/// detection from nothing to the corresponding variant: the monolithic
/// artifact alone gives the monolithic variant, both split artifacts give
/// the split variant, and no artifact gives nothing.
pub proof fn lemma_artifact_presence_upgrades(
    r_none: Api,
    r_mono: Api,
    r_split: Api,
    cuda_home: Option<String>,
    cudnn_home: Option<String>,
)
    requires
        cuda_home is Some,
        spec_api_matches(
            r_none,
            None,
            cuda_home,
            cudnn_home,
            (LibArtifacts {
                torch_hip: false,
                torch_cuda_cu: false,
                torch_cuda_cpp: false,
                torch_cuda: false,
            }),
        ),
        spec_api_matches(
            r_mono,
            None,
            cuda_home,
            cudnn_home,
            (LibArtifacts {
                torch_hip: false,
                torch_cuda_cu: false,
                torch_cuda_cpp: false,
                torch_cuda: true,
            }),
        ),
        spec_api_matches(
            r_split,
            None,
            cuda_home,
            cudnn_home,
            (LibArtifacts {
                torch_hip: false,
                torch_cuda_cu: true,
                torch_cuda_cpp: true,
                torch_cuda: false,
            }),
        ),
    ensures
        r_none is Cpu,
        r_mono matches Api::Cuda(_),
        r_split matches Api::CudaSplit(_),
{
}

/// With a ROCm toolkit configured, the HIP artifact upgrades detection to
/// the HIP variant, and it takes priority over a coexisting CUDA
/// configuration only through its artifact's presence.
pub proof fn lemma_hip_artifact_priority(
    r_without: Api,
    r_with: Api,
    rocm_home: Option<String>,
    cuda_home: Option<String>,
    a_without: LibArtifacts,
    a_with: LibArtifacts,
)
    requires
        rocm_home is Some,
        !a_without.torch_hip,
        a_with == (LibArtifacts {
            torch_hip: true,
            torch_cuda_cu: a_without.torch_cuda_cu,
            torch_cuda_cpp: a_without.torch_cuda_cpp,
            torch_cuda: a_without.torch_cuda,
        }),
        spec_api_matches(r_without, rocm_home, cuda_home, None, a_without),
        spec_api_matches(r_with, rocm_home, cuda_home, None, a_with),
    ensures
        !(r_without matches Api::Hip(_)),
        r_with matches Api::Hip(_),
{
}

// ---------------------------------------------------------------------------
// Assembling the resolved installation.
// ---------------------------------------------------------------------------

/// The header directories under a resolved installation prefix: the base
/// include directory, the C++ frontend headers, the two tensor-header
/// trees, and the HIP tree when that variant was detected.
pub open spec fn spec_prefix_include_dirs(dir: Seq<char>, api: Api) -> Seq<Seq<char>> {
    let base = spec_join(dir, "include"@);
    seq![
        base,
        spec_join(spec_join(spec_join(spec_join(base, "torch"@), "csrc"@), "api"@), "include"@),
        spec_join(base, "TH"@),
        spec_join(base, "THC"@),
    ] + if api matches Api::Hip(_) {
        seq![spec_join(base, "thh"@)]
    } else {
        Seq::<Seq<char>>::empty()
    }
}

/// Builds the resolved installation from a prefix directory found by the
/// path-based sources: the library directory is the prefix's `lib`, and the
/// header directories follow the installation layout.
pub fn assemble_library(libtorch_dir: &str, use_cxx11_abi: bool, api: Api) -> (r: Library)
    ensures
        r.lib_dir@ == spec_join(libtorch_dir@, "lib"@),
        r.include_dirs.deep_view() == spec_prefix_include_dirs(libtorch_dir@, r.api),
        r.use_cxx11_abi == use_cxx11_abi,
        r.api == api,
{
    let lib_dir = path_join(libtorch_dir, "lib");
    let base = path_join(libtorch_dir, "include");
    let mut include_dirs: Vec<String> = Vec::new();
    include_dirs.push(base.clone());
    let frontend = {
        let a = path_join(base.as_str(), "torch");
        let b = path_join(a.as_str(), "csrc");
        let c = path_join(b.as_str(), "api");
        path_join(c.as_str(), "include")
    };
    include_dirs.push(frontend);
    include_dirs.push(path_join(base.as_str(), "TH"));
    include_dirs.push(path_join(base.as_str(), "THC"));
    let is_hip = match &api {
        Api::Hip(_) => true,
        _ => false,
    };
    if is_hip {
        include_dirs.push(path_join(base.as_str(), "thh"));
    }
    proof {
        assert(include_dirs.deep_view() =~~= spec_prefix_include_dirs(libtorch_dir@, api));
    }
    Library { include_dirs, lib_dir, api, use_cxx11_abi }
}

/// Builds the resolved installation from what the interpreter probe
/// reported: its directories are taken as they came.
pub fn library_from_pytorch_probe(probe: ProbePyTorch, api: Api) -> (r: Library)
    ensures
        r.include_dirs == probe.include_dirs,
        r.lib_dir == probe.lib_dir,
        r.use_cxx11_abi == probe.use_cxx11_abi,
        r.api == api,
{
    Library {
        include_dirs: probe.include_dirs,
        lib_dir: probe.lib_dir,
        api,
        use_cxx11_abi: probe.use_cxx11_abi,
    }
}

// ---------------------------------------------------------------------------
// ABI detection and flag parsing.
// ---------------------------------------------------------------------------

/// Reads an ABI override value: `"1"` demands the new ABI, `"0"` the old
/// one, anything else is ignored.
pub fn parse_abi_override(val: &str) -> (r: Option<bool>)
    ensures
        r == if val@ == "1"@ {
            Some(true)
        } else if val@ == "0"@ {
            Some(false)
        } else {
            None::<bool>
        },
{
    if str_eq(val, "1") {
        Some(true)
    } else if str_eq(val, "0") {
        Some(false)
    } else {
        None
    }
}

/// Reads a boolean flag value: set and not `"0"` means on.
pub fn parse_flag_env(val: &str) -> (r: bool)
    ensures
        r == (val@ != "0"@),
{
    !str_eq(val, "0")
}

/// Resolves the C++ standard-library ABI: an override wins outright; else
/// one platform always uses the new ABI, the platform with both ABIs in
/// circulation goes by the cached marker-probe sentinel, and the rest
/// default to the new ABI.
pub fn probe_cxx11_abi(override_val: Option<bool>, os: Os, sentinel_exists: bool) -> (r: bool)
    ensures
        r == match override_val {
            Some(v) => v,
            None => if os is Linux {
                sentinel_exists
            } else {
                true
            },
        },
{
    match override_val {
        Some(v) => v,
        None => match os {
            Os::Linux => sentinel_exists,
            _ => true,
        },
    }
}

// ---------------------------------------------------------------------------
// The version gate.
// ---------------------------------------------------------------------------

/// The prefix of `s` before its first `c`, or all of `s`.
pub open spec fn before_char(s: Seq<char>, c: char) -> Seq<char>
    decreases s.len(),
{
    if s.len() == 0 {
        Seq::empty()
    } else if s[0] == c {
        Seq::empty()
    } else {
        seq![s[0]] + before_char(s.skip(1), c)
    }
}

/// The version a report denotes: trimmed, with any `+suffix` build tag
/// stripped.
pub open spec fn spec_version_base(reported: Seq<char>) -> Seq<char> {
    before_char(spec_trim(reported), '+')
}

proof fn lemma_before_char_take(s: Seq<char>, c: char, i: int)
    requires
        0 <= i <= s.len(),
        forall|k: int| 0 <= k < i ==> s[k] != c,
        i < s.len() ==> s[i] == c,
    ensures
        before_char(s, c) == s.take(i),
    decreases i,
{
    if s.len() == 0 {
        assert(s.take(i) =~= Seq::<char>::empty());
    } else if i == 0 {
        assert(s.take(0) =~= Seq::<char>::empty());
    } else {
        assert(s[0] != c);
        let t = s.skip(1);
        assert(forall|k: int| 0 <= k < i - 1 ==> t[k] == #[trigger] s[k + 1]);
        lemma_before_char_take(t, c, i - 1);
        assert(before_char(s, c) == seq![s[0]] + t.take(i - 1));
        assert(seq![s[0]] + t.take(i - 1) =~= s.take(i));
    }
}

/// The version gate. A bypassed check always succeeds; otherwise the
/// reported version, trimmed and with any `+suffix` stripped, must read
/// exactly as the expected one, else the mismatch is a hard failure naming
/// both versions.
pub fn check_pytorch_version(reported: &str, expected: &str, bypass: bool) -> (r: Result<
    (),
    BuildError,
>)
    ensures
        bypass ==> r is Ok,
        r is Ok <==> (bypass || spec_version_base(reported@) == expected@),
        match r {
            Ok(()) => true,
            Err(e) => {
                &&& e matches BuildError::VersionMismatch { expected: ex, found: f }
                &&& ex@ == expected@
                &&& f@ == spec_version_base(reported@)
            },
        },
{
    if bypass {
        return Ok(());
    }
    let trimmed = trim_str(reported);
    let t = trimmed.as_str();
    let tlen = t.unicode_len();
    let mut i: usize = 0;
    while i < tlen && t.get_char(i) != '+'
        invariant
            tlen == t@.len(),
            i <= tlen,
            forall|k: int| 0 <= k < i ==> t@[k] != '+',
        decreases tlen - i,
    {
        i = i + 1;
    }
    proof {
        lemma_before_char_take(t@, '+', i as int);
    }
    let base = t.substring_char(0, i);
    proof {
        assert(t@.subrange(0, i as int) =~= t@.take(i as int));
    }
    if str_eq(base, expected) {
        Ok(())
    } else {
        Err(
            BuildError::VersionMismatch {
                expected: String::from_str(expected),
                found: String::from_str(base),
            },
        )
    }
}

// ---------------------------------------------------------------------------
// Interpreter probe output.
// ---------------------------------------------------------------------------

/// What the embedded-interpreter probe reports: header directories, the
/// library directory, and which standard-library ABI the installation was
/// built with.
#[derive(Debug, Clone, PartialEq, Eq)]
pub struct ProbePyTorch {
    pub include_dirs: Vec<String>,
    pub lib_dir: String,
    pub use_cxx11_abi: bool,
}

/// The running state of reading the probe's `KEY: value` lines.
pub enum ProbeFold {
    /// No failing line so far; the fields collected up to here.
    Going { includes: Seq<Seq<char>>, lib_dir: Option<Seq<char>>, cxx11: Option<bool> },
    /// An ABI line whose value was neither of the two accepted words.
    BadLine(Seq<char>),
    /// A version line that failed the version gate; the stripped version.
    BadVersion(Seq<char>),
}

/// One line of probe output applied to the running state.
pub open spec fn spec_probe_step(
    st: ProbeFold,
    line: Seq<char>,
    expected: Seq<char>,
    bypass: bool,
) -> ProbeFold {
    match st {
        ProbeFold::Going { includes, lib_dir, cxx11 } => {
            if has_prefix(line, "LIBTORCH_VERSION: "@) {
                let v = line.skip("LIBTORCH_VERSION: "@.len() as int);
                if bypass || spec_version_base(v) == expected {
                    st
                } else {
                    ProbeFold::BadVersion(spec_version_base(v))
                }
            } else if has_prefix(line, "LIBTORCH_CXX11: "@) {
                let v = line.skip("LIBTORCH_CXX11: "@.len() as int);
                if v == "True"@ {
                    ProbeFold::Going { includes, lib_dir, cxx11: Some(true) }
                } else if v == "False"@ {
                    ProbeFold::Going { includes, lib_dir, cxx11: Some(false) }
                } else {
                    ProbeFold::BadLine(line)
                }
            } else if has_prefix(line, "LIBTORCH_INCLUDE: "@) {
                let v = line.skip("LIBTORCH_INCLUDE: "@.len() as int);
                ProbeFold::Going { includes: includes.push(v), lib_dir, cxx11 }
            } else if has_prefix(line, "LIBTORCH_LIB: "@) {
                let v = line.skip("LIBTORCH_LIB: "@.len() as int);
                ProbeFold::Going { includes, lib_dir: Some(v), cxx11 }
            } else {
                st
            }
        },
        _ => st,
    }
}

/// The first `n` lines of probe output folded from an empty state.
pub open spec fn spec_probe_fold(
    lines: Seq<String>,
    expected: Seq<char>,
    bypass: bool,
    n: int,
) -> ProbeFold
    decreases n,
{
    if n <= 0 {
        ProbeFold::Going { includes: Seq::empty(), lib_dir: None, cxx11: None }
    } else {
        spec_probe_step(
            spec_probe_fold(lines, expected, bypass, n - 1),
            lines[n - 1]@,
            expected,
            bypass,
        )
    }
}

/// Once a line has failed, later lines change nothing.
proof fn lemma_probe_fold_error_stable(
    lines: Seq<String>,
    expected: Seq<char>,
    bypass: bool,
    n: int,
    m: int,
)
    requires
        0 <= n <= m,
        !(spec_probe_fold(lines, expected, bypass, n) matches ProbeFold::Going { .. }),
    ensures
        spec_probe_fold(lines, expected, bypass, m) == spec_probe_fold(lines, expected, bypass, n),
    decreases m - n,
{
    if m > n {
        lemma_probe_fold_error_stable(lines, expected, bypass, n, m - 1);
    }
}

/// Parses the probe's stdout lines. Succeeds exactly when no version or ABI
/// line failed and both required keys appeared; the last occurrence of a
/// single-valued key wins.
pub fn parse_pytorch_probe(lines: &Vec<String>, expected_version: &str, bypass: bool) -> (r:
    Result<ProbePyTorch, BuildError>)
    ensures
        ({
            let outcome = spec_probe_fold(lines@, expected_version@, bypass, lines@.len() as int);
            match r {
                Ok(p) => {
                    &&& outcome matches ProbeFold::Going { includes, lib_dir, cxx11 }
                    &&& p.include_dirs.deep_view() == includes
                    &&& lib_dir matches Some(l) && p.lib_dir@ == l
                    &&& cxx11 matches Some(c) && p.use_cxx11_abi == c
                },
                Err(e) => match outcome {
                    ProbeFold::Going { includes, lib_dir, cxx11 } => {
                        &&& (lib_dir is None || cxx11 is None)
                        &&& e matches BuildError::ProbeScriptError(m)
                        &&& if cxx11 is None {
                            m@ == "no LIBTORCH_CXX11 returned by the probe script"@
                        } else {
                            m@ == "no LIBTORCH_LIB returned by the probe script"@
                        }
                    },
                    ProbeFold::BadLine(l) => e matches BuildError::ProbeScriptError(m) && m@ == l,
                    ProbeFold::BadVersion(v) => {
                        &&& e matches BuildError::VersionMismatch { expected: ex, found: f }
                        &&& ex@ == expected_version@
                        &&& f@ == v
                    },
                },
            }
        }),
{
    let mut includes: Vec<String> = Vec::new();
    let mut lib_dir: Option<String> = None;
    let mut cxx11: Option<bool> = None;
    let mut i: usize = 0;
    while i < lines.len()
        invariant
            i <= lines@.len(),
            ({
                let st = spec_probe_fold(lines@, expected_version@, bypass, i as int);
                &&& st matches ProbeFold::Going { includes: inc, lib_dir: ld, cxx11: cx }
                &&& includes.deep_view() == inc
                &&& match lib_dir {
                    Some(l) => ld matches Some(x) && l@ == x,
                    None => ld is None,
                }
                &&& match cxx11 {
                    Some(c) => cx == Some(c),
                    None => cx is None,
                }
            }),
        decreases lines@.len() - i,
    {
        let line = &lines[i];
        if let Some(v) = strip_prefix_str(line.as_str(), "LIBTORCH_VERSION: ") {
            match check_pytorch_version(v.as_str(), expected_version, bypass) {
                Ok(()) => {},
                Err(e) => {
                    proof {
                        let next = spec_probe_fold(
                            lines@,
                            expected_version@,
                            bypass,
                            i + 1 as int,
                        );
                        assert(next matches ProbeFold::BadVersion(w) && w == spec_version_base(
                            lines@[i as int]@.skip("LIBTORCH_VERSION: "@.len() as int),
                        ));
                        lemma_probe_fold_error_stable(
                            lines@,
                            expected_version@,
                            bypass,
                            i + 1 as int,
                            lines@.len() as int,
                        );
                    }
                    return Err(e);
                },
            }
        } else if let Some(v) = strip_prefix_str(line.as_str(), "LIBTORCH_CXX11: ") {
            if str_eq(v.as_str(), "True") {
                cxx11 = Some(true);
            } else if str_eq(v.as_str(), "False") {
                cxx11 = Some(false);
            } else {
                proof {
                    let next = spec_probe_fold(lines@, expected_version@, bypass, i + 1 as int);
                    assert(next matches ProbeFold::BadLine(l) && l == lines@[i as int]@);
                    lemma_probe_fold_error_stable(
                        lines@,
                        expected_version@,
                        bypass,
                        i + 1 as int,
                        lines@.len() as int,
                    );
                }
                return Err(BuildError::ProbeScriptError(line.clone()));
            }
        } else if let Some(v) = strip_prefix_str(line.as_str(), "LIBTORCH_INCLUDE: ") {
            let ghost pre = includes.deep_view();
            includes.push(v);
            proof {
                let st = spec_probe_fold(lines@, expected_version@, bypass, i as int);
                assert(includes.deep_view() =~~= pre.push(lines@[i as int]@.skip(
                    "LIBTORCH_INCLUDE: "@.len() as int,
                )));
            }
        } else if let Some(v) = strip_prefix_str(line.as_str(), "LIBTORCH_LIB: ") {
            lib_dir = Some(v);
        }
        i = i + 1;
    }
    let lib_dir = match lib_dir {
        Some(l) => l,
        None => {
            if matches!(cxx11, None) {
                return Err(
                    BuildError::ProbeScriptError(
                        String::from_str("no LIBTORCH_CXX11 returned by the probe script"),
                    ),
                );
            }
            return Err(
                BuildError::ProbeScriptError(
                    String::from_str("no LIBTORCH_LIB returned by the probe script"),
                ),
            );
        },
    };
    let use_cxx11_abi = match cxx11 {
        Some(c) => c,
        None => {
            return Err(
                BuildError::ProbeScriptError(
                    String::from_str("no LIBTORCH_CXX11 returned by the probe script"),
                ),
            );
        },
    };
    Ok(ProbePyTorch { include_dirs: includes, lib_dir, use_cxx11_abi })
}

// ---------------------------------------------------------------------------
// Interpreter compile/link flags.
// ---------------------------------------------------------------------------

/// The embedded interpreter's compile and link configuration, read from the
/// helper's `-I` / `-L` / `-l` tokens.
#[derive(Debug, Clone, PartialEq, Eq)]
pub struct ProbePython {
    pub includes: Vec<String>,
    pub link_searches: Vec<String>,
    pub libraries: Vec<String>,
}

/// The values of the first `n` tokens carrying the two-character prefix
/// `key`, in order.
pub open spec fn spec_flag_values(toks: Seq<Seq<char>>, key: Seq<char>, n: int) -> Seq<Seq<char>>
    decreases n,
{
    if n <= 0 {
        Seq::empty()
    } else {
        spec_flag_values(toks, key, n - 1) + if has_prefix(toks[n - 1], key) {
            seq![toks[n - 1].skip(key.len() as int)]
        } else {
            Seq::empty()
        }
    }
}

/// Parses the helper's output: tokens are split on blanks and line breaks,
/// and each token starting `-I`, `-L` or `-l` contributes its remainder to
/// the matching list; every other token is ignored.
pub fn parse_python_config(stdout: &str) -> (r: ProbePython)
    ensures
        ({
            let toks = spec_split(stdout@, seq![' ', '\n']);
            &&& r.includes.deep_view() == spec_flag_values(toks, "-I"@, toks.len() as int)
            &&& r.link_searches.deep_view() == spec_flag_values(toks, "-L"@, toks.len() as int)
            &&& r.libraries.deep_view() == spec_flag_values(toks, "-l"@, toks.len() as int)
        }),
{
    let mut seps: Vec<char> = Vec::new();
    seps.push(' ');
    seps.push('\n');
    proof {
        assert(seps@ =~= seq![' ', '\n']);
    }
    let tokens = split_str(stdout, &seps);
    let ghost toks = spec_split(stdout@, seq![' ', '\n']);
    let mut includes: Vec<String> = Vec::new();
    let mut link_searches: Vec<String> = Vec::new();
    let mut libraries: Vec<String> = Vec::new();
    let mut i: usize = 0;
    while i < tokens.len()
        invariant
            tokens.deep_view() == toks,
            i <= tokens@.len(),
            tokens@.len() == toks.len(),
            includes.deep_view() == spec_flag_values(toks, "-I"@, i as int),
            link_searches.deep_view() == spec_flag_values(toks, "-L"@, i as int),
            libraries.deep_view() == spec_flag_values(toks, "-l"@, i as int),
        decreases tokens@.len() - i,
    {
        let tok = &tokens[i];
        proof {
            assert(toks[i as int] == tokens@[i as int]@);
            reveal_strlit("-I");
            reveal_strlit("-L");
            reveal_strlit("-l");
            assert("-I"@.len() == 2 && "-L"@.len() == 2 && "-l"@.len() == 2);
            assert("-I"@[1] == 'I' && "-L"@[1] == 'L' && "-l"@[1] == 'l');
            let t = toks[i as int];
            if has_prefix(t, "-I"@) {
                assert(t[1] == 'I');
            }
            if has_prefix(t, "-L"@) {
                assert(t[1] == 'L');
            }
            if has_prefix(t, "-l"@) {
                assert(t[1] == 'l');
            }
        }
        let ghost pre_i = includes.deep_view();
        let ghost pre_s = link_searches.deep_view();
        let ghost pre_l = libraries.deep_view();
        if let Some(v) = strip_prefix_str(tok.as_str(), "-I") {
            includes.push(v);
            proof {
                assert(includes.deep_view() =~~= pre_i.push(toks[i as int].skip("-I"@.len() as int)));
            }
        } else if let Some(v) = strip_prefix_str(tok.as_str(), "-L") {
            link_searches.push(v);
            proof {
                assert(link_searches.deep_view() =~~= pre_s.push(
                    toks[i as int].skip("-L"@.len() as int),
                ));
            }
        } else if let Some(v) = strip_prefix_str(tok.as_str(), "-l") {
            libraries.push(v);
            proof {
                assert(libraries.deep_view() =~~= pre_l.push(
                    toks[i as int].skip("-l"@.len() as int),
                ));
            }
        }
        proof {
            assert(spec_flag_values(toks, "-I"@, i + 1 as int) =~~= includes.deep_view());
            assert(spec_flag_values(toks, "-L"@, i + 1 as int) =~~= link_searches.deep_view());
            assert(spec_flag_values(toks, "-l"@, i + 1 as int) =~~= libraries.deep_view());
        }
        i = i + 1;
    }
    ProbePython { includes, link_searches, libraries }
}

} // verus!
