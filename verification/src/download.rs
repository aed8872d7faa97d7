//! Synthesis of the archive download URL from the platform, the GPU-toolkit
//! version hint and the library version, and the build-scoped paths the
//! downloaded archive lives at.

use vstd::prelude::*;

use crate::errors::BuildError;
use crate::platform::{path_join, spec_join, Os};
use crate::strutil::{
    lemma_split_len, lower_seq, spec_split, spec_trim, split_str, strip_all_prefix,
    strip_all_prefix_str, to_lower_str, trim_str,
};

verus! {

/// The device token of a GPU-toolkit version hint: lowercased, any leading
/// `cu` removed, the first two dot-separated groups concatenated after `cu`.
/// Without a hint, the CPU-only token.
pub open spec fn spec_device_literal(cuda_version: Option<String>) -> Seq<char> {
    match cuda_version {
        None => "cpu"@,
        Some(v) => {
            let stripped = strip_all_prefix(lower_seq(spec_trim(v@)), "cu"@);
            let pieces = spec_split(stripped, seq!['.']);
            "cu"@ + if pieces.len() == 1 {
                pieces[0]
            } else {
                pieces[0] + pieces[1]
            }
        },
    }
}

/// Turns the GPU-toolkit version hint into the device token of the download
/// URL: `"11.7"` and `"cu117"` both become `cu117`; no hint means `cpu`.
pub fn torch_device_literal(cuda_version: &Option<String>) -> (r: String)
    ensures
        r@ == spec_device_literal(*cuda_version),
{
    match cuda_version {
        None => String::from_str("cpu"),
        Some(v) => {
            proof {
                reveal_strlit("cu");
            }
            let trimmed = trim_str(v.as_str());
            let lowered = to_lower_str(trimmed.as_str());
            let stripped = strip_all_prefix_str(lowered.as_str(), "cu");
            let mut seps: Vec<char> = Vec::new();
            seps.push('.');
            proof {
                assert(seps@ =~= seq!['.']);
            }
            let pieces = split_str(stripped.as_str(), &seps);
            proof {
                lemma_split_len(stripped@, seq!['.']);
                assert(pieces@[0]@ == pieces.deep_view()[0]);
            }
            let mut out = String::from_str("cu");
            out.append(pieces[0].as_str());
            if pieces.len() > 1 {
                proof {
                    assert(pieces@[1]@ == pieces.deep_view()[1]);
                }
                out.append(pieces[1].as_str());
            }
            out
        },
    }
}

/// The download URL for one platform, device token and library version.
pub open spec fn spec_libtorch_url(
    os: Os,
    device: Seq<char>,
    version: Seq<char>,
    use_cxx11_abi: bool,
) -> Seq<char> {
    match os {
        Os::Linux => "https://download.pytorch.org/libtorch/"@ + device + "/libtorch"@ + (
        if use_cxx11_abi {
            "-cxx11"@
        } else {
            Seq::<char>::empty()
        }) + "-abi-shared-with-deps-"@ + version + "%2B"@ + device + ".zip"@,
        Os::MacOs => "https://download.pytorch.org/libtorch/cpu/libtorch-macos-"@ + version
            + ".zip"@,
        Os::Windows => "https://download.pytorch.org/libtorch/"@ + device
            + "/libtorch-win-shared-with-deps-"@ + version + "%2B"@ + device + ".zip"@,
        Os::Other => Seq::empty(),
    }
}

/// Synthesizes the archive URL for the host platform. On the platform that
/// ships both ABI variants the URL names the ABI the build uses.
pub fn libtorch_url(os: Os, device: &str, version: &str, use_cxx11_abi: bool) -> (r: Result<
    String,
    BuildError,
>)
    ensures
        match r {
            Ok(u) => !(os is Other) && u@ == spec_libtorch_url(os, device@, version@, use_cxx11_abi),
            Err(e) => os is Other && e == BuildError::UnsupportedPlatform,
        },
{
    match os {
        Os::Linux => {
            let mut out = String::from_str("https://download.pytorch.org/libtorch/");
            out.append(device);
            out.append("/libtorch");
            if use_cxx11_abi {
                out.append("-cxx11");
            }
            out.append("-abi-shared-with-deps-");
            out.append(version);
            out.append("%2B");
            out.append(device);
            out.append(".zip");
            Ok(out)
        },
        Os::MacOs => {
            let mut out = String::from_str("https://download.pytorch.org/libtorch/cpu/libtorch-macos-");
            out.append(version);
            out.append(".zip");
            Ok(out)
        },
        Os::Windows => {
            let mut out = String::from_str("https://download.pytorch.org/libtorch/");
            out.append(device);
            out.append("/libtorch-win-shared-with-deps-");
            out.append(version);
            out.append("%2B");
            out.append(device);
            out.append(".zip");
            Ok(out)
        },
        Os::Other => Err(BuildError::UnsupportedPlatform),
    }
}

/// The build-scoped locations of a download: the directory the archive goes
/// to, the archive file itself, and the directory the archive's top-level
/// entry unpacks to.
pub fn libtorch_download_paths(out_dir: &str, version: &str) -> (r: (String, String, String))
    ensures
        r.0@ == spec_join(out_dir@, "libtorch"@),
        r.1@ == spec_join(out_dir@, "libtorch"@) + "/v"@ + version@ + ".zip"@,
        r.2@ == spec_join(spec_join(out_dir@, "libtorch"@), "libtorch"@),
{
    let dir = path_join(out_dir, "libtorch");
    let mut archive = dir.clone();
    archive.append("/v");
    archive.append(version);
    archive.append(".zip");
    let extracted = path_join(dir.as_str(), "libtorch");
    (dir, archive, extracted)
}

} // verus!
