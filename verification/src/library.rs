//! The resolved library installation and its capabilities: which GPU API
//! variant is present, and the include paths, link paths and library names
//! derived from it.

use vstd::prelude::*;

use crate::errors::BuildError;
use crate::platform::{path_join, spec_join, Os};
use crate::strutil::{contains_seq, contains_substr, str_eq};

verus! {

/// A ROCm/HIP runtime: the toolkit home and the deep-learning library home.
#[derive(Debug, Clone, PartialEq, Eq, Hash)]
pub struct HipApi {
    pub rocm_home: String,
    pub miopen_home: String,
}

/// A monolithic CUDA runtime: the toolkit home and, optionally, the
/// deep-learning library home.
#[derive(Debug, Clone, PartialEq, Eq, Hash)]
pub struct CudaApi {
    pub cuda_home: String,
    pub cudnn_home: Option<String>,
}

/// A CUDA runtime packaged as two split GPU-kernel modules.
#[derive(Debug, Clone, PartialEq, Eq, Hash)]
pub struct CudaSplitApi {
    pub cuda_home: String,
    pub cudnn_home: Option<String>,
}

/// The GPU API variants a resolved installation can expose.
#[derive(Debug, Clone, PartialEq, Eq, Hash)]
pub enum Api {
    Cpu,
    Hip(HipApi),
    Cuda(CudaApi),
    CudaSplit(CudaSplitApi),
}

impl Api {
    /// A GPU runtime is present.
    pub open spec fn spec_available(&self) -> bool {
        !(self is Cpu)
    }

    /// Check if a GPU runtime is available.
    pub fn is_cuda_api_available(&self) -> (r: bool)
        ensures
            r == self.spec_available(),
    {
        match self {
            Api::Cpu => false,
            _ => true,
        }
    }

    /// The CUDA toolkit home of the CUDA variants.
    pub open spec fn spec_cuda_home(&self) -> Option<Seq<char>> {
        match self {
            Api::Cuda(a) => Some(a.cuda_home@),
            Api::CudaSplit(a) => Some(a.cuda_home@),
            _ => None,
        }
    }

    /// The deep-learning library home of the CUDA variants, when configured.
    pub open spec fn spec_cudnn_home(&self) -> Option<Seq<char>> {
        match self {
            Api::Cuda(a) => match a.cudnn_home {
                Some(h) => Some(h@),
                None => None,
            },
            Api::CudaSplit(a) => match a.cudnn_home {
                Some(h) => Some(h@),
                None => None,
            },
            _ => None,
        }
    }

    /// The CUDA toolkit home directory, for the CUDA variants.
    pub fn cuda_home_dir(&self) -> (r: Option<String>)
        ensures
            match r {
                Some(p) => self.spec_cuda_home() == Some(p@),
                None => self.spec_cuda_home() is None,
            },
    {
        match self {
            Api::Cpu => None,
            Api::Hip(_) => None,
            Api::Cuda(a) => Some(a.cuda_home.clone()),
            Api::CudaSplit(a) => Some(a.cuda_home.clone()),
        }
    }

    /// The deep-learning library home directory, when configured.
    pub fn cudnn_home_dir(&self) -> (r: Option<String>)
        ensures
            match r {
                Some(p) => self.spec_cudnn_home() == Some(p@),
                None => self.spec_cudnn_home() is None,
            },
    {
        match self {
            Api::Cpu => None,
            Api::Hip(_) => None,
            Api::Cuda(a) => match &a.cudnn_home {
                Some(h) => Some(h.clone()),
                None => None,
            },
            Api::CudaSplit(a) => match &a.cudnn_home {
                Some(h) => Some(h.clone()),
                None => None,
            },
        }
    }

    /// The toolkit's include directory, for the CUDA variants.
    pub fn cuda_include_dir(&self) -> (r: Option<String>)
        ensures
            match r {
                Some(p) => self.spec_cuda_home() matches Some(h) && p@ == spec_join(h, "include"@),
                None => self.spec_cuda_home() is None,
            },
    {
        match self.cuda_home_dir() {
            Some(home) => Some(path_join(home.as_str(), "include")),
            None => None,
        }
    }

    /// The toolkit's 64-bit library directory, for the CUDA variants.
    pub fn cuda_library_dir(&self) -> (r: Option<String>)
        ensures
            match r {
                Some(p) => self.spec_cuda_home() matches Some(h) && p@ == spec_join(h, "lib64"@),
                None => self.spec_cuda_home() is None,
            },
    {
        match self.cuda_home_dir() {
            Some(home) => Some(path_join(home.as_str(), "lib64")),
            None => None,
        }
    }

    /// Returns `true` if the api is the HIP variant.
    pub fn is_hip(&self) -> (r: bool)
        ensures
            r == self matches Api::Hip(_),
    {
        match self {
            Api::Hip(_) => true,
            _ => false,
        }
    }
}

/// A resolved library installation and its capabilities.
#[derive(Debug, Clone, PartialEq, Eq, Hash)]
pub struct Library {
    /// The directories containing header files.
    pub include_dirs: Vec<String>,
    /// The directory containing library files.
    pub lib_dir: String,
    /// The GPU API variant detected.
    pub api: Api,
    /// True if the host toolchain uses the new C++ standard-library ABI.
    pub use_cxx11_abi: bool,
}

/// Existence of the toolkit library directories, as probed by the caller:
/// whether `lib64` and `lib` exist under the CUDA home, and under the
/// deep-learning library home.
#[derive(Debug, Clone, Copy, PartialEq, Eq, Structural)]
pub struct LibDirProbe {
    pub cuda_lib64_exists: bool,
    pub cuda_lib_exists: bool,
    pub cudnn_lib64_exists: bool,
    pub cudnn_lib_exists: bool,
}

/// The extra include directories a GPU variant contributes.
pub open spec fn spec_extra_includes(api: Api) -> Seq<Seq<char>> {
    match api {
        Api::Hip(a) => seq![
            spec_join(a.rocm_home@, "include"@),
            spec_join(a.miopen_home@, "include"@),
        ],
        Api::Cuda(a) => seq![spec_join(a.cuda_home@, "include"@)] + match a.cudnn_home {
            Some(c) => seq![spec_join(c@, "include"@)],
            None => Seq::empty(),
        },
        Api::CudaSplit(a) => seq![spec_join(a.cuda_home@, "include"@)] + match a.cudnn_home {
            Some(c) => seq![spec_join(c@, "include"@)],
            None => Seq::empty(),
        },
        Api::Cpu => Seq::empty(),
    }
}

/// `dirs` without every occurrence of the system include directory.
pub open spec fn remove_usr_include(dirs: Seq<Seq<char>>) -> Seq<Seq<char>>
    decreases dirs.len(),
{
    if dirs.len() == 0 {
        Seq::empty()
    } else {
        let pre = remove_usr_include(dirs.drop_last());
        if dirs.last() == "/usr/include"@ {
            pre
        } else {
            pre.push(dirs.last())
        }
    }
}

/// The include paths handed to the compiler: the base directories, then the
/// GPU extras when GPU support is on; on the system with a default include
/// path, that path is dropped.
pub open spec fn spec_include_paths(lib: Library, use_cuda: bool, os: Os) -> Seq<Seq<char>> {
    let all = lib.include_dirs.deep_view() + if use_cuda {
        spec_extra_includes(lib.api)
    } else {
        Seq::empty()
    };
    if os is Linux {
        remove_usr_include(all)
    } else {
        all
    }
}

/// Whether the toolkit library directories needed for linking exist.
pub open spec fn spec_link_ok(api: Api, os: Os, probe: LibDirProbe, use_cuda: bool) -> bool {
    !use_cuda || match api {
        Api::Cpu => false,
        Api::Hip(_) => true,
        Api::Cuda(a) => spec_cuda_link_ok(a.cudnn_home, os, probe),
        Api::CudaSplit(a) => spec_cuda_link_ok(a.cudnn_home, os, probe),
    }
}

/// Link-directory existence for the CUDA variants.
pub open spec fn spec_cuda_link_ok(cudnn_home: Option<String>, os: Os, probe: LibDirProbe) -> bool {
    match os {
        Os::Windows => true,
        Os::Linux | Os::MacOs => (probe.cuda_lib64_exists || probe.cuda_lib_exists) && (match cudnn_home {
            Some(_) => probe.cudnn_lib64_exists || probe.cudnn_lib_exists,
            None => true,
        }),
        Os::Other => false,
    }
}

/// The toolkit library directory under `home`: `lib64` when it exists, else
/// `lib`.
pub open spec fn spec_lib64_or_lib(home: Seq<char>, lib64: bool) -> Seq<char> {
    if lib64 {
        spec_join(home, "lib64"@)
    } else {
        spec_join(home, "lib"@)
    }
}

/// The extra link directories a GPU variant contributes, where they exist.
pub open spec fn spec_extra_link_dirs(
    api: Api,
    os: Os,
    probe: LibDirProbe,
    use_cuda: bool,
) -> Seq<Seq<char>> {
    if !use_cuda {
        Seq::empty()
    } else {
        match api {
            Api::Cpu => Seq::empty(),
            Api::Hip(a) => seq![spec_join(a.rocm_home@, "lib"@)],
            Api::Cuda(a) => spec_cuda_link_dirs(a.cuda_home@, a.cudnn_home, os, probe),
            Api::CudaSplit(a) => spec_cuda_link_dirs(a.cuda_home@, a.cudnn_home, os, probe),
        }
    }
}

/// The link directories of the CUDA variants.
pub open spec fn spec_cuda_link_dirs(
    cuda_home: Seq<char>,
    cudnn_home: Option<String>,
    os: Os,
    probe: LibDirProbe,
) -> Seq<Seq<char>> {
    if os is Windows {
        seq![spec_join(spec_join(cuda_home, "lib"@), "x64"@)]
    } else {
        seq![spec_lib64_or_lib(cuda_home, probe.cuda_lib64_exists)] + match cudnn_home {
            Some(c) => seq![spec_lib64_or_lib(c@, probe.cudnn_lib64_exists)],
            None => Seq::empty(),
        }
    }
}

/// The library names a GPU variant adds to the link line.
pub open spec fn spec_cuda_libraries(api: Api) -> Seq<Seq<char>> {
    match api {
        Api::Cpu => Seq::empty(),
        Api::Hip(_) => seq!["amdhip64"@, "c10_hip"@, "torch_hip"@],
        Api::Cuda(_) => seq!["cudart"@, "c10_cuda"@, "torch_cuda"@],
        Api::CudaSplit(_) => seq!["cudart"@, "c10_cuda"@, "torch_cuda_cu"@, "torch_cuda_cpp"@],
    }
}

/// The parallelism runtime is linked explicitly except on the targets whose
/// toolchains provide it themselves.
pub open spec fn spec_needs_gomp(target: Option<String>) -> bool {
    match target {
        Some(t) => !contains_seq(t@, "msvc"@) && !contains_seq(t@, "apple"@),
        None => false,
    }
}

/// The full ordered list of linked libraries: the base set, the optional
/// embedded-interpreter binding, the GPU variant's runtime names, and the
/// parallelism runtime where needed.
pub open spec fn spec_libraries(
    api: Api,
    use_cuda: bool,
    use_python: bool,
    target: Option<String>,
) -> Seq<Seq<char>> {
    seq!["c10"@, "torch_cpu"@, "torch"@] + (if use_python {
        seq!["torch_python"@]
    } else {
        Seq::empty()
    }) + (if use_cuda {
        spec_cuda_libraries(api)
    } else {
        Seq::empty()
    }) + (if spec_needs_gomp(target) {
        seq!["gomp"@]
    } else {
        Seq::empty()
    })
}

impl Library {
    /// The request resolved against availability: `Some` is taken verbatim,
    /// `None` mirrors what was detected.
    pub open spec fn spec_use_cuda(&self, req: Option<bool>) -> bool {
        match req {
            Some(b) => b,
            None => self.api.spec_available(),
        }
    }

    /// Check if a GPU runtime is available.
    pub fn is_cuda_api_available(&self) -> (r: bool)
        ensures
            r == self.api.spec_available(),
    {
        self.api.is_cuda_api_available()
    }

    /// Resolves the tri-state GPU request; demanding GPU support without a
    /// detected runtime is the one failure.
    fn resolve_use_cuda(&self, use_cuda_api: Option<bool>) -> (r: Result<bool, BuildError>)
        ensures
            match r {
                Ok(b) => b == self.spec_use_cuda(use_cuda_api) && (b
                    ==> self.api.spec_available()),
                Err(e) => e == BuildError::GpuUnavailable && self.spec_use_cuda(use_cuda_api)
                    && !self.api.spec_available(),
            },
    {
        let use_cuda = match use_cuda_api {
            Some(b) => b,
            None => self.api.is_cuda_api_available(),
        };
        if use_cuda && !self.api.is_cuda_api_available() {
            Err(BuildError::GpuUnavailable)
        } else {
            Ok(use_cuda)
        }
    }

    /// Generate the include paths passed to the compiler.
    ///
    /// `use_cuda_api` selects GPU support: mandatory (`Some(true)`),
    /// disabled (`Some(false)`), or mirroring detection (`None`).
    pub fn include_paths(&self, use_cuda_api: Option<bool>, os: Os) -> (r: Result<
        Vec<String>,
        BuildError,
    >)
        ensures
            ({
                let use_cuda = self.spec_use_cuda(use_cuda_api);
                match r {
                    Ok(v) => (use_cuda ==> self.api.spec_available()) && v.deep_view()
                        == spec_include_paths(*self, use_cuda, os),
                    Err(e) => e == BuildError::GpuUnavailable && use_cuda
                        && !self.api.spec_available(),
                }
            }),
    {
        let use_cuda = self.resolve_use_cuda(use_cuda_api)?;
        let mut all: Vec<String> = Vec::new();
        let mut i: usize = 0;
        proof {
            assert(all.deep_view() =~~= self.include_dirs.deep_view().take(0));
        }
        while i < self.include_dirs.len()
            invariant
                i <= self.include_dirs@.len(),
                all@.len() == i,
                all.deep_view() == self.include_dirs.deep_view().take(i as int),
            decreases self.include_dirs@.len() - i,
        {
            let ghost pre = all.deep_view();
            let ghost prev = all@;
            all.push(self.include_dirs[i].clone());
            proof {
                let target = self.include_dirs.deep_view().take(i + 1 as int);
                assert forall|k: int| 0 <= k < all@.len() implies all.deep_view()[k]
                    == target[k] by {
                    if k < i {
                        assert(all.deep_view()[k] == all@[k].deep_view());
                        assert(all@[k] == prev[k]);
                        assert(pre[k] == self.include_dirs.deep_view().take(i as int)[k]);
                    } else {
                        assert(all@[k] == self.include_dirs@[i as int]);
                    }
                }
                assert(all.deep_view() =~~= target);
            }
            i = i + 1;
        }
        proof {
            assert(self.include_dirs.deep_view().take(self.include_dirs@.len() as int)
                =~= self.include_dirs.deep_view());
        }
        if use_cuda {
            match &self.api {
                Api::Hip(a) => {
                    all.push(path_join(a.rocm_home.as_str(), "include"));
                    all.push(path_join(a.miopen_home.as_str(), "include"));
                },
                Api::Cuda(a) => {
                    all.push(path_join(a.cuda_home.as_str(), "include"));
                    match &a.cudnn_home {
                        Some(c) => {
                            all.push(path_join(c.as_str(), "include"));
                        },
                        None => {},
                    }
                },
                Api::CudaSplit(a) => {
                    all.push(path_join(a.cuda_home.as_str(), "include"));
                    match &a.cudnn_home {
                        Some(c) => {
                            all.push(path_join(c.as_str(), "include"));
                        },
                        None => {},
                    }
                },
                Api::Cpu => {},
            }
        }
        proof {
            assert(all.deep_view() =~~= self.include_dirs.deep_view() + if self.spec_use_cuda(
                use_cuda_api,
            ) {
                spec_extra_includes(self.api)
            } else {
                Seq::<Seq<char>>::empty()
            });
        }
        if let Os::Linux = os {
            let ghost whole = all.deep_view();
            let mut kept: Vec<String> = Vec::new();
            let mut k: usize = 0;
            proof {
                assert(whole.take(0) =~= Seq::<Seq<char>>::empty());
            }
            while k < all.len()
                invariant
                    k <= all@.len(),
                    whole == all.deep_view(),
                    whole.len() == all@.len(),
                    kept.deep_view() == remove_usr_include(whole.take(k as int)),
                decreases all@.len() - k,
            {
                proof {
                    let next = whole.take(k + 1 as int);
                    assert(next.drop_last() =~= whole.take(k as int));
                    assert(next.last() == whole[k as int]);
                    assert(whole[k as int] == all@[k as int]@);
                }
                if !str_eq(all[k].as_str(), "/usr/include") {
                    kept.push(all[k].clone());
                    proof {
                        assert(kept.deep_view() =~~= remove_usr_include(whole.take(k + 1 as int)));
                    }
                }
                k = k + 1;
            }
            proof {
                assert(whole.take(whole.len() as int) =~= whole);
            }
            Ok(kept)
        } else {
            Ok(all)
        }
    }

    /// Generate the link search paths passed to the linker: the library's
    /// own directory, then the toolkit directories of the GPU variant.
    ///
    /// `probe` reports which toolkit library directories exist on disk.
    pub fn link_paths(&self, use_cuda_api: Option<bool>, os: Os, probe: LibDirProbe) -> (r: Result<
        Vec<String>,
        BuildError,
    >)
        ensures
            ({
                let use_cuda = self.spec_use_cuda(use_cuda_api);
                match r {
                    Ok(v) => {
                        &&& (use_cuda ==> self.api.spec_available())
                        &&& spec_link_ok(self.api, os, probe, use_cuda)
                        &&& v.deep_view() == seq![self.lib_dir@] + spec_extra_link_dirs(
                            self.api,
                            os,
                            probe,
                            use_cuda,
                        )
                    },
                    Err(e) => {
                        &&& !(spec_link_ok(self.api, os, probe, use_cuda) && (use_cuda
                            ==> self.api.spec_available()))
                        &&& if use_cuda && !self.api.spec_available() {
                            e == BuildError::GpuUnavailable
                        } else if os is Other {
                            e == BuildError::UnsupportedPlatform
                        } else {
                            e == BuildError::MissingCudaLibDir
                        }
                    },
                }
            }),
    {
        let use_cuda = self.resolve_use_cuda(use_cuda_api)?;
        let mut out: Vec<String> = Vec::new();
        out.push(self.lib_dir.clone());
        if use_cuda {
            match &self.api {
                Api::Hip(a) => {
                    out.push(path_join(a.rocm_home.as_str(), "lib"));
                },
                Api::Cuda(CudaApi { cuda_home, cudnn_home })
                | Api::CudaSplit(CudaSplitApi { cuda_home, cudnn_home }) => {
                    match os {
                        Os::Windows => {
                            let lib = path_join(cuda_home.as_str(), "lib");
                            out.push(path_join(lib.as_str(), "x64"));
                        },
                        Os::Linux | Os::MacOs => {
                            if probe.cuda_lib64_exists {
                                out.push(path_join(cuda_home.as_str(), "lib64"));
                            } else if probe.cuda_lib_exists {
                                out.push(path_join(cuda_home.as_str(), "lib"));
                            } else {
                                return Err(BuildError::MissingCudaLibDir);
                            }
                            match cudnn_home {
                                Some(c) => {
                                    if probe.cudnn_lib64_exists {
                                        out.push(path_join(c.as_str(), "lib64"));
                                    } else if probe.cudnn_lib_exists {
                                        out.push(path_join(c.as_str(), "lib"));
                                    } else {
                                        return Err(BuildError::MissingCudaLibDir);
                                    }
                                },
                                None => {},
                            }
                        },
                        Os::Other => {
                            return Err(BuildError::UnsupportedPlatform);
                        },
                    }
                },
                Api::Cpu => {},
            }
        }
        proof {
            assert(out.deep_view() =~~= seq![self.lib_dir@] + spec_extra_link_dirs(
                self.api,
                os,
                probe,
                self.spec_use_cuda(use_cuda_api),
            ));
        }
        Ok(out)
    }

    /// Generate the ordered list of linked library names.
    ///
    /// `use_python` adds the embedded-interpreter binding; `target`, when
    /// known, decides whether the parallelism runtime is linked explicitly.
    pub fn libraries(&self, use_cuda_api: Option<bool>, use_python: bool, target: &Option<String>)
        -> (r: Result<Vec<String>, BuildError>)
        ensures
            ({
                let use_cuda = self.spec_use_cuda(use_cuda_api);
                match r {
                    Ok(v) => (use_cuda ==> self.api.spec_available()) && v.deep_view()
                        == spec_libraries(self.api, use_cuda, use_python, *target),
                    Err(e) => e == BuildError::GpuUnavailable && use_cuda
                        && !self.api.spec_available(),
                }
            }),
    {
        let use_cuda = self.resolve_use_cuda(use_cuda_api)?;
        let mut out: Vec<String> = Vec::new();
        out.push(String::from_str("c10"));
        out.push(String::from_str("torch_cpu"));
        out.push(String::from_str("torch"));
        if use_python {
            out.push(String::from_str("torch_python"));
        }
        if use_cuda {
            match &self.api {
                Api::Cpu => {},
                Api::Hip(_) => {
                    out.push(String::from_str("amdhip64"));
                    out.push(String::from_str("c10_hip"));
                    out.push(String::from_str("torch_hip"));
                },
                Api::Cuda(_) => {
                    out.push(String::from_str("cudart"));
                    out.push(String::from_str("c10_cuda"));
                    out.push(String::from_str("torch_cuda"));
                },
                Api::CudaSplit(_) => {
                    out.push(String::from_str("cudart"));
                    out.push(String::from_str("c10_cuda"));
                    out.push(String::from_str("torch_cuda_cu"));
                    out.push(String::from_str("torch_cuda_cpp"));
                },
            }
        }
        let needs_gomp = match target {
            Some(t) => !contains_substr(t.as_str(), "msvc") && !contains_substr(
                t.as_str(),
                "apple",
            ),
            None => false,
        };
        if needs_gomp {
            out.push(String::from_str("gomp"));
        }
        proof {
            assert(out.deep_view() =~~= spec_libraries(
                self.api,
                self.spec_use_cuda(use_cuda_api),
                use_python,
                *target,
            ));
        }
        Ok(out)
    }
}

} // verus!
