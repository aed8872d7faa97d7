//! The CUDA extension builder: like the C++ builder, but compiled with the
//! GPU compiler, demanding GPU support of the library and emitting one
//! code-generation flag per target architecture.

use vstd::prelude::*;

use crate::arch::{spec_nvcc_flag, CudaArch};
use crate::cargo_directives::{
    append_cargo_lib_lines, append_cargo_search_lines, cargo_lib_lines, cargo_search_lines,
};
use crate::ccbuild::{
    abi_flag, cc_add_files, cc_add_flag, cc_add_include_flags, cc_add_lib_flags,
    cc_add_python_flags, cc_add_rpath_flags, cc_cpp, cc_cuda, cc_files, cc_flags, cc_pic,
    cc_set_cuda, cc_set_pic, include_flag_list, lib_flag_list, rpath_flag_list, spec_abi_flag,
    spec_python_cc_flags, append_include_flag_strings,
};
use crate::cpp_ext::append_strings;
use crate::errors::BuildError;
use crate::library::{spec_extra_link_dirs, spec_include_paths, spec_libraries, spec_link_ok,
    LibDirProbe, Library};
use crate::platform::Os;
use crate::probe::ProbePython;

verus! {

/// What a CUDA extension builder holds, abstractly.
pub struct CudaExtensionView {
    pub link_python: bool,
    pub includes: Seq<Seq<char>>,
    pub link_searches: Seq<Seq<char>>,
    pub libraries: Seq<Seq<char>>,
    pub headers: Seq<Seq<char>>,
    pub sources: Seq<Seq<char>>,
    pub out_dir: Option<Seq<char>>,
}

/// A CUDA extension under construction.
#[derive(Debug, Clone)]
pub struct CudaExtension {
    pub link_python: bool,
    pub includes: Vec<String>,
    pub link_searches: Vec<String>,
    pub libraries: Vec<String>,
    pub headers: Vec<String>,
    pub sources: Vec<String>,
    pub out_dir: Option<String>,
}

impl View for CudaExtension {
    type V = CudaExtensionView;

    open spec fn view(&self) -> CudaExtensionView {
        CudaExtensionView {
            link_python: self.link_python,
            includes: self.includes.deep_view(),
            link_searches: self.link_searches.deep_view(),
            libraries: self.libraries.deep_view(),
            headers: self.headers.deep_view(),
            sources: self.sources.deep_view(),
            out_dir: match self.out_dir {
                Some(d) => Some(d@),
                None => None,
            },
        }
    }
}

/// The empty extension view.
pub open spec fn empty_cuda_view() -> CudaExtensionView {
    CudaExtensionView {
        link_python: false,
        includes: Seq::empty(),
        link_searches: Seq::empty(),
        libraries: Seq::empty(),
        headers: Seq::empty(),
        sources: Seq::empty(),
        out_dir: None,
    }
}

impl CudaExtension {
    /// A new extension: interpreter linking off, no paths, no explicit
    /// output directory.
    pub fn new() -> (r: Self)
        ensures
            r@ == empty_cuda_view(),
    {
        let r = CudaExtension {
            link_python: false,
            includes: Vec::new(),
            headers: Vec::new(),
            sources: Vec::new(),
            link_searches: Vec::new(),
            libraries: Vec::new(),
            out_dir: None,
        };
        proof {
            assert(r@.includes =~= Seq::<Seq<char>>::empty());
            assert(r@.link_searches =~= Seq::<Seq<char>>::empty());
            assert(r@.libraries =~= Seq::<Seq<char>>::empty());
            assert(r@.headers =~= Seq::<Seq<char>>::empty());
            assert(r@.sources =~= Seq::<Seq<char>>::empty());
        }
        r
    }

    /// The output directory for generated code: the explicitly set one,
    /// else the directory the surrounding build supplies.
    pub fn out_dir(&self, inherited: &Option<String>) -> (r: Result<String, BuildError>)
        ensures
            match r {
                Ok(d) => match self@.out_dir {
                    Some(own) => d@ == own,
                    None => inherited matches Some(i) && d@ == i@,
                },
                Err(e) => {
                    &&& e == BuildError::MissingOutDir
                    &&& self@.out_dir is None
                    &&& inherited is None
                },
            },
    {
        match &self.out_dir {
            Some(d) => Ok(d.clone()),
            None => match inherited {
                Some(i) => Ok(i.clone()),
                None => Err(BuildError::MissingOutDir),
            },
        }
    }

    /// Selects whether the embedded interpreter is linked in.
    pub fn link_python(&mut self, enabled: bool)
        ensures
            final(self)@ == (CudaExtensionView { link_python: enabled, ..old(self)@ }),
    {
        self.link_python = enabled;
    }

    /// Adds one include directory.
    pub fn include_dir(&mut self, path: String)
        ensures
            final(self)@ == (CudaExtensionView {
                includes: old(self)@.includes.push(path@),
                ..old(self)@
            }),
    {
        let ghost v = path@;
        self.includes.push(path);
        proof {
            assert(self.includes.deep_view() =~= old(self)@.includes.push(v));
        }
    }

    /// Adds include directories.
    pub fn includes(&mut self, paths: Vec<String>)
        ensures
            final(self)@ == (CudaExtensionView {
                includes: old(self)@.includes + paths.deep_view(),
                ..old(self)@
            }),
    {
        append_strings(&mut self.includes, &paths);
    }

    /// Adds one header file.
    pub fn header(&mut self, path: String)
        ensures
            final(self)@ == (CudaExtensionView {
                headers: old(self)@.headers.push(path@),
                ..old(self)@
            }),
    {
        let ghost v = path@;
        self.headers.push(path);
        proof {
            assert(self.headers.deep_view() =~= old(self)@.headers.push(v));
        }
    }

    /// Adds header files.
    pub fn headers(&mut self, paths: Vec<String>)
        ensures
            final(self)@ == (CudaExtensionView {
                headers: old(self)@.headers + paths.deep_view(),
                ..old(self)@
            }),
    {
        append_strings(&mut self.headers, &paths);
    }

    /// Adds one source file.
    pub fn source(&mut self, path: String)
        ensures
            final(self)@ == (CudaExtensionView {
                sources: old(self)@.sources.push(path@),
                ..old(self)@
            }),
    {
        let ghost v = path@;
        self.sources.push(path);
        proof {
            assert(self.sources.deep_view() =~= old(self)@.sources.push(v));
        }
    }

    /// Adds source files.
    pub fn sources(&mut self, paths: Vec<String>)
        ensures
            final(self)@ == (CudaExtensionView {
                sources: old(self)@.sources + paths.deep_view(),
                ..old(self)@
            }),
    {
        append_strings(&mut self.sources, &paths);
    }

    /// Adds one link search path.
    pub fn link_search(&mut self, path: String)
        ensures
            final(self)@ == (CudaExtensionView {
                link_searches: old(self)@.link_searches.push(path@),
                ..old(self)@
            }),
    {
        let ghost v = path@;
        self.link_searches.push(path);
        proof {
            assert(self.link_searches.deep_view() =~= old(self)@.link_searches.push(v));
        }
    }

    /// Adds link search paths.
    pub fn link_searches(&mut self, paths: Vec<String>)
        ensures
            final(self)@ == (CudaExtensionView {
                link_searches: old(self)@.link_searches + paths.deep_view(),
                ..old(self)@
            }),
    {
        append_strings(&mut self.link_searches, &paths);
    }

    /// Adds one linked library.
    pub fn library(&mut self, name: String)
        ensures
            final(self)@ == (CudaExtensionView {
                libraries: old(self)@.libraries.push(name@),
                ..old(self)@
            }),
    {
        let ghost v = name@;
        self.libraries.push(name);
        proof {
            assert(self.libraries.deep_view() =~= old(self)@.libraries.push(v));
        }
    }

    /// Adds linked libraries.
    pub fn libraries(&mut self, names: Vec<String>)
        ensures
            final(self)@ == (CudaExtensionView {
                libraries: old(self)@.libraries + names.deep_view(),
                ..old(self)@
            }),
    {
        append_strings(&mut self.libraries, &names);
    }
}

impl Default for CudaExtension {
    fn default() -> (r: Self)
        ensures
            r@ == empty_cuda_view(),
    {
        CudaExtension::new()
    }
}

// ---------------------------------------------------------------------------
// Compiler configuration.
// ---------------------------------------------------------------------------

/// The code-generation flags of the first `n` architectures.
pub open spec fn arch_flag_list(arches: Seq<CudaArch>, n: int) -> Seq<Seq<char>>
    decreases n,
{
    if n <= 0 {
        Seq::empty()
    } else {
        arch_flag_list(arches, n - 1) + seq![spec_nvcc_flag(arches[n - 1])]
    }
}

/// Appends the code-generation flag of every architecture.
fn cc_add_arch_flags(b: &mut cc::Build, arches: &Vec<CudaArch>)
    ensures
        cc_flags(*final(b)) == cc_flags(*old(b)) + arch_flag_list(
            arches@,
            arches@.len() as int,
        ),
        cc_files(*final(b)) == cc_files(*old(b)),
        cc_cpp(*final(b)) == cc_cpp(*old(b)),
        cc_cuda(*final(b)) == cc_cuda(*old(b)),
        cc_pic(*final(b)) == cc_pic(*old(b)),
{
    let mut i: usize = 0;
    while i < arches.len()
        invariant
            i <= arches@.len(),
            cc_flags(*b) == cc_flags(*old(b)) + arch_flag_list(arches@, i as int),
            cc_files(*b) == cc_files(*old(b)),
            cc_cpp(*b) == cc_cpp(*old(b)),
            cc_cuda(*b) == cc_cuda(*old(b)),
            cc_pic(*b) == cc_pic(*old(b)),
        decreases arches@.len() - i,
    {
        let f = arches[i].nvcc_flag();
        cc_add_flag(b, f.as_str());
        proof {
            assert(cc_flags(*b) =~= cc_flags(*old(b)) + arch_flag_list(arches@, i + 1 as int));
        }
        i = i + 1;
    }
}

/// Whether configuration can succeed: the installation must expose a GPU
/// runtime and the toolkit link directories must exist.
pub open spec fn spec_cuda_cc_ok(libtorch: Library, os: Os, probe: LibDirProbe) -> bool {
    &&& libtorch.api.spec_available()
    &&& spec_link_ok(libtorch.api, os, probe, true)
}

/// The flags a CUDA extension hands the GPU compiler, in order: the
/// library's and the extension's header-search flags, the language-standard
/// and ABI flags, one code-generation flag per architecture, run-time
/// search flags and link flags for the library, the extension's own
/// libraries and search paths, and the embedded interpreter's flags when it
/// is linked in.
pub open spec fn spec_cuda_cc_flags(
    ext: CudaExtensionView,
    libtorch: Library,
    os: Os,
    probe: LibDirProbe,
    target: Option<String>,
    arches: Seq<CudaArch>,
    python: Option<ProbePython>,
) -> Seq<Seq<char>> {
    let incs = spec_include_paths(libtorch, true, os);
    let lp = seq![libtorch.lib_dir@] + spec_extra_link_dirs(libtorch.api, os, probe, true);
    let libs = spec_libraries(libtorch.api, true, ext.link_python, target);
    include_flag_list(incs, incs.len() as int) + include_flag_list(
        ext.includes,
        ext.includes.len() as int,
    ) + seq!["-std=c++14"@, spec_abi_flag(libtorch.use_cxx11_abi)] + arch_flag_list(
        arches,
        arches.len() as int,
    ) + rpath_flag_list(lp, true, lp.len() as int) + lib_flag_list(libs, libs.len() as int)
        + lib_flag_list(ext.libraries, ext.libraries.len() as int) + rpath_flag_list(
        ext.link_searches,
        true,
        ext.link_searches.len() as int,
    ) + (if ext.link_python {
        match python {
            Some(py) => spec_python_cc_flags(py, true),
            None => Seq::empty(),
        }
    } else {
        Seq::empty()
    })
}

/// The build directive lines a CUDA extension emits for linking.
pub open spec fn spec_cuda_link_lines(
    ext: CudaExtensionView,
    libtorch: Library,
    os: Os,
    probe: LibDirProbe,
    target: Option<String>,
    python: Option<ProbePython>,
) -> Seq<Seq<char>> {
    let lp = seq![libtorch.lib_dir@] + spec_extra_link_dirs(libtorch.api, os, probe, true);
    let libs = spec_libraries(libtorch.api, true, ext.link_python, target);
    cargo_search_lines(lp, lp.len() as int) + cargo_lib_lines(libs, libs.len() as int)
        + cargo_lib_lines(ext.libraries, ext.libraries.len() as int) + cargo_search_lines(
        ext.link_searches,
        ext.link_searches.len() as int,
    ) + (if ext.link_python {
        match python {
            Some(py) => cargo_search_lines(
                py.link_searches.deep_view(),
                py.link_searches.deep_view().len() as int,
            ) + cargo_lib_lines(py.libraries.deep_view(), py.libraries.deep_view().len() as int),
            None => Seq::empty(),
        }
    } else {
        Seq::empty()
    })
}

impl CudaExtension {
    /// Configures the GPU compiler driver on the platforms with the link
    /// convention.
    #[verifier::rlimit(100)]
    fn configure_cc_unix(
        &self,
        build: &mut cc::Build,
        libtorch: &Library,
        os: Os,
        probe: LibDirProbe,
        target: &Option<String>,
        arches: &Vec<CudaArch>,
        python: &Option<ProbePython>,
    ) -> (r: Result<(), BuildError>)
        requires
            os is Linux || os is MacOs,
            self@.link_python ==> python is Some,
        ensures
            r is Ok <==> spec_cuda_cc_ok(*libtorch, os, probe),
            match r {
                Ok(()) => {
                    &&& cc_flags(*final(build)) == cc_flags(*old(build)) + spec_cuda_cc_flags(
                        self@,
                        *libtorch,
                        os,
                        probe,
                        *target,
                        arches@,
                        *python,
                    )
                    &&& cc_files(*final(build)) == cc_files(*old(build)) + self@.sources
                    &&& cc_cuda(*final(build))
                    &&& cc_cpp(*final(build))
                    &&& cc_pic(*final(build)) == Some(true)
                },
                Err(e) => {
                    &&& cc_flags(*final(build)) == cc_flags(*old(build))
                    &&& cc_files(*final(build)) == cc_files(*old(build))
                    &&& cc_cpp(*final(build)) == cc_cpp(*old(build))
                    &&& cc_cuda(*final(build)) == cc_cuda(*old(build))
                    &&& cc_pic(*final(build)) == cc_pic(*old(build))
                    &&& if !libtorch.api.spec_available() {
                        e == BuildError::GpuUnavailable
                    } else {
                        e == BuildError::MissingCudaLibDir
                    }
                },
            },
    {
        let incs = match libtorch.include_paths(Some(true), os) {
            Ok(v) => v,
            Err(e) => {
                return Err(e);
            },
        };
        let lp = match libtorch.link_paths(Some(true), os, probe) {
            Ok(v) => v,
            Err(e) => {
                return Err(e);
            },
        };
        let libs = match libtorch.libraries(Some(true), self.link_python, target) {
            Ok(v) => v,
            Err(e) => {
                return Err(e);
            },
        };
        cc_set_cuda(build, true);
        cc_set_pic(build, true);
        cc_add_include_flags(build, &incs);
        cc_add_include_flags(build, &self.includes);
        cc_add_flag(build, "-std=c++14");
        let abi = abi_flag(libtorch.use_cxx11_abi);
        cc_add_flag(build, abi.as_str());
        cc_add_files(build, &self.sources);
        cc_add_arch_flags(build, arches);
        cc_add_rpath_flags(build, &lp, true);
        cc_add_lib_flags(build, &libs);
        cc_add_lib_flags(build, &self.libraries);
        cc_add_rpath_flags(build, &self.link_searches, true);
        if self.link_python {
            match python {
                Some(py) => {
                    // The GPU compiler forwards run-time search paths to the
                    // linker only behind the forwarding flag, so the
                    // interpreter's paths take it like the library's own.
                    cc_add_python_flags(build, py, true);
                },
                None => {},
            }
        }
        proof {
            assert(cc_flags(*build) =~= cc_flags(*old(build)) + spec_cuda_cc_flags(
                self@,
                *libtorch,
                os,
                probe,
                *target,
                arches@,
                *python,
            ));
            assert(cc_files(*build) =~= cc_files(*old(build)) + self@.sources);
        }
        Ok(())
    }

    /// Configures the GPU compiler driver; only the platforms with the link
    /// convention are supported.
    pub fn configure_cc(
        &self,
        build: &mut cc::Build,
        libtorch: &Library,
        os: Os,
        probe: LibDirProbe,
        target: &Option<String>,
        arches: &Vec<CudaArch>,
        python: &Option<ProbePython>,
    ) -> (r: Result<(), BuildError>)
        requires
            self@.link_python ==> python is Some,
        ensures
            r is Ok <==> ((os is Linux || os is MacOs) && spec_cuda_cc_ok(*libtorch, os, probe)),
            match r {
                Ok(()) => {
                    &&& (os is Linux || os is MacOs)
                    &&& cc_flags(*final(build)) == cc_flags(*old(build)) + spec_cuda_cc_flags(
                        self@,
                        *libtorch,
                        os,
                        probe,
                        *target,
                        arches@,
                        *python,
                    )
                    &&& cc_files(*final(build)) == cc_files(*old(build)) + self@.sources
                    &&& cc_cuda(*final(build))
                    &&& cc_cpp(*final(build))
                    &&& cc_pic(*final(build)) == Some(true)
                },
                Err(e) => {
                    &&& cc_flags(*final(build)) == cc_flags(*old(build))
                    &&& cc_files(*final(build)) == cc_files(*old(build))
                    &&& cc_cpp(*final(build)) == cc_cpp(*old(build))
                    &&& cc_cuda(*final(build)) == cc_cuda(*old(build))
                    &&& cc_pic(*final(build)) == cc_pic(*old(build))
                    &&& if !(os is Linux || os is MacOs) {
                        e == BuildError::UnsupportedPlatform
                    } else if !libtorch.api.spec_available() {
                        e == BuildError::GpuUnavailable
                    } else {
                        e == BuildError::MissingCudaLibDir
                    }
                },
            },
    {
        match os {
            Os::Linux | Os::MacOs => self.configure_cc_unix(build, libtorch, os, probe, target,
                arches, python),
            _ => Err(BuildError::UnsupportedPlatform),
        }
    }

    /// The build directive lines that link this extension, on the platforms
    /// with that convention.
    pub fn link_unix(
        &self,
        libtorch: &Library,
        os: Os,
        probe: LibDirProbe,
        target: &Option<String>,
        python: &Option<ProbePython>,
    ) -> (r: Result<Vec<String>, BuildError>)
        requires
            os is Linux || os is MacOs,
            self@.link_python ==> python is Some,
        ensures
            r is Ok <==> spec_cuda_cc_ok(*libtorch, os, probe),
            match r {
                Ok(v) => v.deep_view() == spec_cuda_link_lines(
                    self@,
                    *libtorch,
                    os,
                    probe,
                    *target,
                    *python,
                ),
                Err(e) => if !libtorch.api.spec_available() {
                    e == BuildError::GpuUnavailable
                } else {
                    e == BuildError::MissingCudaLibDir
                },
            },
    {
        let lp = match libtorch.link_paths(Some(true), os, probe) {
            Ok(v) => v,
            Err(e) => {
                return Err(e);
            },
        };
        let libs = match libtorch.libraries(Some(true), self.link_python, target) {
            Ok(v) => v,
            Err(e) => {
                return Err(e);
            },
        };
        let mut out: Vec<String> = Vec::new();
        append_cargo_search_lines(&mut out, &lp);
        append_cargo_lib_lines(&mut out, &libs);
        append_cargo_lib_lines(&mut out, &self.libraries);
        append_cargo_search_lines(&mut out, &self.link_searches);
        if self.link_python {
            match python {
                Some(py) => {
                    append_cargo_search_lines(&mut out, &py.link_searches);
                    append_cargo_lib_lines(&mut out, &py.libraries);
                },
                None => {},
            }
        }
        proof {
            assert(out.deep_view() =~= spec_cuda_link_lines(
                self@,
                *libtorch,
                os,
                probe,
                *target,
                *python,
            ));
        }
        Ok(out)
    }

    /// The build directive lines that link this extension; only the
    /// platforms with the link convention are supported.
    pub fn link(
        &self,
        libtorch: &Library,
        os: Os,
        probe: LibDirProbe,
        target: &Option<String>,
        python: &Option<ProbePython>,
    ) -> (r: Result<Vec<String>, BuildError>)
        requires
            self@.link_python ==> python is Some,
        ensures
            r is Ok <==> ((os is Linux || os is MacOs) && spec_cuda_cc_ok(*libtorch, os, probe)),
            match r {
                Ok(v) => (os is Linux || os is MacOs) && v.deep_view() == spec_cuda_link_lines(
                    self@,
                    *libtorch,
                    os,
                    probe,
                    *target,
                    *python,
                ),
                Err(e) => if !(os is Linux || os is MacOs) {
                    e == BuildError::UnsupportedPlatform
                } else if !libtorch.api.spec_available() {
                    e == BuildError::GpuUnavailable
                } else {
                    e == BuildError::MissingCudaLibDir
                },
            },
    {
        match os {
            Os::Linux | Os::MacOs => self.link_unix(libtorch, os, probe, target, python),
            _ => Err(BuildError::UnsupportedPlatform),
        }
    }

    /// The compiler arguments handed to the binding generator: the language
    /// selection, the extension's own header-search flags, the library's,
    /// and the embedded interpreter's, which this extension always needs.
    pub fn bindgen_clang_args(&self, libtorch: &Library, os: Os, python: &ProbePython) -> (r:
        Result<Vec<String>, BuildError>)
        ensures
            r is Ok <==> libtorch.api.spec_available(),
            match r {
                Ok(v) => v.deep_view() == seq!["-x"@, "c++"@] + include_flag_list(
                    self@.includes,
                    self@.includes.len() as int,
                ) + include_flag_list(
                    spec_include_paths(*libtorch, true, os),
                    spec_include_paths(*libtorch, true, os).len() as int,
                ) + include_flag_list(
                    python.includes.deep_view(),
                    python.includes.deep_view().len() as int,
                ),
                Err(e) => e == BuildError::GpuUnavailable,
            },
    {
        let incs = match libtorch.include_paths(Some(true), os) {
            Ok(v) => v,
            Err(e) => {
                return Err(e);
            },
        };
        let mut out: Vec<String> = Vec::new();
        out.push(String::from_str("-x"));
        out.push(String::from_str("c++"));
        proof {
            assert(out.deep_view() =~~= seq!["-x"@, "c++"@]);
        }
        append_include_flag_strings(&mut out, &self.includes);
        append_include_flag_strings(&mut out, &incs);
        append_include_flag_strings(&mut out, &python.includes);
        proof {
            assert(out.deep_view() =~= seq!["-x"@, "c++"@] + include_flag_list(
                self@.includes,
                self@.includes.len() as int,
            ) + include_flag_list(
                spec_include_paths(*libtorch, true, os),
                spec_include_paths(*libtorch, true, os).len() as int,
            ) + include_flag_list(
                python.includes.deep_view(),
                python.includes.deep_view().len() as int,
            ));
        }
        Ok(out)
    }
}

} // verus!
