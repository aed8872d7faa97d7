//! The C++ extension builder: collected sources, headers, include paths and
//! libraries, and the compiler and linker configuration derived from them
//! together with a resolved library installation.

use vstd::prelude::*;

use crate::cargo_directives::{
    append_cargo_lib_lines, append_cargo_search_lines, cargo_lib_lines, cargo_search_lines,
};
use crate::ccbuild::{
    abi_flag, cc_add_files, cc_add_flag, cc_add_include_flags, cc_add_lib_flags,
    cc_add_python_flags, cc_add_rpath_flags, cc_cpp, cc_cuda, cc_files, cc_flags, cc_pic,
    cc_set_cpp, cc_set_pic, include_flag_list, lib_flag_list, rpath_flag_list, spec_abi_flag,
    spec_python_cc_flags, append_include_flag_strings,
};
use crate::errors::BuildError;
use crate::library::{spec_extra_link_dirs, spec_include_paths, spec_libraries, spec_link_ok,
    LibDirProbe, Library};
use crate::platform::Os;
use crate::probe::ProbePython;

verus! {

/// What a C++ extension builder holds, abstractly.
pub struct CppExtensionView {
    pub use_cuda_api: bool,
    pub link_python: bool,
    pub includes: Seq<Seq<char>>,
    pub link_searches: Seq<Seq<char>>,
    pub libraries: Seq<Seq<char>>,
    pub headers: Seq<Seq<char>>,
    pub sources: Seq<Seq<char>>,
}

/// A C++ extension under construction.
#[derive(Debug, Clone)]
pub struct CppExtension {
    pub use_cuda_api: bool,
    pub link_python: bool,
    pub includes: Vec<String>,
    pub link_searches: Vec<String>,
    pub libraries: Vec<String>,
    pub headers: Vec<String>,
    pub sources: Vec<String>,
}

impl View for CppExtension {
    type V = CppExtensionView;

    open spec fn view(&self) -> CppExtensionView {
        CppExtensionView {
            use_cuda_api: self.use_cuda_api,
            link_python: self.link_python,
            includes: self.includes.deep_view(),
            link_searches: self.link_searches.deep_view(),
            libraries: self.libraries.deep_view(),
            headers: self.headers.deep_view(),
            sources: self.sources.deep_view(),
        }
    }
}

/// The empty extension view.
pub open spec fn empty_cpp_view() -> CppExtensionView {
    CppExtensionView {
        use_cuda_api: false,
        link_python: false,
        includes: Seq::empty(),
        link_searches: Seq::empty(),
        libraries: Seq::empty(),
        headers: Seq::empty(),
        sources: Seq::empty(),
    }
}

impl CppExtension {
    /// A new extension: GPU support and interpreter linking off, no paths.
    pub fn new() -> (r: Self)
        ensures
            r@ == empty_cpp_view(),
    {
        let r = CppExtension {
            use_cuda_api: false,
            link_python: false,
            includes: Vec::new(),
            headers: Vec::new(),
            sources: Vec::new(),
            link_searches: Vec::new(),
            libraries: Vec::new(),
        };
        proof {
            assert(r@.includes =~= Seq::<Seq<char>>::empty());
            assert(r@.link_searches =~= Seq::<Seq<char>>::empty());
            assert(r@.libraries =~= Seq::<Seq<char>>::empty());
            assert(r@.headers =~= Seq::<Seq<char>>::empty());
            assert(r@.sources =~= Seq::<Seq<char>>::empty());
        }
        r
    }

    /// Selects whether GPU support is demanded of the library.
    pub fn use_cuda_api(&mut self, enabled: bool)
        ensures
            final(self)@ == (CppExtensionView { use_cuda_api: enabled, ..old(self)@ }),
    {
        self.use_cuda_api = enabled;
    }

    /// Selects whether the embedded interpreter is linked in.
    pub fn link_python(&mut self, enabled: bool)
        ensures
            final(self)@ == (CppExtensionView { link_python: enabled, ..old(self)@ }),
    {
        self.link_python = enabled;
    }

    /// Adds one include directory.
    pub fn include_dir(&mut self, path: String)
        ensures
            final(self)@ == (CppExtensionView {
                includes: old(self)@.includes.push(path@),
                ..old(self)@
            }),
    {
        let ghost v = path@;
        self.includes.push(path);
        proof {
            assert(self.includes.deep_view() =~= old(self)@.includes.push(v));
        }
    }

    /// Adds include directories.
    pub fn includes(&mut self, paths: Vec<String>)
        ensures
            final(self)@ == (CppExtensionView {
                includes: old(self)@.includes + paths.deep_view(),
                ..old(self)@
            }),
    {
        append_strings(&mut self.includes, &paths);
    }

    /// Adds one source file.
    pub fn source(&mut self, path: String)
        ensures
            final(self)@ == (CppExtensionView {
                sources: old(self)@.sources.push(path@),
                ..old(self)@
            }),
    {
        let ghost v = path@;
        self.sources.push(path);
        proof {
            assert(self.sources.deep_view() =~= old(self)@.sources.push(v));
        }
    }

    /// Adds source files.
    pub fn sources(&mut self, paths: Vec<String>)
        ensures
            final(self)@ == (CppExtensionView {
                sources: old(self)@.sources + paths.deep_view(),
                ..old(self)@
            }),
    {
        append_strings(&mut self.sources, &paths);
    }

    /// Adds one header file.
    pub fn header(&mut self, path: String)
        ensures
            final(self)@ == (CppExtensionView {
                headers: old(self)@.headers.push(path@),
                ..old(self)@
            }),
    {
        let ghost v = path@;
        self.headers.push(path);
        proof {
            assert(self.headers.deep_view() =~= old(self)@.headers.push(v));
        }
    }

    /// Adds header files.
    pub fn headers(&mut self, paths: Vec<String>)
        ensures
            final(self)@ == (CppExtensionView {
                headers: old(self)@.headers + paths.deep_view(),
                ..old(self)@
            }),
    {
        append_strings(&mut self.headers, &paths);
    }

    /// Adds one link search path.
    pub fn link_search(&mut self, path: String)
        ensures
            final(self)@ == (CppExtensionView {
                link_searches: old(self)@.link_searches.push(path@),
                ..old(self)@
            }),
    {
        let ghost v = path@;
        self.link_searches.push(path);
        proof {
            assert(self.link_searches.deep_view() =~= old(self)@.link_searches.push(v));
        }
    }

    /// Adds link search paths.
    pub fn link_searches(&mut self, paths: Vec<String>)
        ensures
            final(self)@ == (CppExtensionView {
                link_searches: old(self)@.link_searches + paths.deep_view(),
                ..old(self)@
            }),
    {
        append_strings(&mut self.link_searches, &paths);
    }

    /// Adds one linked library.
    pub fn library(&mut self, name: String)
        ensures
            final(self)@ == (CppExtensionView {
                libraries: old(self)@.libraries.push(name@),
                ..old(self)@
            }),
    {
        let ghost v = name@;
        self.libraries.push(name);
        proof {
            assert(self.libraries.deep_view() =~= old(self)@.libraries.push(v));
        }
    }

    /// Adds linked libraries.
    pub fn libraries(&mut self, names: Vec<String>)
        ensures
            final(self)@ == (CppExtensionView {
                libraries: old(self)@.libraries + names.deep_view(),
                ..old(self)@
            }),
    {
        append_strings(&mut self.libraries, &names);
    }
}

impl Default for CppExtension {
    fn default() -> (r: Self)
        ensures
            r@ == empty_cpp_view(),
    {
        CppExtension::new()
    }
}

/// Appends every string of `more` to `dst`.
pub fn append_strings(dst: &mut Vec<String>, more: &Vec<String>)
    ensures
        final(dst).deep_view() == old(dst).deep_view() + more.deep_view(),
{
    let mut i: usize = 0;
    while i < more.len()
        invariant
            i <= more@.len(),
            dst.deep_view() == old(dst).deep_view() + more.deep_view().take(i as int),
        decreases more@.len() - i,
    {
        let ghost pre = dst.deep_view();
        let ghost prevv = dst@;
        dst.push(more[i].clone());
        proof {
            let target = old(dst).deep_view() + more.deep_view().take(i + 1 as int);
            assert(more.deep_view().take(i + 1 as int) =~= more.deep_view().take(i as int).push(
                more.deep_view()[i as int],
            ));
            assert(pre.len() == prevv.len());
            assert(target.len() == dst@.len());
            assert forall|k: int| 0 <= k < dst@.len() implies dst.deep_view()[k] == target[k] by {
                if k < prevv.len() {
                    assert(dst@[k] == prevv[k]);
                    assert(pre[k] == target[k]);
                } else {
                    assert(dst@[k] == more@[i as int]);
                    assert(more.deep_view()[i as int] == more@[i as int]@);
                }
            }
            assert(dst.deep_view() =~= target);
        }
        i = i + 1;
    }
    proof {
        assert(more.deep_view().take(more.deep_view().len() as int) =~= more.deep_view());
    }
}

// ---------------------------------------------------------------------------
// Compiler configuration.
// ---------------------------------------------------------------------------

/// Whether configuration can succeed: GPU support may only be demanded of an
/// installation that has it, and the toolkit link directories must exist.
pub open spec fn spec_cpp_cc_ok(
    ext: CppExtensionView,
    libtorch: Library,
    os: Os,
    probe: LibDirProbe,
) -> bool {
    &&& (ext.use_cuda_api ==> libtorch.api.spec_available())
    &&& spec_link_ok(libtorch.api, os, probe, ext.use_cuda_api)
}

/// The flags a C++ extension hands the compiler, in order: header-search
/// flags for the library's include paths and the extension's own, the
/// language-standard and ABI flags, run-time search flags and link flags for
/// the library, the extension's own search paths and libraries, and the
/// embedded interpreter's flags when it is linked in.
pub open spec fn spec_cpp_cc_flags(
    ext: CppExtensionView,
    libtorch: Library,
    os: Os,
    probe: LibDirProbe,
    target: Option<String>,
    python: Option<ProbePython>,
) -> Seq<Seq<char>> {
    let incs = spec_include_paths(libtorch, ext.use_cuda_api, os);
    let lp = seq![libtorch.lib_dir@] + spec_extra_link_dirs(libtorch.api, os, probe,
        ext.use_cuda_api);
    let libs = spec_libraries(libtorch.api, ext.use_cuda_api, ext.link_python, target);
    include_flag_list(incs, incs.len() as int) + include_flag_list(
        ext.includes,
        ext.includes.len() as int,
    ) + seq!["-std=c++14"@, spec_abi_flag(libtorch.use_cxx11_abi)] + rpath_flag_list(
        lp,
        false,
        lp.len() as int,
    ) + lib_flag_list(libs, libs.len() as int) + rpath_flag_list(
        ext.link_searches,
        false,
        ext.link_searches.len() as int,
    ) + lib_flag_list(ext.libraries, ext.libraries.len() as int) + (if ext.link_python {
        match python {
            Some(py) => spec_python_cc_flags(py, false),
            None => Seq::empty(),
        }
    } else {
        Seq::empty()
    })
}

/// The flags on the platform without the ABI convention: header-search flags
/// only.
pub open spec fn spec_cpp_cc_flags_windows(
    ext: CppExtensionView,
    libtorch: Library,
    os: Os,
) -> Seq<Seq<char>> {
    let incs = spec_include_paths(libtorch, ext.use_cuda_api, os);
    include_flag_list(incs, incs.len() as int) + include_flag_list(
        ext.includes,
        ext.includes.len() as int,
    )
}

/// The build directive lines a C++ extension emits for linking: the
/// library's search paths and libraries, the extension's own, and the
/// embedded interpreter's.
pub open spec fn spec_cpp_link_lines(
    ext: CppExtensionView,
    libtorch: Library,
    os: Os,
    probe: LibDirProbe,
    target: Option<String>,
    python: Option<ProbePython>,
) -> Seq<Seq<char>> {
    let lp = seq![libtorch.lib_dir@] + spec_extra_link_dirs(libtorch.api, os, probe,
        ext.use_cuda_api);
    let libs = spec_libraries(libtorch.api, ext.use_cuda_api, ext.link_python, target);
    cargo_search_lines(lp, lp.len() as int) + cargo_lib_lines(libs, libs.len() as int)
        + cargo_search_lines(ext.link_searches, ext.link_searches.len() as int) + cargo_lib_lines(
        ext.libraries,
        ext.libraries.len() as int,
    ) + (if ext.link_python {
        match python {
            Some(py) => cargo_search_lines(
                py.link_searches.deep_view(),
                py.link_searches.deep_view().len() as int,
            ) + cargo_lib_lines(py.libraries.deep_view(), py.libraries.deep_view().len() as int),
            None => Seq::empty(),
        }
    } else {
        Seq::empty()
    })
}

impl CppExtension {
    /// Configures the compiler driver on the platforms with the link and ABI
    /// conventions.
    #[verifier::rlimit(100)]
    fn configure_cc_unix(
        &self,
        build: &mut cc::Build,
        libtorch: &Library,
        os: Os,
        probe: LibDirProbe,
        target: &Option<String>,
        python: &Option<ProbePython>,
    ) -> (r: Result<(), BuildError>)
        requires
            os is Linux || os is MacOs,
            self@.link_python ==> python is Some,
        ensures
            r is Ok <==> spec_cpp_cc_ok(self@, *libtorch, os, probe),
            match r {
                Ok(()) => {
                    &&& cc_flags(*final(build)) == cc_flags(*old(build)) + spec_cpp_cc_flags(
                        self@,
                        *libtorch,
                        os,
                        probe,
                        *target,
                        *python,
                    )
                    &&& cc_files(*final(build)) == cc_files(*old(build)) + self@.sources
                    &&& cc_cpp(*final(build))
                    &&& cc_pic(*final(build)) == Some(true)
                    &&& cc_cuda(*final(build)) == cc_cuda(*old(build))
                },
                Err(e) => {
                    &&& cc_flags(*final(build)) == cc_flags(*old(build))
                    &&& cc_files(*final(build)) == cc_files(*old(build))
                    &&& cc_cpp(*final(build)) == cc_cpp(*old(build))
                    &&& cc_cuda(*final(build)) == cc_cuda(*old(build))
                    &&& cc_pic(*final(build)) == cc_pic(*old(build))
                    &&& if self@.use_cuda_api && !libtorch.api.spec_available() {
                        e == BuildError::GpuUnavailable
                    } else {
                        e == BuildError::MissingCudaLibDir
                    }
                },
            },
    {
        let incs = match libtorch.include_paths(Some(self.use_cuda_api), os) {
            Ok(v) => v,
            Err(e) => {
                return Err(e);
            },
        };
        let lp = match libtorch.link_paths(Some(self.use_cuda_api), os, probe) {
            Ok(v) => v,
            Err(e) => {
                return Err(e);
            },
        };
        let libs = match libtorch.libraries(Some(self.use_cuda_api), self.link_python, target) {
            Ok(v) => v,
            Err(e) => {
                return Err(e);
            },
        };
        cc_set_cpp(build, true);
        cc_set_pic(build, true);
        cc_add_include_flags(build, &incs);
        cc_add_include_flags(build, &self.includes);
        cc_add_flag(build, "-std=c++14");
        let abi = abi_flag(libtorch.use_cxx11_abi);
        cc_add_flag(build, abi.as_str());
        cc_add_files(build, &self.sources);
        cc_add_rpath_flags(build, &lp, false);
        cc_add_lib_flags(build, &libs);
        cc_add_rpath_flags(build, &self.link_searches, false);
        cc_add_lib_flags(build, &self.libraries);
        if self.link_python {
            match python {
                Some(py) => {
                    cc_add_python_flags(build, py, false);
                },
                None => {},
            }
        }
        proof {
            assert(cc_flags(*build) =~= cc_flags(*old(build)) + spec_cpp_cc_flags(
                self@,
                *libtorch,
                os,
                probe,
                *target,
                *python,
            ));
            assert(cc_files(*build) =~= cc_files(*old(build)) + self@.sources);
        }
        Ok(())
    }

    /// Configures the compiler driver on the platform without the link and
    /// ABI conventions: header-search flags and source files only.
    fn configure_cc_windows(
        &self,
        build: &mut cc::Build,
        libtorch: &Library,
        os: Os,
    ) -> (r: Result<(), BuildError>)
        requires
            os is Windows,
        ensures
            r is Ok <==> !(self@.use_cuda_api && !libtorch.api.spec_available()),
            match r {
                Ok(()) => {
                    &&& cc_flags(*final(build)) == cc_flags(*old(build))
                        + spec_cpp_cc_flags_windows(self@, *libtorch, os)
                    &&& cc_files(*final(build)) == cc_files(*old(build)) + self@.sources
                    &&& cc_cpp(*final(build))
                    &&& cc_pic(*final(build)) == Some(true)
                    &&& cc_cuda(*final(build)) == cc_cuda(*old(build))
                },
                Err(e) => {
                    &&& cc_flags(*final(build)) == cc_flags(*old(build))
                    &&& cc_files(*final(build)) == cc_files(*old(build))
                    &&& cc_cpp(*final(build)) == cc_cpp(*old(build))
                    &&& cc_cuda(*final(build)) == cc_cuda(*old(build))
                    &&& cc_pic(*final(build)) == cc_pic(*old(build))
                    &&& e == BuildError::GpuUnavailable
                },
            },
    {
        let incs = match libtorch.include_paths(Some(self.use_cuda_api), os) {
            Ok(v) => v,
            Err(e) => {
                return Err(e);
            },
        };
        cc_set_cpp(build, true);
        cc_set_pic(build, true);
        cc_add_include_flags(build, &incs);
        cc_add_include_flags(build, &self.includes);
        cc_add_files(build, &self.sources);
        proof {
            assert(cc_flags(*build) =~= cc_flags(*old(build)) + spec_cpp_cc_flags_windows(
                self@,
                *libtorch,
                os,
            ));
        }
        Ok(())
    }

    /// Configures the compiler driver for this extension against a resolved
    /// library installation. `probe` reports which toolkit library
    /// directories exist; `python` carries the embedded interpreter's flags
    /// when it is linked in.
    pub fn configure_cc(
        &self,
        build: &mut cc::Build,
        libtorch: &Library,
        os: Os,
        probe: LibDirProbe,
        target: &Option<String>,
        python: &Option<ProbePython>,
    ) -> (r: Result<(), BuildError>)
        requires
            self@.link_python ==> python is Some,
        ensures
            r is Ok <==> ((os is Windows && !(self@.use_cuda_api
                && !libtorch.api.spec_available())) || ((os is Linux || os is MacOs)
                && spec_cpp_cc_ok(self@, *libtorch, os, probe))),
            match r {
                Ok(()) => {
                    &&& cc_files(*final(build)) == cc_files(*old(build)) + self@.sources
                    &&& cc_cpp(*final(build))
                    &&& cc_pic(*final(build)) == Some(true)
                    &&& cc_cuda(*final(build)) == cc_cuda(*old(build))
                    &&& if os is Windows {
                        cc_flags(*final(build)) == cc_flags(*old(build))
                            + spec_cpp_cc_flags_windows(self@, *libtorch, os)
                    } else {
                        (os is Linux || os is MacOs) && cc_flags(*final(build)) == cc_flags(
                            *old(build),
                        ) + spec_cpp_cc_flags(self@, *libtorch, os, probe, *target, *python)
                    }
                },
                Err(e) => {
                    &&& cc_flags(*final(build)) == cc_flags(*old(build))
                    &&& cc_files(*final(build)) == cc_files(*old(build))
                    &&& cc_cpp(*final(build)) == cc_cpp(*old(build))
                    &&& cc_cuda(*final(build)) == cc_cuda(*old(build))
                    &&& cc_pic(*final(build)) == cc_pic(*old(build))
                    &&& if os is Other {
                        e == BuildError::UnsupportedPlatform
                    } else if self@.use_cuda_api && !libtorch.api.spec_available() {
                        e == BuildError::GpuUnavailable
                    } else {
                        e == BuildError::MissingCudaLibDir
                    }
                },
            },
    {
        match os {
            Os::Linux | Os::MacOs => self.configure_cc_unix(build, libtorch, os, probe, target,
                python),
            Os::Windows => self.configure_cc_windows(build, libtorch, os),
            Os::Other => Err(BuildError::UnsupportedPlatform),
        }
    }

    /// The build directive lines that link this extension, on the platforms
    /// with that convention.
    pub fn link_unix(
        &self,
        libtorch: &Library,
        os: Os,
        probe: LibDirProbe,
        target: &Option<String>,
        python: &Option<ProbePython>,
    ) -> (r: Result<Vec<String>, BuildError>)
        requires
            os is Linux || os is MacOs,
            self@.link_python ==> python is Some,
        ensures
            r is Ok <==> spec_cpp_cc_ok(self@, *libtorch, os, probe),
            match r {
                Ok(v) => v.deep_view() == spec_cpp_link_lines(
                    self@,
                    *libtorch,
                    os,
                    probe,
                    *target,
                    *python,
                ),
                Err(e) => if self@.use_cuda_api && !libtorch.api.spec_available() {
                    e == BuildError::GpuUnavailable
                } else {
                    e == BuildError::MissingCudaLibDir
                },
            },
    {
        let lp = match libtorch.link_paths(Some(self.use_cuda_api), os, probe) {
            Ok(v) => v,
            Err(e) => {
                return Err(e);
            },
        };
        let libs = match libtorch.libraries(Some(self.use_cuda_api), self.link_python, target) {
            Ok(v) => v,
            Err(e) => {
                return Err(e);
            },
        };
        let mut out: Vec<String> = Vec::new();
        append_cargo_search_lines(&mut out, &lp);
        append_cargo_lib_lines(&mut out, &libs);
        append_cargo_search_lines(&mut out, &self.link_searches);
        append_cargo_lib_lines(&mut out, &self.libraries);
        if self.link_python {
            match python {
                Some(py) => {
                    append_cargo_search_lines(&mut out, &py.link_searches);
                    append_cargo_lib_lines(&mut out, &py.libraries);
                },
                None => {},
            }
        }
        proof {
            assert(out.deep_view() =~= spec_cpp_link_lines(
                self@,
                *libtorch,
                os,
                probe,
                *target,
                *python,
            ));
        }
        Ok(out)
    }

    /// The build directive lines that link this extension; only the
    /// platforms with the link convention are supported.
    pub fn link(
        &self,
        libtorch: &Library,
        os: Os,
        probe: LibDirProbe,
        target: &Option<String>,
        python: &Option<ProbePython>,
    ) -> (r: Result<Vec<String>, BuildError>)
        requires
            self@.link_python ==> python is Some,
        ensures
            r is Ok <==> ((os is Linux || os is MacOs) && spec_cpp_cc_ok(
                self@,
                *libtorch,
                os,
                probe,
            )),
            match r {
                Ok(v) => (os is Linux || os is MacOs) && v.deep_view() == spec_cpp_link_lines(
                    self@,
                    *libtorch,
                    os,
                    probe,
                    *target,
                    *python,
                ),
                Err(e) => if !(os is Linux || os is MacOs) {
                    e == BuildError::UnsupportedPlatform
                } else if self@.use_cuda_api && !libtorch.api.spec_available() {
                    e == BuildError::GpuUnavailable
                } else {
                    e == BuildError::MissingCudaLibDir
                },
            },
    {
        match os {
            Os::Linux | Os::MacOs => self.link_unix(libtorch, os, probe, target, python),
            _ => Err(BuildError::UnsupportedPlatform),
        }
    }

    /// The compiler arguments handed to the binding generator: the language
    /// selection, then header-search flags for the extension's own include
    /// directories, the library's include paths, and the embedded
    /// interpreter's when it is linked in.
    pub fn bindgen_clang_args(&self, libtorch: &Library, os: Os, python: &Option<ProbePython>)
        -> (r: Result<Vec<String>, BuildError>)
        requires
            self@.link_python ==> python is Some,
        ensures
            r is Ok <==> !(self@.use_cuda_api && !libtorch.api.spec_available()),
            match r {
                Ok(v) => v.deep_view() == seq!["-x"@, "c++"@] + include_flag_list(
                    self@.includes,
                    self@.includes.len() as int,
                ) + include_flag_list(
                    spec_include_paths(*libtorch, self@.use_cuda_api, os),
                    spec_include_paths(*libtorch, self@.use_cuda_api, os).len() as int,
                ) + (if self@.link_python {
                    match *python {
                        Some(py) => include_flag_list(
                            py.includes.deep_view(),
                            py.includes.deep_view().len() as int,
                        ),
                        None => Seq::empty(),
                    }
                } else {
                    Seq::<Seq<char>>::empty()
                }),
                Err(e) => e == BuildError::GpuUnavailable,
            },
    {
        let incs = match libtorch.include_paths(Some(self.use_cuda_api), os) {
            Ok(v) => v,
            Err(e) => {
                return Err(e);
            },
        };
        let mut out: Vec<String> = Vec::new();
        out.push(String::from_str("-x"));
        out.push(String::from_str("c++"));
        proof {
            assert(out.deep_view() =~~= seq!["-x"@, "c++"@]);
        }
        append_include_flag_strings(&mut out, &self.includes);
        append_include_flag_strings(&mut out, &incs);
        if self.link_python {
            match python {
                Some(py) => {
                    append_include_flag_strings(&mut out, &py.includes);
                },
                None => {},
            }
        }
        proof {
            assert(out.deep_view() =~= seq!["-x"@, "c++"@] + include_flag_list(
                self@.includes,
                self@.includes.len() as int,
            ) + include_flag_list(
                spec_include_paths(*libtorch, self@.use_cuda_api, os),
                spec_include_paths(*libtorch, self@.use_cuda_api, os).len() as int,
            ) + (if self@.link_python {
                match *python {
                    Some(py) => include_flag_list(
                        py.includes.deep_view(),
                        py.includes.deep_view().len() as int,
                    ),
                    None => Seq::empty(),
                }
            } else {
                Seq::<Seq<char>>::empty()
            }));
        }
        Ok(out)
    }
}

} // verus!
