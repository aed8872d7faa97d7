//! The compiler-driver configuration of an outside crate, behind trusted
//! items: what the extension builders append to its flag and source-file
//! lists.

use vstd::prelude::*;


verus! {

#[verifier::external_type_specification]
#[verifier::external_body]
pub struct ExCcBuild(cc::Build);

/// The flags a build holds, in order.
pub uninterp spec fn cc_flags(b: cc::Build) -> Seq<Seq<char>>;

/// The source files a build holds, in order.
pub uninterp spec fn cc_files(b: cc::Build) -> Seq<Seq<char>>;

/// Whether a build compiles as C++.
pub uninterp spec fn cc_cpp(b: cc::Build) -> bool;

/// Whether a build invokes the GPU compiler.
pub uninterp spec fn cc_cuda(b: cc::Build) -> bool;

/// The build's position-independence choice, once one was made.
pub uninterp spec fn cc_pic(b: cc::Build) -> Option<bool>;

/// Relies on cc's `Build::cpp`: it sets the language switch to the given
/// value and changes nothing else the contracts track.
#[verifier::external_body]
pub fn cc_set_cpp(b: &mut cc::Build, v: bool)
    ensures
        cc_cpp(*final(b)) == v,
        cc_cuda(*final(b)) == cc_cuda(*old(b)),
        cc_pic(*final(b)) == cc_pic(*old(b)),
        cc_flags(*final(b)) == cc_flags(*old(b)),
        cc_files(*final(b)) == cc_files(*old(b)),
{
    b.cpp(v);
}

/// Relies on cc's `Build::cuda`: it sets the GPU-compiler switch to the
/// given value — turning it on also turns the language switch on — and
/// changes nothing else the contracts track.
#[verifier::external_body]
pub fn cc_set_cuda(b: &mut cc::Build, v: bool)
    ensures
        cc_cuda(*final(b)) == v,
        cc_cpp(*final(b)) == if v {
            true
        } else {
            cc_cpp(*old(b))
        },
        cc_pic(*final(b)) == cc_pic(*old(b)),
        cc_flags(*final(b)) == cc_flags(*old(b)),
        cc_files(*final(b)) == cc_files(*old(b)),
{
    b.cuda(v);
}

/// Relies on cc's `Build::pic`: it chooses position independence and
/// changes nothing else the contracts track.
#[verifier::external_body]
pub fn cc_set_pic(b: &mut cc::Build, v: bool)
    ensures
        cc_pic(*final(b)) == Some(v),
        cc_cpp(*final(b)) == cc_cpp(*old(b)),
        cc_cuda(*final(b)) == cc_cuda(*old(b)),
        cc_flags(*final(b)) == cc_flags(*old(b)),
        cc_files(*final(b)) == cc_files(*old(b)),
{
    b.pic(v);
}

/// Relies on cc's `Build::flag`: it appends exactly one flag and changes
/// nothing else the contracts track.
#[verifier::external_body]
pub fn cc_add_flag(b: &mut cc::Build, flag: &str)
    ensures
        cc_flags(*final(b)) == cc_flags(*old(b)).push(flag@),
        cc_files(*final(b)) == cc_files(*old(b)),
        cc_cpp(*final(b)) == cc_cpp(*old(b)),
        cc_cuda(*final(b)) == cc_cuda(*old(b)),
        cc_pic(*final(b)) == cc_pic(*old(b)),
{
    b.flag(flag);
}

/// Relies on cc's `Build::file`: it appends exactly one source file and
/// changes nothing else the contracts track.
#[verifier::external_body]
pub fn cc_add_file(b: &mut cc::Build, file: &str)
    ensures
        cc_files(*final(b)) == cc_files(*old(b)).push(file@),
        cc_flags(*final(b)) == cc_flags(*old(b)),
        cc_cpp(*final(b)) == cc_cpp(*old(b)),
        cc_cuda(*final(b)) == cc_cuda(*old(b)),
        cc_pic(*final(b)) == cc_pic(*old(b)),
{
    b.file(file);
}

// ---------------------------------------------------------------------------
// Flag-list shapes.
// ---------------------------------------------------------------------------

/// The run-time search-path flags for the first `n` paths; the GPU compiler
/// wants each prefixed by the linker-forwarding flag.
pub open spec fn rpath_flag_list(paths: Seq<Seq<char>>, xlinker: bool, n: int) -> Seq<Seq<char>>
    decreases n,
{
    if n <= 0 {
        Seq::empty()
    } else {
        rpath_flag_list(paths, xlinker, n - 1) + (if xlinker {
            seq!["-Xlinker"@, "-Wl,-rpath="@ + paths[n - 1]]
        } else {
            seq!["-Wl,-rpath="@ + paths[n - 1]]
        })
    }
}

/// The link flags for the first `n` library names.
pub open spec fn lib_flag_list(libs: Seq<Seq<char>>, n: int) -> Seq<Seq<char>>
    decreases n,
{
    if n <= 0 {
        Seq::empty()
    } else {
        lib_flag_list(libs, n - 1) + seq!["-l"@ + libs[n - 1]]
    }
}

/// The header-search flags for the first `n` directories.
pub open spec fn include_flag_list(dirs: Seq<Seq<char>>, n: int) -> Seq<Seq<char>>
    decreases n,
{
    if n <= 0 {
        Seq::empty()
    } else {
        include_flag_list(dirs, n - 1) + seq!["-I"@ + dirs[n - 1]]
    }
}

/// Appends a header-search flag for every directory.
pub fn cc_add_include_flags(b: &mut cc::Build, dirs: &Vec<String>)
    ensures
        cc_flags(*final(b)) == cc_flags(*old(b)) + include_flag_list(
            dirs.deep_view(),
            dirs.deep_view().len() as int,
        ),
        cc_files(*final(b)) == cc_files(*old(b)),
        cc_cpp(*final(b)) == cc_cpp(*old(b)),
        cc_cuda(*final(b)) == cc_cuda(*old(b)),
        cc_pic(*final(b)) == cc_pic(*old(b)),
{
    let mut i: usize = 0;
    while i < dirs.len()
        invariant
            i <= dirs@.len(),
            cc_flags(*b) == cc_flags(*old(b)) + include_flag_list(dirs.deep_view(), i as int),
            cc_files(*b) == cc_files(*old(b)),
            cc_cpp(*b) == cc_cpp(*old(b)),
            cc_cuda(*b) == cc_cuda(*old(b)),
            cc_pic(*b) == cc_pic(*old(b)),
        decreases dirs@.len() - i,
    {
        let mut f = String::from_str("-I");
        f.append(dirs[i].as_str());
        cc_add_flag(b, f.as_str());
        proof {
            assert(dirs.deep_view()[i as int] == dirs@[i as int]@);
            assert(cc_flags(*b) =~= cc_flags(*old(b)) + include_flag_list(
                dirs.deep_view(),
                i + 1 as int,
            ));
        }
        i = i + 1;
    }
}

/// Appends every file of `files` as a source file.
pub fn cc_add_files(b: &mut cc::Build, files: &Vec<String>)
    ensures
        cc_files(*final(b)) == cc_files(*old(b)) + files.deep_view(),
        cc_flags(*final(b)) == cc_flags(*old(b)),
        cc_cpp(*final(b)) == cc_cpp(*old(b)),
        cc_cuda(*final(b)) == cc_cuda(*old(b)),
        cc_pic(*final(b)) == cc_pic(*old(b)),
{
    let mut i: usize = 0;
    proof {
        assert(cc_files(*b) =~= cc_files(*old(b)) + files.deep_view().take(0));
    }
    while i < files.len()
        invariant
            i <= files@.len(),
            cc_files(*b) == cc_files(*old(b)) + files.deep_view().take(i as int),
            cc_flags(*b) == cc_flags(*old(b)),
            cc_cpp(*b) == cc_cpp(*old(b)),
            cc_cuda(*b) == cc_cuda(*old(b)),
            cc_pic(*b) == cc_pic(*old(b)),
        decreases files@.len() - i,
    {
        cc_add_file(b, files[i].as_str());
        proof {
            assert(cc_files(*b) =~= cc_files(*old(b)) + files.deep_view().take(i + 1 as int));
        }
        i = i + 1;
    }
    proof {
        assert(files.deep_view().take(files@.len() as int) =~= files.deep_view());
    }
}

/// Appends a run-time search-path flag for every path.
pub fn cc_add_rpath_flags(b: &mut cc::Build, paths: &Vec<String>, xlinker: bool)
    ensures
        cc_flags(*final(b)) == cc_flags(*old(b)) + rpath_flag_list(
            paths.deep_view(),
            xlinker,
            paths.deep_view().len() as int,
        ),
        cc_files(*final(b)) == cc_files(*old(b)),
        cc_cpp(*final(b)) == cc_cpp(*old(b)),
        cc_cuda(*final(b)) == cc_cuda(*old(b)),
        cc_pic(*final(b)) == cc_pic(*old(b)),
{
    let mut i: usize = 0;
    while i < paths.len()
        invariant
            i <= paths@.len(),
            cc_flags(*b) == cc_flags(*old(b)) + rpath_flag_list(
                paths.deep_view(),
                xlinker,
                i as int,
            ),
            cc_files(*b) == cc_files(*old(b)),
            cc_cpp(*b) == cc_cpp(*old(b)),
            cc_cuda(*b) == cc_cuda(*old(b)),
            cc_pic(*b) == cc_pic(*old(b)),
        decreases paths@.len() - i,
    {
        if xlinker {
            cc_add_flag(b, "-Xlinker");
        }
        let mut f = String::from_str("-Wl,-rpath=");
        f.append(paths[i].as_str());
        cc_add_flag(b, f.as_str());
        proof {
            assert(paths.deep_view()[i as int] == paths@[i as int]@);
            assert(cc_flags(*b) =~= cc_flags(*old(b)) + rpath_flag_list(
                paths.deep_view(),
                xlinker,
                i + 1 as int,
            ));
        }
        i = i + 1;
    }
}

/// Appends a link flag for every library name.
pub fn cc_add_lib_flags(b: &mut cc::Build, libs: &Vec<String>)
    ensures
        cc_flags(*final(b)) == cc_flags(*old(b)) + lib_flag_list(
            libs.deep_view(),
            libs.deep_view().len() as int,
        ),
        cc_files(*final(b)) == cc_files(*old(b)),
        cc_cpp(*final(b)) == cc_cpp(*old(b)),
        cc_cuda(*final(b)) == cc_cuda(*old(b)),
        cc_pic(*final(b)) == cc_pic(*old(b)),
{
    let mut i: usize = 0;
    while i < libs.len()
        invariant
            i <= libs@.len(),
            cc_flags(*b) == cc_flags(*old(b)) + lib_flag_list(libs.deep_view(), i as int),
            cc_files(*b) == cc_files(*old(b)),
            cc_cpp(*b) == cc_cpp(*old(b)),
            cc_cuda(*b) == cc_cuda(*old(b)),
            cc_pic(*b) == cc_pic(*old(b)),
        decreases libs@.len() - i,
    {
        let mut f = String::from_str("-l");
        f.append(libs[i].as_str());
        cc_add_flag(b, f.as_str());
        proof {
            assert(libs.deep_view()[i as int] == libs@[i as int]@);
            assert(cc_flags(*b) =~= cc_flags(*old(b)) + lib_flag_list(
                libs.deep_view(),
                i + 1 as int,
            ));
        }
        i = i + 1;
    }
}

/// The compiler flags contributed by the embedded interpreter: its header
/// directories, run-time search paths and libraries.
pub open spec fn spec_python_cc_flags(py: crate::probe::ProbePython, xlinker: bool) -> Seq<
    Seq<char>,
> {
    include_flag_list(py.includes.deep_view(), py.includes.deep_view().len() as int)
        + rpath_flag_list(
        py.link_searches.deep_view(),
        xlinker,
        py.link_searches.deep_view().len() as int,
    ) + lib_flag_list(py.libraries.deep_view(), py.libraries.deep_view().len() as int)
}

/// Appends the embedded interpreter's compiler flags.
pub fn cc_add_python_flags(b: &mut cc::Build, py: &crate::probe::ProbePython, xlinker: bool)
    ensures
        cc_flags(*final(b)) == cc_flags(*old(b)) + spec_python_cc_flags(*py, xlinker),
        cc_files(*final(b)) == cc_files(*old(b)),
        cc_cpp(*final(b)) == cc_cpp(*old(b)),
        cc_cuda(*final(b)) == cc_cuda(*old(b)),
        cc_pic(*final(b)) == cc_pic(*old(b)),
{
    cc_add_include_flags(b, &py.includes);
    cc_add_rpath_flags(b, &py.link_searches, xlinker);
    cc_add_lib_flags(b, &py.libraries);
    proof {
        assert(cc_flags(*b) =~= cc_flags(*old(b)) + spec_python_cc_flags(*py, xlinker));
    }
}

/// Appends a header-search flag string for every directory to a plain list.
pub fn append_include_flag_strings(out: &mut Vec<String>, dirs: &Vec<String>)
    ensures
        final(out).deep_view() == old(out).deep_view() + include_flag_list(
            dirs.deep_view(),
            dirs.deep_view().len() as int,
        ),
{
    let mut i: usize = 0;
    while i < dirs.len()
        invariant
            i <= dirs@.len(),
            out.deep_view() == old(out).deep_view() + include_flag_list(
                dirs.deep_view(),
                i as int,
            ),
        decreases dirs@.len() - i,
    {
        let ghost pre = out.deep_view();
        let ghost prevv = out@;
        let mut f = String::from_str("-I");
        f.append(dirs[i].as_str());
        let ghost fview = f@;
        out.push(f);
        proof {
            assert(dirs.deep_view()[i as int] == dirs@[i as int]@);
            let d = dirs.deep_view()[i as int];
            assert(include_flag_list(dirs.deep_view(), i + 1 as int) == include_flag_list(
                dirs.deep_view(),
                i as int,
            ) + seq!["-I"@ + d]);
            let target = old(out).deep_view() + include_flag_list(dirs.deep_view(), i + 1 as int);
            assert(pre.len() == prevv.len());
            assert(out@.len() == prevv.len() + 1);
            assert(pre == old(out).deep_view() + include_flag_list(dirs.deep_view(), i as int));
            assert(target.len() == out@.len());
            assert forall|k: int| 0 <= k < out@.len() implies out.deep_view()[k] == target[k] by {
                if k < prevv.len() {
                    assert(out@[k] == prevv[k]);
                    assert(pre[k] == target[k]);
                } else {
                    assert(out@[k]@ == fview);
                }
            }
            assert(out.deep_view() =~= target);
        }
        i = i + 1;
    }
}

/// The standard-library ABI selection flag: the macro set to one or zero.
pub open spec fn spec_abi_flag(use_cxx11_abi: bool) -> Seq<char> {
    "-D_GLIBCXX_USE_CXX11_ABI="@ + (if use_cxx11_abi {
        "1"@
    } else {
        "0"@
    })
}

/// Builds the ABI selection flag.
pub fn abi_flag(use_cxx11_abi: bool) -> (r: String)
    ensures
        r@ == spec_abi_flag(use_cxx11_abi),
{
    let mut f = String::from_str("-D_GLIBCXX_USE_CXX11_ABI=");
    if use_cxx11_abi {
        f.append("1");
    } else {
        f.append("0");
    }
    f
}

} // verus!
