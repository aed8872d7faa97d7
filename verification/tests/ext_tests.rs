use torch_build::arch::CudaArch;
use torch_build::cpp_ext::CppExtension;
use torch_build::cuda_ext::CudaExtension;
use torch_build::errors::BuildError;
use torch_build::library::{Api, LibDirProbe, Library};
use torch_build::platform::Os;
use torch_build::probe::{probe_cuda_api, LibArtifacts, ProbePython};

fn strings(items: &[&str]) -> Vec<String> {
    items.iter().map(|s| s.to_string()).collect()
}

const LIB64_ONLY: LibDirProbe = LibDirProbe {
    cuda_lib64_exists: true,
    cuda_lib_exists: false,
    cudnn_lib64_exists: false,
    cudnn_lib_exists: false,
};

fn cuda_library() -> Library {
    let artifacts = LibArtifacts {
        torch_hip: false,
        torch_cuda_cu: false,
        torch_cuda_cpp: false,
        torch_cuda: true,
    };
    let api = probe_cuda_api(&None, &Some("/usr/local/cuda".to_string()), &None, artifacts);
    Library {
        include_dirs: strings(&["/torch/include"]),
        lib_dir: "/torch/lib".to_string(),
        api,
        use_cxx11_abi: false,
    }
}

fn cpu_library() -> Library {
    Library {
        include_dirs: strings(&["/torch/include"]),
        lib_dir: "/torch/lib".to_string(),
        api: Api::Cpu,
        use_cxx11_abi: true,
    }
}

#[test]
fn cpp_builder_accumulates() {
    let mut ext = CppExtension::new();
    ext.use_cuda_api(true);
    ext.link_python(false);
    ext.include_dir("/proj/include".to_string());
    ext.includes(strings(&["/proj/include2"]));
    ext.source("src_a.cpp".to_string());
    ext.sources(strings(&["src_b.cpp"]));
    ext.header("api.h".to_string());
    ext.headers(strings(&["api2.h"]));
    ext.link_search("/proj/lib".to_string());
    ext.link_searches(strings(&["/proj/lib2"]));
    ext.library("mylib".to_string());
    ext.libraries(strings(&["mylib2"]));
    assert!(ext.use_cuda_api);
    assert_eq!(ext.includes, strings(&["/proj/include", "/proj/include2"]));
    assert_eq!(ext.sources, strings(&["src_a.cpp", "src_b.cpp"]));
    assert_eq!(ext.headers, strings(&["api.h", "api2.h"]));
    assert_eq!(ext.link_searches, strings(&["/proj/lib", "/proj/lib2"]));
    assert_eq!(ext.libraries, strings(&["mylib", "mylib2"]));
}

#[test]
fn cpp_configure_cc_sets_the_expected_flags() {
    let mut ext = CppExtension::new();
    ext.source("kernel.cpp".to_string());
    ext.include_dir("/proj/include".to_string());
    ext.library("mylib".to_string());
    ext.link_search("/proj/lib".to_string());
    let lib = cpu_library();
    let mut build = cc::Build::new();
    ext.configure_cc(&mut build, &lib, Os::Linux, LIB64_ONLY, &None, &None).unwrap();
    let dump = format!("{build:?}");
    assert!(dump.contains("-std=c++14"));
    assert!(dump.contains("-D_GLIBCXX_USE_CXX11_ABI=1"));
    assert!(dump.contains("-I/torch/include"));
    assert!(dump.contains("-I/proj/include"));
    assert!(dump.contains("-Wl,-rpath=/torch/lib"));
    assert!(dump.contains("-Wl,-rpath=/proj/lib"));
    assert!(dump.contains("-lc10"));
    assert!(dump.contains("-ltorch_cpu"));
    assert!(dump.contains("-lmylib"));
    assert!(dump.contains("kernel.cpp"));
}

#[test]
fn cpp_configure_cc_demands_a_runtime_for_cuda() {
    let mut ext = CppExtension::new();
    ext.use_cuda_api(true);
    let lib = cpu_library();
    let mut build = cc::Build::new();
    assert_eq!(
        ext.configure_cc(&mut build, &lib, Os::Linux, LIB64_ONLY, &None, &None).unwrap_err(),
        BuildError::GpuUnavailable
    );
}

#[test]
fn cpp_configure_cc_elsewhere_is_unsupported() {
    let ext = CppExtension::new();
    let lib = cpu_library();
    let mut build = cc::Build::new();
    assert_eq!(
        ext.configure_cc(&mut build, &lib, Os::Other, LIB64_ONLY, &None, &None).unwrap_err(),
        BuildError::UnsupportedPlatform
    );
}

#[test]
fn cpp_link_lines_in_order() {
    let mut ext = CppExtension::new();
    ext.use_cuda_api(true);
    ext.link_search("/proj/lib".to_string());
    ext.library("mylib".to_string());
    let lib = cuda_library();
    let lines = ext.link_unix(&lib, Os::Linux, LIB64_ONLY, &None, &None).unwrap();
    assert_eq!(
        lines,
        strings(&[
            "cargo:rustc-link-search=native=/torch/lib",
            "cargo:rustc-link-arg=-Wl,-rpath,/torch/lib",
            "cargo:rustc-link-search=native=/usr/local/cuda/lib64",
            "cargo:rustc-link-arg=-Wl,-rpath,/usr/local/cuda/lib64",
            "cargo:rustc-link-lib=c10",
            "cargo:rustc-link-lib=torch_cpu",
            "cargo:rustc-link-lib=torch",
            "cargo:rustc-link-lib=cudart",
            "cargo:rustc-link-lib=c10_cuda",
            "cargo:rustc-link-lib=torch_cuda",
            "cargo:rustc-link-search=native=/proj/lib",
            "cargo:rustc-link-arg=-Wl,-rpath,/proj/lib",
            "cargo:rustc-link-lib=mylib",
        ])
    );
}

#[test]
fn cpp_link_includes_the_interpreter() {
    let mut ext = CppExtension::new();
    ext.link_python(true);
    let lib = cpu_library();
    let python = ProbePython {
        includes: strings(&["/py/include"]),
        link_searches: strings(&["/py/lib"]),
        libraries: strings(&["python3.9"]),
    };
    let lines = ext.link(&lib, Os::Linux, LIB64_ONLY, &None, &Some(python)).unwrap();
    assert!(lines.contains(&"cargo:rustc-link-lib=torch_python".to_string()));
    assert!(lines.contains(&"cargo:rustc-link-search=native=/py/lib".to_string()));
    assert!(lines.contains(&"cargo:rustc-link-lib=python3.9".to_string()));
}

#[test]
fn cpp_bindgen_args() {
    let mut ext = CppExtension::new();
    ext.include_dir("/proj/include".to_string());
    let lib = cpu_library();
    let args = ext.bindgen_clang_args(&lib, Os::Linux, &None).unwrap();
    assert_eq!(args, strings(&["-x", "c++", "-I/proj/include", "-I/torch/include"]));
}

#[test]
fn cuda_builder_accumulates() {
    let mut ext = CudaExtension::new();
    ext.link_python(false);
    ext.include_dir("/proj/include".to_string());
    ext.source("kernel.cu".to_string());
    ext.header("kernel.h".to_string());
    ext.link_search("/proj/lib".to_string());
    ext.library("mylib".to_string());
    assert_eq!(ext.includes, strings(&["/proj/include"]));
    assert_eq!(ext.sources, strings(&["kernel.cu"]));
    assert_eq!(ext.headers, strings(&["kernel.h"]));
}

#[test]
fn cuda_out_dir_resolution() {
    let mut ext = CudaExtension::new();
    assert_eq!(
        ext.out_dir(&Some("/inherited".to_string())).unwrap(),
        "/inherited".to_string()
    );
    assert_eq!(ext.out_dir(&None).unwrap_err(), BuildError::MissingOutDir);
    ext.out_dir = Some("/explicit".to_string());
    assert_eq!(ext.out_dir(&Some("/inherited".to_string())).unwrap(), "/explicit".to_string());
}

#[test]
fn cuda_configure_cc_emits_arch_flags() {
    let mut ext = CudaExtension::new();
    ext.source("kernel.cu".to_string());
    let lib = cuda_library();
    let arches = vec![
        CudaArch { major: 8, minor: 0, with_ptx: false },
        CudaArch { major: 9, minor: 0, with_ptx: true },
    ];
    let mut build = cc::Build::new();
    ext.configure_cc(&mut build, &lib, Os::Linux, LIB64_ONLY, &None, &arches, &None).unwrap();
    let dump = format!("{build:?}");
    assert!(dump.contains("-gencode=arch=compute_80,code=sm_80"));
    assert!(dump.contains("-gencode=arch=compute_90,code=compute_90"));
    assert!(dump.contains("-D_GLIBCXX_USE_CXX11_ABI=0"));
    assert!(dump.contains("-Xlinker"));
    assert!(dump.contains("-ltorch_cuda"));
    assert!(dump.contains("kernel.cu"));
}

#[test]
fn cuda_configure_cc_demands_a_runtime() {
    let ext = CudaExtension::new();
    let lib = cpu_library();
    let arches: Vec<CudaArch> = Vec::new();
    let mut build = cc::Build::new();
    assert_eq!(
        ext.configure_cc(&mut build, &lib, Os::Linux, LIB64_ONLY, &None, &arches, &None)
            .unwrap_err(),
        BuildError::GpuUnavailable
    );
}

#[test]
fn cuda_link_lines_in_order() {
    let mut ext = CudaExtension::new();
    ext.library("mylib".to_string());
    ext.link_search("/proj/lib".to_string());
    let lib = cuda_library();
    let lines = ext.link(&lib, Os::Linux, LIB64_ONLY, &None, &None).unwrap();
    // The extension's own libraries come before its search paths here.
    let lib_pos = lines.iter().position(|l| l == "cargo:rustc-link-lib=mylib").unwrap();
    let search_pos = lines
        .iter()
        .position(|l| l == "cargo:rustc-link-search=native=/proj/lib")
        .unwrap();
    assert!(lib_pos < search_pos);
}

#[test]
fn cuda_bindgen_args_take_the_interpreter() {
    let mut ext = CudaExtension::new();
    ext.include_dir("/proj/include".to_string());
    let lib = cuda_library();
    let python = ProbePython {
        includes: strings(&["/py/include"]),
        link_searches: Vec::new(),
        libraries: Vec::new(),
    };
    let args = ext.bindgen_clang_args(&lib, Os::Linux, &python).unwrap();
    assert_eq!(
        args,
        strings(&[
            "-x",
            "c++",
            "-I/proj/include",
            "-I/torch/include",
            "-I/usr/local/cuda/include",
            "-I/py/include",
        ])
    );
}
