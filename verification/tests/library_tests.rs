use torch_build::errors::BuildError;
use torch_build::library::{Api, CudaApi, HipApi, LibDirProbe, Library};
use torch_build::platform::Os;
use torch_build::probe::{probe_cuda_api, LibArtifacts};

fn strings(items: &[&str]) -> Vec<String> {
    items.iter().map(|s| s.to_string()).collect()
}

const LIB64_ONLY: LibDirProbe = LibDirProbe {
    cuda_lib64_exists: true,
    cuda_lib_exists: false,
    cudnn_lib64_exists: false,
    cudnn_lib_exists: false,
};

fn override_cuda_library() -> Library {
    // The end-to-end scenario: an override directory whose `lib` holds the
    // monolithic GPU runtime next to the CPU runtime, a configured CUDA
    // home, no ROCm home.
    let artifacts = LibArtifacts {
        torch_hip: false,
        torch_cuda_cu: false,
        torch_cuda_cpp: false,
        torch_cuda: true,
    };
    let api = probe_cuda_api(&None, &Some("/usr/local/cuda".to_string()), &None, artifacts);
    Library {
        include_dirs: strings(&["/override/include"]),
        lib_dir: "/override/lib".to_string(),
        api,
        use_cxx11_abi: true,
    }
}

#[test]
fn end_to_end_override_with_cuda() {
    let lib = override_cuda_library();
    assert!(matches!(lib.api, Api::Cuda(_)));
    assert!(lib.is_cuda_api_available());

    let paths = lib.link_paths(Some(true), Os::Linux, LIB64_ONLY).unwrap();
    assert_eq!(paths, strings(&["/override/lib", "/usr/local/cuda/lib64"]));

    let libs = lib.libraries(Some(true), false, &None).unwrap();
    assert_eq!(libs, strings(&["c10", "torch_cpu", "torch", "cudart", "c10_cuda", "torch_cuda"]));
}

#[test]
fn link_paths_fall_back_to_plain_lib() {
    let lib = override_cuda_library();
    let probe = LibDirProbe { cuda_lib64_exists: false, cuda_lib_exists: true, ..LIB64_ONLY };
    let paths = lib.link_paths(Some(true), Os::Linux, probe).unwrap();
    assert_eq!(paths, strings(&["/override/lib", "/usr/local/cuda/lib"]));
}

#[test]
fn link_paths_need_a_toolkit_library_directory() {
    let lib = override_cuda_library();
    let probe = LibDirProbe { cuda_lib64_exists: false, ..LIB64_ONLY };
    assert_eq!(
        lib.link_paths(Some(true), Os::Linux, probe).unwrap_err(),
        BuildError::MissingCudaLibDir
    );
}

#[test]
fn mirroring_detection_enables_cuda() {
    let lib = override_cuda_library();
    let paths = lib.link_paths(None, Os::Linux, LIB64_ONLY).unwrap();
    assert_eq!(paths.len(), 2);
    let disabled = lib.link_paths(Some(false), Os::Linux, LIB64_ONLY).unwrap();
    assert_eq!(disabled, strings(&["/override/lib"]));
}

#[test]
fn demanding_cuda_without_a_runtime_fails() {
    let lib = Library {
        include_dirs: Vec::new(),
        lib_dir: "/cpu/lib".to_string(),
        api: Api::Cpu,
        use_cxx11_abi: true,
    };
    assert_eq!(lib.libraries(Some(true), false, &None).unwrap_err(), BuildError::GpuUnavailable);
    assert_eq!(
        lib.include_paths(Some(true), Os::Linux).unwrap_err(),
        BuildError::GpuUnavailable
    );
    // Disabled or mirrored requests still succeed on a CPU-only library.
    assert_eq!(lib.libraries(None, false, &None).unwrap(), strings(&["c10", "torch_cpu", "torch"]));
}

#[test]
fn include_paths_drop_the_system_directory() {
    let lib = Library {
        include_dirs: strings(&["/torch/include", "/usr/include", "/torch/include/TH"]),
        lib_dir: "/torch/lib".to_string(),
        api: Api::Cpu,
        use_cxx11_abi: true,
    };
    let on_linux = lib.include_paths(Some(false), Os::Linux).unwrap();
    assert_eq!(on_linux, strings(&["/torch/include", "/torch/include/TH"]));
    let elsewhere = lib.include_paths(Some(false), Os::MacOs).unwrap();
    assert_eq!(elsewhere.len(), 3);
}

#[test]
fn include_paths_add_toolkit_directories() {
    let lib = override_cuda_library();
    let incs = lib.include_paths(Some(true), Os::Linux).unwrap();
    assert_eq!(incs, strings(&["/override/include", "/usr/local/cuda/include"]));
}

#[test]
fn hip_variant_paths_and_names() {
    let api = Api::Hip(HipApi {
        rocm_home: "/opt/rocm".to_string(),
        miopen_home: "/opt/rocm/miopen".to_string(),
    });
    let lib = Library {
        include_dirs: strings(&["/torch/include"]),
        lib_dir: "/torch/lib".to_string(),
        api,
        use_cxx11_abi: true,
    };
    assert!(lib.api.is_hip());
    let incs = lib.include_paths(Some(true), Os::Linux).unwrap();
    assert_eq!(
        incs,
        strings(&["/torch/include", "/opt/rocm/include", "/opt/rocm/miopen/include"])
    );
    let paths = lib.link_paths(Some(true), Os::Linux, LIB64_ONLY).unwrap();
    assert_eq!(paths, strings(&["/torch/lib", "/opt/rocm/lib"]));
    let libs = lib.libraries(Some(true), false, &None).unwrap();
    assert_eq!(
        libs,
        strings(&["c10", "torch_cpu", "torch", "amdhip64", "c10_hip", "torch_hip"])
    );
}

#[test]
fn split_variant_library_names() {
    let artifacts = LibArtifacts {
        torch_hip: false,
        torch_cuda_cu: true,
        torch_cuda_cpp: true,
        torch_cuda: false,
    };
    let api = probe_cuda_api(&None, &Some("/usr/local/cuda".to_string()), &None, artifacts);
    let lib = Library {
        include_dirs: Vec::new(),
        lib_dir: "/torch/lib".to_string(),
        api,
        use_cxx11_abi: true,
    };
    let libs = lib.libraries(Some(true), false, &None).unwrap();
    assert_eq!(
        libs,
        strings(&["c10", "torch_cpu", "torch", "cudart", "c10_cuda", "torch_cuda_cu",
            "torch_cuda_cpp"])
    );
}

#[test]
fn interpreter_binding_and_parallelism_runtime() {
    let lib = override_cuda_library();
    let libs = lib
        .libraries(Some(false), true, &Some("x86_64-unknown-linux-gnu".to_string()))
        .unwrap();
    assert_eq!(libs, strings(&["c10", "torch_cpu", "torch", "torch_python", "gomp"]));
    let msvc = lib
        .libraries(Some(false), false, &Some("x86_64-pc-windows-msvc".to_string()))
        .unwrap();
    assert_eq!(msvc, strings(&["c10", "torch_cpu", "torch"]));
    let apple = lib
        .libraries(Some(false), false, &Some("aarch64-apple-darwin".to_string()))
        .unwrap();
    assert_eq!(apple, strings(&["c10", "torch_cpu", "torch"]));
}

#[test]
fn api_accessor_directories() {
    let api = Api::Cuda(CudaApi {
        cuda_home: "/usr/local/cuda".to_string(),
        cudnn_home: Some("/opt/cudnn".to_string()),
    });
    assert_eq!(api.cuda_home_dir(), Some("/usr/local/cuda".to_string()));
    assert_eq!(api.cudnn_home_dir(), Some("/opt/cudnn".to_string()));
    assert_eq!(api.cuda_include_dir(), Some("/usr/local/cuda/include".to_string()));
    assert_eq!(api.cuda_library_dir(), Some("/usr/local/cuda/lib64".to_string()));
    assert!(!api.is_hip());
    assert_eq!(Api::Cpu.cuda_home_dir(), None);
    assert_eq!(Api::Cpu.cuda_include_dir(), None);
    assert!(!Api::Cpu.is_cuda_api_available());
}

#[test]
fn windows_toolkit_link_directory() {
    let lib = override_cuda_library();
    let paths = lib.link_paths(Some(true), Os::Windows, LIB64_ONLY).unwrap();
    assert_eq!(paths, strings(&["/override/lib", "/usr/local/cuda/lib/x64"]));
}
