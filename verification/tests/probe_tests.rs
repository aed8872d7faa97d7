use torch_build::errors::BuildError;
use torch_build::library::Api;
use torch_build::platform::Os;
use torch_build::probe::{
    check_pytorch_version, parse_abi_override, parse_flag_env, parse_python_config,
    parse_pytorch_probe, probe_cuda_api, probe_cxx11_abi, select_libtorch_source, LibArtifacts,
    LibtorchSource,
};

const NO_ARTIFACTS: LibArtifacts = LibArtifacts {
    torch_hip: false,
    torch_cuda_cu: false,
    torch_cuda_cpp: false,
    torch_cuda: false,
};

#[test]
fn version_match_with_build_tag() {
    assert!(check_pytorch_version("2.0.0+cu117", "2.0.0", false).is_ok());
}

#[test]
fn version_mismatch_is_a_hard_failure() {
    match check_pytorch_version("2.1.0+cpu", "2.0.0", false) {
        Err(BuildError::VersionMismatch { expected, found }) => {
            assert_eq!(expected, "2.0.0");
            assert_eq!(found, "2.1.0");
        },
        other => panic!("expected a version mismatch, got {other:?}"),
    }
}

#[test]
fn version_bypass_always_succeeds() {
    assert!(check_pytorch_version("2.1.0+cpu", "2.0.0", true).is_ok());
    assert!(check_pytorch_version("not a version at all", "2.0.0", true).is_ok());
}

#[test]
fn version_report_is_trimmed() {
    assert!(check_pytorch_version(" 2.0.0+cu117\n", "2.0.0", false).is_ok());
}

#[test]
fn source_override_wins() {
    let r = select_libtorch_source(&Some("/opt/libtorch".to_string()), Os::Linux, true, true, true);
    assert_eq!(r.unwrap(), LibtorchSource::Manual("/opt/libtorch".to_string()));
}

#[test]
fn source_system_before_interpreter() {
    let r = select_libtorch_source(&None, Os::Linux, true, true, true);
    assert_eq!(r.unwrap(), LibtorchSource::System);
}

#[test]
fn source_system_only_on_its_platform() {
    let r = select_libtorch_source(&None, Os::MacOs, true, true, true);
    assert_eq!(r.unwrap(), LibtorchSource::PyTorch);
}

#[test]
fn source_download_is_the_last_resort() {
    let r = select_libtorch_source(&None, Os::Linux, false, false, true);
    assert_eq!(r.unwrap(), LibtorchSource::Download);
}

#[test]
fn source_exhaustion_is_not_found() {
    let r = select_libtorch_source(&None, Os::Linux, false, false, false);
    assert_eq!(r.unwrap_err(), BuildError::NotFound);
}

#[test]
fn api_detection_monolithic_cuda() {
    let artifacts = LibArtifacts { torch_cuda: true, ..NO_ARTIFACTS };
    let api = probe_cuda_api(&None, &Some("/usr/local/cuda".to_string()), &None, artifacts);
    match api {
        Api::Cuda(a) => {
            assert_eq!(a.cuda_home, "/usr/local/cuda");
            assert_eq!(a.cudnn_home, None);
        },
        other => panic!("expected the monolithic variant, got {other:?}"),
    }
}

#[test]
fn api_detection_split_cuda() {
    let artifacts = LibArtifacts { torch_cuda_cu: true, torch_cuda_cpp: true, ..NO_ARTIFACTS };
    let api = probe_cuda_api(
        &None,
        &Some("/usr/local/cuda".to_string()),
        &Some("/opt/cudnn".to_string()),
        artifacts,
    );
    match api {
        Api::CudaSplit(a) => {
            assert_eq!(a.cuda_home, "/usr/local/cuda");
            assert_eq!(a.cudnn_home, Some("/opt/cudnn".to_string()));
        },
        other => panic!("expected the split variant, got {other:?}"),
    }
}

#[test]
fn api_detection_hip_takes_priority_through_its_artifact() {
    let artifacts = LibArtifacts { torch_hip: true, torch_cuda: true, ..NO_ARTIFACTS };
    let api = probe_cuda_api(
        &Some("/opt/rocm".to_string()),
        &Some("/usr/local/cuda".to_string()),
        &None,
        artifacts,
    );
    match api {
        Api::Hip(h) => {
            assert_eq!(h.rocm_home, "/opt/rocm");
            assert_eq!(h.miopen_home, "/opt/rocm/miopen");
        },
        other => panic!("expected the HIP variant, got {other:?}"),
    }
}

#[test]
fn api_detection_needs_the_artifact() {
    // A configured toolkit without its runtime artifact downgrades to no
    // GPU support; adding the artifact upgrades it.
    let cuda_home = Some("/usr/local/cuda".to_string());
    let before = probe_cuda_api(&None, &cuda_home, &None, NO_ARTIFACTS);
    assert_eq!(before, Api::Cpu);
    let after = probe_cuda_api(
        &None,
        &cuda_home,
        &None,
        LibArtifacts { torch_cuda: true, ..NO_ARTIFACTS },
    );
    assert!(matches!(after, Api::Cuda(_)));
}

#[test]
fn api_detection_needs_the_configuration() {
    // Artifacts without toolkit configuration detect nothing.
    let all = LibArtifacts {
        torch_hip: true,
        torch_cuda_cu: true,
        torch_cuda_cpp: true,
        torch_cuda: true,
    };
    assert_eq!(probe_cuda_api(&None, &None, &None, all), Api::Cpu);
}

fn lines(ls: &[&str]) -> Vec<String> {
    ls.iter().map(|l| l.to_string()).collect()
}

#[test]
fn pytorch_probe_output_parses() {
    let out = parse_pytorch_probe(
        &lines(&[
            "LIBTORCH_VERSION: 2.0.0+cu117",
            "LIBTORCH_CXX11: True",
            "LIBTORCH_INCLUDE: /py/torch/include",
            "LIBTORCH_INCLUDE: /py/torch/include/torch/csrc/api/include",
            "LIBTORCH_LIB: /py/torch/lib",
            "something else entirely",
        ]),
        "2.0.0",
        false,
    )
    .unwrap();
    assert!(out.use_cxx11_abi);
    assert_eq!(out.lib_dir, "/py/torch/lib");
    assert_eq!(
        out.include_dirs,
        vec![
            "/py/torch/include".to_string(),
            "/py/torch/include/torch/csrc/api/include".to_string(),
        ]
    );
}

#[test]
fn pytorch_probe_requires_the_library_directory() {
    let r = parse_pytorch_probe(&lines(&["LIBTORCH_CXX11: False"]), "2.0.0", false);
    match r {
        Err(BuildError::ProbeScriptError(m)) => assert!(m.contains("LIBTORCH_LIB")),
        other => panic!("expected a probe failure, got {other:?}"),
    }
}

#[test]
fn pytorch_probe_requires_the_abi_key() {
    let r = parse_pytorch_probe(&lines(&["LIBTORCH_LIB: /py/torch/lib"]), "2.0.0", false);
    match r {
        Err(BuildError::ProbeScriptError(m)) => assert!(m.contains("LIBTORCH_CXX11")),
        other => panic!("expected a probe failure, got {other:?}"),
    }
}

#[test]
fn pytorch_probe_rejects_a_malformed_abi_line() {
    let r = parse_pytorch_probe(&lines(&["LIBTORCH_CXX11: maybe"]), "2.0.0", false);
    match r {
        Err(BuildError::ProbeScriptError(m)) => assert_eq!(m, "LIBTORCH_CXX11: maybe"),
        other => panic!("expected a probe failure, got {other:?}"),
    }
}

#[test]
fn pytorch_probe_gates_the_version() {
    let r = parse_pytorch_probe(
        &lines(&["LIBTORCH_VERSION: 1.13.0+cpu", "LIBTORCH_CXX11: True", "LIBTORCH_LIB: /l"]),
        "2.0.0",
        false,
    );
    match r {
        Err(BuildError::VersionMismatch { expected, found }) => {
            assert_eq!(expected, "2.0.0");
            assert_eq!(found, "1.13.0");
        },
        other => panic!("expected a version mismatch, got {other:?}"),
    }
}

#[test]
fn python_config_tokens_are_sorted_into_lists() {
    let out = parse_python_config(
        "-I/usr/py/incl -I/usr/py/incl2\n-L/usr/py/lib -lpython3.9 -lpthread --embed",
    );
    assert_eq!(out.includes, vec!["/usr/py/incl".to_string(), "/usr/py/incl2".to_string()]);
    assert_eq!(out.link_searches, vec!["/usr/py/lib".to_string()]);
    assert_eq!(out.libraries, vec!["python3.9".to_string(), "pthread".to_string()]);
}

#[test]
fn abi_override_values() {
    assert_eq!(parse_abi_override("1"), Some(true));
    assert_eq!(parse_abi_override("0"), Some(false));
    assert_eq!(parse_abi_override("yes"), None);
}

#[test]
fn flag_env_values() {
    assert!(parse_flag_env("1"));
    assert!(parse_flag_env("true"));
    assert!(!parse_flag_env("0"));
}

#[test]
fn abi_detection_rules() {
    assert!(!probe_cxx11_abi(Some(false), Os::MacOs, true));
    assert!(probe_cxx11_abi(None, Os::MacOs, false));
    assert!(probe_cxx11_abi(None, Os::Linux, true));
    assert!(!probe_cxx11_abi(None, Os::Linux, false));
    assert!(probe_cxx11_abi(None, Os::Windows, false));
}
