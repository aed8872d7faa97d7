use torch_build::download::{libtorch_download_paths, libtorch_url, torch_device_literal};
use torch_build::errors::BuildError;
use torch_build::platform::{find_python_interpreter, shared_library_file_name, Os};

#[test]
fn device_literal_from_dotted_version() {
    assert_eq!(torch_device_literal(&Some("11.7".to_string())), "cu117");
}

#[test]
fn device_literal_from_prefixed_version() {
    assert_eq!(torch_device_literal(&Some("cu117".to_string())), "cu117");
}

#[test]
fn device_literal_lowercases_and_trims() {
    assert_eq!(torch_device_literal(&Some(" CU11.7.1\n".to_string())), "cu117");
}

#[test]
fn device_literal_without_a_hint_is_cpu() {
    assert_eq!(torch_device_literal(&None), "cpu");
}

#[test]
fn url_on_the_abi_platform() {
    let url = libtorch_url(Os::Linux, "cu117", "2.0.0", true).unwrap();
    assert_eq!(
        url,
        "https://download.pytorch.org/libtorch/cu117/libtorch-cxx11-abi-shared-with-deps-2.0.0%2Bcu117.zip"
    );
    let old_abi = libtorch_url(Os::Linux, "cpu", "2.0.0", false).unwrap();
    assert_eq!(
        old_abi,
        "https://download.pytorch.org/libtorch/cpu/libtorch-abi-shared-with-deps-2.0.0%2Bcpu.zip"
    );
}

#[test]
fn url_on_the_cpu_only_platform() {
    let url = libtorch_url(Os::MacOs, "cpu", "2.0.0", true).unwrap();
    assert_eq!(url, "https://download.pytorch.org/libtorch/cpu/libtorch-macos-2.0.0.zip");
}

#[test]
fn url_on_the_dll_platform() {
    let url = libtorch_url(Os::Windows, "cu117", "2.0.0", false).unwrap();
    assert_eq!(
        url,
        "https://download.pytorch.org/libtorch/cu117/libtorch-win-shared-with-deps-2.0.0%2Bcu117.zip"
    );
}

#[test]
fn url_elsewhere_is_unsupported() {
    assert_eq!(
        libtorch_url(Os::Other, "cpu", "2.0.0", false).unwrap_err(),
        BuildError::UnsupportedPlatform
    );
}

#[test]
fn download_paths_are_build_scoped() {
    let (dir, archive, extracted) = libtorch_download_paths("/out", "2.0.0");
    assert_eq!(dir, "/out/libtorch");
    assert_eq!(archive, "/out/libtorch/v2.0.0.zip");
    assert_eq!(extracted, "/out/libtorch/libtorch");
}

#[test]
fn shared_library_naming() {
    assert_eq!(
        shared_library_file_name("torch_cuda", Os::Linux),
        Some("libtorch_cuda.so".to_string())
    );
    assert_eq!(
        shared_library_file_name("torch_cuda", Os::Windows),
        Some("torch_cuda.dll".to_string())
    );
    assert_eq!(shared_library_file_name("torch_cuda", Os::MacOs), None);
}

#[test]
fn interpreter_choice() {
    assert_eq!(find_python_interpreter(Os::Linux, true).unwrap(), "python");
    assert_eq!(find_python_interpreter(Os::Linux, false).unwrap(), "python3");
    assert_eq!(find_python_interpreter(Os::Windows, false).unwrap(), "python.exe");
    assert_eq!(
        find_python_interpreter(Os::Other, false).unwrap_err(),
        BuildError::UnsupportedPlatform
    );
}
