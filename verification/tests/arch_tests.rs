use torch_build::arch::CudaArch;
use torch_build::config::{lookup_alias, parse_cuda_arch_list};
use torch_build::errors::BuildError;

#[test]
fn parse_simple_token() {
    let a = CudaArch::parse("8.0").unwrap();
    assert_eq!(a, CudaArch { major: 8, minor: 0, with_ptx: false });
}

#[test]
fn parse_ptx_token() {
    let a = CudaArch::parse("9.0+PTX").unwrap();
    assert_eq!(a, CudaArch { major: 9, minor: 0, with_ptx: true });
}

#[test]
fn parse_multi_digit_token() {
    let a = CudaArch::parse("12.34").unwrap();
    assert_eq!(a, CudaArch { major: 12, minor: 34, with_ptx: false });
}

#[test]
fn parse_leading_zero_token() {
    // Accepted by the strict numeric pattern; the digits lose their leading
    // zero in the parsed value.
    let a = CudaArch::parse("08.0").unwrap();
    assert_eq!(a, CudaArch { major: 8, minor: 0, with_ptx: false });
}

#[test]
fn parse_rejects_malformed_tokens() {
    for bad in ["", "8", "8.", ".5", "8.0.1", "a.b", "+PTX", "8.0+ptx", "8 .0", "8.0 "] {
        match CudaArch::parse(bad) {
            Err(BuildError::InvalidArchSpec(t)) => assert_eq!(t, bad),
            other => panic!("expected an invalid-architecture error for {bad:?}, got {other:?}"),
        }
    }
}

#[test]
fn parse_through_from_str() {
    let a: CudaArch = "8.6+PTX".parse().unwrap();
    assert_eq!(a, CudaArch { major: 8, minor: 6, with_ptx: true });
    assert!("8.6+".parse::<CudaArch>().is_err());
}

#[test]
fn nvcc_flag_real_target() {
    let a = CudaArch { major: 8, minor: 0, with_ptx: false };
    assert_eq!(a.nvcc_flag(), "-gencode=arch=compute_80,code=sm_80");
}

#[test]
fn nvcc_flag_virtual_target() {
    let a = CudaArch { major: 9, minor: 0, with_ptx: true };
    assert_eq!(a.nvcc_flag(), "-gencode=arch=compute_90,code=compute_90");
}

#[test]
fn nvcc_flag_multi_digit() {
    let a = CudaArch { major: 12, minor: 3, with_ptx: false };
    assert_eq!(a.nvcc_flag(), "-gencode=arch=compute_123,code=sm_123");
}

#[test]
fn arch_list_two_entries_flags() {
    let aliases: Vec<(String, Vec<CudaArch>)> = Vec::new();
    let arches = parse_cuda_arch_list("8.0;9.0+PTX", &aliases).unwrap();
    assert_eq!(arches.len(), 2);
    assert_eq!(arches[0].nvcc_flag(), "-gencode=arch=compute_80,code=sm_80");
    assert_eq!(arches[1].nvcc_flag(), "-gencode=arch=compute_90,code=compute_90");
}

fn arch(major: u32, minor: u32) -> CudaArch {
    CudaArch { major, minor, with_ptx: false }
}

#[test]
fn alias_expansion_matches_concatenation() {
    let aliases = vec![
        ("Ampere".to_string(), vec![arch(8, 0), arch(8, 6)]),
        ("Volta".to_string(), vec![arch(7, 0), arch(7, 2)]),
    ];
    let got = parse_cuda_arch_list("Ampere;Volta;Ampere", &aliases).unwrap();
    let mut manual = Vec::new();
    manual.extend(lookup_alias(&aliases, "Ampere").unwrap());
    manual.extend(lookup_alias(&aliases, "Volta").unwrap());
    manual.extend(lookup_alias(&aliases, "Ampere").unwrap());
    assert_eq!(got, manual);
    let mut got_sorted = got.clone();
    let mut manual_sorted = manual.clone();
    got_sorted.sort();
    manual_sorted.sort();
    assert_eq!(got_sorted, manual_sorted);
}

#[test]
fn alias_and_literal_mix() {
    let aliases = vec![("Turing".to_string(), vec![arch(7, 5)])];
    let got = parse_cuda_arch_list("6.1;Turing;8.6+PTX", &aliases).unwrap();
    assert_eq!(
        got,
        vec![arch(6, 1), arch(7, 5), CudaArch { major: 8, minor: 6, with_ptx: true }]
    );
}

#[test]
fn arch_list_rejects_unknown_token() {
    let aliases = vec![("Turing".to_string(), vec![arch(7, 5)])];
    match parse_cuda_arch_list("7.5;bogus", &aliases) {
        Err(BuildError::InvalidArchSpec(t)) => assert_eq!(t, "bogus"),
        other => panic!("expected an invalid-architecture error, got {other:?}"),
    }
}
