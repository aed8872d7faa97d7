use torch_build::arch::CudaArch;
use torch_build::config::{bundled_config_text, config_from_raw, torch_cuda_arch_list, Config,
    RawConfig};
use torch_build::errors::BuildError;

fn raw_from_toml(text: &str) -> RawConfig {
    let doc: toml::Value = toml::from_str(text).expect("the configuration text must parse");
    let torch_version = doc
        .get("torch_version")
        .and_then(|v| v.as_str())
        .expect("torch_version must be a string")
        .to_string();
    let torch_cuda_arch_list = doc
        .get("torch_cuda_arch_list")
        .and_then(|v| v.as_array())
        .expect("torch_cuda_arch_list must be a list")
        .iter()
        .map(|v| v.as_str().expect("an architecture token must be a string").to_string())
        .collect();
    let mut cuda_arch_aliases = Vec::new();
    if let Some(table) = doc.get("cuda_arch_aliases").and_then(|v| v.as_table()) {
        for (name, list) in table.iter() {
            let tokens = list
                .as_array()
                .expect("an alias must map to a list")
                .iter()
                .map(|v| v.as_str().expect("an alias entry must be a string").to_string())
                .collect();
            cuda_arch_aliases.push((name.clone(), tokens));
        }
    }
    RawConfig { torch_version, torch_cuda_arch_list, cuda_arch_aliases }
}

#[test]
fn parse_config_toml() {
    let raw = raw_from_toml(bundled_config_text());
    let config = config_from_raw(&raw).expect("the bundled configuration must be interpretable");
    assert_eq!(config.torch_version, "2.0.0");
    assert_eq!(config.torch_cuda_arch_list.len(), 13);
    assert_eq!(
        config.torch_cuda_arch_list[0],
        CudaArch { major: 3, minor: 5, with_ptx: false }
    );
    assert_eq!(
        config.torch_cuda_arch_list[12],
        CudaArch { major: 8, minor: 6, with_ptx: false }
    );
    let ampere = config
        .cuda_arch_aliases
        .iter()
        .find(|(name, _)| name == "Ampere")
        .map(|(_, list)| list.clone())
        .expect("the bundled table must know this alias");
    assert_eq!(
        ampere,
        vec![
            CudaArch { major: 8, minor: 0, with_ptx: false },
            CudaArch { major: 8, minor: 6, with_ptx: false },
        ]
    );
}

#[test]
fn config_interpretation_drops_repeated_architectures() {
    let raw = RawConfig {
        torch_version: "2.0.0".to_string(),
        torch_cuda_arch_list: vec!["8.0".to_string(), "8.6".to_string(), "8.0".to_string()],
        cuda_arch_aliases: Vec::new(),
    };
    let config = config_from_raw(&raw).unwrap();
    assert_eq!(
        config.torch_cuda_arch_list,
        vec![
            CudaArch { major: 8, minor: 0, with_ptx: false },
            CudaArch { major: 8, minor: 6, with_ptx: false },
        ]
    );
}

#[test]
fn config_interpretation_rejects_bad_token() {
    let raw = RawConfig {
        torch_version: "2.0.0".to_string(),
        torch_cuda_arch_list: vec!["8.0".to_string(), "eight".to_string()],
        cuda_arch_aliases: Vec::new(),
    };
    match config_from_raw(&raw) {
        Err(BuildError::InvalidArchSpec(t)) => assert_eq!(t, "eight"),
        other => panic!("expected an invalid-architecture error, got {other:?}"),
    }
}

#[test]
fn config_interpretation_keeps_first_alias_entry() {
    let raw = RawConfig {
        torch_version: "2.0.0".to_string(),
        torch_cuda_arch_list: vec!["8.0".to_string()],
        cuda_arch_aliases: vec![
            ("A".to_string(), vec!["7.0".to_string()]),
            ("A".to_string(), vec!["8.0".to_string()]),
        ],
    };
    let config = config_from_raw(&raw).unwrap();
    assert_eq!(config.cuda_arch_aliases.len(), 1);
    assert_eq!(
        config.cuda_arch_aliases[0].1,
        vec![CudaArch { major: 7, minor: 0, with_ptx: false }]
    );
}

fn small_config() -> Config {
    let raw = RawConfig {
        torch_version: "2.0.0".to_string(),
        torch_cuda_arch_list: vec!["7.5".to_string(), "8.0".to_string()],
        cuda_arch_aliases: vec![("Ampere".to_string(), vec!["8.0".to_string(), "8.6".to_string()])],
    };
    config_from_raw(&raw).unwrap()
}

#[test]
fn arch_list_override_wins_and_is_deduplicated() {
    let config = small_config();
    let got = torch_cuda_arch_list(&Some("Ampere;8.0".to_string()), &config).unwrap();
    assert_eq!(
        got,
        vec![
            CudaArch { major: 8, minor: 0, with_ptx: false },
            CudaArch { major: 8, minor: 6, with_ptx: false },
        ]
    );
}

#[test]
fn arch_list_default_comes_from_config() {
    let config = small_config();
    let got = torch_cuda_arch_list(&None, &config).unwrap();
    assert_eq!(got, config.torch_cuda_arch_list);
}
