use hash_folderoo::config::{AlgorithmConfig, ConfigError, GeneralConfig, MemoryConfig, RuntimeConfig};

#[test]
fn rejects_invalid_format() {
    let cfg = RuntimeConfig {
        general: Some(GeneralConfig { format: Some("xml".to_string()), ..Default::default() }),
        ..Default::default()
    };
    assert!(cfg.validate().is_err());
}

#[test]
fn accepts_valid_config() {
    let cfg = RuntimeConfig {
        general: Some(GeneralConfig {
            format: Some("json".to_string()),
            threads: Some(4),
            ..Default::default()
        }),
        memory: Some(MemoryConfig { mode: Some("balanced".to_string()), max_ram: Some(1024) }),
        ..Default::default()
    };
    assert!(cfg.validate().is_ok());
}

#[test]
fn each_error_is_reported() {
    let g = |g: GeneralConfig| RuntimeConfig { general: Some(g), ..Default::default() };
    assert!(matches!(
        g(GeneralConfig { format: Some("XML".into()), ..Default::default() }).validate(),
        Err(ConfigError::InvalidFormat(s)) if s == "XML"
    ));
    assert!(g(GeneralConfig { format: Some("CSV".into()), ..Default::default() }).validate().is_ok());
    assert!(matches!(
        g(GeneralConfig { threads: Some(0), ..Default::default() }).validate(),
        Err(ConfigError::ZeroThreads)
    ));
    assert!(matches!(
        g(GeneralConfig { depth: Some(0), ..Default::default() }).validate(),
        Err(ConfigError::ZeroDepth)
    ));
    let a = |a: AlgorithmConfig| RuntimeConfig { algorithm: Some(a), ..Default::default() };
    assert!(matches!(
        a(AlgorithmConfig { name: Some("  ".into()), xof_length: None }).validate(),
        Err(ConfigError::EmptyAlgorithmName)
    ));
    assert!(matches!(
        a(AlgorithmConfig { name: Some("blake3".into()), xof_length: Some(0) }).validate(),
        Err(ConfigError::ZeroXofLength)
    ));
    let m = |m: MemoryConfig| RuntimeConfig { memory: Some(m), ..Default::default() };
    assert!(matches!(
        m(MemoryConfig { mode: Some("Turbo".into()), max_ram: None }).validate(),
        Err(ConfigError::InvalidMemoryMode(s)) if s == "turbo"
    ));
    assert!(matches!(
        m(MemoryConfig { mode: Some("STREAM".into()), max_ram: Some(0) }).validate(),
        Err(ConfigError::ZeroMaxRam)
    ));
}

#[test]
fn merge_overlays_fields() {
    let mut base = RuntimeConfig {
        general: Some(GeneralConfig {
            path: Some("base".into()),
            threads: Some(2),
            ..Default::default()
        }),
        ..Default::default()
    };
    let over = RuntimeConfig {
        general: Some(GeneralConfig { threads: Some(8), ..Default::default() }),
        memory: Some(MemoryConfig { mode: Some("stream".into()), max_ram: None }),
        ..Default::default()
    };
    base.merge(over);
    let g = base.general.as_ref().unwrap();
    assert_eq!(g.path.as_deref(), Some("base"));
    assert_eq!(g.threads, Some(8));
    assert_eq!(base.memory.as_ref().unwrap().mode.as_deref(), Some("stream"));
    assert!(base.algorithm.is_none());
}
