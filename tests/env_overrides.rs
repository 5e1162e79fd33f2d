use hash_folderoo::config::{
    apply_env_overrides, bool_from_word, is_report_format, parse_bool, parse_list, parse_u64, parse_usize, EnvOverrides, GeneralConfig,
    RuntimeConfig,
};

#[test]
fn parsers() {
    assert_eq!(parse_usize(" 42 "), Some(42));
    assert_eq!(parse_usize("x"), None);
    assert_eq!(parse_u64("18446744073709551615"), Some(u64::MAX));
    assert_eq!(parse_u64("-1"), None);
    assert_eq!(parse_bool(" YES "), Some(true));
    assert_eq!(parse_bool("off"), Some(false));
    assert_eq!(parse_bool("maybe"), None);
    assert_eq!(parse_list(" a, ,b ,"), vec!["a".to_string(), "b".to_string()]);
    assert!(parse_list("").is_empty());
    assert_eq!(parse_list("target/**"), vec!["target/**".to_string()]);
}

#[test]
fn env_values_override_config() {
    let mut cfg = RuntimeConfig {
        general: Some(GeneralConfig { path: Some("cfg".into()), threads: Some(2), ..Default::default() }),
        ..Default::default()
    };
    let env = EnvOverrides {
        threads: Some("8".into()),
        depth: Some("not a number".into()),
        exclude: Some("a/**, b".into()),
        progress: Some("true".into()),
        algorithm: Some("k12".into()),
        max_ram: Some("1024".into()),
        ..Default::default()
    };
    apply_env_overrides(&mut cfg, &env);
    let g = cfg.general.as_ref().unwrap();
    assert_eq!(g.path.as_deref(), Some("cfg"));
    assert_eq!(g.threads, Some(8));
    assert_eq!(g.depth, None);
    assert_eq!(g.exclude, Some(vec!["a/**".to_string(), "b".to_string()]));
    assert_eq!(g.progress, Some(true));
    assert_eq!(cfg.algorithm.as_ref().unwrap().name.as_deref(), Some("k12"));
    let m = cfg.memory.as_ref().unwrap();
    assert_eq!(m.max_ram, Some(1024));
    assert_eq!(m.mode, None);
}

#[test]
fn unset_or_unparsable_env_changes_nothing() {
    let mut cfg = RuntimeConfig::default();
    let env = EnvOverrides { threads: Some("many".into()), exclude: Some(" , ".into()), ..Default::default() };
    apply_env_overrides(&mut cfg, &env);
    assert!(cfg.general.is_none());
    assert!(cfg.algorithm.is_none());
    assert!(cfg.memory.is_none());
}

#[test]
fn words_and_formats() {
    assert_eq!(bool_from_word("on"), Some(true));
    assert_eq!(bool_from_word("ON"), None);
    assert_eq!(bool_from_word("0"), Some(false));
    assert!(is_report_format("csv"));
    assert!(!is_report_format("CSV"));
    assert!(!is_report_format("xml"));
}
