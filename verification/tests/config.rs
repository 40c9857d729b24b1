//! Worker configuration.
use mo_worker::config::{
    clamp_threshold, normalize_reasoning_effort, parse_config, resolve_model, ConfigError,
    Environment, FileConfig, ModelConfig, DEFAULT_MAX_TOOL_CONCURRENCY, DEFAULT_THRESHOLD_BITS,
    MAX_SUBAGENT_DEPTH,
};

#[test]
fn depth_cap_is_one() {
    assert_eq!(MAX_SUBAGENT_DEPTH, 1);
}

fn file_default_model() -> ModelConfig {
    ModelConfig {
        base_url: "https://default.example.com".into(),
        name: "default-model".into(),
        token: Some("tok-default".into()),
        nickname: Some("default".into()),
        context_window: Some(65536),
        reasoning_effort: Some("high".into()),
    }
}

#[test]
fn env_model_does_not_inherit_the_file_defaults_per_model_fields() {
    let file = file_default_model();
    let resolved = resolve_model(
        Some(&file),
        Some("https://second.example.com".into()),
        Some("second-model".into()),
        None,
        None,
        None,
    )
    .unwrap();
    assert_eq!(resolved.base_url, "https://second.example.com");
    assert_eq!(resolved.name, "second-model");
    assert_eq!(resolved.token, None);
    assert_eq!(resolved.context_window, None);
    assert_eq!(resolved.reasoning_effort, None);
}

#[test]
fn env_model_uses_the_env_per_model_fields() {
    let file = file_default_model();
    let resolved = resolve_model(
        Some(&file),
        Some("https://second.example.com".into()),
        Some("second-model".into()),
        Some("tok-2".into()),
        Some("4096".into()),
        Some("  low  ".into()),
    )
    .unwrap();
    assert_eq!(resolved.token.as_deref(), Some("tok-2"));
    assert_eq!(resolved.context_window, Some(4096));
    assert_eq!(resolved.reasoning_effort.as_deref(), Some("low"));

    let resolved = resolve_model(
        Some(&file),
        Some("https://second.example.com".into()),
        Some("second-model".into()),
        None,
        Some("".into()),
        Some("   ".into()),
    )
    .unwrap();
    assert_eq!(resolved.context_window, None);
    assert_eq!(resolved.reasoning_effort, None);

    let resolved = resolve_model(
        Some(&file),
        Some("https://second.example.com".into()),
        Some("second-model".into()),
        None,
        Some("not-a-number".into()),
        None,
    )
    .unwrap();
    assert_eq!(resolved.context_window, None);
}

#[test]
fn file_default_model_used_when_no_env_model() {
    let file = file_default_model();
    let resolved = resolve_model(Some(&file), None, None, None, None, None).unwrap();
    assert_eq!(resolved.base_url, "https://default.example.com");
    assert_eq!(resolved.name, "default-model");
    assert_eq!(resolved.token.as_deref(), Some("tok-default"));
    assert_eq!(resolved.context_window, Some(65536));
    assert_eq!(resolved.reasoning_effort.as_deref(), Some("high"));
}

#[test]
fn half_a_model_in_the_environment_leaves_it_to_the_file() {
    let file = file_default_model();
    let whole = resolve_model(Some(&file), None, None, None, None, None).unwrap();
    let half = |base_url: Option<&str>, name: Option<&str>| {
        resolve_model(
            Some(&file),
            base_url.map(|v| v.to_string()),
            name.map(|v| v.to_string()),
            Some("tok-2".into()),
            Some("4096".into()),
            Some("low".into()),
        )
        .unwrap()
    };
    assert_eq!(half(Some("https://x.example.com"), None), whole);
    assert_eq!(half(None, Some("x")), whole);
}

#[test]
fn missing_model_errors() {
    assert!(matches!(
        resolve_model(None, None, None, None, None, None),
        Err(ConfigError::MissingBaseUrl)
    ));
    assert!(matches!(
        resolve_model(
            None,
            Some("https://x.example.com".into()),
            None,
            None,
            None,
            None
        ),
        Err(ConfigError::MissingModelName)
    ));
}

fn env() -> Environment {
    Environment {
        data_dir: None,
        agents_dir: None,
        subagent_depth: None,
        model_base_url: Some("http://m".into()),
        model_name: Some("m".into()),
        auth_token: None,
        context_window: None,
        reasoning_effort: None,
        max_tool_concurrency: None,
        context_compression_threshold: None,
    }
}

fn args(list: &[&str]) -> Vec<String> {
    list.iter().map(|a| a.to_string()).collect()
}

fn file() -> FileConfig {
    FileConfig {
        data_dir: "/file/data".into(),
        agents_dir: "/file/agents".into(),
        default_model: Some(file_default_model()),
        max_tool_concurrency: 3,
        context_compression_threshold: f64::to_bits(0.5),
    }
}

#[test]
fn session_id_comes_from_the_arguments() {
    let home = "/home/.agents";
    let cfg = parse_config(&args(&["--session-id", "s1"]), &env(), &None, home).unwrap();
    assert_eq!(cfg.session_id, "s1");
    assert_eq!(cfg.data_dir, "./data");
    assert_eq!(cfg.agents_dir, home);
    assert_eq!(cfg.subagent_depth, 0);
    assert_eq!(cfg.max_tool_concurrency, DEFAULT_MAX_TOOL_CONCURRENCY);
    assert_eq!(cfg.context_compression_threshold, DEFAULT_THRESHOLD_BITS);
    // The last one counts, and a trailing one takes the id away.
    let cfg = parse_config(
        &args(&["--session-id", "a", "x", "--session-id", "b"]),
        &env(),
        &None,
        home,
    )
    .unwrap();
    assert_eq!(cfg.session_id, "b");
    for list in [&["x"][..], &["--session-id"][..], &["--session-id", "a", "--session-id"][..]] {
        assert_eq!(
            parse_config(&args(list), &env(), &None, home),
            Err(ConfigError::MissingSessionId)
        );
    }
}

#[test]
fn environment_wins_over_the_file() {
    let list = args(&["--session-id", "s1"]);
    let mut e = env();
    let cfg = parse_config(&list, &e, &Some(file()), "/d").unwrap();
    assert_eq!(cfg.data_dir, "/file/data");
    assert_eq!(cfg.agents_dir, "/file/agents");
    assert_eq!(cfg.max_tool_concurrency, 3);
    assert_eq!(f64::from_bits(cfg.context_compression_threshold), 0.5);
    assert_eq!(cfg.model_name, "m");
    assert_eq!(cfg.auth_token, None);

    e.data_dir = Some("/env/data".into());
    e.agents_dir = Some("/env/agents".into());
    e.max_tool_concurrency = Some("12".into());
    e.context_compression_threshold = Some(f64::to_bits(0.9));
    let cfg = parse_config(&list, &e, &Some(file()), "/d").unwrap();
    assert_eq!(cfg.data_dir, "/env/data");
    assert_eq!(cfg.agents_dir, "/env/agents");
    assert_eq!(cfg.max_tool_concurrency, 12);
    assert_eq!(f64::from_bits(cfg.context_compression_threshold), 0.9);

    // What is no number falls back to the file; nothing runs below one.
    e.max_tool_concurrency = Some("many".into());
    assert_eq!(parse_config(&list, &e, &Some(file()), "/d").unwrap().max_tool_concurrency, 3);
    e.max_tool_concurrency = Some("0".into());
    assert_eq!(parse_config(&list, &e, &Some(file()), "/d").unwrap().max_tool_concurrency, 1);
}

#[test]
fn depth_must_be_a_number() {
    let list = args(&["--session-id", "s1"]);
    let mut e = env();
    e.subagent_depth = Some("1".into());
    assert_eq!(parse_config(&list, &e, &None, "/d").unwrap().subagent_depth, 1);
    // Within the hard cap.
    for deep in ["2", "5", "4294967295"] {
        e.subagent_depth = Some(deep.into());
        assert_eq!(parse_config(&list, &e, &None, "/d").unwrap().subagent_depth, 1);
    }
    e.subagent_depth = Some("4294967296".into());
    assert_eq!(
        parse_config(&list, &e, &None, "/d"),
        Err(ConfigError::BadDepth("4294967296".into()))
    );
    e.subagent_depth = Some("deep".into());
    let err = parse_config(&list, &e, &None, "/d").unwrap_err();
    assert_eq!(err.message(), "invalid MO_SUBAGENT_DEPTH: deep");
    // A bad depth is reported before a missing model.
    e.model_name = None;
    assert_eq!(parse_config(&list, &e, &None, "/d").unwrap_err(), err);
    e.subagent_depth = None;
    assert_eq!(
        parse_config(&list, &e, &None, "/d").unwrap_err().message(),
        "missing model name: set MO_MODEL_NAME or configure [[models]] in mo.toml"
    );
    assert_eq!(
        ConfigError::MissingBaseUrl.message(),
        "missing model base URL: set MO_MODEL_BASE_URL or configure [[models]] in mo.toml"
    );
    assert_eq!(
        ConfigError::MissingSessionId.message(),
        "missing required argument: --session-id <id>"
    );
}

#[test]
fn numbers_parse_as_in_std() {
    let samples = [
        "0", "7", "+7", "007", "18446744073709551615", "18446744073709551616", "", "+", "-1", " 1",
        "1 ", "1_0", "0x10", "９",
    ];
    for s in samples {
        let resolved = resolve_model(
            None,
            Some("u".into()),
            Some("n".into()),
            None,
            Some(s.into()),
            None,
        )
        .unwrap();
        assert_eq!(resolved.context_window, s.parse::<u64>().ok(), "{s:?}");
    }
}

#[test]
fn threshold_clamps_as_a_fraction() {
    let samples = [
        0.0, -0.0, -3.5, 0.25, 0.75, 1.0, 1.5, 1e300, 5e-324, f64::MIN_POSITIVE, f64::INFINITY,
        f64::NEG_INFINITY,
    ];
    for v in samples {
        let expected = v.clamp(f64::MIN_POSITIVE, 1.0);
        assert_eq!(f64::from_bits(clamp_threshold(v.to_bits())), expected, "{v}");
    }
    // What is no number never disables the compression.
    for v in [f64::NAN, -f64::NAN, f64::from_bits(0x7FF0_0000_0000_0001)] {
        assert_eq!(f64::from_bits(clamp_threshold(v.to_bits())), 0.75);
    }
    let mut e = env();
    e.context_compression_threshold = Some(f64::NAN.to_bits());
    let cfg = parse_config(&args(&["--session-id", "s1"]), &e, &None, "/d").unwrap();
    assert_eq!(f64::from_bits(cfg.context_compression_threshold), 0.75);
    assert_eq!(f64::from_bits(DEFAULT_THRESHOLD_BITS), 0.75);
}

#[test]
fn reasoning_effort_is_trimmed() {
    assert_eq!(normalize_reasoning_effort(Some(" \thigh\n".into())).as_deref(), Some("high"));
    assert_eq!(normalize_reasoning_effort(Some("\u{3000}".into())), None);
    assert_eq!(normalize_reasoning_effort(None), None);
}
