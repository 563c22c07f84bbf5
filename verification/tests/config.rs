use seekcli::config::{
    builtin_provider, expand_home, generated_notice, missing_explicit_message, not_created_notice,
    resolve_provider, value_source, BrainConfig, Layout, LimitsConfig, ProviderConfig, ResearchConfig,
    ResilienceConfig, TraceConfig, ValueSource,
};

fn brain(provider: &str) -> BrainConfig {
    BrainConfig {
        flash_model: "deepseek-v4-flash".into(),
        pro_model: "deepseek-v4-pro".into(),
        provider: provider.into(),
    }
}

fn entry(name: &str, wire: &str, base: &str, key: &str) -> ProviderConfig {
    ProviderConfig { name: name.into(), wire: wire.into(), base_url: base.into(), api_key: key.into() }
}

#[test]
fn legacy_bare_wire_name_still_resolves_to_the_builtin_endpoint() {
    let p = match resolve_provider(&brain("openai"), &vec![], &None, &None) {
        Ok(p) => p,
        Err(e) => panic!("legacy config must keep working: {}", e),
    };
    assert_eq!(p.wire, "openai");
    assert!(p.base_url.contains("deepseek"), "got {}", p.base_url);
    assert_eq!(p.api_key, "env:DEEPSEEK_API_KEY");

    match resolve_provider(&brain("anthropic"), &vec![], &None, &None) {
        Ok(p) => assert_eq!(p.wire, "anthropic"),
        Err(e) => panic!("legacy anthropic must keep working: {}", e),
    }
}

#[test]
fn named_entry_takes_precedence_and_can_point_anywhere() {
    let ps = vec![entry("local", "openai", "http://127.0.0.1:8000/v1", "env:LOCAL_KEY")];
    let p = match resolve_provider(&brain("local"), &ps, &None, &None) {
        Ok(p) => p,
        Err(e) => panic!("resolve failed: {}", e),
    };
    assert_eq!(p.base_url, "http://127.0.0.1:8000/v1");
}

#[test]
fn unknown_provider_name_lists_what_was_available() {
    let ps = vec![entry("local", "openai", "http://x", "env:K")];
    let err = match resolve_provider(&brain("typo"), &ps, &None, &None) {
        Ok(_) => panic!("expected an error"),
        Err(e) => e,
    };
    assert!(err.contains("local"), "error should name known providers: {}", err);
    assert_eq!(
        err,
        "brain.provider = `typo` matches no [[provider]] entry [\"local\"] and is not a built-in wire name (\"openai\" / \"anthropic\")"
    );
}

#[test]
fn unknown_wire_is_rejected_at_resolve_time_not_at_first_request() {
    let ps = vec![entry("weird", "grpc", "http://x", "env:K")];
    let err = resolve_provider(&brain("weird"), &ps, &None, &None).err().expect("refused");
    assert_eq!(err, "provider `weird` has unknown wire `grpc`; expected \"openai\" or \"anthropic\"");
}

#[test]
fn literal_api_key_is_refused() {
    let p = entry("oops", "openai", "http://x", "sk-realkeyinconfigfile");
    let err = match p.key_source() {
        Ok(_) => panic!("a literal key must not be accepted"),
        Err(e) => e,
    };
    assert!(err.contains("env:"), "error should show the accepted forms: {}", err);
}

#[test]
fn missing_env_var_names_the_provider_and_the_variable() {
    let p = entry("myprov", "openai", "http://x", "env:SEEKCLI_DEFINITELY_UNSET_VAR");
    let var = match p.key_source() {
        Ok(ValueSource::Env(v)) => v,
        _ => panic!("expected an env source"),
    };
    let err = p.unset_message(&var);
    assert!(err.contains("myprov"), "got: {}", err);
    assert!(err.contains("SEEKCLI_DEFINITELY_UNSET_VAR"), "got: {}", err);
}

#[test]
fn a_file_key_names_its_path() {
    let p = entry("f", "openai", "http://x", "file:/tmp/key");
    assert!(matches!(p.key_source(), Ok(ValueSource::File(path)) if path == "/tmp/key"));
    assert_eq!(p.unreadable_message("/tmp/key"), "provider `f`: cannot read /tmp/key");
}

#[test]
fn the_environment_can_move_a_builtin_endpoint() {
    let base = Some("http://proxy/v1".to_string());
    let p = resolve_provider(&brain("openai"), &vec![], &base, &None).ok().expect("resolves");
    assert_eq!(p.base_url, "http://proxy/v1");
    let p = builtin_provider("anthropic", &base, &None).expect("builtin");
    assert_eq!(p.base_url, "https://api.deepseek.com/anthropic");
    assert!(builtin_provider("grpc", &None, &None).is_none());
}

#[test]
fn the_first_entry_of_a_name_wins() {
    let ps = vec![entry("a", "openai", "http://one", "env:K"), entry("a", "anthropic", "http://two", "env:K")];
    let p = resolve_provider(&brain("a"), &ps, &None, &None).ok().expect("resolves");
    assert_eq!(p.base_url, "http://one");
}

#[test]
fn value_sources_are_read_by_their_prefix() {
    assert!(matches!(value_source("env:HOME"), ValueSource::Env(v) if v == "HOME"));
    assert!(matches!(value_source("file:~/k"), ValueSource::File(p) if p == "~/k"));
    assert!(matches!(value_source("plain"), ValueSource::Literal(t) if t == "plain"));
    assert!(matches!(value_source("env"), ValueSource::Literal(t) if t == "env"));
}

#[test]
fn home_expansion_only_touches_a_leading_tilde() {
    assert_eq!(expand_home("~/.config/key", Some("/home/u")), "/home/u/.config/key");
    assert_eq!(expand_home("/etc/key", Some("/home/u")), "/etc/key");
    assert_eq!(expand_home("~/.config/key", None), "~/.config/key");
}

#[test]
fn legacy_config_in_cwd_produces_a_migration_notice() {
    let l = Layout::standard("/home/u", "/work", None);
    let n = l.legacy_notice(false, true).expect("a notice");
    assert!(n.contains("legacy"), "{n}");
    assert!(n.contains("cp /work/config.toml /home/u/.seekcli/config.toml"), "{n}");
}

#[test]
fn no_legacy_notice_once_the_user_config_exists() {
    let l = Layout::standard("/home/u", "/work", None);
    assert!(l.legacy_notice(true, true).is_none());
    assert!(l.legacy_notice(false, false).is_none());
}

#[test]
fn layers_come_in_increasing_priority() {
    let l = Layout::standard("/home/u", "/work", Some("/etc/x.toml".to_string()));
    assert_eq!(l.layers(), vec!["/home/u/.seekcli/config.toml", "/work/.seekcli.toml", "/etc/x.toml"]);
    let l = Layout::standard("/home/u", "/work", None);
    assert_eq!(l.layers().len(), 2);
}

#[test]
fn notices_name_the_file() {
    assert_eq!(generated_notice("/a"), "[Config] generated default config at /a");
    assert_eq!(
        not_created_notice("/a", "denied"),
        "[Config] could not create /a (denied); continuing with built-in defaults"
    );
    assert_eq!(missing_explicit_message("/nope.toml"), "SEEKCLI_CONFIG points at /nope.toml, which does not exist");
}

#[test]
fn defaults_match_the_documented_values() {
    let r = ResilienceConfig::default();
    assert_eq!((r.max_attempts, r.base_delay_ms, r.max_delay_secs), (4, 500, 30));
    assert_eq!(LimitsConfig::default().max_llm_calls_per_run, 150);
    let t = TraceConfig::default();
    assert!(t.enabled);
    assert_eq!(t.keep, 200);
    let research = ResearchConfig::default();
    assert!(!research.is_enabled());
}

#[test]
fn a_literal_research_key_is_refused() {
    let mut r = ResearchConfig::default();
    r.provider = "tavily".into();
    r.api_key = "tvly-123".into();
    assert!(r.is_enabled());
    assert!(r.key_source().is_err());
    r.api_key = "env:TAVILY_API_KEY".into();
    assert!(matches!(r.key_source(), Ok(ValueSource::Env(v)) if v == "TAVILY_API_KEY"));
}
