use jalert_receiver::config::{ArgStop, Config, EnvVars};

fn no_env() -> EnvVars {
    EnvVars { source_host: None, source_port: None, web_port: None, cloudflared: None, cloudflared_bin: None }
}

fn args(v: &[&str]) -> Vec<String> {
    v.iter().map(|s| s.to_string()).collect()
}

#[test]
fn defaults_without_environment() {
    let c = Config::from_env(&no_env());
    assert_eq!(c.source_host, "127.0.0.1");
    assert_eq!(c.source_port, 7355);
    assert_eq!(c.web_port, 8080);
    assert!(!c.web_enabled);
    assert!(!c.cloudflared);
    assert_eq!(c.cloudflared_bin, "cloudflared");
    assert_eq!(c.replay_interval, 800);
    assert_eq!(c.replay, None);
}

#[test]
fn environment_values() {
    let env = EnvVars {
        source_host: Some("".into()),
        source_port: Some("abc".into()),
        web_port: Some("9090".into()),
        cloudflared: Some("true".into()),
        cloudflared_bin: Some("/opt/cf".into()),
    };
    let c = Config::from_env(&env);
    assert_eq!(c.source_host, "127.0.0.1");
    assert_eq!(c.source_port, 7355);
    assert_eq!(c.web_port, 9090);
    assert!(c.cloudflared);
    assert_eq!(c.cloudflared_bin, "/opt/cf");
    let p = Config::parse(&env, &args(&[]));
    assert!(p.config.web_enabled);
    assert!(matches!(p.stop, ArgStop::Finished));
}

#[test]
fn flags_override() {
    let p = Config::parse(&no_env(), &args(&["--source-port", "9000", "--web", "foo", "--fullscreen", "--replay", "a.jsonl"]));
    assert_eq!(p.config.source_port, 9000);
    assert!(p.config.web_enabled);
    assert!(p.config.fullscreen);
    assert_eq!(p.config.replay.as_deref(), Some("a.jsonl"));
    assert_eq!(p.unknown, vec!["foo".to_string()]);
    assert!(matches!(p.stop, ArgStop::Finished));
    let q = Config::parse(&no_env(), &args(&["--web-port", "70000", "--replay-interval", "x", "--cloudflared"]));
    assert_eq!(q.config.web_port, 8080);
    assert_eq!(q.config.replay_interval, 800);
    assert!(q.config.cloudflared && q.config.web_enabled);
}

#[test]
fn help_and_missing_values_stop_reading() {
    let p = Config::parse(&no_env(), &args(&["-h", "--web"]));
    assert!(matches!(p.stop, ArgStop::Help));
    assert!(!p.config.web_enabled);
    let q = Config::parse(&no_env(), &args(&["--fullscreen", "--replay"]));
    match q.stop {
        ArgStop::MissingValue(flag) => assert_eq!(flag, "--replay"),
        other => panic!("unexpected stop {other:?}"),
    }
    let s = Config::parse(&no_env(), &args(&["--source-host", "h", "--source-port", "1"])).config.source_config();
    assert_eq!((s.host.as_str(), s.port, s.replay_interval_ms), ("h", 1, 800));
}
