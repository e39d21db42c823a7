use plato_config::config::{Config, Interface, Transport};
use plato_config::profile::ConfigProfile;

fn s(x: &str) -> String {
    x.to_string()
}

#[test]
fn default_config_values() {
    let c = Config::default();
    assert_eq!(c.agent_name, "openconstruct");
    assert_eq!(c.model, "default");
    assert!(c.capabilities.is_empty());
    assert!(c.modules.is_empty());
    assert_eq!(c.interface, Interface::Cli);
    assert!(!c.fleet_enabled);
    assert_eq!(c.fleet_bootstrap, None);
    assert!(!c.policy_enabled);
    assert!(!c.policy_strict);
    assert!(c.sense_modules.is_empty());
    assert_eq!(c.transport, Transport::InProcess);
    assert_eq!(c.log_level, "info");
    assert_eq!(c.log_file, None);
    assert_eq!(c.workspace_path, ".");
    assert_eq!(c.data_path, "./data");
}

#[test]
fn enum_defaults() {
    assert_eq!(Interface::default(), Interface::Cli);
    assert_eq!(Transport::default(), Transport::InProcess);
}

#[test]
fn duplicate_is_equal() {
    let mut c = Config::default();
    c.capabilities = vec![s("a"), s("b")];
    c.log_file = Some(s("/tmp/x.log"));
    assert_eq!(c.duplicate(), c);
}

#[test]
fn profile_dev() {
    let mut c = Config::default();
    c.policy_strict = true;
    let p = c.profile("dev");
    assert_eq!(p.log_level, "debug");
    assert!(!p.policy_strict);
    assert!(!p.policy_enabled);
    assert!(!p.fleet_enabled);
}

#[test]
fn profile_staging() {
    let p = Config::default().profile("staging");
    assert_eq!(p.log_level, "info");
    assert!(p.policy_strict);
    assert!(!p.policy_enabled);
}

#[test]
fn profile_prod() {
    let p = Config::default().profile("prod");
    assert_eq!(p.log_level, "warn");
    assert!(p.policy_strict);
    assert!(p.policy_enabled);
    assert!(!p.fleet_enabled);
}

#[test]
fn profile_edge() {
    let p = Config::default().profile("edge");
    assert_eq!(p.log_level, "debug");
    assert!(p.fleet_enabled);
    assert!(!p.policy_strict);
}

#[test]
fn profile_unknown_keeps_config() {
    let mut c = Config::default();
    c.log_level = s("error");
    assert_eq!(c.profile("production"), c);
    assert_eq!(c.profile(""), c);
    assert_eq!(c.profile("Dev"), c);
}

#[test]
fn profile_twice_same_as_once() {
    let c = Config::default();
    for name in ["dev", "staging", "prod", "edge", "other"] {
        let once = c.profile(name);
        assert_eq!(once.profile(name), once);
    }
}

#[test]
fn profile_keeps_other_fields() {
    let mut c = Config::default();
    c.agent_name = s("a1");
    c.transport = Transport::Tcp;
    let p = ConfigProfile::apply(&c, "prod");
    assert_eq!(p.agent_name, "a1");
    assert_eq!(p.transport, Transport::Tcp);
}

#[test]
fn apply_matches_profile() {
    let c = Config::default();
    for name in ["dev", "staging", "prod", "edge", "x"] {
        assert_eq!(ConfigProfile::apply(&c, name), c.profile(name));
    }
}

#[test]
fn available_profiles() {
    assert_eq!(ConfigProfile::available(), vec!["dev", "staging", "prod", "edge"]);
}
