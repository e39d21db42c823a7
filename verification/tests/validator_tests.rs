use plato_config::config::Config;
use plato_config::validator::{ConfigValidator, ValidationError};

fn s(x: &str) -> String {
    x.to_string()
}

fn err(path: &str, message: &str) -> ValidationError {
    ValidationError { path: s(path), message: s(message) }
}

#[test]
fn validator_new_is_not_strict() {
    assert!(!ConfigValidator::new().strict);
}

#[test]
fn default_config_is_valid() {
    assert_eq!(ConfigValidator::new().validate(&Config::default()), Ok(()));
}

#[test]
fn prod_profile_of_default_is_valid() {
    let v = ConfigValidator::new();
    assert_eq!(v.validate(&Config::default().profile("prod")), Ok(()));
}

#[test]
fn staging_profile_of_default_breaks_policy_rule() {
    let v = ConfigValidator::new();
    assert_eq!(
        v.validate(&Config::default().profile("staging")),
        Err(vec![err("policy_strict", "policy_strict requires policy_enabled")])
    );
}

#[test]
fn missing_name_and_model() {
    let mut c = Config::default();
    c.agent_name = s("");
    c.model = s("");
    assert_eq!(
        ConfigValidator::new().validate(&c),
        Err(vec![err("agent_name", "agent_name is required"), err("model", "model is required")])
    );
}

#[test]
fn fleet_needs_bootstrap() {
    let mut c = Config::default();
    c.fleet_enabled = true;
    assert_eq!(
        ConfigValidator::new().validate(&c),
        Err(vec![err("fleet_bootstrap", "fleet_bootstrap is required when fleet_enabled is true")])
    );
    c.fleet_bootstrap = Some(s("seed"));
    assert_eq!(ConfigValidator::new().validate(&c), Ok(()));
}

#[test]
fn bad_log_level_message() {
    let mut c = Config::default();
    c.log_level = s("verbose");
    assert_eq!(
        ConfigValidator::new().validate(&c),
        Err(vec![err(
            "log_level",
            "invalid log_level 'verbose', must be one of [\"debug\", \"info\", \"warn\", \"error\"]"
        )])
    );
}

#[test]
fn known_log_levels_accepted() {
    for level in ["debug", "info", "warn", "error"] {
        let mut c = Config::default();
        c.log_level = s(level);
        assert_eq!(ConfigValidator::new().validate(&c), Ok(()));
    }
}

#[test]
fn all_rules_reported_in_order() {
    let mut c = Config::default();
    c.agent_name = s("");
    c.model = s("");
    c.fleet_enabled = true;
    c.policy_strict = true;
    c.log_level = s("INFO");
    let v = ConfigValidator { strict: true };
    let errors = v.validate(&c).unwrap_err();
    let paths: Vec<&str> = errors.iter().map(|e| e.path.as_str()).collect();
    assert_eq!(paths, vec!["agent_name", "model", "fleet_bootstrap", "policy_strict", "log_level"]);
}
