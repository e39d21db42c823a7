use plato_config::config::{Config, Interface, Transport};
use plato_config::diff::{diff_configs, ConfigDiff};

fn s(x: &str) -> String {
    x.to_string()
}

fn record(path: &str, old: Option<&str>, new: Option<&str>) -> ConfigDiff {
    ConfigDiff { path: s(path), old_value: old.map(s), new_value: new.map(s) }
}

#[test]
fn identical_configs_have_no_diffs() {
    let c = Config::default();
    assert!(diff_configs(&c, &c.clone()).is_empty());
}

#[test]
fn text_field_change() {
    let a = Config::default();
    let mut b = Config::default();
    b.agent_name = s("other");
    assert_eq!(diff_configs(&a, &b), vec![record("agent_name", Some("openconstruct"), Some("other"))]);
}

#[test]
fn list_field_change_uses_debug_text() {
    let a = Config::default();
    let mut b = Config::default();
    b.capabilities = vec![s("a"), s("b \"q\"")];
    let d = diff_configs(&a, &b);
    assert_eq!(d, vec![record("capabilities", None, Some("[\"a\", \"b \\\"q\\\"\"]"))]);
}

#[test]
fn list_to_empty_shows_none() {
    let mut a = Config::default();
    a.modules = vec![s("m")];
    let b = Config::default();
    assert_eq!(diff_configs(&a, &b), vec![record("modules", Some("[\"m\"]"), None)]);
}

#[test]
fn enum_and_flag_fields_are_named() {
    let a = Config::default();
    let mut b = Config::default();
    b.interface = Interface::A2a;
    b.fleet_enabled = true;
    b.transport = Transport::InProcess;
    b.policy_strict = true;
    let d = diff_configs(&a, &b);
    assert_eq!(
        d,
        vec![
            record("interface", Some("Cli"), Some("A2a")),
            record("fleet_enabled", Some("false"), Some("true")),
            record("policy_strict", Some("false"), Some("true")),
        ]
    );
}

#[test]
fn optional_fields() {
    let a = Config::default();
    let mut b = Config::default();
    b.fleet_bootstrap = Some(s("seed:9000"));
    b.log_file = Some(s("x.log"));
    let d = diff_configs(&a, &b);
    assert_eq!(
        d,
        vec![record("fleet_bootstrap", None, Some("seed:9000")), record("log_file", None, Some("x.log"))]
    );
}

#[test]
fn all_fields_in_order() {
    let a = Config::default();
    let mut b = Config::default();
    b.agent_name = s("n");
    b.model = s("m");
    b.capabilities = vec![s("c")];
    b.modules = vec![s("d")];
    b.interface = Interface::Api;
    b.fleet_enabled = true;
    b.fleet_bootstrap = Some(s("f"));
    b.policy_enabled = true;
    b.policy_strict = true;
    b.sense_modules = vec![s("e")];
    b.transport = Transport::Unix;
    b.log_level = s("warn");
    b.log_file = Some(s("l"));
    b.workspace_path = s("w");
    b.data_path = s("p");
    let paths: Vec<String> = diff_configs(&a, &b).into_iter().map(|d| d.path).collect();
    assert_eq!(
        paths,
        vec![
            "agent_name", "model", "capabilities", "modules", "interface", "fleet_enabled",
            "fleet_bootstrap", "policy_enabled", "policy_strict", "sense_modules", "transport",
            "log_level", "log_file", "workspace_path", "data_path"
        ]
    );
}

#[test]
fn reversed_comparison_swaps_values() {
    let a = Config::default();
    let mut b = Config::default();
    b.model = s("m2");
    b.sense_modules = vec![s("cam")];
    let ab = diff_configs(&a, &b);
    let ba = diff_configs(&b, &a);
    assert_eq!(ab.len(), ba.len());
    for (x, y) in ab.iter().zip(ba.iter()) {
        assert_eq!(x.path, y.path);
        assert_eq!(x.old_value, y.new_value);
        assert_eq!(x.new_value, y.old_value);
    }
}
