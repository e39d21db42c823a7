use plato_config::config::{Config, Interface, Transport};
use plato_config::loader::{ConfigLoader, EnvSettings, Format};
use plato_config::text::{split_comma_list, trim_text};

fn s(x: &str) -> String {
    x.to_string()
}

fn no_env() -> EnvSettings {
    EnvSettings {
        agent_name: None,
        model: None,
        capabilities: None,
        modules: None,
        interface: None,
        log_level: None,
        fleet_enabled: None,
        transport: None,
        workspace_path: None,
    }
}

#[test]
fn merge_overlay_fields_win() {
    let base = Config::default();
    let mut overlay = Config::default();
    overlay.agent_name = s("agent-x");
    overlay.capabilities = vec![s("code")];
    overlay.interface = Interface::Api;
    overlay.transport = Transport::Unix;
    overlay.log_file = Some(s("a.log"));
    let m = ConfigLoader::merge(base, overlay);
    assert_eq!(m.agent_name, "agent-x");
    assert_eq!(m.capabilities, vec![s("code")]);
    assert_eq!(m.interface, Interface::Api);
    assert_eq!(m.transport, Transport::Unix);
    assert_eq!(m.log_file, Some(s("a.log")));
    assert_eq!(m.model, "default");
}

#[test]
fn merge_default_valued_overlay_keeps_base() {
    let mut base = Config::default();
    base.agent_name = s("base-agent");
    base.model = s("m1");
    base.modules = vec![s("mod")];
    base.interface = Interface::Embedded;
    base.fleet_bootstrap = Some(s("host:1"));
    base.log_level = s("warn");
    base.data_path = s("/d");
    let overlay = Config::default();
    let m = ConfigLoader::merge(base.clone(), overlay);
    assert_eq!(m, base);
}

#[test]
fn merge_overlay_equal_to_default_cannot_reset() {
    let mut base = Config::default();
    base.log_level = s("debug");
    let mut overlay = Config::default();
    overlay.log_level = s("info");
    let m = ConfigLoader::merge(base, overlay);
    assert_eq!(m.log_level, "debug");
}

#[test]
fn merge_flags_are_ored() {
    let mut base = Config::default();
    base.fleet_enabled = true;
    let mut overlay = Config::default();
    overlay.policy_strict = true;
    let m = ConfigLoader::merge(base, overlay);
    assert!(m.fleet_enabled);
    assert!(m.policy_strict);
    assert!(!m.policy_enabled);
}

#[test]
fn merge_over_defaults_is_overlay() {
    let mut overlay = Config::default();
    overlay.agent_name = s("n");
    overlay.sense_modules = vec![s("cam")];
    overlay.policy_enabled = true;
    assert_eq!(ConfigLoader::merge(Config::default(), overlay.clone()), overlay);
}

#[test]
fn merge_with_itself() {
    let mut c = Config::default();
    c.model = s("glm");
    c.modules = vec![s("a")];
    assert_eq!(ConfigLoader::merge(c.clone(), c.clone()), c);
}

#[test]
fn merge_is_associative() {
    let mut a = Config::default();
    a.agent_name = s("a");
    a.log_file = Some(s("a.log"));
    let mut b = Config::default();
    b.model = s("b");
    b.capabilities = vec![s("x")];
    let mut c = Config::default();
    c.agent_name = s("c");
    c.transport = Transport::Tcp;
    let left = ConfigLoader::merge(ConfigLoader::merge(a.clone(), b.clone()), c.clone());
    let right = ConfigLoader::merge(a, ConfigLoader::merge(b, c));
    assert_eq!(left, right);
    assert_eq!(left.agent_name, "c");
    assert_eq!(left.model, "b");
    assert_eq!(left.log_file, Some(s("a.log")));
}

#[test]
fn from_parsed_ok_gives_overlay() {
    let mut overlay = Config::default();
    overlay.agent_name = s("parsed");
    let r = ConfigLoader::from_parsed(Ok(overlay.clone()), Format::Json);
    assert_eq!(r, Ok(overlay));
}

#[test]
fn from_parsed_errors_name_the_format() {
    let t = ConfigLoader::from_parsed(Err(s("bad key")), Format::Toml);
    assert_eq!(t, Err(s("TOML parse error: bad key")));
    let j = ConfigLoader::from_parsed(Err(s("eof")), Format::Json);
    assert_eq!(j, Err(s("JSON parse error: eof")));
}

#[test]
fn format_from_path() {
    assert_eq!(ConfigLoader::format_for_path("conf.json"), Format::Json);
    assert_eq!(ConfigLoader::format_for_path("/etc/a/.json"), Format::Json);
    assert_eq!(ConfigLoader::format_for_path("conf.toml"), Format::Toml);
    assert_eq!(ConfigLoader::format_for_path("conf.JSON"), Format::Toml);
    assert_eq!(ConfigLoader::format_for_path("json"), Format::Toml);
    assert_eq!(ConfigLoader::format_for_path(""), Format::Toml);
}

#[test]
fn env_nothing_set_gives_defaults() {
    assert_eq!(ConfigLoader::from_env_settings(no_env()), Config::default());
}

#[test]
fn env_values_applied() {
    let mut e = no_env();
    e.agent_name = Some(s("env-agent"));
    e.model = Some(s("m"));
    e.capabilities = Some(s("a, b ,c"));
    e.modules = Some(s("x"));
    e.interface = Some(s("a2a"));
    e.log_level = Some(s("debug"));
    e.fleet_enabled = Some(s("1"));
    e.transport = Some(s("tcp"));
    e.workspace_path = Some(s("/w"));
    let c = ConfigLoader::from_env_settings(e);
    assert_eq!(c.agent_name, "env-agent");
    assert_eq!(c.model, "m");
    assert_eq!(c.capabilities, vec![s("a"), s("b"), s("c")]);
    assert_eq!(c.modules, vec![s("x")]);
    assert_eq!(c.interface, Interface::A2a);
    assert_eq!(c.log_level, "debug");
    assert!(c.fleet_enabled);
    assert_eq!(c.transport, Transport::Tcp);
    assert_eq!(c.workspace_path, "/w");
    assert_eq!(c.data_path, "./data");
}

#[test]
fn env_names_map_to_variants() {
    let pick = |v: &str| {
        let mut e = no_env();
        e.interface = Some(s(v));
        e.transport = Some(s(v));
        let c = ConfigLoader::from_env_settings(e);
        (c.interface, c.transport)
    };
    assert_eq!(pick("api").0, Interface::Api);
    assert_eq!(pick("embedded").0, Interface::Embedded);
    assert_eq!(pick("API").0, Interface::Cli);
    assert_eq!(pick("unix").1, Transport::Unix);
    assert_eq!(pick("tcp").1, Transport::Tcp);
    assert_eq!(pick("udp").1, Transport::InProcess);
}

#[test]
fn env_fleet_flag() {
    for (v, want) in [("true", true), ("1", true), ("yes", false), ("TRUE", false), ("", false)] {
        let mut e = no_env();
        e.fleet_enabled = Some(s(v));
        assert_eq!(ConfigLoader::from_env_settings(e).fleet_enabled, want);
    }
}

#[test]
fn comma_lists() {
    assert_eq!(split_comma_list(""), vec![s("")]);
    assert_eq!(split_comma_list("a,,b"), vec![s("a"), s(""), s("b")]);
    assert_eq!(split_comma_list(" a ,b,"), vec![s("a"), s("b"), s("")]);
    assert_eq!(split_comma_list("\u{3000}x\t, y\n"), vec![s("x"), s("y")]);
    assert_eq!(split_comma_list("é , ü"), vec![s("é"), s("ü")]);
}

#[test]
fn trimming() {
    assert_eq!(trim_text("  a b  "), "a b");
    assert_eq!(trim_text("\u{a0}\u{2028}z\u{85}"), "z");
    assert_eq!(trim_text("   "), "");
    assert_eq!(trim_text("x"), "x");
}
