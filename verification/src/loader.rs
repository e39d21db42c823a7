//! Layered loading: overlaying one configuration on another, choosing a
//! file format, and reading settings given as environment values.

use vstd::prelude::*;
use crate::config::{default_config, Config, ConfigView, Interface, Transport};
use crate::text::{comma_list, split_comma_list, text_eq};

verus! {

/// The file formats a configuration can be written in.
#[derive(Clone, Copy, Debug, PartialEq, Eq, Structural)]
pub enum Format {
    Toml,
    Json,
}

/// Entry points for building a [`Config`] from layered sources.
pub struct ConfigLoader;

/// The configuration settings given by environment variables, one optional
/// text per variable (absent where the variable is not set).
pub struct EnvSettings {
    /// `PLATO_AGENT_NAME`
    pub agent_name: Option<String>,
    /// `PLATO_MODEL`
    pub model: Option<String>,
    /// `PLATO_CAPABILITIES`, a comma-separated list
    pub capabilities: Option<String>,
    /// `PLATO_MODULES`, a comma-separated list
    pub modules: Option<String>,
    /// `PLATO_INTERFACE`
    pub interface: Option<String>,
    /// `PLATO_LOG_LEVEL`
    pub log_level: Option<String>,
    /// `PLATO_FLEET_ENABLED`
    pub fleet_enabled: Option<String>,
    /// `PLATO_TRANSPORT`
    pub transport: Option<String>,
    /// `PLATO_WORKSPACE_PATH`
    pub workspace_path: Option<String>,
}

/// The interface a setting names: "api", "embedded", "a2a", else the
/// command line.
pub open spec fn interface_named(v: Seq<char>) -> Interface {
    if v == "api"@ {
        Interface::Api
    } else if v == "embedded"@ {
        Interface::Embedded
    } else if v == "a2a"@ {
        Interface::A2a
    } else {
        Interface::Cli
    }
}

/// The transport a setting names: "unix", "tcp", else in-process.
pub open spec fn transport_named(v: Seq<char>) -> Transport {
    if v == "unix"@ {
        Transport::Unix
    } else if v == "tcp"@ {
        Transport::Tcp
    } else {
        Transport::InProcess
    }
}

/// Whether a setting switches a flag on: exactly "true" or "1".
pub open spec fn flag_named(v: Seq<char>) -> bool {
    v == "true"@ || v == "1"@
}

/// A set text where it is set, else the fallback.
pub open spec fn text_or(v: Option<Seq<char>>, fallback: Seq<char>) -> Seq<char> {
    match v {
        Some(t) => t,
        None => fallback,
    }
}

/// A list given as comma-separated text where it is set, else the fallback.
pub open spec fn list_or(v: Option<Seq<char>>, fallback: Seq<Seq<char>>) -> Seq<Seq<char>> {
    match v {
        Some(t) => comma_list(t),
        None => fallback,
    }
}

/// The defaults with each set environment variable applied.
pub open spec fn env_config(e: EnvSettings) -> ConfigView {
    let d = default_config();
    ConfigView {
        agent_name: text_or(e.agent_name.deep_view(), d.agent_name),
        model: text_or(e.model.deep_view(), d.model),
        capabilities: list_or(e.capabilities.deep_view(), d.capabilities),
        modules: list_or(e.modules.deep_view(), d.modules),
        interface: match e.interface.deep_view() {
            Some(t) => interface_named(t),
            None => d.interface,
        },
        log_level: text_or(e.log_level.deep_view(), d.log_level),
        fleet_enabled: match e.fleet_enabled.deep_view() {
            Some(t) => flag_named(t),
            None => d.fleet_enabled,
        },
        transport: match e.transport.deep_view() {
            Some(t) => transport_named(t),
            None => d.transport,
        },
        workspace_path: text_or(e.workspace_path.deep_view(), d.workspace_path),
        ..d
    }
}

fn parse_interface(v: &str) -> (i: Interface)
    ensures
        i == interface_named(v@),
{
    if text_eq(v, "api") {
        Interface::Api
    } else if text_eq(v, "embedded") {
        Interface::Embedded
    } else if text_eq(v, "a2a") {
        Interface::A2a
    } else {
        Interface::Cli
    }
}

fn parse_transport(v: &str) -> (t: Transport)
    ensures
        t == transport_named(v@),
{
    if text_eq(v, "unix") {
        Transport::Unix
    } else if text_eq(v, "tcp") {
        Transport::Tcp
    } else {
        Transport::InProcess
    }
}

/// The overlay's text where it differs from the default, else the base's.
pub open spec fn pick_text(base: Seq<char>, overlay: Seq<char>, default: Seq<char>) -> Seq<char> {
    if overlay != default { overlay } else { base }
}

/// The overlay's list where it is non-empty, else the base's.
pub open spec fn pick_list(base: Seq<Seq<char>>, overlay: Seq<Seq<char>>) -> Seq<Seq<char>> {
    if overlay.len() != 0 { overlay } else { base }
}

/// The overlay's value where it is present, else the base's.
pub open spec fn pick_opt(base: Option<Seq<char>>, overlay: Option<Seq<char>>) -> Option<Seq<char>> {
    if overlay is Some { overlay } else { base }
}

/// `overlay` laid over `base`: a field of the overlay wins where it differs
/// from the default (texts, interface, transport), is non-empty (lists) or
/// present (optional texts); flags are set where either sets them.
pub open spec fn merge_view(base: ConfigView, overlay: ConfigView) -> ConfigView {
    let d = default_config();
    ConfigView {
        agent_name: pick_text(base.agent_name, overlay.agent_name, d.agent_name),
        model: pick_text(base.model, overlay.model, d.model),
        capabilities: pick_list(base.capabilities, overlay.capabilities),
        modules: pick_list(base.modules, overlay.modules),
        interface: if overlay.interface != d.interface { overlay.interface } else { base.interface },
        fleet_enabled: overlay.fleet_enabled || base.fleet_enabled,
        fleet_bootstrap: pick_opt(base.fleet_bootstrap, overlay.fleet_bootstrap),
        policy_enabled: overlay.policy_enabled || base.policy_enabled,
        policy_strict: overlay.policy_strict || base.policy_strict,
        sense_modules: pick_list(base.sense_modules, overlay.sense_modules),
        transport: if overlay.transport != d.transport { overlay.transport } else { base.transport },
        log_level: pick_text(base.log_level, overlay.log_level, d.log_level),
        log_file: pick_opt(base.log_file, overlay.log_file),
        workspace_path: pick_text(base.workspace_path, overlay.workspace_path, d.workspace_path),
        data_path: pick_text(base.data_path, overlay.data_path, d.data_path),
    }
}

/// The message prefix that names a format's parser in a parse error.
pub open spec fn parse_error_prefix(format: Format) -> Seq<char> {
    match format {
        Format::Toml => "TOML parse error: "@,
        Format::Json => "JSON parse error: "@,
    }
}

fn pick_string(base: String, overlay: String, default: &String) -> (r: String)
    ensures
        r@ == pick_text(base@, overlay@, default@),
{
    if overlay != *default { overlay } else { base }
}

fn pick_strings(base: Vec<String>, overlay: Vec<String>) -> (r: Vec<String>)
    ensures
        r.deep_view() == pick_list(base.deep_view(), overlay.deep_view()),
{
    if overlay.len() != 0 { overlay } else { base }
}

fn pick_option(base: Option<String>, overlay: Option<String>) -> (r: Option<String>)
    ensures
        r.deep_view() == pick_opt(base.deep_view(), overlay.deep_view()),
{
    match overlay {
        Some(s) => Some(s),
        None => base,
    }
}

/// Laying any configuration over the defaults gives that configuration
/// back: loading a source on top of the defaults yields what the source says.
pub proof fn lemma_merge_default_base(c: ConfigView)
    ensures
        merge_view(default_config(), c) == c,
{
    assert(c.capabilities.len() == 0 ==> c.capabilities =~= Seq::<Seq<char>>::empty());
    assert(c.modules.len() == 0 ==> c.modules =~= Seq::<Seq<char>>::empty());
    assert(c.sense_modules.len() == 0 ==> c.sense_modules =~= Seq::<Seq<char>>::empty());
}

/// Laying the defaults over any configuration leaves it unchanged.
pub proof fn lemma_merge_default_overlay(c: ConfigView)
    ensures
        merge_view(c, default_config()) == c,
{
}

/// Laying a configuration over itself leaves it unchanged.
pub proof fn lemma_merge_idempotent(c: ConfigView)
    ensures
        merge_view(c, c) == c,
{
}

/// Merging is associative: layering `b` then `c` over `a` equals layering
/// over `a` the result of layering `c` over `b`.
pub proof fn lemma_merge_associative(a: ConfigView, b: ConfigView, c: ConfigView)
    ensures
        merge_view(merge_view(a, b), c) == merge_view(a, merge_view(b, c)),
{
}

impl ConfigLoader {
    /// Lays `overlay` over `base` (see [`merge_view`]).
    pub fn merge(base: Config, overlay: Config) -> (r: Config)
        ensures
            r@ == merge_view(base@, overlay@),
            overlay@.fleet_bootstrap is Some ==> r@.fleet_bootstrap == overlay@.fleet_bootstrap,
            overlay@.fleet_bootstrap is None ==> r@.fleet_bootstrap == base@.fleet_bootstrap,
            overlay@.log_file is Some ==> r@.log_file == overlay@.log_file,
            overlay@.log_file is None ==> r@.log_file == base@.log_file,
            overlay@.agent_name != "openconstruct"@ ==> r@.agent_name == overlay@.agent_name,
            overlay@.agent_name == "openconstruct"@ ==> r@.agent_name == base@.agent_name,
            overlay@.model != "default"@ ==> r@.model == overlay@.model,
            overlay@.model == "default"@ ==> r@.model == base@.model,
            overlay@.log_level != "info"@ ==> r@.log_level == overlay@.log_level,
            overlay@.log_level == "info"@ ==> r@.log_level == base@.log_level,
            overlay@.workspace_path != "."@ ==> r@.workspace_path == overlay@.workspace_path,
            overlay@.workspace_path == "."@ ==> r@.workspace_path == base@.workspace_path,
            overlay@.data_path != "./data"@ ==> r@.data_path == overlay@.data_path,
            overlay@.data_path == "./data"@ ==> r@.data_path == base@.data_path,
            overlay.capabilities.len() > 0 ==> r@.capabilities == overlay@.capabilities,
            overlay.capabilities.len() == 0 ==> r@.capabilities == base@.capabilities,
            overlay.modules.len() > 0 ==> r@.modules == overlay@.modules,
            overlay.modules.len() == 0 ==> r@.modules == base@.modules,
            overlay.sense_modules.len() > 0 ==> r@.sense_modules == overlay@.sense_modules,
            overlay.sense_modules.len() == 0 ==> r@.sense_modules == base@.sense_modules,
            overlay.interface != Interface::Cli ==> r.interface == overlay.interface,
            overlay.interface == Interface::Cli ==> r.interface == base.interface,
            overlay.transport != Transport::InProcess ==> r.transport == overlay.transport,
            overlay.transport == Transport::InProcess ==> r.transport == base.transport,
            r.fleet_enabled == (base.fleet_enabled || overlay.fleet_enabled),
            r.policy_enabled == (base.policy_enabled || overlay.policy_enabled),
            r.policy_strict == (base.policy_strict || overlay.policy_strict),
    {
        let d = Config::default();
        Config {
            agent_name: pick_string(base.agent_name, overlay.agent_name, &d.agent_name),
            model: pick_string(base.model, overlay.model, &d.model),
            capabilities: pick_strings(base.capabilities, overlay.capabilities),
            modules: pick_strings(base.modules, overlay.modules),
            interface: if overlay.interface != d.interface { overlay.interface } else { base.interface },
            fleet_enabled: overlay.fleet_enabled || base.fleet_enabled,
            fleet_bootstrap: pick_option(base.fleet_bootstrap, overlay.fleet_bootstrap),
            policy_enabled: overlay.policy_enabled || base.policy_enabled,
            policy_strict: overlay.policy_strict || base.policy_strict,
            sense_modules: pick_strings(base.sense_modules, overlay.sense_modules),
            transport: if overlay.transport != d.transport { overlay.transport } else { base.transport },
            log_level: pick_string(base.log_level, overlay.log_level, &d.log_level),
            log_file: pick_option(base.log_file, overlay.log_file),
            workspace_path: pick_string(base.workspace_path, overlay.workspace_path, &d.workspace_path),
            data_path: pick_string(base.data_path, overlay.data_path, &d.data_path),
        }
    }

    /// The defaults with each set environment variable applied (see
    /// [`env_config`]).
    pub fn from_env_settings(e: EnvSettings) -> (c: Config)
        ensures
            c@ == env_config(e),
            e.fleet_enabled matches Some(v) ==> c.fleet_enabled == (v@ == "true"@ || v@ == "1"@),
            e.fleet_enabled is None ==> !c.fleet_enabled,
            e.interface matches Some(v) ==> c.interface == (if v@ == "api"@ {
                Interface::Api
            } else if v@ == "embedded"@ {
                Interface::Embedded
            } else if v@ == "a2a"@ {
                Interface::A2a
            } else {
                Interface::Cli
            }),
            e.transport matches Some(v) ==> c.transport == (if v@ == "unix"@ {
                Transport::Unix
            } else if v@ == "tcp"@ {
                Transport::Tcp
            } else {
                Transport::InProcess
            }),
            e.agent_name matches Some(v) ==> c.agent_name@ == v@,
            e.model matches Some(v) ==> c.model@ == v@,
            e.log_level matches Some(v) ==> c.log_level@ == v@,
            e.workspace_path matches Some(v) ==> c.workspace_path@ == v@,
            e.capabilities matches Some(v) ==> c.capabilities.deep_view() == comma_list(v@),
            e.modules matches Some(v) ==> c.modules.deep_view() == comma_list(v@),
    {
        let mut c = Config::default();
        if let Some(v) = e.agent_name {
            c.agent_name = v;
        }
        if let Some(v) = e.model {
            c.model = v;
        }
        if let Some(v) = e.capabilities {
            c.capabilities = split_comma_list(v.as_str());
        }
        if let Some(v) = e.modules {
            c.modules = split_comma_list(v.as_str());
        }
        if let Some(v) = e.interface {
            c.interface = parse_interface(v.as_str());
        }
        if let Some(v) = e.log_level {
            c.log_level = v;
        }
        if let Some(v) = e.fleet_enabled {
            c.fleet_enabled = text_eq(v.as_str(), "true") || text_eq(v.as_str(), "1");
        }
        if let Some(v) = e.transport {
            c.transport = parse_transport(v.as_str());
        }
        if let Some(v) = e.workspace_path {
            c.workspace_path = v;
        }
        c
    }

    /// The format a file's name implies: JSON for names ending in ".json",
    /// TOML for all others.
    pub fn format_for_path(path: &str) -> (f: Format)
        ensures
            f == (if crate::text::ends_with(path@, ".json"@) { Format::Json } else { Format::Toml }),
    {
        if crate::text::text_ends_with(path, ".json") {
            Format::Json
        } else {
            Format::Toml
        }
    }

    /// Finishes loading from a parser's outcome: a parsed overlay is laid
    /// over the defaults; a parser's error message is prefixed with the
    /// name of the format.
    pub fn from_parsed(parsed: Result<Config, String>, format: Format) -> (r: Result<Config, String>)
        ensures
            match parsed {
                Ok(overlay) => r matches Ok(c) && c@ == merge_view(default_config(), overlay@),
                Err(e) => r matches Err(m) && m@ == parse_error_prefix(format) + e@,
            },
            parsed matches Ok(overlay) ==> r matches Ok(c) && c@ == overlay@,
    {
        proof {
            if parsed is Ok {
                lemma_merge_default_base(parsed->Ok_0@);
            }
        }
        match parsed {
            Ok(overlay) => Ok(Self::merge(Config::default(), overlay)),
            Err(e) => {
                let prefix = match format {
                    Format::Toml => String::from_str("TOML parse error: "),
                    Format::Json => String::from_str("JSON parse error: "),
                };
                Err(prefix.concat(e.as_str()))
            }
        }
    }
}

} // verus!

verus! {

/// With no environment variable set, the environment gives the defaults.
pub proof fn lemma_empty_env_is_default(e: EnvSettings)
    requires
        e.agent_name is None,
        e.model is None,
        e.capabilities is None,
        e.modules is None,
        e.interface is None,
        e.log_level is None,
        e.fleet_enabled is None,
        e.transport is None,
        e.workspace_path is None,
    ensures
        env_config(e) == default_config(),
{
}

} // verus!
