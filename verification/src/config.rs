//! The agent configuration record, its defaults and its named profiles.

use vstd::prelude::*;
use crate::text::{clone_opt, clone_strings, text_eq};

verus! {

/// How the agent is reached.
#[derive(Clone, Copy, Debug, PartialEq, Eq, Structural)]
pub enum Interface {
    Cli,
    Api,
    Embedded,
    A2a,
}

impl Default for Interface {
    fn default() -> (i: Self)
        ensures
            i == Interface::Cli,
    {
        Interface::Cli
    }
}

/// How the agent's modules talk to each other.
#[derive(Clone, Copy, Debug, PartialEq, Eq, Structural)]
pub enum Transport {
    InProcess,
    Unix,
    Tcp,
}

impl Default for Transport {
    fn default() -> (t: Self)
        ensures
            t == Transport::InProcess,
    {
        Transport::InProcess
    }
}

/// The full agent configuration.
#[derive(Clone, Debug, PartialEq, Eq)]
pub struct Config {
    pub agent_name: String,
    pub model: String,
    pub capabilities: Vec<String>,
    pub modules: Vec<String>,
    pub interface: Interface,
    pub fleet_enabled: bool,
    pub fleet_bootstrap: Option<String>,
    pub policy_enabled: bool,
    pub policy_strict: bool,
    pub sense_modules: Vec<String>,
    pub transport: Transport,
    pub log_level: String,
    pub log_file: Option<String>,
    pub workspace_path: String,
    pub data_path: String,
}

/// The mathematical value of a [`Config`]: every text as its characters.
pub struct ConfigView {
    pub agent_name: Seq<char>,
    pub model: Seq<char>,
    pub capabilities: Seq<Seq<char>>,
    pub modules: Seq<Seq<char>>,
    pub interface: Interface,
    pub fleet_enabled: bool,
    pub fleet_bootstrap: Option<Seq<char>>,
    pub policy_enabled: bool,
    pub policy_strict: bool,
    pub sense_modules: Seq<Seq<char>>,
    pub transport: Transport,
    pub log_level: Seq<char>,
    pub log_file: Option<Seq<char>>,
    pub workspace_path: Seq<char>,
    pub data_path: Seq<char>,
}

impl View for Config {
    type V = ConfigView;

    open spec fn view(&self) -> ConfigView {
        ConfigView {
            agent_name: self.agent_name@,
            model: self.model@,
            capabilities: self.capabilities.deep_view(),
            modules: self.modules.deep_view(),
            interface: self.interface,
            fleet_enabled: self.fleet_enabled,
            fleet_bootstrap: self.fleet_bootstrap.deep_view(),
            policy_enabled: self.policy_enabled,
            policy_strict: self.policy_strict,
            sense_modules: self.sense_modules.deep_view(),
            transport: self.transport,
            log_level: self.log_level@,
            log_file: self.log_file.deep_view(),
            workspace_path: self.workspace_path@,
            data_path: self.data_path@,
        }
    }
}

/// The configuration that holds when nothing was configured.
pub open spec fn default_config() -> ConfigView {
    ConfigView {
        agent_name: "openconstruct"@,
        model: "default"@,
        capabilities: Seq::empty(),
        modules: Seq::empty(),
        interface: Interface::Cli,
        fleet_enabled: false,
        fleet_bootstrap: None,
        policy_enabled: false,
        policy_strict: false,
        sense_modules: Seq::empty(),
        transport: Transport::InProcess,
        log_level: "info"@,
        log_file: None,
        workspace_path: "."@,
        data_path: "./data"@,
    }
}

/// The configuration `c` after the profile called `name`: "dev", "staging",
/// "prod" and "edge" each set a few fields; any other name changes nothing.
pub open spec fn with_profile(c: ConfigView, name: Seq<char>) -> ConfigView {
    if name == "dev"@ {
        ConfigView { log_level: "debug"@, policy_strict: false, ..c }
    } else if name == "staging"@ {
        ConfigView { log_level: "info"@, policy_strict: true, ..c }
    } else if name == "prod"@ {
        ConfigView { log_level: "warn"@, policy_strict: true, policy_enabled: true, ..c }
    } else if name == "edge"@ {
        ConfigView { log_level: "debug"@, fleet_enabled: true, ..c }
    } else {
        c
    }
}

impl Default for Config {
    fn default() -> (c: Self)
        ensures
            c@ == default_config(),
    {
        let c = Config {
            agent_name: String::from_str("openconstruct"),
            model: String::from_str("default"),
            capabilities: Vec::new(),
            modules: Vec::new(),
            interface: Interface::Cli,
            fleet_enabled: false,
            fleet_bootstrap: None,
            policy_enabled: false,
            policy_strict: false,
            sense_modules: Vec::new(),
            transport: Transport::InProcess,
            log_level: String::from_str("info"),
            log_file: None,
            workspace_path: String::from_str("."),
            data_path: String::from_str("./data"),
        };
        assert(c.capabilities.deep_view() =~= Seq::<Seq<char>>::empty());
        assert(c.modules.deep_view() =~= Seq::<Seq<char>>::empty());
        assert(c.sense_modules.deep_view() =~= Seq::<Seq<char>>::empty());
        c
    }
}

impl Config {
    /// A field-by-field copy with the same value.
    pub fn duplicate(&self) -> (c: Config)
        ensures
            c@ == self@,
    {
        Config {
            agent_name: self.agent_name.clone(),
            model: self.model.clone(),
            capabilities: clone_strings(&self.capabilities),
            modules: clone_strings(&self.modules),
            interface: self.interface,
            fleet_enabled: self.fleet_enabled,
            fleet_bootstrap: clone_opt(&self.fleet_bootstrap),
            policy_enabled: self.policy_enabled,
            policy_strict: self.policy_strict,
            sense_modules: clone_strings(&self.sense_modules),
            transport: self.transport,
            log_level: self.log_level.clone(),
            log_file: clone_opt(&self.log_file),
            workspace_path: self.workspace_path.clone(),
            data_path: self.data_path.clone(),
        }
    }

    /// A copy of this configuration with the named profile applied.
    pub fn profile(&self, name: &str) -> (c: Config)
        ensures
            c@ == with_profile(self@, name@),
            name@ == "dev"@ ==> c.log_level@ == "debug"@ && !c.policy_strict
                && c.policy_enabled == self.policy_enabled && c.fleet_enabled == self.fleet_enabled,
            name@ == "staging"@ ==> c.log_level@ == "info"@ && c.policy_strict
                && c.policy_enabled == self.policy_enabled && c.fleet_enabled == self.fleet_enabled,
            name@ == "prod"@ ==> c.log_level@ == "warn"@ && c.policy_strict && c.policy_enabled
                && c.fleet_enabled == self.fleet_enabled,
            name@ == "edge"@ ==> c.log_level@ == "debug"@ && c.fleet_enabled
                && c.policy_strict == self.policy_strict && c.policy_enabled == self.policy_enabled,
            name@ != "dev"@ && name@ != "staging"@ && name@ != "prod"@ && name@ != "edge"@ ==> c@
                == self@,
            c@.agent_name == self@.agent_name && c@.model == self@.model && c@.capabilities
                == self@.capabilities && c@.modules == self@.modules && c@.interface == self@.interface
                && c@.fleet_bootstrap == self@.fleet_bootstrap && c@.sense_modules
                == self@.sense_modules && c@.transport == self@.transport && c@.log_file
                == self@.log_file && c@.workspace_path == self@.workspace_path && c@.data_path
                == self@.data_path,
    {
        proof {
            reveal_strlit("dev");
            reveal_strlit("staging");
            reveal_strlit("prod");
            reveal_strlit("edge");
            assert("dev"@.len() == 3 && "staging"@.len() == 7 && "prod"@.len() == 4 && "edge"@.len() == 4);
            assert("prod"@[0] == 'p' && "edge"@[0] == 'e');
        }
        let mut c = self.duplicate();
        if text_eq(name, "dev") {
            c.log_level = String::from_str("debug");
            c.policy_strict = false;
        } else if text_eq(name, "staging") {
            c.log_level = String::from_str("info");
            c.policy_strict = true;
        } else if text_eq(name, "prod") {
            c.log_level = String::from_str("warn");
            c.policy_strict = true;
            c.policy_enabled = true;
        } else if text_eq(name, "edge") {
            c.log_level = String::from_str("debug");
            c.fleet_enabled = true;
        }
        c
    }
}

} // verus!
