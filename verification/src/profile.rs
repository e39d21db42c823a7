//! Named presets that adjust a configuration for an environment.

use vstd::prelude::*;
use crate::config::{with_profile, Config, ConfigView};

verus! {

/// The named presets: "dev", "staging", "prod" and "edge".
pub struct ConfigProfile;

/// The names of the presets, in this order.
pub open spec fn profile_names() -> Seq<Seq<char>> {
    seq!["dev"@, "staging"@, "prod"@, "edge"@]
}

impl ConfigProfile {
    /// `config` with the named preset applied; an unknown name changes
    /// nothing.
    pub fn apply(config: &Config, name: &str) -> (c: Config)
        ensures
            c@ == with_profile(config@, name@),
    {
        config.profile(name)
    }

    /// The names of the presets.
    pub fn available() -> (names: Vec<&'static str>)
        ensures
            names@.map_values(|s: &'static str| s@) == profile_names(),
    {
        let names = vec!["dev", "staging", "prod", "edge"];
        assert(names@.map_values(|s: &'static str| s@) =~= profile_names());
        names
    }
}

} // verus!

verus! {

/// Applying a preset twice is the same as applying it once.
pub proof fn lemma_profile_idempotent(c: ConfigView, name: Seq<char>)
    ensures
        with_profile(with_profile(c, name), name) == with_profile(c, name),
{
}

/// A name that is not one of the presets leaves a configuration unchanged.
pub proof fn lemma_unknown_profile_unchanged(c: ConfigView, name: Seq<char>)
    requires
        !profile_names().contains(name),
    ensures
        with_profile(c, name) == c,
{
    assert(profile_names()[0] == "dev"@);
    assert(profile_names()[1] == "staging"@);
    assert(profile_names()[2] == "prod"@);
    assert(profile_names()[3] == "edge"@);
}

/// A preset only touches the log level, the policy flags and the fleet
/// flag: identity, model, module lists, interface, transport, bootstrap
/// address, log file and paths are kept.
pub proof fn lemma_profile_keeps_identity(c: ConfigView, name: Seq<char>)
    ensures
        ({
            let p = with_profile(c, name);
            &&& p.agent_name == c.agent_name
            &&& p.model == c.model
            &&& p.capabilities == c.capabilities
            &&& p.modules == c.modules
            &&& p.sense_modules == c.sense_modules
            &&& p.interface == c.interface
            &&& p.transport == c.transport
            &&& p.fleet_bootstrap == c.fleet_bootstrap
            &&& p.log_file == c.log_file
            &&& p.workspace_path == c.workspace_path
            &&& p.data_path == c.data_path
        }),
{
}

} // verus!
