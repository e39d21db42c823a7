//! Consistency rules a configuration must meet before it is used.

use vstd::prelude::*;
use crate::config::{default_config, with_profile, Config, ConfigView};
use crate::profile::profile_names;
use crate::text::text_eq;

verus! {

/// One broken rule: the field it concerns and a message for people.
#[derive(Clone, Debug, PartialEq, Eq)]
pub struct ValidationError {
    pub path: String,
    pub message: String,
}

/// The mathematical value of a [`ValidationError`].
pub struct ErrorView {
    pub path: Seq<char>,
    pub message: Seq<char>,
}

impl View for ValidationError {
    type V = ErrorView;

    open spec fn view(&self) -> ErrorView {
        ErrorView { path: self.path@, message: self.message@ }
    }
}

/// The values of a sequence of validation errors.
pub open spec fn error_views(v: Seq<ValidationError>) -> Seq<ErrorView> {
    v.map_values(|e: ValidationError| e@)
}

/// Checks configurations against the consistency rules.
pub struct ConfigValidator {
    pub strict: bool,
}

/// The log levels a configuration may name.
pub open spec fn is_log_level(level: Seq<char>) -> bool {
    level == "debug"@ || level == "info"@ || level == "warn"@ || level == "error"@
}

/// A configuration is valid exactly when it has a name and a model, a
/// fleet-enabled configuration has a bootstrap address, strict policy comes
/// with policy enabled (policy enabled without strict is fine), and the log
/// level is "debug", "info", "warn" or "error".
pub open spec fn config_is_valid(c: ConfigView) -> bool {
    &&& c.agent_name.len() > 0
    &&& c.model.len() > 0
    &&& c.fleet_enabled ==> c.fleet_bootstrap is Some
    &&& c.policy_strict ==> c.policy_enabled
    &&& (c.log_level == "debug"@ || c.log_level == "info"@ || c.log_level == "warn"@ || c.log_level
        == "error"@)
}

/// The record for a broken rule when `broken` holds, else nothing.
pub open spec fn rule(broken: bool, path: Seq<char>, message: Seq<char>) -> Seq<ErrorView> {
    if broken {
        seq![ErrorView { path, message }]
    } else {
        Seq::empty()
    }
}

/// The message for a log level that is not one of the known ones.
pub open spec fn bad_level_message(level: Seq<char>) -> Seq<char> {
    "invalid log_level '"@ + level + "', must be one of [\"debug\", \"info\", \"warn\", \"error\"]"@
}

/// The rules `c` breaks, in this order: a name is required, a model is
/// required, a fleet needs a bootstrap address, strict policy needs policy,
/// and the log level must be a known one.
pub open spec fn validation_errors(c: ConfigView) -> Seq<ErrorView> {
    rule(c.agent_name.len() == 0, "agent_name"@, "agent_name is required"@)
        + rule(c.model.len() == 0, "model"@, "model is required"@)
        + rule(
            c.fleet_enabled && c.fleet_bootstrap is None,
            "fleet_bootstrap"@,
            "fleet_bootstrap is required when fleet_enabled is true"@,
        )
        + rule(
            c.policy_strict && !c.policy_enabled,
            "policy_strict"@,
            "policy_strict requires policy_enabled"@,
        )
        + rule(!is_log_level(c.log_level), "log_level"@, bad_level_message(c.log_level))
}

fn add_rule(errors: &mut Vec<ValidationError>, broken: bool, path: &str, message: String)
    ensures
        error_views(final(errors)@) == error_views(old(errors)@) + rule(broken, path@, message@),
{
    if broken {
        let e = ValidationError { path: path.to_owned(), message };
        let ghost ev = e@;
        errors.push(e);
        assert(error_views(errors@) =~= error_views(old(errors)@).push(ev));
    }
    assert(error_views(errors@) =~= error_views(old(errors)@) + rule(broken, path@, message@));
}

fn known_level(level: &String) -> (r: bool)
    ensures
        r == is_log_level(level@),
{
    let s = level.as_str();
    text_eq(s, "debug") || text_eq(s, "info") || text_eq(s, "warn") || text_eq(s, "error")
}

impl ConfigValidator {
    /// A validator in non-strict mode.
    pub fn new() -> (v: ConfigValidator)
        ensures
            !v.strict,
    {
        ConfigValidator { strict: false }
    }

    /// `Ok` when `config` breaks no rule; otherwise every broken rule, in
    /// the order of [`validation_errors`]. The result does not depend on
    /// the validator's mode.
    pub fn validate(&self, config: &Config) -> (r: Result<(), Vec<ValidationError>>)
        ensures
            r is Ok <==> validation_errors(config@).len() == 0,
            r is Ok <==> config_is_valid(config@),
            r matches Err(es) ==> error_views(es@) == validation_errors(config@),
    {
        proof {
            lemma_errors_empty_iff_valid(config@);
        }
        let mut errors: Vec<ValidationError> = Vec::new();
        assert(error_views(errors@) =~= Seq::<ErrorView>::empty());
        add_rule(
            &mut errors,
            config.agent_name.as_str().is_empty(),
            "agent_name",
            String::from_str("agent_name is required"),
        );
        add_rule(
            &mut errors,
            config.model.as_str().is_empty(),
            "model",
            String::from_str("model is required"),
        );
        add_rule(
            &mut errors,
            config.fleet_enabled && config.fleet_bootstrap.is_none(),
            "fleet_bootstrap",
            String::from_str("fleet_bootstrap is required when fleet_enabled is true"),
        );
        add_rule(
            &mut errors,
            config.policy_strict && !config.policy_enabled,
            "policy_strict",
            String::from_str("policy_strict requires policy_enabled"),
        );
        let known = known_level(&config.log_level);
        let message = if known {
            String::new()
        } else {
            String::from_str("invalid log_level '").concat(config.log_level.as_str()).concat(
                "', must be one of [\"debug\", \"info\", \"warn\", \"error\"]",
            )
        };
        add_rule(&mut errors, !known, "log_level", message);
        assert(error_views(errors@) =~= validation_errors(config@));
        if errors.len() == 0 {
            Ok(())
        } else {
            Err(errors)
        }
    }
}

} // verus!

verus! {

/// The default configuration breaks no rule.
pub proof fn lemma_default_is_valid()
    ensures
        validation_errors(default_config()).len() == 0,
{
    reveal_strlit("openconstruct");
    reveal_strlit("default");
    assert("openconstruct"@.len() == 13);
    assert("default"@.len() == 7);
}

/// Every preset sets a known log level, so a configuration that was valid
/// stays free of log-level errors under any preset; and under "prod" strict
/// policy always comes with policy enabled.
pub proof fn lemma_profiles_keep_rules(c: ConfigView, name: Seq<char>)
    requires
        profile_names().contains(name),
    ensures
        is_log_level(with_profile(c, name).log_level),
        name == "prod"@ ==> (with_profile(c, name).policy_strict && with_profile(
            c,
            name,
        ).policy_enabled),
{
    assert(profile_names()[0] == "dev"@);
    assert(profile_names()[1] == "staging"@);
    assert(profile_names()[2] == "prod"@);
    assert(profile_names()[3] == "edge"@);
    reveal_strlit("dev");
    reveal_strlit("staging");
    reveal_strlit("prod");
    assert("dev"@.len() == 3 && "staging"@.len() == 7 && "prod"@.len() == 4);
}

/// Under "prod" a configuration that was valid stays valid.
pub proof fn lemma_prod_keeps_valid(c: ConfigView)
    requires
        validation_errors(c).len() == 0,
    ensures
        validation_errors(with_profile(c, "prod"@)).len() == 0,
{
    reveal_strlit("dev");
    reveal_strlit("staging");
    reveal_strlit("prod");
    assert("dev"@.len() == 3 && "staging"@.len() == 7 && "prod"@.len() == 4);
}

} // verus!

verus! {

/// A configuration breaks no rule exactly when it is valid.
pub proof fn lemma_errors_empty_iff_valid(c: ConfigView)
    ensures
        validation_errors(c).len() == 0 <==> config_is_valid(c),
{
}

} // verus!
