//! Mapping of the system's power profiles to scheduler modes.
use vstd::prelude::*;

use crate::sched::{SchedMode, UNKNOWN};
use crate::text;

verus! {

/// Which mode each power profile asks for.
#[derive(Debug, Clone, Copy, PartialEq, Eq, Structural)]
pub struct PowerProfilesConfig {
    /// Whether profile changes are followed at all.
    pub enabled: bool,
    pub power_saver: Option<SchedMode>,
    pub balanced: Option<SchedMode>,
    pub performance: Option<SchedMode>,
}

impl Default for PowerProfilesConfig {
    fn default() -> (config: Self)
        ensures
            !config.enabled,
            config.power_saver is None,
            config.balanced is None,
            config.performance is None,
    {
        PowerProfilesConfig { enabled: false, power_saver: None, balanced: None, performance: None }
    }
}

/// The mode that a configuration maps a profile to. A profile that is not
/// known, or has no mapping, asks for nothing.
pub open spec fn mapped_mode(config: PowerProfilesConfig, profile: Seq<char>) -> Option<SchedMode> {
    if profile == "power-saver"@ {
        config.power_saver
    } else if profile == "balanced"@ {
        config.balanced
    } else if profile == "performance"@ {
        config.performance
    } else {
        None
    }
}

/// Looks up the mode for a power profile.
#[must_use]
pub fn resolve_mode(config: &PowerProfilesConfig, profile: &str) -> (mode: Option<SchedMode>)
    ensures
        mode == mapped_mode(*config, profile@),
{
    if text::text_eq(profile, "power-saver") {
        config.power_saver
    } else if text::text_eq(profile, "balanced") {
        config.balanced
    } else if text::text_eq(profile, "performance") {
        config.performance
    } else {
        None
    }
}

/// Whether a mapped mode is to be applied: something must be running, and not
/// already in that mode without custom arguments.
#[must_use]
pub fn should_apply(
    current_scheduler: &str,
    current_mode: SchedMode,
    current_args: &[String],
    mapped_mode: SchedMode,
) -> (apply: bool)
    ensures
        apply <==> current_scheduler@ != UNKNOWN@ && (current_mode != mapped_mode
            || current_args@.len() > 0),
{
    !text::text_eq(current_scheduler, UNKNOWN) && (current_mode != mapped_mode
        || !current_args.is_empty())
}

/// The three known profiles are told apart: each asks for its own mapping.
pub proof fn lemma_profiles_distinct(config: PowerProfilesConfig)
    ensures
        mapped_mode(config, "power-saver"@) == config.power_saver,
        mapped_mode(config, "balanced"@) == config.balanced,
        mapped_mode(config, "performance"@) == config.performance,
{
    reveal_strlit("power-saver");
    reveal_strlit("balanced");
    reveal_strlit("performance");
    assert("power-saver"@[1] == 'o');
    assert("balanced"@[1] == 'a');
    assert("performance"@[1] == 'e');
}

/// A profile that is not one of the three asks for nothing.
pub proof fn lemma_unknown_profile(config: PowerProfilesConfig, profile: Seq<char>)
    requires
        profile != "power-saver"@,
        profile != "balanced"@,
        profile != "performance"@,
    ensures
        mapped_mode(config, profile) is None,
{
}

/// A mapped mode is applied exactly where something runs that is not in that mode, or
/// runs with custom arguments; applied once, it is not applied again.
pub proof fn lemma_applied_once(
    scheduler: &str,
    current: SchedMode,
    args: &[String],
    none: &[String],
    mapped: SchedMode,
    apply: bool,
    again: bool,
)
    requires
        call_ensures(should_apply, (scheduler, current, args, mapped), apply),
        call_ensures(should_apply, (scheduler, mapped, none, mapped), again),
        none@.len() == 0,
    ensures
        scheduler@ == "unknown"@ ==> !apply,
        scheduler@ != "unknown"@ && current != mapped ==> apply,
        scheduler@ != "unknown"@ && args@.len() > 0 ==> apply,
        current == mapped && args@.len() == 0 ==> !apply,
        !again,
{
}

} // verus!
