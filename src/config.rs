use vstd::prelude::*;
use crate::preset_rule::PresetRule;
use crate::text::{chars_of, string_from_chars};

verus! {

/// The version written into a new configuration.
pub const VERSION: &'static str = "0.1.0";

/// Which outcomes of an activation are announced.
#[derive(Clone, Copy, Debug, PartialEq, Eq, Structural)]
pub struct Notifications {
    pub notify_success: bool,
    pub notify_failure: bool,
}

impl Notifications {
    pub fn default() -> (r: Notifications)
        ensures
            r.notify_success,
            !r.notify_failure,
    {
        Notifications { notify_success: true, notify_failure: false }
    }
}

/// Where the external application's configuration file lies.
#[derive(Clone, Debug)]
pub struct ReshadeConfig {
    pub ini_path: String,
}

impl Default for ReshadeConfig {
    fn default() -> (r: ReshadeConfig)
        ensures
            r.ini_path@.len() == 0,
    {
        ReshadeConfig { ini_path: String::new() }
    }
}

/// The saved settings: the rules, in priority order, and where the external
/// configuration lies.
#[derive(Clone, Debug)]
pub struct Config {
    pub version: String,
    pub notifications: Notifications,
    pub preset_rules: Vec<PresetRule>,
    pub reshade: ReshadeConfig,
}

/// The version of a configuration that names none.
pub fn default_version() -> (r: String)
    ensures
        r@ == VERSION@,
{
    string_from_chars(&chars_of(VERSION))
}

impl Default for Config {
    fn default() -> (r: Config)
        ensures
            r.version@ == VERSION@,
            r.notifications == (Notifications { notify_success: true, notify_failure: false }),
            r.preset_rules@.len() == 0,
            r.reshade.ini_path@.len() == 0,
    {
        Config {
            version: default_version(),
            notifications: Notifications::default(),
            preset_rules: Vec::new(),
            reshade: ReshadeConfig::default(),
        }
    }
}

/// Brings a loaded configuration up to this version.
pub fn migrate_configs(config: &mut Config)
    ensures
        final(config).version@ == VERSION@,
        final(config).notifications == old(config).notifications,
        final(config).preset_rules == old(config).preset_rules,
        final(config).reshade == old(config).reshade,
{
    config.version = default_version();
}

} // verus!
