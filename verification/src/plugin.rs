//! What the plugin tells the host about itself, and the configuration that
//! the host hands over once at the start.

use vstd::prelude::*;

verus! {

/// The plugin's card.
#[derive(Debug, Clone, PartialEq, Eq)]
pub struct PluginInfo {
    pub name: String,
    pub version: String,
    pub description: String,
    pub author: String,
    /// What a query has to begin with to reach this plugin; empty for none.
    pub default_prefix: String,
}

/// The card of this plugin.
pub fn plugin_info() -> (info: PluginInfo)
    ensures
        info.name@ == "Application finder"@,
        info.version@ == "1.0.0"@,
        info.description@ == "Find applications on your system"@,
        info.author@ == "Ri"@,
        info.default_prefix@ == ""@,
{
    PluginInfo {
        name: "Application finder".to_owned(),
        version: "1.0.0".to_owned(),
        description: "Find applications on your system".to_owned(),
        author: "Ri".to_owned(),
        default_prefix: "".to_owned(),
    }
}

/// Takes the configuration that the host hands over. It is acknowledged,
/// whatever it holds, and not read; only its absence is refused.
pub fn init_config(config: Option<&str>) -> (accepted: bool)
    ensures
        accepted == config is Some,
{
    config.is_some()
}

} // verus!
