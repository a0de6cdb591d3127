//! The decisions of the desktop shell: its settings, the plugin list it
//! shows, where its configuration lives, and what its tray menu does.

use vstd::prelude::*;
use crate::plugin::Plugin;
use crate::registry::MichelInstance;

verus! {

/// The desktop shell's settings.
#[derive(Debug, PartialEq, Eq)]
pub struct DesktopConfig {
    pub username: String,
}

impl Default for DesktopConfig {
    fn default() -> (r: DesktopConfig)
        ensures
            r.username@ == seq!['m', 'i', 'c', 'h', 'e', 'l'],
    {
        let username = String::from_str("michel");
        proof {
            reveal_strlit("michel");
        }
        assert(username@ =~= seq!['m', 'i', 'c', 'h', 'e', 'l']);
        DesktopConfig { username }
    }
}

/// A plugin as the settings window lists it.
#[derive(Debug, PartialEq, Eq)]
pub struct DisplayedPlugin {
    pub identifier: String,
    pub name: String,
    pub description: String,
    pub can_index: bool,
    pub enabled: bool,
}

/// A request from the settings window to run a plugin's indexing.
pub struct RunPluginIndex {
    pub identifier: String,
}

/// `d` lists plugin `p`.
pub open spec fn displays<I>(d: DisplayedPlugin, p: Plugin<I>) -> bool {
    &&& d.identifier == p.info_spec().identifier
    &&& d.name == p.info_spec().name
    &&& d.description == p.info_spec().description
    &&& d.can_index
    &&& d.enabled == p.config_spec().host.enabled
}

impl DisplayedPlugin {
    /// How the settings window lists a plugin.
    pub fn of<I>(p: &Plugin<I>) -> (r: DisplayedPlugin)
        ensures
            displays(r, *p),
    {
        DisplayedPlugin {
            identifier: p.identifier(),
            name: p.name(),
            description: p.description(),
            can_index: p.can_index(),
            enabled: p.enabled(),
        }
    }
}

/// The list of loaded plugins that the settings window shows, in load order.
pub fn plugins_list<S, I>(michel: &MichelInstance<S, I>) -> (r: Vec<DisplayedPlugin>)
    ensures
        r@.len() == michel.plugin_seq().len(),
        forall|i: int| 0 <= i < r@.len() ==> displays(#[trigger] r@[i], michel.plugin_seq()[i]),
{
    let plugins = michel.plugins();
    let mut out: Vec<DisplayedPlugin> = Vec::new();
    let mut i: usize = 0;
    while i < plugins.len()
        invariant
            i <= plugins@.len(),
            plugins@ == michel.plugin_seq(),
            out@.len() == i,
            forall|k: int| 0 <= k < i ==> displays(#[trigger] out@[k], plugins@[k]),
        decreases plugins@.len() - i,
    {
        out.push(DisplayedPlugin::of(&plugins[i]));
        i += 1;
    }
    out
}

/// The directory under which the configuration lives: `XDG_CONFIG_HOME`
/// when it is set, else `HOME`, else none.
pub fn config_root(xdg_config_home: Option<String>, home: Option<String>) -> (r: Option<String>)
    ensures
        r == match xdg_config_home {
            Some(x) => Some(x),
            None => home,
        },
{
    match xdg_config_home {
        Some(x) => Some(x),
        None => home,
    }
}

/// What a click on an item of the tray menu asks for.
#[derive(Debug, Clone, Copy, PartialEq, Eq, Structural)]
pub enum TrayAction {
    Quit,
    ToggleSearchBar,
    ShowSettings,
    Nothing,
}

/// The action for the tray menu item with this id.
pub fn tray_action(id: &String) -> (r: TrayAction)
    ensures
        r == if id@ == seq!['q', 'u', 'i', 't'] {
            TrayAction::Quit
        } else if id@ == seq!['s', 'h', 'o', 'w'] {
            TrayAction::ToggleSearchBar
        } else if id@ == seq!['s', 'e', 't', 't', 'i', 'n', 'g', 's'] {
            TrayAction::ShowSettings
        } else {
            TrayAction::Nothing
        },
{
    let quit = String::from_str("quit");
    let show = String::from_str("show");
    let settings = String::from_str("settings");
    proof {
        reveal_strlit("quit");
        reveal_strlit("show");
        reveal_strlit("settings");
    }
    assert(quit@ =~= seq!['q', 'u', 'i', 't']);
    assert(show@ =~= seq!['s', 'h', 'o', 'w']);
    assert(settings@ =~= seq!['s', 'e', 't', 't', 'i', 'n', 'g', 's']);
    if *id == quit {
        TrayAction::Quit
    } else if *id == show {
        TrayAction::ToggleSearchBar
    } else if *id == settings {
        TrayAction::ShowSettings
    } else {
        TrayAction::Nothing
    }
}

} // verus!
