//! The life of the plugin: the configuration it starts with, shows and drops.
use crate::config::{
    config_or_default, config_view, model_or_default, optional_config, view_config, ConfigModel,
    GDriveConfig,
};
use crate::json::{json_text, render_value};
use crate::persistence::{loaded_model, Loaded};
use vstd::prelude::*;

verus! {

/// The configuration that the plugin starts with: the loaded one, or the one
/// that is there where none could be loaded.
pub open spec fn started(current: Option<ConfigModel>, loaded: Loaded) -> Option<ConfigModel> {
    match loaded {
        Ok(Some(config)) => Some(config),
        _ => current,
    }
}

/// Starts the plugin with what came of loading its configuration.
pub fn init(current: Option<GDriveConfig>, loaded: Result<Option<GDriveConfig>, String>) -> (config:
    Option<GDriveConfig>)
    ensures
        optional_config(config) == started(optional_config(current), loaded_model(loaded)),
{
    match loaded {
        Ok(Some(config)) => Some(config),
        _ => current,
    }
}

/// Stops the plugin: its configuration is dropped.
pub fn shutdown(current: &mut Option<GDriveConfig>)
    ensures
        *final(current) == None::<GDriveConfig>,
{
    *current = None;
}

/// Shows the settings of the plugin, as JSON text.
pub fn get_config(current: &Option<GDriveConfig>) -> (text: String)
    ensures
        text@ == json_text(config_view(model_or_default(optional_config(*current)))),
{
    render_value(&view_config(&config_or_default(current)))
}

} // verus!
