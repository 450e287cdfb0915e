//! The settings currently in effect, and where they are stored.

use vstd::prelude::*;

use super::model::AppSettings;
use crate::paths::{join_path, joined};

verus! {

/// The settings currently in effect.
pub struct SettingsState {
    settings: AppSettings,
}

impl View for SettingsState {
    type V = super::model::SettingsView;

    closed spec fn view(&self) -> super::model::SettingsView {
        self.settings@
    }
}

impl Default for SettingsState {
    fn default() -> (r: Self)
        ensures
            r@ == super::model::default_settings(),
    {
        SettingsState { settings: AppSettings::default() }
    }
}

impl SettingsState {
    /// Settings state holding `settings`.
    pub fn new(settings: AppSettings) -> (r: Self)
        ensures
            r@ == settings@,
    {
        Self::new_state(settings)
    }

    /// Settings state holding `settings`.
    pub fn new_state(settings: AppSettings) -> (r: Self)
        ensures
            r@ == settings@,
    {
        SettingsState { settings }
    }

    /// A copy of the settings in effect.
    pub fn snapshot(&self) -> (r: AppSettings)
        ensures
            r@ == self@,
    {
        self.settings.duplicate()
    }

    /// Puts `settings` into effect.
    pub fn replace(&mut self, settings: AppSettings)
        ensures
            final(self)@ == settings@,
    {
        self.settings = settings;
    }
}

/// The settings file in `data_dir`.
pub fn settings_path(data_dir: &str) -> (r: String)
    ensures
        r@ == joined(data_dir@, "settings.json"@),
{
    join_path(data_dir, "settings.json")
}

} // verus!
