//! The settings window.

use vstd::prelude::*;
use crate::app::model::Settings;

verus! {

/// The state of the settings window: the settings being edited.
pub struct SettingsWindow {
    pub settings: Settings,
    pub open: bool,
}

impl SettingsWindow {
    /// Opens the window on `settings`.
    pub fn new(settings: Settings) -> (r: Self)
        ensures
            r.settings == settings,
            r.open,
    {
        SettingsWindow { settings, open: true }
    }

    /// Shows the text fields: a missing token or download folder becomes an empty
    /// text, as the window's fields do when they are drawn.
    pub fn show_fields(&mut self)
        ensures
            final(self).open == old(self).open,
            final(self).settings.auto_check_interval_hours == old(self).settings.auto_check_interval_hours,
            final(self).settings.last_check_time == old(self).settings.last_check_time,
            old(self).settings.github_token matches Some(t) ==> final(self).settings.github_token == Some(t),
            final(self).settings.github_token matches Some(t) && (old(self).settings.github_token is None ==> t@.len() == 0),
            final(self).settings.download_dir matches Some(d) && (old(self).settings.download_dir is None ==> d@.len() == 0),
            old(self).settings.download_dir matches Some(d) ==> final(self).settings.download_dir == Some(d),
    {
        if self.settings.github_token.is_none() {
            self.settings.github_token = Some(String::new());
        }
        if self.settings.download_dir.is_none() {
            self.settings.download_dir = Some(String::new());
        }
    }

    /// Saves ("保存"): the window closes and gives the edited settings.
    pub fn save(&mut self) -> (r: Option<Settings>)
        ensures
            r == Some(old(self).settings),
            final(self).settings == old(self).settings,
            !final(self).open,
    {
        let r = self.settings.clone();
        self.open = false;
        Some(r)
    }

    /// Cancels ("取消"): the window closes.
    pub fn cancel(&mut self)
        ensures
            final(self).settings == old(self).settings,
            !final(self).open,
    {
        self.open = false;
    }
}

} // verus!
