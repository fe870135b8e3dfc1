//! The saved preferences of the tool.

use vstd::prelude::*;

verus! {

/// The saved preferences.
#[derive(Clone, Debug)]
pub struct AppSettings {
    pub screenshot_style: String,
}

impl Default for AppSettings {
    /// The preferences before any are saved: the gradient screenshot style.
    fn default() -> (r: Self)
        ensures
            r.screenshot_style@ == "Gradient"@,
    {
        AppSettings { screenshot_style: String::from_str("Gradient") }
    }
}

impl AppSettings {
    /// The preferences in effect after loading: those read from the settings
    /// file where it could be read and parsed, else the defaults.
    pub fn from_loaded(loaded: Option<AppSettings>) -> (r: Self)
        ensures
            match loaded {
                Some(s) => r == s,
                None => r.screenshot_style@ == "Gradient"@,
            },
    {
        match loaded {
            Some(s) => s,
            None => AppSettings::default(),
        }
    }
}

} // verus!
