//! Viewer configuration consumed by the presentation layer.
//!
//! Every field is optional in the configuration file; the defaults are
//! enumerated here, once, so that a fully populated configuration can be
//! resolved before the viewer runs.  Reading and parsing the file itself is
//! the application shell's job.

use vstd::prelude::*;

verus! {

/// Window chrome settings.
#[derive(Clone, Debug)]
pub struct Window {
    pub decorations: Option<bool>,
    pub antialiasing: Option<bool>,
    pub theme: Option<Theme>,
}

impl Default for Window {
    /// Decorated and antialiased, with the default theme.
    fn default() -> (r: Self)
        ensures
            r.decorations == Some(true),
            r.antialiasing == Some(true),
            r.theme == Some(Theme::Dark),
    {
        Window { decorations: Some(true), antialiasing: Some(true), theme: Some(Theme::Dark) }
    }
}

/// The colour theme of the window, one of the themes the renderer offers.
#[derive(Clone, Copy, Debug, PartialEq, Eq, Structural)]
pub enum Theme {
    Light,
    Dark,
    Dracula,
    Nord,
    SolarizedLight,
    SolarizedDark,
    GruvboxLight,
    GruvboxDark,
    CatppuccinLatte,
    CatppuccinFrappe,
    CatppuccinMacchiato,
    CatppuccinMocha,
    TokyoNight,
    TokyoNightStorm,
    TokyoNightLight,
    KanagawaWave,
    KanagawaDragon,
    KanagawaLotus,
    Moonfly,
    Nightfly,
    Oxocarbon,
}

impl Default for Theme {
    /// The dark theme.
    fn default() -> (r: Self)
        ensures
            r == Theme::Dark,
    {
        Theme::Dark
    }
}

/// How the renderer samples the image when scaling it.
#[derive(Clone, Copy, Debug, PartialEq, Eq, Structural)]
pub enum FilterMethod {
    Linear,
    Nearest,
}

impl Default for FilterMethod {
    /// Linear filtering.
    fn default() -> (r: Self)
        ensures
            r == FilterMethod::Linear,
    {
        FilterMethod::Linear
    }
}

/// How the rendered image is fitted into the window.
#[derive(Clone, Copy, Debug, PartialEq, Eq, Structural)]
pub enum ContentFit {
    Contain,
    Cover,
    Fill,
    Unscaled,
    ScaleDown,
}

impl Default for ContentFit {
    /// The image is shown at its own size.
    fn default() -> (r: Self)
        ensures
            r == ContentFit::Unscaled,
    {
        ContentFit::Unscaled
    }
}

/// The keys bound to the viewer's actions, each optional in the
/// configuration file.
#[derive(Clone, Debug)]
pub struct Keybindings {
    pub quit: Option<String>,
    pub rotate_left: Option<String>,
    pub rotate_right: Option<String>,
}

impl Default for Keybindings {
    /// `q` quits, `[` rotates left, `]` rotates right.
    fn default() -> (r: Self)
        ensures
            r.quit is Some && r.quit->0@ == "q"@,
            r.rotate_left is Some && r.rotate_left->0@ == "["@,
            r.rotate_right is Some && r.rotate_right->0@ == "]"@,
    {
        Keybindings {
            quit: Some("q".to_owned()),
            rotate_left: Some("[".to_owned()),
            rotate_right: Some("]".to_owned()),
        }
    }
}

/// Picks a configured key, or the given default for the action.
pub fn key_or_default(key: Option<String>, fallback: &str) -> (r: String)
    ensures
        r@ == match key {
            Some(k) => k@,
            None => fallback@,
        },
{
    match key {
        Some(k) => k,
        None => fallback.to_owned(),
    }
}

} // verus!
