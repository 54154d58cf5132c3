//! The window the config asks for, as far as a window can only be told at
//! creation: its decorations, its transparency and its level. A reload that
//! changes any of them needs a new window.
use vstd::prelude::*;

verus! {

/// What the window settings are decided from, read out of the config.
#[derive(Debug, Clone, Copy, PartialEq, Eq, Structural)]
pub struct WindowConfig {
    /// `[window] decorations`.
    pub decorations: bool,
    /// `[visor] enabled`.
    pub visor: bool,
    /// Whether any theme in the file, showing or not, wants a see-through
    /// background.
    pub wants_transparency: bool,
}

/// The settings a window is created with.
#[derive(Debug, Clone, Copy, PartialEq, Eq, Structural)]
pub struct WindowSpec {
    pub decorations: bool,
    pub transparent: bool,
    /// Floating above every other window, as the visor does.
    pub always_on_top: bool,
    /// Whether the OS close button ends the program outright. Never: the
    /// app flushes drafts before it lets a window go.
    pub exit_on_close_request: bool,
}

/// The window `config` describes. Visor mode wins over decorations: a
/// drop-down visor is undecorated and floats.
pub fn settings(config: WindowConfig) -> (spec: WindowSpec)
    ensures
        spec == settings_spec(config),
{
    WindowSpec {
        decorations: config.decorations && !config.visor,
        transparent: config.wants_transparency,
        always_on_top: config.visor,
        exit_on_close_request: false,
    }
}

/// Whether two configs disagree about anything a window carries, which
/// only a new window can honor.
pub fn needs_replacing(old: WindowConfig, new: WindowConfig) -> (replace: bool)
    ensures
        replace == (settings_spec(old) != settings_spec(new)),
{
    let before = settings(old);
    let after = settings(new);
    before.decorations != after.decorations
        || before.transparent != after.transparent
        || before.always_on_top != after.always_on_top
}

/// What `settings` gives for `config`.
pub open spec fn settings_spec(config: WindowConfig) -> WindowSpec {
    WindowSpec {
        decorations: config.decorations && !config.visor,
        transparent: config.wants_transparency,
        always_on_top: config.visor,
        exit_on_close_request: false,
    }
}

} // verus!
