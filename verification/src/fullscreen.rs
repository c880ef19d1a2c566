//! Desktop fullscreen: F11 or Alt+Enter toggles borderless fullscreen, and the choice is kept in the
//! settings so the next launch starts the same way.

use vstd::prelude::*;

use crate::settings::{Settings, SettingsView};

verus! {

/// How the window is shown.
#[derive(Clone, Copy, Debug, PartialEq, Eq, Structural)]
pub enum WindowMode {
    Windowed,
    /// On the monitor the window is on.
    BorderlessFullscreen,
}

/// The window mode the setting asks for.
pub open spec fn asked(fullscreen: bool) -> WindowMode {
    if fullscreen {
        WindowMode::BorderlessFullscreen
    } else {
        WindowMode::Windowed
    }
}

/// The window mode the setting asks for.
pub fn mode_for(fullscreen: bool) -> (r: WindowMode)
    ensures
        r == asked(fullscreen),
{
    if fullscreen {
        WindowMode::BorderlessFullscreen
    } else {
        WindowMode::Windowed
    }
}

/// The keys that toggle fullscreen: F11 or Enter pressed just now, Alt held.
#[derive(Clone, Copy, Debug, PartialEq, Eq, Structural)]
pub struct FullscreenKeys {
    pub f11: bool,
    pub enter: bool,
    pub alt: bool,
}

/// Toggles fullscreen: the mode the window takes now, which the settings (to be saved) keep.
/// Nothing changes without the keys.
pub fn toggle_fullscreen(
    settings: &mut Settings,
    mode: WindowMode,
    keys: FullscreenKeys,
) -> (r: Option<WindowMode>)
    ensures
        r == if keys.f11 || keys.alt && keys.enter {
            Some(asked(mode == WindowMode::Windowed))
        } else {
            None
        },
        final(settings)@ == match r {
            Some(m) => (SettingsView {
                fullscreen: m == WindowMode::BorderlessFullscreen,
                ..old(settings)@
            }),
            None => old(settings)@,
        },
{
    if keys.f11 || (keys.alt && keys.enter) {
        let fullscreen = matches!(mode, WindowMode::Windowed);
        settings.fullscreen = fullscreen;
        Some(mode_for(fullscreen))
    } else {
        None
    }
}

/// Each mode is what the setting asks for, and toggling twice is where it began.
pub proof fn law_modes_and_settings(mode: WindowMode)
    ensures
        asked(true) == WindowMode::BorderlessFullscreen,
        asked(false) == WindowMode::Windowed,
        asked(mode == WindowMode::Windowed) != mode,
        asked(asked(mode == WindowMode::Windowed) == WindowMode::Windowed) == mode,
{
}

} // verus!
