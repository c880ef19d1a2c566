//! The menus: which screen is up, what its buttons do, and what it shows. The title screen (main
//! menu and leaderboard, switched by the bookmark tabs on the panel's edge), the account screens
//! (log in, create account, verification, forgot / reset password, profile), the matchmaking queues
//! (quick play, competitive), "waiting for opponent", the in-game pause overlay (Esc) and the
//! settings screen.

use vstd::prelude::*;
use vstd::string::*;

use crate::settings::{Action, Slider};
use crate::text::cat;

pub mod act;
pub mod date;
pub mod history;
pub mod input;
pub mod screens;

verus! {

/// Which screen is showing.
#[derive(Clone, Copy, Debug, PartialEq, Eq, Structural)]
pub enum UiScreen {
    Hidden,
    Main,
    /// The title screen's second tab: the top players by rating.
    Leaderboard,
    Pause,
    Settings {
        /// Opened from the pause menu (true) or the main menu (false).
        from_game: bool,
    },
    Login,
    Register,
    /// Waiting for the e-mail code after registering.
    Verify,
    Forgot,
    /// Waiting for the e-mail code after "forgot password".
    Reset,
    Profile,
    ChangeUsername,
    ChangePassword,
    /// In a matchmaking queue (which one: `Account::queue`).
    Queue,
    /// The desktop builds (reachable from the web build's title screen).
    Download,
}

impl UiScreen {
    /// An in-game overlay is open: the mouse is released and game input ignored.
    pub open spec fn overlay(self) -> bool {
        self == UiScreen::Pause || self == (UiScreen::Settings { from_game: true })
    }

    /// True while an in-game overlay is open (mouse released, game input ignored).
    pub fn blocks_game_input(self) -> (r: bool)
        ensures
            r == self.overlay(),
    {
        matches!(self, UiScreen::Pause | UiScreen::Settings { from_game: true })
    }

    /// The button that Enter presses, on a screen that is a form.
    pub open spec fn main_button(self) -> Option<UiAction> {
        match self {
            UiScreen::Login => Some(UiAction::SubmitLogin),
            UiScreen::Register => Some(UiAction::SubmitRegister),
            UiScreen::Verify => Some(UiAction::SubmitVerify),
            UiScreen::Forgot => Some(UiAction::SubmitForgot),
            UiScreen::Reset => Some(UiAction::SubmitReset),
            UiScreen::ChangeUsername => Some(UiAction::SubmitUsername),
            UiScreen::ChangePassword => Some(UiAction::SubmitPassword),
            _ => None,
        }
    }

    /// The button Enter presses on this screen, if it is a form.
    pub fn submit_action(self) -> (r: Option<UiAction>)
        ensures
            r == self.main_button(),
    {
        match self {
            UiScreen::Login => Some(UiAction::SubmitLogin),
            UiScreen::Register => Some(UiAction::SubmitRegister),
            UiScreen::Verify => Some(UiAction::SubmitVerify),
            UiScreen::Forgot => Some(UiAction::SubmitForgot),
            UiScreen::Reset => Some(UiAction::SubmitReset),
            UiScreen::ChangeUsername => Some(UiAction::SubmitUsername),
            UiScreen::ChangePassword => Some(UiAction::SubmitPassword),
            _ => None,
        }
    }
}

/// What a button does.
#[derive(Clone, Copy, Debug, PartialEq, Eq, Structural)]
pub enum UiAction {
    Practice,
    CreateRoom,
    JoinRoom,
    /// Join the quick play queue (anyone).
    QuickPlay,
    /// Join the competitive queue (accounts only).
    Competitive,
    CancelQueue,
    OpenSettings,
    Back,
    Resume,
    Leave,
    InvertY,
    /// Unlock / relock the X and Y sensitivities.
    SeparateSensitivity,
    /// Web only: go fullscreen on the click that starts play.
    Fullscreen,
    /// Let the game pick the input delay from the connection.
    AdaptiveDelay,
    /// Preferred rocket launcher: stock or The Original (takes effect at the next spawn).
    Launcher,
    /// Dismiss the "room is full" error: back to the menu with the code cleared.
    ErrorOk,
    /// Dismiss the result popup of a finished ranked match.
    ResultOk,
    /// Paste a room code / invite link from the clipboard into the code field.
    Paste,
    EditValue(Slider),
    Bind(Action),
    ResetDefaults,
    /// The little arrow in the corner of a form window (same as `Back`, drawn subtly).
    BackArrow,
    OpenLogin,
    SubmitLogin,
    OpenRegister,
    SubmitRegister,
    SubmitVerify,
    /// Another code for the verify / reset screens.
    Resend,
    OpenForgot,
    SubmitForgot,
    SubmitReset,
    OpenProfile,
    Logout,
    OpenChangeUsername,
    SubmitUsername,
    OpenChangePassword,
    SubmitPassword,
    /// Only the web build shows the button (desktop has nothing to download).
    OpenDownload,
    /// Fetch a desktop build (opens `/download/<platform>` in a new tab).
    Download(Platform),
    /// This build is out of date: reload the page (web) or hand off to the updater (desktop).
    Update,
    /// One of the bookmark tabs on the title panel's edge.
    OpenTab(Tab),
    /// Another page of the leaderboard (from 1).
    LeaderboardPage(u32),
    /// The COMP / ALL switch above the match history.
    HistoryFilter,
}

/// How a button colours itself: tan, a subtle hover tint, or its own colours.
#[derive(Clone, Copy, Debug, PartialEq, Eq, Structural)]
pub enum ButtonStyle {
    Plain,
    Subtle,
    Custom,
}

impl UiAction {
    pub open spec fn look(self) -> ButtonStyle {
        match self {
            UiAction::EditValue(_) | UiAction::OpenProfile | UiAction::BackArrow => ButtonStyle::Subtle,
            UiAction::InvertY | UiAction::SeparateSensitivity | UiAction::Fullscreen
            | UiAction::AdaptiveDelay | UiAction::Launcher | UiAction::HistoryFilter
            | UiAction::OpenTab(_) => ButtonStyle::Custom,
            _ => ButtonStyle::Plain,
        }
    }

    /// How the button colours itself.
    pub fn style(self) -> (r: ButtonStyle)
        ensures
            r == self.look(),
    {
        match self {
            UiAction::EditValue(_) | UiAction::OpenProfile | UiAction::BackArrow => ButtonStyle::Subtle,
            UiAction::InvertY | UiAction::SeparateSensitivity | UiAction::Fullscreen
            | UiAction::AdaptiveDelay | UiAction::Launcher | UiAction::HistoryFilter
            | UiAction::OpenTab(_) => ButtonStyle::Custom,
            _ => ButtonStyle::Plain,
        }
    }
}

/// What the mouse does to a button.
#[derive(Clone, Copy, Debug, PartialEq, Eq, Structural)]
pub enum Touch {
    Pressed,
    Hovered,
    Away,
}

/// The background that a button takes on.
#[derive(Clone, Copy, Debug, PartialEq, Eq, Structural)]
pub enum Shade {
    Disabled,
    Active,
    Hover,
    Resting,
    /// A faint white.
    Tinted,
    /// The background of an inset box.
    Inset,
    Clear,
}

/// The background that a touch gives a button; nothing where it keeps the one it has.
pub open spec fn shade(action: UiAction, touch: Touch, disabled: bool) -> Option<Shade> {
    if disabled {
        Some(Shade::Disabled)
    } else {
        match (action.look(), touch) {
            (ButtonStyle::Plain, Touch::Pressed) => Some(Shade::Active),
            (ButtonStyle::Plain, Touch::Hovered) => Some(Shade::Hover),
            (ButtonStyle::Plain, Touch::Away) => Some(Shade::Resting),
            (ButtonStyle::Subtle, Touch::Pressed) => None,
            (ButtonStyle::Subtle, Touch::Hovered) => Some(Shade::Tinted),
            (ButtonStyle::Subtle, Touch::Away) => if action is EditValue {
                Some(Shade::Inset)
            } else {
                Some(Shade::Clear)
            },
            (ButtonStyle::Custom, _) => None,
        }
    }
}

/// What a touch does to a button: the background it takes on, and whether it acts. A greyed-out
/// button never acts.
pub fn ui_button(action: UiAction, touch: Touch, disabled: bool) -> (r: (Option<Shade>, bool))
    ensures
        r.0 == shade(action, touch, disabled),
        r.1 == (touch == Touch::Pressed && !disabled),
{
    if disabled {
        return (Some(Shade::Disabled), false);
    }
    let bg = match action.style() {
        ButtonStyle::Plain => match touch {
            Touch::Pressed => Some(Shade::Active),
            Touch::Hovered => Some(Shade::Hover),
            Touch::Away => Some(Shade::Resting),
        },
        ButtonStyle::Subtle => match touch {
            Touch::Pressed => None,
            Touch::Hovered => Some(Shade::Tinted),
            Touch::Away => if matches!(action, UiAction::EditValue(_)) {
                Some(Shade::Inset)
            } else {
                Some(Shade::Clear)
            },
        },
        ButtonStyle::Custom => None,
    };
    (bg, touch == Touch::Pressed)
}

/// A desktop build on the download screen. The web server serves each from `/download/<name>` next
/// to the page.
#[derive(Clone, Copy, Debug, PartialEq, Eq, Structural)]
pub enum Platform {
    Windows,
    Linux,
}

impl Platform {
    pub open spec fn all() -> Seq<Platform> {
        seq![Platform::Windows, Platform::Linux]
    }

    pub open spec fn label_text(self) -> Seq<char> {
        match self {
            Platform::Windows => "Windows"@,
            Platform::Linux => "Linux"@,
        }
    }

    pub fn label(self) -> (r: &'static str)
        ensures
            r@ == self.label_text(),
    {
        match self {
            Platform::Windows => "Windows",
            Platform::Linux => "Linux",
        }
    }

    pub open spec fn address(self) -> Seq<char> {
        "/download/"@ + match self {
            Platform::Windows => "windows"@,
            Platform::Linux => "linux"@,
        }
    }

    /// Relative to the page, so a staging deployment offers its own builds.
    pub fn url(self) -> (r: String)
        ensures
            r@ == self.address(),
    {
        match self {
            Platform::Windows => cat("/download/", "windows"),
            Platform::Linux => cat("/download/", "linux"),
        }
    }
}

/// The bookmark tabs hanging off the right edge of the title screen's panel, top to bottom.
#[derive(Clone, Copy, Debug, PartialEq, Eq, Structural)]
pub enum Tab {
    Menu,
    Leaderboard,
}

impl Tab {
    pub open spec fn all() -> Seq<Tab> {
        seq![Tab::Menu, Tab::Leaderboard]
    }

    /// The screen behind the tab.
    pub open spec fn leads_to(self) -> UiScreen {
        match self {
            Tab::Menu => UiScreen::Main,
            Tab::Leaderboard => UiScreen::Leaderboard,
        }
    }

    pub fn screen(self) -> (r: UiScreen)
        ensures
            r == self.leads_to(),
    {
        match self {
            Tab::Menu => UiScreen::Main,
            Tab::Leaderboard => UiScreen::Leaderboard,
        }
    }

    pub open spec fn name_text(self) -> Seq<char> {
        match self {
            Tab::Menu => "menu"@,
            Tab::Leaderboard => "leaderboard"@,
        }
    }

    /// What the tab says when hovered.
    pub fn name(self) -> (r: &'static str)
        ensures
            r@ == self.name_text(),
    {
        match self {
            Tab::Menu => "menu",
            Tab::Leaderboard => "leaderboard",
        }
    }
}

/// Where "back" / Esc leads from a screen.
pub open spec fn back_of(screen: UiScreen, in_game: bool) -> UiScreen {
    match screen {
        UiScreen::Settings { from_game } => if from_game {
            UiScreen::Pause
        } else {
            UiScreen::Main
        },
        UiScreen::Verify => UiScreen::Register,
        UiScreen::Reset => UiScreen::Forgot,
        UiScreen::Register | UiScreen::Forgot => UiScreen::Login,
        UiScreen::ChangeUsername | UiScreen::ChangePassword => UiScreen::Profile,
        UiScreen::Login | UiScreen::Profile | UiScreen::Queue | UiScreen::Download
        | UiScreen::Leaderboard | UiScreen::Main => UiScreen::Main,
        UiScreen::Pause | UiScreen::Hidden => if in_game {
            UiScreen::Pause
        } else {
            UiScreen::Main
        },
    }
}

/// Where "back" / Esc leads from a screen.
pub fn back_target(screen: UiScreen, in_game: bool) -> (r: UiScreen)
    ensures
        r == back_of(screen, in_game),
{
    match screen {
        UiScreen::Settings { from_game } => if from_game {
            UiScreen::Pause
        } else {
            UiScreen::Main
        },
        UiScreen::Verify => UiScreen::Register,
        UiScreen::Reset => UiScreen::Forgot,
        UiScreen::Register | UiScreen::Forgot => UiScreen::Login,
        UiScreen::ChangeUsername | UiScreen::ChangePassword => UiScreen::Profile,
        UiScreen::Login | UiScreen::Profile | UiScreen::Queue | UiScreen::Download
        | UiScreen::Leaderboard | UiScreen::Main => UiScreen::Main,
        UiScreen::Pause | UiScreen::Hidden => if in_game {
            UiScreen::Pause
        } else {
            UiScreen::Main
        },
    }
}

/// Going back leads out: three times back from any screen is the main menu, or the pause menu while
/// a match runs, and going back from there stays there.
pub proof fn law_back_leads_out(screen: UiScreen, in_game: bool)
    ensures
        ({
            let end = back_of(back_of(back_of(screen, in_game), in_game), in_game);
            &&& end == UiScreen::Main || end == UiScreen::Pause
            &&& back_of(end, in_game) == end
        }),
        in_game ==> back_of(UiScreen::Pause, in_game) == UiScreen::Pause,
        !in_game ==> back_of(back_of(back_of(screen, in_game), in_game), in_game) == UiScreen::Main,
{
}

/// Every tab opens a screen of its own, from which going back leads to the first tab's.
pub proof fn law_tabs_share_the_title(a: Tab, b: Tab)
    ensures
        a.leads_to() == b.leads_to() ==> a == b,
        back_of(a.leads_to(), false) == Tab::Menu.leads_to(),
{
}

/// The screen the menu opens on: what a finished ranked match asked for, or the main menu. The
/// request is used up.
pub fn enter_menu(ret: &mut Option<UiScreen>) -> (r: UiScreen)
    ensures
        r == match *old(ret) {
            Some(s) => s,
            None => UiScreen::Main,
        },
        *final(ret) is None,
{
    match ret.take() {
        Some(s) => s,
        None => UiScreen::Main,
    }
}

/// Where the way back leads: out of the settings to where they were opened from, from each form to
/// the one before it, and from everything else to the title.
pub proof fn law_where_back_leads(in_game: bool)
    ensures
        back_of(UiScreen::Settings { from_game: true }, in_game) == UiScreen::Pause,
        back_of(UiScreen::Settings { from_game: false }, in_game) == UiScreen::Main,
        back_of(UiScreen::Verify, in_game) == UiScreen::Register,
        back_of(UiScreen::Reset, in_game) == UiScreen::Forgot,
        back_of(UiScreen::Register, in_game) == UiScreen::Login,
        back_of(UiScreen::Forgot, in_game) == UiScreen::Login,
        back_of(UiScreen::ChangeUsername, in_game) == UiScreen::Profile,
        back_of(UiScreen::ChangePassword, in_game) == UiScreen::Profile,
        back_of(UiScreen::Login, in_game) == UiScreen::Main,
        back_of(UiScreen::Profile, in_game) == UiScreen::Main,
        back_of(UiScreen::Queue, in_game) == UiScreen::Main,
        back_of(UiScreen::Download, in_game) == UiScreen::Main,
        back_of(UiScreen::Leaderboard, in_game) == UiScreen::Main,
        back_of(UiScreen::Hidden, true) == UiScreen::Pause,
        back_of(UiScreen::Hidden, false) == UiScreen::Main,
{
}

/// Enter presses a form's own button: each form has one, no two the same, and no other screen has
/// any.
pub proof fn law_what_enter_presses(a: UiScreen, b: UiScreen)
    ensures
        a.main_button() is Some && a.main_button() == b.main_button() ==> a == b,
        UiScreen::Login.main_button() == Some(UiAction::SubmitLogin),
        UiScreen::Register.main_button() == Some(UiAction::SubmitRegister),
        UiScreen::Verify.main_button() == Some(UiAction::SubmitVerify),
        UiScreen::Forgot.main_button() == Some(UiAction::SubmitForgot),
        UiScreen::Reset.main_button() == Some(UiAction::SubmitReset),
        UiScreen::ChangeUsername.main_button() == Some(UiAction::SubmitUsername),
        UiScreen::ChangePassword.main_button() == Some(UiAction::SubmitPassword),
        a.main_button() is Some ==> a == UiScreen::Login || a == UiScreen::Register || a
            == UiScreen::Verify || a == UiScreen::Forgot || a == UiScreen::Reset || a
            == UiScreen::ChangeUsername || a == UiScreen::ChangePassword,
{
}

/// The game is covered by the pause menu and by the settings opened from it, and by nothing else.
pub proof fn law_what_covers_the_game(screen: UiScreen)
    ensures
        screen.overlay() <==> screen == UiScreen::Pause || (screen matches UiScreen::Settings {
            from_game,
        } && from_game),
{
}

/// A disabled button looks disabled whatever the mouse does; any other shows what it does, a plain
/// one and a subtle one in their own ways, and the rest are drawn elsewhere.
pub proof fn law_how_a_button_looks(action: UiAction, touch: Touch)
    ensures
        shade(action, touch, true) == Some(Shade::Disabled),
        shade(action, touch, false) != Some(Shade::Disabled),
        action.look() == ButtonStyle::Custom ==> shade(action, touch, false) is None,
        action.look() == ButtonStyle::Plain ==> shade(action, Touch::Pressed, false) == Some(
            Shade::Active,
        ) && shade(action, Touch::Hovered, false) == Some(Shade::Hover) && shade(
            action,
            Touch::Away,
            false,
        ) == Some(Shade::Resting),
        action.look() == ButtonStyle::Subtle ==> shade(action, Touch::Hovered, false) == Some(
            Shade::Tinted,
        ),
        shade(action, Touch::Away, false) == Some(Shade::Inset) <==> action is EditValue,
        action.look() == ButtonStyle::Subtle <==> action is EditValue || action
            == UiAction::OpenProfile || action == UiAction::BackArrow,
        action is OpenTab || action == UiAction::InvertY || action == UiAction::HistoryFilter
            || action == UiAction::Launcher || action == UiAction::Fullscreen || action
            == UiAction::AdaptiveDelay || action == UiAction::SeparateSensitivity <==> action.look()
            == ButtonStyle::Custom,
{
}

/// Each platform has its own name and download; each tab its own name and screen.
pub proof fn law_platforms_and_tabs()
    ensures
        Platform::Windows.label_text() == "Windows"@,
        Platform::Linux.label_text() == "Linux"@,
        Platform::Windows.address() == "/download/"@ + "windows"@,
        Platform::Linux.address() == "/download/"@ + "linux"@,
        Tab::Menu.leads_to() == UiScreen::Main,
        Tab::Leaderboard.leads_to() == UiScreen::Leaderboard,
        Tab::Menu.name_text() == "menu"@,
        Tab::Leaderboard.name_text() == "leaderboard"@,
{
}

} // verus!
