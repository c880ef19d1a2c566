//! What the menu buttons do. The menu's state changes here; what has to happen outside (a request
//! to send, a page to open, settings to write) is handed out as effects.

use vstd::prelude::*;
use vstd::string::*;
use vstd::utf8::encode_utf8;

use super::{back_of, back_target, Tab, UiAction, UiScreen};
use crate::account::{fresh_queue, request, Account, AccountView, HttpRequest, Leaderboard, QueueKind,
    QueueView, Req, RequestView};
use crate::config::{ClientConfig, ROOM_CODE_LEN};
use crate::json::{braced, object1, object2, object3};
use crate::net::{CommandView, NetCommand};
use crate::settings::{Action, FruitRules, Settings, SettingsView, Slider, Weapon};
use crate::text::{chars, contains, eq, opt, opt_clone, owned, trim, trimmed};
use crate::textfield::{Field, Form, FormView};

verus! {

/// Something a menu action wants done outside the menu.
#[derive(Debug, PartialEq)]
pub enum MenuEffect {
    Net(NetCommand),
    Send(HttpRequest),
    /// Join the quick play queue.
    JoinQuick,
    /// Ask for a page of the leaderboard with so many players on it.
    FetchLeaderboard { page: u32, per: u32 },
    /// Write the settings out.
    SaveSettings,
    /// Write the login out.
    SaveAccount,
    /// Give the room up and go back to the menu.
    LeaveRoom,
    /// Read the clipboard.
    ReadClipboard,
    /// Open an address in a new tab.
    OpenUrl(String),
    /// Web: reload the page.
    Reload,
    /// Desktop: start the updater for this build of the server.
    LaunchUpdater(String),
    /// Take the invitation out of the page's address: a reload must not rejoin a room that may be
    /// long gone.
    ForgetJoin,
}

#[verifier::ext_equal]
pub enum EffectView {
    Net(CommandView),
    Send(RequestView),
    JoinQuick,
    FetchLeaderboard { page: u32, per: u32 },
    SaveSettings,
    SaveAccount,
    LeaveRoom,
    ReadClipboard,
    OpenUrl(Seq<char>),
    Reload,
    LaunchUpdater(Seq<char>),
    ForgetJoin,
}

impl View for MenuEffect {
    type V = EffectView;

    open spec fn view(&self) -> EffectView {
        match self {
            MenuEffect::Net(c) => EffectView::Net(c@),
            MenuEffect::Send(r) => EffectView::Send(r@),
            MenuEffect::JoinQuick => EffectView::JoinQuick,
            MenuEffect::FetchLeaderboard { page, per } => EffectView::FetchLeaderboard {
                page: *page,
                per: *per,
            },
            MenuEffect::SaveSettings => EffectView::SaveSettings,
            MenuEffect::SaveAccount => EffectView::SaveAccount,
            MenuEffect::LeaveRoom => EffectView::LeaveRoom,
            MenuEffect::ReadClipboard => EffectView::ReadClipboard,
            MenuEffect::OpenUrl(u) => EffectView::OpenUrl(u@),
            MenuEffect::Reload => EffectView::Reload,
            MenuEffect::LaunchUpdater(b) => EffectView::LaunchUpdater(b@),
            MenuEffect::ForgetJoin => EffectView::ForgetJoin,
        }
    }
}

/// The views of a list of effects.
pub open spec fn effects_view(v: Seq<MenuEffect>) -> Seq<EffectView> {
    v.map_values(|e: MenuEffect| e@)
}

/// Everything a menu action may touch.
pub struct Menu {
    pub screen: UiScreen,
    /// The room code typed so far.
    pub typed: String,
    pub settings: Settings,
    /// The current screen must be rebuilt (settings changed, binding captured, ...).
    pub refresh: bool,
    /// Waiting for the next key/mouse press to bind this action.
    pub listening: Option<Action>,
    /// A value box is open for typing: which slider, and the text typed so far.
    pub editing: Option<(Slider, String)>,
    pub account: Account,
    pub form: Form,
    /// Players that fit on a leaderboard page, from the table box as last laid out; none until the
    /// tab has been shown.
    pub rows: Option<u32>,
    /// What the profile's match history shows: competitive matches only, or every round.
    pub comp_only: bool,
    /// What has to happen outside, in order.
    pub effects: Vec<MenuEffect>,
}

#[verifier::ext_equal]
pub struct MenuView {
    pub screen: UiScreen,
    pub typed: Seq<char>,
    pub settings: SettingsView,
    pub refresh: bool,
    pub listening: Option<Action>,
    pub editing: Option<(Slider, Seq<char>)>,
    pub account: AccountView,
    pub form: FormView,
    pub rows: Option<u32>,
    pub comp_only: bool,
    pub effects: Seq<EffectView>,
}

pub open spec fn editing_view(e: Option<(Slider, String)>) -> Option<(Slider, Seq<char>)> {
    match e {
        Some((slider, text)) => Some((slider, text@)),
        None => None,
    }
}

impl View for Menu {
    type V = MenuView;

    open spec fn view(&self) -> MenuView {
        MenuView {
            screen: self.screen,
            typed: self.typed@,
            settings: self.settings@,
            refresh: self.refresh,
            listening: self.listening,
            editing: editing_view(self.editing),
            account: self.account@,
            form: self.form@,
            rows: self.rows,
            comp_only: self.comp_only,
            effects: effects_view(self.effects@),
        }
    }
}

/// What a menu action reads of the world.
pub struct MenuEnv {
    pub in_game: bool,
    /// The build runs in a browser.
    pub web: bool,
    pub now: u64,
    /// The server's build, where it is known.
    pub server_build: Option<String>,
}

/// The page a leaderboard is on.
pub open spec fn open_page(lb: Option<Leaderboard>) -> u32 {
    match lb {
        Some(l) => l.page,
        None => 1,
    }
}

/// The settings with a switch turned over.
pub open spec fn flipped(s: SettingsView, action: UiAction) -> SettingsView {
    match action {
        UiAction::InvertY => SettingsView { invert_y: !s.invert_y, ..s },
        UiAction::Fullscreen => SettingsView { fullscreen: !s.fullscreen, ..s },
        UiAction::AdaptiveDelay => SettingsView { adaptive_delay: !s.adaptive_delay, ..s },
        UiAction::Launcher => SettingsView {
            weapon: match s.weapon {
                Weapon::Stock => Weapon::Original,
                Weapon::Original => Weapon::Stock,
            },
            ..s
        },
        UiAction::SeparateSensitivity => s.with_separate(!s.separate_sensitivity),
        _ => s,
    }
}

fn flip(s: &mut Settings, action: UiAction)
    ensures
        final(s)@ == flipped(old(s)@, action),
{
    match action {
        UiAction::InvertY => {
            s.invert_y = !s.invert_y;
        },
        UiAction::Fullscreen => {
            s.fullscreen = !s.fullscreen;
        },
        UiAction::AdaptiveDelay => {
            s.adaptive_delay = !s.adaptive_delay;
        },
        UiAction::Launcher => {
            s.weapon = match s.weapon {
                Weapon::Stock => Weapon::Original,
                Weapon::Original => Weapon::Stock,
            };
        },
        UiAction::SeparateSensitivity => {
            let separate = !s.separate_sensitivity;
            s.set_separate_sensitivity(separate);
        },
        _ => {},
    }
}

impl MenuView {
    pub open spec fn emit(self, e: EffectView) -> MenuView {
        MenuView { effects: self.effects.push(e), ..self }
    }

    pub open spec fn refreshed(self) -> MenuView {
        MenuView { refresh: true, ..self }
    }

    pub open spec fn at(self, screen: UiScreen) -> MenuView {
        MenuView { screen, ..self }
    }

    pub open spec fn with_settings(self, settings: SettingsView) -> MenuView {
        MenuView { settings, ..self }
    }

    /// The settings changed: write them out and rebuild the screen.
    pub open spec fn resettled(self, settings: SettingsView) -> MenuView {
        self.with_settings(settings).emit(EffectView::SaveSettings).refreshed()
    }

    pub open spec fn with_account(self, account: AccountView) -> MenuView {
        MenuView { account, ..self }
    }

    pub open spec fn with_form(self, form: FormView) -> MenuView {
        MenuView { form, ..self }
    }

    /// A call of that kind under way.
    pub open spec fn sent(self, kind: Req, q: RequestView) -> MenuView {
        self.with_account(self.account.called(kind)).emit(EffectView::Send(q))
    }

    /// No error on the status line.
    pub open spec fn cleared(self) -> MenuView {
        self.with_account(AccountView { error: None, ..self.account })
    }

    /// Neither error nor notice on the status line.
    pub open spec fn hushed(self) -> MenuView {
        self.with_account(AccountView { error: None, notice: None, ..self.account })
    }

    pub open spec fn failed(self, msg: Seq<char>) -> MenuView {
        self.with_account(AccountView { error: Some(msg), ..self.account })
    }

    /// A value box closed: what was typed is taken where it is a value.
    #[verifier::opaque]
    pub open spec fn committed(self, rules: &FruitRules) -> MenuView {
        match self.editing {
            None => self,
            Some((slider, text)) => {
                let closed = MenuView { editing: None, ..self };
                if slider.accepts(text) {
                    closed.with_settings(
                        match slider.typed(text, rules) {
                            Some(n) => self.settings.with_value(slider, n),
                            None => self.settings,
                        },
                    ).emit(EffectView::SaveSettings)
                } else {
                    closed
                }
            },
        }
    }

    /// Out of the queue; the server is told where it had given out a ticket.
    #[verifier::opaque]
    pub open spec fn out_of_queue(self, api: Seq<char>) -> MenuView {
        let out = self.with_account(AccountView { queue: None, ..self.account });
        match self.account.queue {
            Some(QueueView { ticket: Some(t), .. }) => out.sent(
                Req::QueueLeave,
                request(
                    api,
                    self.account.token,
                    Req::QueueLeave,
                    "/queue/leave"@,
                    Some(object1("ticket"@, t)),
                ),
            ),
            _ => out,
        }
    }

    /// Quick play was asked for: the account waits in its queue, whose screen comes up.
    pub open spec fn quick_playing(self, now: u64) -> MenuView {
        self.with_account(
            AccountView { queue: Some(fresh_queue(QueueKind::Quick, now)), ..self.account },
        ).emit(EffectView::JoinQuick).at(UiScreen::Queue)
    }

    /// Searching for a competitive match.
    #[verifier::opaque]
    pub open spec fn competing(self, api: Seq<char>, now: u64) -> MenuView {
        self.with_account(
            AccountView {
                queue: Some(fresh_queue(QueueKind::Competitive, now)),
                ..self.account
            },
        ).sent(
            Req::QueueJoin,
            request(
                api,
                self.account.token,
                Req::QueueJoin,
                "/queue/join"@,
                Some(braced(Seq::empty())),
            ),
        ).at(UiScreen::Queue)
    }

    /// Another code was asked for.
    #[verifier::opaque]
    pub open spec fn resent(self, api: Seq<char>) -> MenuView {
        let token = self.account.token;
        let email = self.account.pending_email;
        match self.screen {
            UiScreen::Verify => self.sent(
                Req::Resend,
                request(api, token, Req::Resend, "/resend"@, Some(object1("email"@, email))),
            ),
            UiScreen::Reset => self.sent(
                Req::Forgot,
                request(api, token, Req::Forgot, "/forgot"@, Some(object1("email"@, email))),
            ),
            _ => self,
        }.refreshed()
    }

    /// A value box opened for typing, with the value in it; another one that was open is closed.
    #[verifier::opaque]
    pub open spec fn boxed(self, slider: Slider, rules: &FruitRules) -> MenuView {
        if self.editing is Some && (self.editing->0).0 == slider {
            self
        } else {
            let m = self.committed(rules);
            MenuView { editing: Some((slider, slider.edited(m.settings))), ..m }
        }
    }

    /// Every setting as on a fresh install.
    #[verifier::opaque]
    pub open spec fn reset(self, rules: &FruitRules, web: bool) -> MenuView {
        let m = self.resettled(SettingsView::initial(rules, web));
        MenuView { listening: None, editing: None, ..m }
    }

    /// The settings buttons.
    #[verifier::opaque]
    pub open spec fn set_by(self, action: UiAction, rules: &FruitRules, web: bool) -> MenuView {
        match action {
            UiAction::InvertY | UiAction::Fullscreen | UiAction::AdaptiveDelay | UiAction::Launcher
            | UiAction::SeparateSensitivity => self.resettled(flipped(self.settings, action)),
            UiAction::EditValue(slider) => self.boxed(slider, rules),
            UiAction::Bind(a) => (MenuView { listening: Some(a), ..self }).refreshed(),
            UiAction::ResetDefaults => self.reset(rules, web),
            _ => self,
        }
    }

    /// The buttons that open or close a screen.
    #[verifier::opaque]
    pub open spec fn opened_by(self, action: UiAction, api: Seq<char>, env: &MenuEnv) -> MenuView {
        match action {
            UiAction::OpenSettings => self.at(UiScreen::Settings { from_game: env.in_game }),
            UiAction::Back | UiAction::BackArrow => (MenuView {
                listening: None,
                ..self
            }).cleared().at(back_of(self.screen, env.in_game)),
            UiAction::Resume => self.at(UiScreen::Hidden),
            UiAction::OpenLogin => self.hushed().with_form(self.form.without_secrets()).at(
                UiScreen::Login,
            ),
            UiAction::OpenRegister => self.cleared().at(UiScreen::Register),
            UiAction::OpenForgot => self.cleared().at(UiScreen::Forgot),
            UiAction::OpenProfile => {
                let name = self.account.shown_name();
                let m = self.with_account(
                    AccountView { error: None, notice: None, profile: None, ..self.account },
                ).with_form(self.form.without(Field::HistorySearch));
                m.sent(
                    Req::Profile,
                    request(api, self.account.token, Req::Profile, "/profile/"@ + name, None),
                ).at(UiScreen::Profile)
            },
            UiAction::Logout => self.with_account(
                AccountView { notice: None, ..self.account.logged_out() },
            ).emit(EffectView::SaveAccount).at(UiScreen::Main),
            UiAction::OpenChangeUsername => self.hushed().with_form(
                self.form.without(Field::NewUsername),
            ).at(UiScreen::ChangeUsername),
            UiAction::OpenChangePassword => self.hushed().with_form(
                self.form.without_secrets(),
            ).at(UiScreen::ChangePassword),
            UiAction::OpenTab(tab) => {
                let m = self.cleared();
                let m = match (tab, self.rows) {
                    // Fresh standings, on the page that was open last. The first time the tab has
                    // not been laid out yet, so how many fit is unknown.
                    (Tab::Leaderboard, Some(per)) => m.emit(
                        EffectView::FetchLeaderboard {
                            page: open_page(self.account.leaderboard),
                            per,
                        },
                    ),
                    _ => m,
                };
                m.at(tab.leads_to())
            },
            UiAction::OpenDownload => self.at(UiScreen::Download),
            _ => self,
        }
    }

    /// What a button does, once the value box and the text field have been left.
    #[verifier::opaque]
    pub open spec fn acted(
        self,
        action: UiAction,
        api: Seq<char>,
        rules: &FruitRules,
        env: &MenuEnv,
    ) -> MenuView {
        match action {
            UiAction::Practice => self.emit(EffectView::Net(CommandView::Practice)),
            UiAction::CreateRoom => self.emit(EffectView::Net(CommandView::CreateRoom)),
            UiAction::JoinRoom => if encode_utf8(self.typed).len() == ROOM_CODE_LEN {
                self.emit(EffectView::Net(CommandView::JoinRoom(self.typed)))
            } else {
                self
            },
            UiAction::QuickPlay => self.quick_playing(env.now),
            UiAction::Competitive => if self.account.user is Some {
                self.competing(api, env.now)
            } else {
                self
            },
            UiAction::CancelQueue => self.out_of_queue(api).at(UiScreen::Main),
            UiAction::Leave => self.emit(EffectView::Net(CommandView::Leave)),
            UiAction::ErrorOk => (MenuView { typed: Seq::empty(), ..self }).emit(
                EffectView::LeaveRoom,
            ),
            UiAction::ResultOk => self.with_account(
                AccountView { result: None, ..self.account },
            ).refreshed(),
            UiAction::Paste => self.emit(EffectView::ReadClipboard),
            UiAction::HistoryFilter => (MenuView {
                comp_only: !self.comp_only,
                ..self
            }).refreshed(),
            UiAction::InvertY | UiAction::Fullscreen | UiAction::AdaptiveDelay | UiAction::Launcher
            | UiAction::SeparateSensitivity | UiAction::EditValue(_) | UiAction::Bind(_)
            | UiAction::ResetDefaults => self.set_by(action, rules, env.web),
            UiAction::Resend => if env.now >= self.account.resend_at && !self.account.waiting() {
                self.resent(api)
            } else {
                self
            },
            UiAction::LeaderboardPage(page) => self.emit(
                EffectView::FetchLeaderboard {
                    page,
                    per: match self.rows {
                        Some(n) => n,
                        None => 10,
                    },
                },
            ),
            UiAction::Download(platform) => self.emit(EffectView::OpenUrl(platform.address())),
            UiAction::Update => if env.web {
                self.emit(EffectView::Reload)
            } else {
                self.emit(
                    EffectView::LaunchUpdater(
                        match opt(env.server_build) {
                            Some(b) => b,
                            None => Seq::empty(),
                        },
                    ),
                )
            },
            UiAction::SubmitLogin | UiAction::SubmitRegister | UiAction::SubmitVerify
            | UiAction::SubmitForgot | UiAction::SubmitReset | UiAction::SubmitUsername
            | UiAction::SubmitPassword => self.submitted(action, api),
            _ => self.opened_by(action, api, env),
        }
    }

    /// What a button does. Any click but one on a value box finishes a value edit first, and takes
    /// the keyboard away from a text field.
    pub open spec fn performed(
        self,
        action: UiAction,
        api: Seq<char>,
        rules: &FruitRules,
        env: &MenuEnv,
    ) -> MenuView {
        let m = if action is EditValue {
            self
        } else {
            self.committed(rules)
        };
        m.with_form(FormView { focus: None, ..m.form }).acted(action, api, rules, env)
    }
}

// ---- forms ----

/// What is wrong with a new password typed twice.
pub open spec fn password_fault(form: FormView) -> Option<Seq<char>> {
    if form.value(Field::Password).len() < 8 {
        Some("the password needs at least 8 characters"@)
    } else if form.value(Field::Password) != form.value(Field::Password2) {
        Some("the passwords do not match"@)
    } else {
        None
    }
}

/// What is wrong with a code from an e-mail.
pub open spec fn code_fault(form: FormView) -> Option<Seq<char>> {
    if encode_utf8(trimmed(form.value(Field::Code))).len() != 6 {
        Some("the code has 6 digits"@)
    } else {
        None
    }
}

pub open spec fn email_fault(form: FormView) -> Option<Seq<char>> {
    if !trimmed(form.value(Field::Email)).contains('@') {
        Some("enter your e-mail address"@)
    } else {
        None
    }
}

pub open spec fn username_fault(name: Seq<char>) -> Option<Seq<char>> {
    if trimmed(name).len() < 3 {
        Some("the username needs at least 3 characters"@)
    } else {
        None
    }
}

/// The first of two complaints.
pub open spec fn either_fault(a: Option<Seq<char>>, b: Option<Seq<char>>) -> Option<Seq<char>> {
    if a is Some {
        a
    } else {
        b
    }
}

/// What is wrong with a form, before anything is sent.
pub open spec fn form_fault(form: FormView, action: UiAction) -> Option<Seq<char>> {
    match action {
        UiAction::SubmitLogin => if trimmed(form.value(Field::Login)).len() == 0 || form.value(
            Field::Password,
        ).len() == 0 {
            Some("enter your username and password"@)
        } else {
            None
        },
        UiAction::SubmitRegister => either_fault(
            email_fault(form),
            either_fault(username_fault(form.value(Field::Username)), password_fault(form)),
        ),
        UiAction::SubmitVerify => code_fault(form),
        UiAction::SubmitForgot => email_fault(form),
        UiAction::SubmitReset => either_fault(code_fault(form), password_fault(form)),
        UiAction::SubmitUsername => username_fault(form.value(Field::NewUsername)),
        UiAction::SubmitPassword => either_fault(
            if form.value(Field::CurrentPassword).len() == 0 {
                Some("enter your current password"@)
            } else {
                None
            },
            password_fault(form),
        ),
        _ => None,
    }
}

impl MenuView {
    /// A form without fault sent to the server.
    #[verifier::opaque]
    pub open spec fn posted(self, action: UiAction, api: Seq<char>) -> MenuView {
        let token = self.account.token;
        let pending = self.account.pending_email;
        let form = self.form;
        let email = trimmed(form.value(Field::Email));
        let code = trimmed(form.value(Field::Code));
        let password = form.value(Field::Password);
        let to = self.with_account(AccountView { pending_email: email, ..self.account });
        match action {
            UiAction::SubmitLogin => self.sent(
                Req::Login,
                request(
                    api,
                    token,
                    Req::Login,
                    "/login"@,
                    Some(
                        object2(
                            "password"@,
                            password,
                            "username"@,
                            trimmed(form.value(Field::Login)),
                        ),
                    ),
                ),
            ),
            UiAction::SubmitRegister => to.sent(
                Req::Register,
                request(
                    api,
                    token,
                    Req::Register,
                    "/register"@,
                    Some(
                        object3(
                            "email"@,
                            email,
                            "password"@,
                            password,
                            "username"@,
                            trimmed(form.value(Field::Username)),
                        ),
                    ),
                ),
            ),
            UiAction::SubmitVerify => self.sent(
                Req::Verify,
                request(
                    api,
                    token,
                    Req::Verify,
                    "/verify"@,
                    Some(object2("code"@, code, "email"@, pending)),
                ),
            ),
            UiAction::SubmitForgot => to.sent(
                Req::Forgot,
                request(api, token, Req::Forgot, "/forgot"@, Some(object1("email"@, email))),
            ),
            UiAction::SubmitReset => self.sent(
                Req::Reset,
                request(
                    api,
                    token,
                    Req::Reset,
                    "/reset"@,
                    Some(
                        object3("code"@, code, "email"@, pending, "password"@, password),
                    ),
                ),
            ),
            UiAction::SubmitUsername => self.sent(
                Req::ChangeUsername,
                request(
                    api,
                    token,
                    Req::ChangeUsername,
                    "/account/username"@,
                    Some(object1("username"@, trimmed(form.value(Field::NewUsername)))),
                ),
            ),
            UiAction::SubmitPassword => self.sent(
                Req::ChangePassword,
                request(
                    api,
                    token,
                    Req::ChangePassword,
                    "/account/password"@,
                    Some(
                        object2(
                            "current"@,
                            form.value(Field::CurrentPassword),
                            "password"@,
                            password,
                        ),
                    ),
                ),
            ),
            _ => self,
        }
    }

    /// A form's button pressed: nothing while a request is in flight; what is wrong with the form
    /// shows on the status line; a form without fault is sent.
    #[verifier::opaque]
    pub open spec fn submitted(self, action: UiAction, api: Seq<char>) -> MenuView {
        if self.account.waiting() {
            self
        } else {
            match form_fault(self.form, action) {
                Some(msg) => self.refreshed().failed(msg),
                None => self.refreshed().posted(action, api),
            }
        }
    }
}

fn has_char(s: &str, c: char) -> (r: bool)
    ensures
        r == s@.contains(c),
{
    let v = chars(s);
    let mut i: usize = 0;
    while i < v.len()
        invariant
            i <= v.len(),
            v@ == s@,
            forall|j: int| 0 <= j < i ==> v@[j] != c,
        decreases v.len() - i,
    {
        if v[i] == c {
            proof {
                assert(s@[i as int] == c);
            }
            return true;
        }
        i = i + 1;
    }
    false
}

fn check_password(form: &Form) -> (r: Option<&'static str>)
    requires
        form.wf(),
    ensures
        match r {
            Some(msg) => password_fault(form@) == Some(msg@),
            None => password_fault(form@) is None,
        },
{
    let first = form.get(Field::Password);
    let second = form.get(Field::Password2);
    let v = chars(first);
    if v.len() < 8 {
        Some("the password needs at least 8 characters")
    } else if !eq(first, second) {
        Some("the passwords do not match")
    } else {
        None
    }
}

fn check_code(form: &Form) -> (r: Option<&'static str>)
    requires
        form.wf(),
    ensures
        match r {
            Some(msg) => code_fault(form@) == Some(msg@),
            None => code_fault(form@) is None,
        },
{
    let code = trim(form.get(Field::Code));
    if code.as_str().as_bytes().len() != 6 {
        Some("the code has 6 digits")
    } else {
        None
    }
}

fn check_email(form: &Form) -> (r: Option<&'static str>)
    requires
        form.wf(),
    ensures
        match r {
            Some(msg) => email_fault(form@) == Some(msg@),
            None => email_fault(form@) is None,
        },
{
    let email = trim(form.get(Field::Email));
    if !has_char(email.as_str(), '@') {
        Some("enter your e-mail address")
    } else {
        None
    }
}

fn check_username(name: &str) -> (r: Option<&'static str>)
    ensures
        match r {
            Some(msg) => username_fault(name@) == Some(msg@),
            None => username_fault(name@) is None,
        },
{
    let name = trim(name);
    let v = chars(name.as_str());
    if v.len() < 3 {
        Some("the username needs at least 3 characters")
    } else {
        None
    }
}

/// What is wrong with a form, before anything is sent.
pub fn check_form(form: &Form, action: UiAction) -> (r: Option<&'static str>)
    requires
        form.wf(),
    ensures
        match r {
            Some(msg) => form_fault(form@, action) == Some(msg@),
            None => form_fault(form@, action) is None,
        },
{
    match action {
        UiAction::SubmitLogin => {
            let user = trim(form.get(Field::Login));
            if user.as_str().is_empty() || form.get(Field::Password).is_empty() {
                Some("enter your username and password")
            } else {
                None
            }
        },
        UiAction::SubmitRegister => match check_email(form) {
            Some(msg) => Some(msg),
            None => match check_username(form.get(Field::Username)) {
                Some(msg) => Some(msg),
                None => check_password(form),
            },
        },
        UiAction::SubmitVerify => check_code(form),
        UiAction::SubmitForgot => check_email(form),
        UiAction::SubmitReset => match check_code(form) {
            Some(msg) => Some(msg),
            None => check_password(form),
        },
        UiAction::SubmitUsername => check_username(form.get(Field::NewUsername)),
        UiAction::SubmitPassword => if form.get(Field::CurrentPassword).is_empty() {
            Some("enter your current password")
        } else {
            check_password(form)
        },
        _ => None,
    }
}

impl Menu {
    pub open spec fn wf(&self) -> bool {
        self.form.wf()
    }

    pub fn new(settings: Settings, account: Account) -> (r: Menu)
        ensures
            r.wf(),
            r@ == (MenuView {
                screen: UiScreen::Hidden,
                typed: Seq::empty(),
                settings: settings@,
                refresh: false,
                listening: None,
                editing: None,
                account: account@,
                form: FormView {
                    values: Map::empty(),
                    focus: None,
                    submitted: false,
                    revealed: None,
                },
                rows: None,
                comp_only: false,
                effects: Seq::empty(),
            }),
    {
        let r = Menu {
            screen: UiScreen::Hidden,
            typed: String::new(),
            settings,
            refresh: false,
            listening: None,
            editing: None,
            account,
            form: Form::new(),
            rows: None,
            comp_only: false,
            effects: Vec::new(),
        };
        proof {
            assert(r@.effects =~= Seq::<EffectView>::empty());
            assert(r@.typed =~= Seq::<char>::empty());
        }
        r
    }

    /// Takes the effects out, in order.
    pub fn take_effects(&mut self) -> (r: Vec<MenuEffect>)
        requires
            old(self).wf(),
        ensures
            final(self).wf(),
            effects_view(r@) == old(self)@.effects,
            final(self)@ == (MenuView { effects: Seq::empty(), ..old(self)@ }),
    {
        let mut out: Vec<MenuEffect> = Vec::new();
        std::mem::swap(&mut out, &mut self.effects);
        proof {
            assert(self@.effects =~= Seq::<EffectView>::empty());
        }
        out
    }

    pub(crate) fn emit(&mut self, e: MenuEffect)
        requires
            old(self).wf(),
        ensures
            final(self).wf(),
            final(self)@ == old(self)@.emit(e@),
    {
        self.effects.push(e);
        proof {
            assert(self@.effects =~= old(self)@.effects.push(e@));
        }
    }

    fn send(&mut self, r: HttpRequest)
        requires
            old(self).wf(),
        ensures
            final(self).wf(),
            final(self)@ == old(self)@.emit(EffectView::Send(r@)),
    {
        self.emit(MenuEffect::Send(r));
    }

    /// Closes the value box; what was typed is taken where it is a value.
    pub fn commit_edit(&mut self, rules: &FruitRules)
        requires
            old(self).wf(),
            rules.wf(),
        ensures
            final(self).wf(),
            final(self)@ == old(self)@.committed(rules),
    {
        proof {
            reveal(MenuView::committed);
        }
        if let Some((slider, text)) = self.editing.take() {
            if let Some(v) = slider.parse(text.as_str()) {
                slider.set(&mut self.settings, &v, rules);
                proof {
                    assert(slider.stepped(v, rules) == slider.typed(text@, rules));
                }
                self.emit(MenuEffect::SaveSettings);
            }
        }
    }

    /// Leaves the queue.
    pub fn leave_queue(&mut self, cfg: &ClientConfig)
        requires
            old(self).wf(),
        ensures
            final(self).wf(),
            final(self)@ == old(self)@.out_of_queue(cfg.api()),
    {
        proof {
            reveal(MenuView::out_of_queue);
        }
        match self.account.leave_queue(cfg) {
            Some(r) => {
                self.send(r);
            },
            None => {},
        }
    }

    fn resettle(&mut self)
        requires
            old(self).wf(),
        ensures
            final(self).wf(),
            final(self)@ == old(self)@.resettled(old(self)@.settings),
    {
        self.emit(MenuEffect::SaveSettings);
        self.refresh = true;
    }

    fn open_box(&mut self, slider: Slider, rules: &FruitRules)
        requires
            old(self).wf(),
            rules.wf(),
        ensures
            final(self).wf(),
            final(self)@ == old(self)@.boxed(slider, rules),
    {
        proof {
            reveal(MenuView::boxed);
            reveal(MenuView::reset);
        }
        let open = match &self.editing {
            Some((s, _)) => *s == slider,
            None => false,
        };
        if !open {
            self.commit_edit(rules);
            let text = slider.edit_text(&self.settings);
            self.editing = Some((slider, text));
        }
    }

    fn reset_defaults(&mut self, rules: &FruitRules, web: bool)
        requires
            old(self).wf(),
            rules.wf(),
        ensures
            final(self).wf(),
            final(self)@ == old(self)@.reset(rules, web),
    {
        proof {
            reveal(MenuView::reset);
        }
        self.settings = Settings::new(rules, web);
        self.resettle();
        self.listening = None;
        self.editing = None;
    }

    fn set_by(&mut self, action: UiAction, rules: &FruitRules, web: bool)
        requires
            old(self).wf(),
            rules.wf(),
        ensures
            final(self).wf(),
            final(self)@ == old(self)@.set_by(action, rules, web),
    {
        proof {
            reveal(MenuView::set_by);
        }
        match action {
            UiAction::InvertY | UiAction::Fullscreen | UiAction::AdaptiveDelay | UiAction::Launcher
            | UiAction::SeparateSensitivity => {
                flip(&mut self.settings, action);
                self.resettle();
            },
            UiAction::EditValue(slider) => {
                self.open_box(slider, rules);
            },
            UiAction::Bind(a) => {
                self.listening = Some(a);
                self.refresh = true;
            },
            UiAction::ResetDefaults => {
                self.reset_defaults(rules, web);
            },
            _ => {},
        }
    }

    fn opened_by(&mut self, action: UiAction, cfg: &ClientConfig, env: &MenuEnv)
        requires
            old(self).wf(),
        ensures
            final(self).wf(),
            final(self)@ == old(self)@.opened_by(action, cfg.api(), env),
    {
        proof {
            reveal(MenuView::opened_by);
        }
        match action {
            UiAction::OpenSettings => {
                self.screen = UiScreen::Settings { from_game: env.in_game };
            },
            UiAction::Back | UiAction::BackArrow => {
                self.listening = None;
                self.account.error = None;
                self.screen = back_target(self.screen, env.in_game);
            },
            UiAction::Resume => {
                self.screen = UiScreen::Hidden;
            },
            UiAction::OpenLogin => {
                self.account.error = None;
                self.account.notice = None;
                self.form.clear_secrets();
                self.screen = UiScreen::Login;
            },
            UiAction::OpenRegister => {
                self.account.error = None;
                self.screen = UiScreen::Register;
            },
            UiAction::OpenForgot => {
                self.account.error = None;
                self.screen = UiScreen::Forgot;
            },
            UiAction::OpenProfile => {
                self.account.error = None;
                self.account.notice = None;
                self.account.profile = None;
                self.form.clear(Field::HistorySearch);
                let name = self.account.display_name();
                let r = self.account.fetch_profile(cfg, name.as_str());
                self.send(r);
                self.screen = UiScreen::Profile;
            },
            UiAction::Logout => {
                self.account.logout();
                self.emit(MenuEffect::SaveAccount);
                self.account.notice = None;
                self.screen = UiScreen::Main;
            },
            UiAction::OpenChangeUsername => {
                self.account.error = None;
                self.account.notice = None;
                self.form.clear(Field::NewUsername);
                self.screen = UiScreen::ChangeUsername;
            },
            UiAction::OpenChangePassword => {
                self.account.error = None;
                self.account.notice = None;
                self.form.clear_secrets();
                self.screen = UiScreen::ChangePassword;
            },
            UiAction::OpenTab(tab) => {
                self.account.error = None;
                if tab == Tab::Leaderboard {
                    if let Some(per) = self.rows {
                        let page: u32 = match &self.account.leaderboard {
                            Some(lb) => lb.page,
                            None => 1,
                        };
                        self.emit(MenuEffect::FetchLeaderboard { page, per });
                    }
                }
                self.screen = tab.screen();
            },
            UiAction::OpenDownload => {
                self.screen = UiScreen::Download;
            },
            _ => {},
        }
    }

    /// What a button does.
    pub fn perform(
        &mut self,
        action: UiAction,
        cfg: &ClientConfig,
        rules: &FruitRules,
        env: &MenuEnv,
    )
        requires
            old(self).wf(),
            rules.wf(),
        ensures
            final(self).wf(),
            final(self)@ == old(self)@.performed(action, cfg.api(), rules, env),
    {
        proof {
            reveal(MenuView::acted);
            reveal(MenuView::competing);
        }
        if !matches!(action, UiAction::EditValue(_)) {
            self.commit_edit(rules);
        }
        self.form.set_focus(None);
        let ghost api = cfg.api();
        match action {
            UiAction::Practice => {
                self.emit(MenuEffect::Net(NetCommand::Practice));
            },
            UiAction::CreateRoom => {
                self.emit(MenuEffect::Net(NetCommand::CreateRoom));
            },
            UiAction::JoinRoom => {
                if self.typed.as_str().as_bytes().len() == ROOM_CODE_LEN {
                    let code = self.typed.clone();
                    self.emit(MenuEffect::Net(NetCommand::JoinRoom(code)));
                }
            },
            UiAction::QuickPlay => {
                self.quick_play(env.now);
            },
            UiAction::Competitive => {
                if self.account.logged_in() {
                    let r = self.account.join_queue(cfg, env.now);
                    self.send(r);
                    self.screen = UiScreen::Queue;
                }
            },
            UiAction::CancelQueue => {
                self.leave_queue(cfg);
                self.screen = UiScreen::Main;
            },
            UiAction::Leave => {
                self.emit(MenuEffect::Net(NetCommand::Leave));
            },
            UiAction::ErrorOk => {
                self.typed = String::new();
                proof {
                    assert(self@.typed =~= Seq::<char>::empty());
                }
                self.emit(MenuEffect::LeaveRoom);
            },
            UiAction::ResultOk => {
                self.account.dismiss_result();
                self.refresh = true;
            },
            UiAction::Paste => {
                self.emit(MenuEffect::ReadClipboard);
            },
            UiAction::HistoryFilter => {
                self.comp_only = !self.comp_only;
                self.refresh = true;
            },
            UiAction::InvertY | UiAction::Fullscreen | UiAction::AdaptiveDelay | UiAction::Launcher
            | UiAction::SeparateSensitivity | UiAction::EditValue(_) | UiAction::Bind(_)
            | UiAction::ResetDefaults => {
                self.set_by(action, rules, env.web);
            },
            UiAction::Resend => {
                if self.account.can_resend(env.now) {
                    self.resend_code(cfg);
                }
            },
            UiAction::LeaderboardPage(page) => {
                let per: u32 = match self.rows {
                    Some(n) => n,
                    None => 10,
                };
                self.emit(MenuEffect::FetchLeaderboard { page, per });
            },
            UiAction::Download(platform) => {
                self.emit(MenuEffect::OpenUrl(platform.url()));
            },
            UiAction::Update => {
                if env.web {
                    self.emit(MenuEffect::Reload);
                } else {
                    let build = match opt_clone(&env.server_build) {
                        Some(b) => b,
                        None => String::new(),
                    };
                    self.emit(MenuEffect::LaunchUpdater(build));
                }
            },
            UiAction::SubmitLogin | UiAction::SubmitRegister | UiAction::SubmitVerify
            | UiAction::SubmitForgot | UiAction::SubmitReset | UiAction::SubmitUsername
            | UiAction::SubmitPassword => {
                self.submit_form(action, cfg);
            },
            _ => {
                self.opened_by(action, cfg, env);
            },
        }
    }

    fn resend_code(&mut self, cfg: &ClientConfig)
        requires
            old(self).wf(),
        ensures
            final(self).wf(),
            final(self)@ == old(self)@.resent(cfg.api()),
    {
        proof {
            reveal(MenuView::resent);
        }
        match self.screen {
            UiScreen::Verify => {
                let r = self.account.resend(cfg);
                self.send(r);
            },
            UiScreen::Reset => {
                let email = self.account.pending_email.clone();
                let r = self.account.forgot(cfg, email.as_str());
                self.send(r);
            },
            _ => {},
        }
        self.refresh = true;
    }

    /// Validates a form locally, then sends it. Errors show on the status line.
    pub fn submit_form(&mut self, action: UiAction, cfg: &ClientConfig)
        requires
            old(self).wf(),
        ensures
            final(self).wf(),
            final(self)@ == old(self)@.submitted(action, cfg.api()),
    {
        proof {
            reveal(MenuView::submitted);
        }
        if self.account.busy() {
            return ;
        }
        self.refresh = true;
        if let Some(msg) = check_form(&self.form, action) {
            self.account.error = Some(owned(msg));
            return ;
        }
        self.post(action, cfg);
    }

    fn post(&mut self, action: UiAction, cfg: &ClientConfig)
        requires
            old(self).wf(),
        ensures
            final(self).wf(),
            final(self)@ == old(self)@.posted(action, cfg.api()),
    {
        proof {
            reveal(MenuView::posted);
        }
        match action {
            UiAction::SubmitLogin => {
                let user = trim(self.form.get(Field::Login));
                let r = self.account.login(cfg, user.as_str(), self.form.get(Field::Password));
                self.send(r);
            },
            UiAction::SubmitRegister => {
                let email = trim(self.form.get(Field::Email));
                let user = trim(self.form.get(Field::Username));
                let r = self.account.register(
                    cfg,
                    email.as_str(),
                    user.as_str(),
                    self.form.get(Field::Password),
                );
                self.send(r);
            },
            UiAction::SubmitVerify => {
                let code = trim(self.form.get(Field::Code));
                let r = self.account.verify(cfg, code.as_str());
                self.send(r);
            },
            UiAction::SubmitForgot => {
                let email = trim(self.form.get(Field::Email));
                let r = self.account.forgot(cfg, email.as_str());
                self.send(r);
            },
            UiAction::SubmitReset => {
                let code = trim(self.form.get(Field::Code));
                let r = self.account.reset(cfg, code.as_str(), self.form.get(Field::Password));
                self.send(r);
            },
            UiAction::SubmitUsername => {
                let user = trim(self.form.get(Field::NewUsername));
                let r = self.account.change_username(cfg, user.as_str());
                self.send(r);
            },
            UiAction::SubmitPassword => {
                let r = self.account.change_password(
                    cfg,
                    self.form.get(Field::CurrentPassword),
                    self.form.get(Field::Password),
                );
                self.send(r);
            },
            _ => {},
        }
    }

    /// Starts waiting in the quick play queue.
    pub(crate) fn quick_play(&mut self, now: u64)
        requires
            old(self).wf(),
        ensures
            final(self).wf(),
            final(self)@ == old(self)@.quick_playing(now),
    {
        self.account.wait_in(QueueKind::Quick, now);
        self.emit(MenuEffect::JoinQuick);
        self.screen = UiScreen::Queue;
    }

    /// The updater was asked to start: true where the program now quits for it. Where it could not
    /// be started the reason goes on the status line.
    pub fn updater_started(&mut self, result: Result<(), String>) -> (quit: bool)
        requires
            old(self).wf(),
        ensures
            final(self).wf(),
            quit == result is Ok,
            final(self)@ == match result {
                Ok(_) => old(self)@,
                Err(e) => old(self)@.failed(e@).refreshed(),
            },
    {
        match result {
            Ok(_) => true,
            Err(e) => {
                self.account.error = Some(e);
                self.refresh = true;
                false
            },
        }
    }
}

// ---- laws ----

/// Closing a value box touches the settings alone.
proof fn lemma_committed(m: MenuView, rules: &FruitRules)
    ensures
        m.editing is None ==> m.committed(rules) == m,
        ({
            let c = m.committed(rules);
            &&& c.editing is None
            &&& c.form == m.form
            &&& c.screen == m.screen
            &&& c.account == m.account
        }),
{
    reveal(MenuView::committed);
}

/// Whatever button is pressed, no text field keeps the keyboard.
pub proof fn law_buttons_take_the_keyboard(
    m: MenuView,
    action: UiAction,
    api: Seq<char>,
    rules: &FruitRules,
    env: &MenuEnv,
)
    ensures
        m.performed(action, api, rules, env).form.focus is None,
{
    let c = if action is EditValue {
        m
    } else {
        m.committed(rules)
    };
    let n = c.with_form(FormView { focus: None, ..c.form });
    lemma_committed(n, rules);
    assert(n.acted(action, api, rules, env).form.focus is None) by {
        reveal(MenuView::acted);
        assert(n.set_by(action, rules, env.web).form.focus is None) by {
            reveal(MenuView::set_by);
            reveal(MenuView::boxed);
            reveal(MenuView::reset);
        }
        assert(n.opened_by(action, api, env).form.focus is None) by {
            reveal(MenuView::opened_by);
        }
        assert(n.submitted(action, api).form.focus is None) by {
            reveal(MenuView::submitted);
            reveal(MenuView::posted);
        }
        assert(n.competing(api, env.now).form.focus is None) by {
            reveal(MenuView::competing);
        }
        assert(n.out_of_queue(api).form.focus is None) by {
            reveal(MenuView::out_of_queue);
        }
        assert(n.resent(api).form.focus is None) by {
            reveal(MenuView::resent);
        }
    }
}

/// A switch pressed twice is back where it was: the settings are the ones from before, a value
/// being typed aside.
pub proof fn law_switches_switch_back(
    m: MenuView,
    action: UiAction,
    api: Seq<char>,
    rules: &FruitRules,
    env: &MenuEnv,
)
    requires
        action == UiAction::InvertY || action == UiAction::Fullscreen || action
            == UiAction::AdaptiveDelay || action == UiAction::Launcher,
        m.editing is None,
    ensures
        m.performed(action, api, rules, env).performed(action, api, rules, env).settings == m.settings,
{
    reveal(MenuView::acted);
    reveal(MenuView::set_by);
    lemma_committed(m, rules);
    let once = m.performed(action, api, rules, env);
    lemma_committed(once, rules);
    let twice = once.performed(action, api, rules, env);
    assert(twice.settings =~= m.settings);
}

/// While the server still works on a form, pressing its button again sends nothing.
pub proof fn law_no_form_is_sent_twice(
    m: MenuView,
    action: UiAction,
    api: Seq<char>,
    rules: &FruitRules,
    env: &MenuEnv,
)
    requires
        m.editing is None,
        m.screen.main_button() == Some(action),
        m.account.waiting(),
    ensures
        m.performed(action, api, rules, env).effects == m.effects,
        m.performed(action, api, rules, env).account == m.account,
{
    reveal(MenuView::acted);
    reveal(MenuView::submitted);
    lemma_committed(m, rules);
}

/// What is wrong with a form is told before anything is sent: a faulty form sends no request, and
/// its first fault is on the status line.
pub proof fn law_faulty_forms_stay_here(
    m: MenuView,
    action: UiAction,
    api: Seq<char>,
    rules: &FruitRules,
    env: &MenuEnv,
)
    requires
        m.editing is None,
        m.screen.main_button() == Some(action),
        !m.account.waiting(),
        form_fault(m.form, action) is Some,
    ensures
        m.performed(action, api, rules, env).effects == m.effects,
        m.performed(action, api, rules, env).account.error == form_fault(m.form, action),
        m.performed(action, api, rules, env).account.requests == m.account.requests,
{
    reveal(MenuView::acted);
    reveal(MenuView::submitted);
    lemma_committed(m, rules);
    let n = m.with_form(FormView { focus: None, ..m.form });
    assert(form_fault(n.form, action) == form_fault(m.form, action));
}

/// A form without fault goes to the server, as exactly one request.
pub proof fn law_sound_forms_are_sent(
    m: MenuView,
    action: UiAction,
    api: Seq<char>,
    rules: &FruitRules,
    env: &MenuEnv,
)
    requires
        m.editing is None,
        m.screen.main_button() == Some(action),
        !m.account.waiting(),
        form_fault(m.form, action) is None,
    ensures
        ({
            let after = m.performed(action, api, rules, env);
            &&& after.effects.len() == m.effects.len() + 1
            &&& after.effects.drop_last() == m.effects
            &&& after.effects.last() is Send
            &&& after.account.requests.len() == m.account.requests.len() + 1
            &&& after.account.waiting()
        }),
{
    reveal(MenuView::acted);
    reveal(MenuView::submitted);
    lemma_committed(m, rules);
    let n = m.with_form(FormView { focus: None, ..m.form });
    assert(form_fault(n.form, action) == form_fault(m.form, action));
    reveal(MenuView::posted);
    let after = m.performed(action, api, rules, env);
    assert(after.effects.drop_last() =~= m.effects);
    let last = after.account.requests.len() - 1;
    assert(after.account.requests[last].waited_on());
}

/// Competitive play is for accounts: pressed while logged out, it joins nothing.
pub proof fn law_competitive_needs_an_account(
    m: MenuView,
    api: Seq<char>,
    rules: &FruitRules,
    env: &MenuEnv,
)
    requires
        m.editing is None,
        m.account.user is None,
    ensures
        m.performed(UiAction::Competitive, api, rules, env).effects == m.effects,
        m.performed(UiAction::Competitive, api, rules, env).screen == m.screen,
        m.performed(UiAction::Competitive, api, rules, env).account == m.account,
{
    reveal(MenuView::acted);
    lemma_committed(m, rules);
}

/// Each switch turns its own setting over and touches no other.
pub proof fn law_what_each_switch_turns_over(s: SettingsView)
    ensures
        flipped(s, UiAction::InvertY) == (SettingsView { invert_y: !s.invert_y, ..s }),
        flipped(s, UiAction::Fullscreen) == (SettingsView { fullscreen: !s.fullscreen, ..s }),
        flipped(s, UiAction::AdaptiveDelay) == (SettingsView {
            adaptive_delay: !s.adaptive_delay,
            ..s
        }),
        flipped(s, UiAction::Launcher).weapon != s.weapon,
        flipped(s, UiAction::Launcher) == (SettingsView {
            weapon: flipped(s, UiAction::Launcher).weapon,
            ..s
        }),
        flipped(s, UiAction::SeparateSensitivity).separate_sensitivity != s.separate_sensitivity,
        flipped(s, UiAction::SeparateSensitivity).sensitivity_x == s.sensitivity_x,
        !s.separate_sensitivity ==> flipped(s, UiAction::SeparateSensitivity).sensitivity_y
            == s.sensitivity_y,
        s.separate_sensitivity ==> flipped(s, UiAction::SeparateSensitivity).sensitivity_y
            == s.sensitivity_x,
{
}

/// A value box that is read sets its own slider to what was typed, and is saved; one that cannot be
/// read sets and saves nothing. It is closed either way.
pub proof fn law_how_a_value_box_is_read(m: MenuView, rules: &FruitRules)
    ensures
        ({
            let t = m.committed(rules);
            &&& t.editing is None
            &&& m.editing is None ==> t == m
            &&& m.editing matches Some((slider, text)) ==> {
                &&& slider.accepts(text) ==> t.effects == m.effects.push(EffectView::SaveSettings)
                &&& slider.accepts(text) && slider.typed(text, rules) is Some ==> t.settings
                    == m.settings.with_value(slider, slider.typed(text, rules)->0)
                &&& !slider.accepts(text) ==> t.settings == m.settings && t.effects == m.effects
            }
            &&& t.screen == m.screen && t.account == m.account && t.form == m.form && t.typed
                == m.typed
        }),
{
    reveal(MenuView::committed);
}

/// Where each button leads.
pub proof fn law_where_each_button_leads(
    m: MenuView,
    action: UiAction,
    api: Seq<char>,
    rules: &FruitRules,
    env: &MenuEnv,
)
    requires
        m.editing is None,
    ensures
        ({
            let to = m.performed(action, api, rules, env).screen;
            match action {
                UiAction::OpenSettings => to == (UiScreen::Settings { from_game: env.in_game }),
                UiAction::Back | UiAction::BackArrow => to == back_of(m.screen, env.in_game),
                UiAction::Resume => to == UiScreen::Hidden,
                UiAction::OpenLogin => to == UiScreen::Login,
                UiAction::OpenRegister => to == UiScreen::Register,
                UiAction::OpenForgot => to == UiScreen::Forgot,
                UiAction::OpenProfile => to == UiScreen::Profile,
                UiAction::OpenChangeUsername => to == UiScreen::ChangeUsername,
                UiAction::OpenChangePassword => to == UiScreen::ChangePassword,
                UiAction::OpenTab(Tab::Menu) => to == UiScreen::Main,
                UiAction::OpenTab(Tab::Leaderboard) => to == UiScreen::Leaderboard,
                UiAction::OpenDownload => to == UiScreen::Download,
                UiAction::QuickPlay => to == UiScreen::Queue,
                UiAction::Competitive => to == if m.account.user is Some {
                    UiScreen::Queue
                } else {
                    m.screen
                },
                UiAction::CancelQueue | UiAction::Logout => to == UiScreen::Main,
                // What remains stays where it is: forms wait for their answer, the switches and
                // boxes are on the screen, and matches begin and end elsewhere.
                _ => to == m.screen,
            }
        }),
{
    reveal(MenuView::committed);
    reveal(MenuView::acted);
    match action {
        UiAction::InvertY | UiAction::Fullscreen | UiAction::AdaptiveDelay | UiAction::Launcher
        | UiAction::SeparateSensitivity | UiAction::EditValue(_) | UiAction::Bind(_)
        | UiAction::ResetDefaults => {
            reveal(MenuView::set_by);
            reveal(MenuView::boxed);
            reveal(MenuView::reset);
        },
        UiAction::SubmitLogin | UiAction::SubmitRegister | UiAction::SubmitVerify
        | UiAction::SubmitForgot | UiAction::SubmitReset | UiAction::SubmitUsername
        | UiAction::SubmitPassword => {
            reveal(MenuView::submitted);
            reveal(MenuView::posted);
        },
        UiAction::Competitive => {
            reveal(MenuView::competing);
        },
        UiAction::CancelQueue => {
            reveal(MenuView::out_of_queue);
        },
        UiAction::Resend => {
            reveal(MenuView::resent);
        },
        _ => {
            reveal(MenuView::opened_by);
        },
    }
}

/// What each button of the title and of a match sets off.
pub proof fn law_what_each_button_sets_off(
    m: MenuView,
    action: UiAction,
    api: Seq<char>,
    rules: &FruitRules,
    env: &MenuEnv,
)
    requires
        m.editing is None,
    ensures
        ({
            let after = m.performed(action, api, rules, env);
            match action {
                UiAction::Practice => after.effects == m.effects.push(
                    EffectView::Net(CommandView::Practice),
                ),
                UiAction::CreateRoom => after.effects == m.effects.push(
                    EffectView::Net(CommandView::CreateRoom),
                ),
                UiAction::JoinRoom => after.effects == if encode_utf8(m.typed).len() == 6 {
                    m.effects.push(EffectView::Net(CommandView::JoinRoom(m.typed)))
                } else {
                    m.effects
                },
                UiAction::Leave => after.effects == m.effects.push(
                    EffectView::Net(CommandView::Leave),
                ),
                UiAction::ErrorOk => after.effects == m.effects.push(EffectView::LeaveRoom)
                    && after.typed.len() == 0,
                UiAction::Paste => after.effects == m.effects.push(EffectView::ReadClipboard),
                UiAction::Download(platform) => after.effects == m.effects.push(
                    EffectView::OpenUrl(platform.address()),
                ),
                UiAction::Update => after.effects == m.effects.push(
                    if env.web {
                        EffectView::Reload
                    } else {
                        EffectView::LaunchUpdater(
                            if env.server_build is Some {
                                env.server_build->0@
                            } else {
                                Seq::empty()
                            },
                        )
                    },
                ),
                UiAction::LeaderboardPage(page) => after.effects == m.effects.push(
                    EffectView::FetchLeaderboard {
                        page,
                        per: if m.rows is Some {
                            m.rows->0
                        } else {
                            10
                        },
                    },
                ),
                UiAction::QuickPlay => after.effects == m.effects.push(EffectView::JoinQuick),
                UiAction::ResultOk | UiAction::HistoryFilter => after.effects == m.effects,
                _ => true,
            }
        }),
{
    reveal(MenuView::committed);
    reveal(MenuView::acted);
}

/// What each button does to the account: logging out ends the login and forgets the saved one,
/// dismissing the popup takes the result, leaving a queue leaves it (and tells the server where it
/// gave out a ticket), joining one waits in it from now on.
pub proof fn law_what_buttons_do_to_the_account(
    m: MenuView,
    action: UiAction,
    api: Seq<char>,
    rules: &FruitRules,
    env: &MenuEnv,
)
    requires
        m.editing is None,
    ensures
        ({
            let after = m.performed(action, api, rules, env);
            match action {
                UiAction::Logout => {
                    &&& after.account.token is None
                    &&& after.account.user is None
                    &&& after.account.profile is None
                    &&& after.account.anon_name == m.account.anon_name
                    &&& after.effects == m.effects.push(EffectView::SaveAccount)
                },
                UiAction::ResultOk => after.account == (AccountView { result: None, ..m.account }),
                UiAction::HistoryFilter => after.comp_only == !m.comp_only,
                UiAction::CancelQueue => {
                    let ticket = m.account.queue matches Some(q) && q.ticket is Some;
                    &&& after.account.queue is None
                    &&& !ticket ==> after.effects == m.effects
                    &&& ticket ==> after.effects.len() == m.effects.len() + 1
                        && after.effects.last() is Send && (after.effects.last()->Send_0).kind
                        == Req::QueueLeave
                },
                UiAction::QuickPlay => after.account.queue matches Some(q) && q.kind
                    == QueueKind::Quick && q.since == env.now && q.ticket is None,
                UiAction::Competitive => m.account.user is Some ==> {
                    &&& after.account.queue matches Some(q) && q.kind == QueueKind::Competitive
                        && q.since == env.now && q.ticket is None
                    &&& after.effects.len() == m.effects.len() + 1 && after.effects.last() is Send
                        && (after.effects.last()->Send_0).kind == Req::QueueJoin
                },
                _ => true,
            }
        }),
{
    reveal(MenuView::committed);
    reveal(MenuView::acted);
    match action {
        UiAction::Competitive => {
            reveal(MenuView::competing);
        },
        UiAction::CancelQueue => {
            reveal(MenuView::out_of_queue);
        },
        UiAction::Logout => {
            reveal(MenuView::opened_by);
        },
        _ => {},
    }
}

/// Another code is asked for only once the wait is over and nothing is under way: for the
/// registration on its screen, for the new password on its own.
pub proof fn law_when_another_code_is_asked_for(
    m: MenuView,
    api: Seq<char>,
    rules: &FruitRules,
    env: &MenuEnv,
)
    requires
        m.editing is None,
    ensures
        ({
            let t = m.performed(UiAction::Resend, api, rules, env);
            let may = env.now >= m.account.resend_at && !m.account.waiting();
            &&& !may ==> t.effects == m.effects && t.account == m.account
            &&& may && m.screen == UiScreen::Verify ==> t.effects.len() == m.effects.len() + 1
                && t.effects.last() is Send && (t.effects.last()->Send_0).kind == Req::Resend
            &&& may && m.screen == UiScreen::Reset ==> t.effects.len() == m.effects.len() + 1
                && t.effects.last() is Send && (t.effects.last()->Send_0).kind == Req::Forgot
            &&& m.screen != UiScreen::Verify && m.screen != UiScreen::Reset ==> t.effects
                == m.effects
            &&& t.screen == m.screen
        }),
{
    reveal(MenuView::committed);
    reveal(MenuView::acted);
    reveal(MenuView::resent);
}

/// When a form cannot be sent: a password of fewer than eight characters or typed differently
/// twice, a code that is not six long, an address without an at sign, a name of fewer than three
/// characters, a login with a part missing.
pub proof fn law_when_a_form_is_faulty(form: FormView)
    ensures
        ({
            let pass = form.value(Field::Password);
            let weak = pass.len() < 8 || pass != form.value(Field::Password2);
            let no_mail = !trimmed(form.value(Field::Email)).contains('@');
            let no_code = encode_utf8(trimmed(form.value(Field::Code))).len() != 6;
            &&& form_fault(form, UiAction::SubmitLogin) is Some <==> trimmed(
                form.value(Field::Login),
            ).len() == 0 || pass.len() == 0
            &&& form_fault(form, UiAction::SubmitRegister) is Some <==> no_mail || trimmed(
                form.value(Field::Username),
            ).len() < 3 || weak
            &&& form_fault(form, UiAction::SubmitVerify) is Some <==> no_code
            &&& form_fault(form, UiAction::SubmitForgot) is Some <==> no_mail
            &&& form_fault(form, UiAction::SubmitReset) is Some <==> no_code || weak
            &&& form_fault(form, UiAction::SubmitUsername) is Some <==> trimmed(
                form.value(Field::NewUsername),
            ).len() < 3
            &&& form_fault(form, UiAction::SubmitPassword) is Some <==> form.value(
                Field::CurrentPassword,
            ).len() == 0 || weak
            &&& pass.len() >= 8 && pass != form.value(Field::Password2) ==> password_fault(form)
                == Some("the passwords do not match"@)
            &&& pass.len() < 8 ==> password_fault(form) == Some(
                "the password needs at least 8 characters"@,
            )
        }),
{
}

/// What each form sends, where, and with what of what was typed.
pub proof fn law_what_each_form_sends(m: MenuView, api: Seq<char>)
    ensures
        ({
            let t = m.posted(UiAction::SubmitLogin, api);
            t.effects == m.effects.push(
                EffectView::Send(
                    request(
                        api,
                        m.account.token,
                        Req::Login,
                        "/login"@,
                        Some(
                            object2(
                                "password"@,
                                m.form.value(Field::Password),
                                "username"@,
                                trimmed(m.form.value(Field::Login)),
                            ),
                        ),
                    ),
                ),
            )
        }),
        ({
            let t = m.posted(UiAction::SubmitRegister, api);
            &&& t.account.pending_email == trimmed(m.form.value(Field::Email))
            &&& t.effects == m.effects.push(
                EffectView::Send(
                    request(
                        api,
                        m.account.token,
                        Req::Register,
                        "/register"@,
                        Some(
                            object3(
                                "email"@,
                                trimmed(m.form.value(Field::Email)),
                                "password"@,
                                m.form.value(Field::Password),
                                "username"@,
                                trimmed(m.form.value(Field::Username)),
                            ),
                        ),
                    ),
                ),
            )
        }),
        ({
            let t = m.posted(UiAction::SubmitVerify, api);
            t.effects == m.effects.push(
                EffectView::Send(
                    request(
                        api,
                        m.account.token,
                        Req::Verify,
                        "/verify"@,
                        Some(
                            object2(
                                "code"@,
                                trimmed(m.form.value(Field::Code)),
                                "email"@,
                                m.account.pending_email,
                            ),
                        ),
                    ),
                ),
            )
        }),
        ({
            let t = m.posted(UiAction::SubmitForgot, api);
            &&& t.account.pending_email == trimmed(m.form.value(Field::Email))
            &&& t.effects == m.effects.push(
                EffectView::Send(
                    request(
                        api,
                        m.account.token,
                        Req::Forgot,
                        "/forgot"@,
                        Some(object1("email"@, trimmed(m.form.value(Field::Email)))),
                    ),
                ),
            )
        }),
        ({
            let t = m.posted(UiAction::SubmitReset, api);
            t.effects == m.effects.push(
                EffectView::Send(
                    request(
                        api,
                        m.account.token,
                        Req::Reset,
                        "/reset"@,
                        Some(
                            object3(
                                "code"@,
                                trimmed(m.form.value(Field::Code)),
                                "email"@,
                                m.account.pending_email,
                                "password"@,
                                m.form.value(Field::Password),
                            ),
                        ),
                    ),
                ),
            )
        }),
        ({
            let t = m.posted(UiAction::SubmitUsername, api);
            t.effects == m.effects.push(
                EffectView::Send(
                    request(
                        api,
                        m.account.token,
                        Req::ChangeUsername,
                        "/account/username"@,
                        Some(
                            object1("username"@, trimmed(m.form.value(Field::NewUsername))),
                        ),
                    ),
                ),
            )
        }),
        ({
            let t = m.posted(UiAction::SubmitPassword, api);
            t.effects == m.effects.push(
                EffectView::Send(
                    request(
                        api,
                        m.account.token,
                        Req::ChangePassword,
                        "/account/password"@,
                        Some(
                            object2(
                                "current"@,
                                m.form.value(Field::CurrentPassword),
                                "password"@,
                                m.form.value(Field::Password),
                            ),
                        ),
                    ),
                ),
            )
        }),
{
    reveal(MenuView::posted);
}

/// The settings' buttons: a binding is listened for, a value box opens with the value as it is, the
/// defaults are those of a fresh start, and each switch turns its setting over. What changes a
/// setting is saved, and what does not is not.
pub proof fn law_what_the_settings_buttons_do(
    m: MenuView,
    action: UiAction,
    api: Seq<char>,
    rules: &FruitRules,
    env: &MenuEnv,
)
    requires
        m.editing is None,
    ensures
        ({
            let after = m.performed(action, api, rules, env);
            match action {
                UiAction::Bind(a) => after.listening == Some(a) && after.settings == m.settings
                    && after.effects == m.effects,
                UiAction::EditValue(slider) => after.editing == Some(
                    (slider, slider.edited(m.settings)),
                ) && after.settings == m.settings && after.effects == m.effects,
                UiAction::ResetDefaults => after.settings == SettingsView::initial(rules, env.web)
                    && after.effects == m.effects.push(EffectView::SaveSettings),
                UiAction::InvertY => after.settings == (SettingsView {
                    invert_y: !m.settings.invert_y,
                    ..m.settings
                }) && after.effects == m.effects.push(EffectView::SaveSettings),
                UiAction::AdaptiveDelay => after.settings == (SettingsView {
                    adaptive_delay: !m.settings.adaptive_delay,
                    ..m.settings
                }) && after.effects == m.effects.push(EffectView::SaveSettings),
                UiAction::Fullscreen => after.settings == (SettingsView {
                    fullscreen: !m.settings.fullscreen,
                    ..m.settings
                }) && after.effects == m.effects.push(EffectView::SaveSettings),
                _ => true,
            }
        }),
{
    reveal(MenuView::committed);
    reveal(MenuView::acted);
    reveal(MenuView::set_by);
    match action {
        UiAction::EditValue(_) => {
            reveal(MenuView::boxed);
        },
        UiAction::ResetDefaults => {
            reveal(MenuView::reset);
        },
        _ => {},
    }
}

} // verus!
