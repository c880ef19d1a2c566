//! What each screen shows: its texts, fields and buttons from top to bottom, and which buttons are
//! greyed out.

use vstd::prelude::*;
use vstd::string::*;

use super::history::{history_rows, listed_rows, percentage, rows_view, show_percentage, HistoryRow,
    HistoryRowView};
use super::{Platform, Tab, UiAction, UiScreen};
use crate::account::{Account, AccountView, Activity, Ending, Leaderboard, LeaderboardEntry,
    QueueKind, QueueView, RankedResult, Rating, Stats, UserInfo};
use crate::clock::{elapsed, since, SECOND};
use crate::config::ROOM_CODE_LEN;
use crate::net::{MatchKind, RoomFailure, SignalState, SignalingStatus, StatusView,
    LOBBY_TIMEOUT_MINUTES};
use crate::settings::{Action, Axis, Binding, BindingView, BindingsView, Settings, SettingsView,
    Slider, Weapon};
use crate::single::{nearest, round_div, single, to_single};
use crate::text::{cat, cat3, decimal, eq, opt, or_empty, owned, show, show_padded, show_signed,
    show_with_sign, signed_decimal, trim, trimmed, with_sign, zero_padded};
use crate::textfield::{Field, Form};
use crate::theme::{code_display, spaced, Tint};

verus! {

/// Whether a button can be pressed.
#[derive(Debug, PartialEq)]
pub enum Press {
    Enabled,
    Greyed,
    /// Greyed out, with a tooltip that says why.
    GreyedBecause(String),
}

#[verifier::ext_equal]
pub enum PressView {
    Enabled,
    Greyed,
    GreyedBecause(Seq<char>),
}

impl View for Press {
    type V = PressView;

    open spec fn view(&self) -> PressView {
        match self {
            Press::Enabled => PressView::Enabled,
            Press::Greyed => PressView::Greyed,
            Press::GreyedBecause(s) => PressView::GreyedBecause(s@),
        }
    }
}

/// A part of a screen.
#[derive(Debug, PartialEq)]
pub enum Item {
    /// The screen's title.
    Title { text: String, tint: Tint },
    /// A heading in the display font.
    Heading { text: String, tint: Tint },
    Label { text: String, tint: Tint },
    Button { label: String, action: UiAction, press: Press },
    /// A queue button, with how many players it has.
    Queue { label: String, action: UiAction, press: Press, count: String },
    Field { field: Field, caption: String },
    /// A row with a slider and its value box.
    Slide { label: String, slider: Slider },
    /// A row with a YES / NO switch.
    Toggle { label: String, on: bool, action: UiAction },
    /// A two-way switch; `first` lights the left half.
    Switch { left: String, right: String, first: bool, action: UiAction },
    /// The row with the two launchers.
    Launchers { label: String, stock: bool },
    /// A row of the key bindings.
    Key { bind: Action, value: String, listening: bool },
    /// The box with the room code.
    Code(String),
    /// The box with an invite link.
    Link(String),
    /// The row with the two players' names.
    Versus { me: String, them: String },
    BackArrow,
    SoldierIcon,
}

#[verifier::ext_equal]
pub enum ItemView {
    Title { text: Seq<char>, tint: Tint },
    Heading { text: Seq<char>, tint: Tint },
    Label { text: Seq<char>, tint: Tint },
    Button { label: Seq<char>, action: UiAction, press: PressView },
    Queue { label: Seq<char>, action: UiAction, press: PressView, count: Seq<char> },
    Field { field: Field, caption: Seq<char> },
    Slide { label: Seq<char>, slider: Slider },
    Toggle { label: Seq<char>, on: bool, action: UiAction },
    Switch { left: Seq<char>, right: Seq<char>, first: bool, action: UiAction },
    Launchers { label: Seq<char>, stock: bool },
    Key { bind: Action, value: Seq<char>, listening: bool },
    Code(Seq<char>),
    Link(Seq<char>),
    Versus { me: Seq<char>, them: Seq<char> },
    BackArrow,
    SoldierIcon,
}

impl View for Item {
    type V = ItemView;

    open spec fn view(&self) -> ItemView {
        match *self {
            Item::Title { text, tint } => ItemView::Title { text: text@, tint },
            Item::Heading { text, tint } => ItemView::Heading { text: text@, tint },
            Item::Label { text, tint } => ItemView::Label { text: text@, tint },
            Item::Button { label, action, press } => ItemView::Button {
                label: label@,
                action,
                press: press@,
            },
            Item::Queue { label, action, press, count } => ItemView::Queue {
                label: label@,
                action,
                press: press@,
                count: count@,
            },
            Item::Field { field, caption } => ItemView::Field { field, caption: caption@ },
            Item::Slide { label, slider } => ItemView::Slide { label: label@, slider },
            Item::Toggle { label, on, action } => ItemView::Toggle { label: label@, on, action },
            Item::Switch { left, right, first, action } => ItemView::Switch {
                left: left@,
                right: right@,
                first,
                action,
            },
            Item::Launchers { label, stock } => ItemView::Launchers { label: label@, stock },
            Item::Key { bind, value, listening } => ItemView::Key {
                bind,
                value: value@,
                listening,
            },
            Item::Code(s) => ItemView::Code(s@),
            Item::Link(s) => ItemView::Link(s@),
            Item::Versus { me, them } => ItemView::Versus { me: me@, them: them@ },
            Item::BackArrow => ItemView::BackArrow,
            Item::SoldierIcon => ItemView::SoldierIcon,
        }
    }
}

/// The views of a list of parts.
pub open spec fn items(v: Seq<Item>) -> Seq<ItemView> {
    v.map_values(|i: Item| i@)
}

pub open spec fn label_item(text: Seq<char>, tint: Tint) -> ItemView {
    ItemView::Label { text, tint }
}

pub open spec fn heading_item(text: Seq<char>, tint: Tint) -> ItemView {
    ItemView::Heading { text, tint }
}

pub open spec fn title_item(text: Seq<char>, tint: Tint) -> ItemView {
    ItemView::Title { text, tint }
}

pub open spec fn button_item(label: Seq<char>, action: UiAction) -> ItemView {
    ItemView::Button { label, action, press: PressView::Enabled }
}

pub open spec fn field_item(field: Field, caption: Seq<char>) -> ItemView {
    ItemView::Field { field, caption }
}

fn label(text: &str, tint: Tint) -> (r: Item)
    ensures
        r@ == label_item(text@, tint),
{
    Item::Label { text: owned(text), tint }
}

fn heading(text: &str, tint: Tint) -> (r: Item)
    ensures
        r@ == heading_item(text@, tint),
{
    Item::Heading { text: owned(text), tint }
}

fn title(text: &str, tint: Tint) -> (r: Item)
    ensures
        r@ == title_item(text@, tint),
{
    Item::Title { text: owned(text), tint }
}

fn button(text: &str, action: UiAction) -> (r: Item)
    ensures
        r@ == button_item(text@, action),
{
    Item::Button { label: owned(text), action, press: Press::Enabled }
}

fn field(f: Field, caption: &str) -> (r: Item)
    ensures
        r@ == field_item(f, caption@),
{
    Item::Field { field: f, caption: owned(caption) }
}

fn put(v: &mut Vec<Item>, item: Item)
    ensures
        items(final(v)@) == items(old(v)@).push(item@),
{
    v.push(item);
    proof {
        assert(items(v@) =~= items(old(v)@).push(item@));
    }
}

fn put_all(v: &mut Vec<Item>, mut more: Vec<Item>)
    ensures
        items(final(v)@) == items(old(v)@) + items(more@),
{
    let ghost tail = more@;
    v.append(&mut more);
    proof {
        assert(items(v@) =~= items(old(v)@) + items(tail));
    }
}

/// A button that is greyed out where there is a reason against it.
pub open spec fn online_item(
    label: Seq<char>,
    action: UiAction,
    reason: Option<Seq<char>>,
) -> ItemView {
    ItemView::Button { label, action, press: press_of(reason) }
}

pub open spec fn press_of(reason: Option<Seq<char>>) -> PressView {
    match reason {
        Some(why) => PressView::GreyedBecause(why),
        None => PressView::Enabled,
    }
}

fn press(reason: &Option<String>) -> (r: Press)
    ensures
        r@ == press_of(opt(*reason)),
{
    match reason {
        Some(why) => Press::GreyedBecause(why.clone()),
        None => Press::Enabled,
    }
}

fn online_button(text: &str, action: UiAction, reason: &Option<String>) -> (r: Item)
    ensures
        r@ == online_item(text@, action, opt(*reason)),
{
    Item::Button { label: owned(text), action, press: press(reason) }
}

// ---- counts ----

/// Players of a queue, in games and waiting.
pub open spec fn activity_total(a: Activity) -> nat {
    a.playing as nat + a.waiting as nat
}

/// "(N players)" inside a queue button: everyone in a game of that kind or waiting for one.
/// Nothing while the count is unknown.
pub open spec fn count_text(stats: Option<Stats>, kind: QueueKind) -> Seq<char> {
    match stats {
        None => Seq::empty(),
        Some(s) => "("@ + decimal(
            match kind {
                QueueKind::Competitive => activity_total(s.competitive),
                QueueKind::Quick => activity_total(s.quick),
            },
        ) + " players)"@,
    }
}

pub fn count_label(stats: Option<Stats>, kind: QueueKind) -> (r: String)
    ensures
        r@ == count_text(stats, kind),
{
    match stats {
        None => {
            let r = String::new();
            proof {
                assert(r@ =~= Seq::<char>::empty());
            }
            r
        },
        Some(s) => {
            let n: u64 = match kind {
                QueueKind::Competitive => s.competitive.playing as u64 + s.competitive.waiting as u64,
                QueueKind::Quick => s.quick.playing as u64 + s.quick.waiting as u64,
            };
            let n = show(n);
            cat3("(", n.as_str(), " players)")
        },
    }
}

/// "N players online" under the logo: every connected client, whatever it is doing. Nothing while
/// the count is unknown.
pub open spec fn online_text(stats: Option<Stats>) -> Seq<char> {
    match stats {
        None => Seq::empty(),
        Some(s) => if s.online == 1 {
            "1 player online"@
        } else {
            decimal(s.online as nat) + " players online"@
        },
    }
}

pub fn online_label(stats: Option<Stats>) -> (r: String)
    ensures
        r@ == online_text(stats),
{
    match stats {
        None => {
            let r = String::new();
            proof {
                assert(r@ =~= Seq::<char>::empty());
            }
            r
        },
        Some(s) => if s.online == 1 {
            owned("1 player online")
        } else {
            let n = show(s.online);
            cat(n.as_str(), " players online")
        },
    }
}

/// "N playing, M in queue" (us included), or nothing until the server has said.
pub open spec fn queue_size_text(queue: Option<QueueView>) -> Seq<char> {
    match queue {
        Some(q) => if q.waiting > 0 {
            decimal(q.playing as nat) + " playing, "@ + decimal(q.waiting as nat) + " in queue"@
        } else {
            Seq::empty()
        },
        None => Seq::empty(),
    }
}

pub fn queue_size_label(account: &Account) -> (r: String)
    ensures
        r@ == queue_size_text(account@.queue),
{
    if let Some(q) = &account.queue {
        if q.waiting > 0 {
            let playing = show(q.playing);
            let waiting = show(q.waiting);
            let mut s = cat3(playing.as_str(), " playing, ", waiting.as_str());
            s.append(" in queue");
            return s;
        }
    }
    let r = String::new();
    proof {
        assert(r@ =~= Seq::<char>::empty());
    }
    r
}

/// The queue screen's status line: how long the search has run and how many are ahead.
pub open spec fn queue_status_text(queue: Option<QueueView>, now: u64) -> Seq<char> {
    match queue {
        Some(q) => {
            let secs = elapsed(q.since, now) / SECOND as int;
            let ahead = if q.position > 1 {
                " ("@ + decimal((q.position - 1) as nat) + " ahead)"@
            } else {
                Seq::empty()
            };
            "SEARCHING FOR A GAME... "@ + decimal((secs / 60) as nat) + ":"@ + zero_padded(
                decimal((secs % 60) as nat),
                2,
            ) + ahead
        },
        None => "SEARCHING FOR A GAME..."@,
    }
}

/// The queue screen's status line.
pub fn queue_status(account: &Account, now: u64) -> (r: String)
    ensures
        r@ == queue_status_text(account@.queue, now),
{
    match &account.queue {
        Some(q) => {
            let secs: u64 = since(q.since, now) / SECOND;
            let minutes = show(secs / 60);
            let rest = show_padded(secs % 60, 2);
            let mut s = cat("SEARCHING FOR A GAME... ", minutes.as_str());
            s.append(":");
            s.append(rest.as_str());
            if q.position > 1 {
                let n = show(q.position - 1);
                let ahead = cat3(" (", n.as_str(), " ahead)");
                s.append(ahead.as_str());
            } else {
                proof {
                    assert(s@ + Seq::<char>::empty() =~= s@);
                }
            }
            s
        },
        None => owned("SEARCHING FOR A GAME..."),
    }
}

// ---- the title screen ----

/// The build and protocol identity in the corner, so two people can tell at a glance whether they
/// match.
pub fn build_label(build: &str, protocol: &str) -> (r: String)
    ensures
        r@ == "build "@ + build@ + " ("@ + protocol@ + ")"@,
{
    let mut s = cat3("build ", build, " (");
    s.append(protocol);
    s.append(")");
    s
}

/// Top-right corner of the title screen: who you are. Logged in: the account name (click for the
/// profile) and the rating. Logged out: the log in button and the anonymous name box.
pub open spec fn identity_items(user: Option<UserInfo>) -> Seq<ItemView> {
    match user {
        Some(u) => seq![
            ItemView::SoldierIcon,
            button_item(u.username@, UiAction::OpenProfile),
            label_item(signed_decimal(u.elo as int) + " ELO"@, Tint::OffWhite),
        ],
        None => seq![
            button_item("[ log in ]"@, UiAction::OpenLogin),
            field_item(Field::AnonName, "name"@),
            label_item("playing as"@, Tint::OffWhite),
        ],
    }
}

pub fn identity(account: &Account) -> (r: Vec<Item>)
    ensures
        items(r@) == identity_items(account@.user),
{
    let v = match &account.user {
        Some(u) => {
            let elo = show_signed(u.elo as i64);
            let elo = cat(elo.as_str(), " ELO");
            vec![
                Item::SoldierIcon,
                button(u.username.as_str(), UiAction::OpenProfile),
                label(elo.as_str(), Tint::OffWhite),
            ]
        },
        None => vec![
            button("[ log in ]", UiAction::OpenLogin),
            field(Field::AnonName, "name"),
            label("playing as", Tint::OffWhite),
        ],
    };
    proof {
        assert(items(v@) =~= identity_items(account@.user));
    }
    v
}

/// What every tab of the title screen has around its panel.
pub struct TitleScreen {
    pub logo: Item,
    pub build: String,
    /// The download button, which only the web build has.
    pub download: Option<Item>,
    pub identity: Vec<Item>,
    /// The line under the logo.
    pub online: String,
    /// The line above the panel.
    pub error: String,
}

/// The title screen, the same on each of its tabs: the corner furniture (build identity, identity
/// corner, the download button on the web), the logo with the online count under it and the error
/// line.
pub fn title_screen(account: &Account, build: &str, protocol: &str, web: bool) -> (r: TitleScreen)
    ensures
        r.logo@ == title_item("endif.tf"@, Tint::Orange),
        r.build@ == "build "@ + build@ + " ("@ + protocol@ + ")"@,
        match r.download {
            Some(b) => web && b@ == button_item(
                "download the desktop app"@,
                UiAction::OpenDownload,
            ),
            None => !web,
        },
        items(r.identity@) == identity_items(account@.user),
        r.online@ == online_text(account@.stats),
        r.error@ == or_empty(account@.error),
{
    let error = match &account.error {
        Some(e) => e.clone(),
        None => {
            let r = String::new();
            proof {
                assert(r@ =~= Seq::<char>::empty());
            }
            r
        },
    };
    TitleScreen {
        logo: title("endif.tf", Tint::Orange),
        build: build_label(build, protocol),
        download: if web {
            Some(button("download the desktop app", UiAction::OpenDownload))
        } else {
            None
        },
        identity: identity(account),
        online: online_label(account.stats),
        error,
    }
}

/// Top of the main panel while the server runs a newer build: what happens and the button that does
/// it. The desktop packages go up a few minutes after the server, so until the site's package is
/// the server's build the button waits. Only a protocol change greys out online play; a build that
/// changed nothing the server checks keeps playing meanwhile.
pub open spec fn banner_items(status: StatusView, web: bool) -> Seq<ItemView> {
    let top = seq![heading_item("A NEW VERSION IS AVAILABLE"@, Tint::LightRed)];
    let middle = if web {
        seq![
            label_item("the page reloads to fetch it."@, Tint::OffWhite),
            button_item("Reload"@, UiAction::Update),
        ]
    } else if status.ready() {
        seq![
            label_item("the update downloads and restarts the game."@, Tint::OffWhite),
            button_item("Update now"@, UiAction::Update),
        ]
    } else {
        seq![
            label_item("waiting for new version to deploy..."@, Tint::OffWhite),
            online_item(
                "Update now"@,
                UiAction::Update,
                Some("the desktop package is not published yet; try again in a few minutes."@),
            ),
        ]
    };
    let end = if !web && status.state != SignalState::Outdated {
        seq![label_item("matches still work on this build until then."@, Tint::OffWhite)]
    } else {
        Seq::empty()
    };
    top + middle + end
}

pub fn update_banner(status: &SignalingStatus, web: bool) -> (r: Vec<Item>)
    ensures
        items(r@) == banner_items(status@, web),
{
    let mut v: Vec<Item> = Vec::new();
    put(&mut v, heading("A NEW VERSION IS AVAILABLE", Tint::LightRed));
    if web {
        put(&mut v, label("the page reloads to fetch it.", Tint::OffWhite));
        put(&mut v, button("Reload", UiAction::Update));
    } else if status.package_ready() {
        put(&mut v, label("the update downloads and restarts the game.", Tint::OffWhite));
        put(&mut v, button("Update now", UiAction::Update));
    } else {
        put(&mut v, label("waiting for new version to deploy...", Tint::OffWhite));
        let why = Some(
            owned("the desktop package is not published yet; try again in a few minutes."),
        );
        put(&mut v, online_button("Update now", UiAction::Update, &why));
    }
    if !web && !status.is_outdated() {
        put(&mut v, label("matches still work on this build until then.", Tint::OffWhite));
    }
    proof {
        assert(items(v@) =~= banner_items(status@, web));
    }
    v
}

/// Why online play is not possible, where it is not.
pub open spec fn offline_text(status: StatusView, web: bool) -> Option<Seq<char>> {
    if status.state == SignalState::Outdated {
        if web {
            Some("this build is out of date: reload the page (Ctrl+Shift+R)."@)
        } else {
            Some("this build is out of date: update the client."@)
        }
    } else if status.down() {
        Some("cannot connect to matchmaking servers."@)
    } else {
        None
    }
}

/// Why competitive play is not possible, where it is not: it is for accounts.
pub open spec fn ranked_offline_text(
    status: StatusView,
    logged_in: bool,
    web: bool,
) -> Option<Seq<char>> {
    match offline_text(status, web) {
        Some(why) => Some(why),
        None => if logged_in {
            None
        } else {
            Some("log in to play matchmaking."@)
        },
    }
}

/// Why online play is not possible, where it is not.
pub fn offline_reason(status: &SignalingStatus, web: bool) -> (r: Option<String>)
    ensures
        opt(r) == offline_text(status@, web),
{
    if status.is_outdated() {
        Some(
            owned(
                if web {
                    "this build is out of date: reload the page (Ctrl+Shift+R)."
                } else {
                    "this build is out of date: update the client."
                },
            ),
        )
    } else if status.is_down() {
        Some(owned("cannot connect to matchmaking servers."))
    } else {
        None
    }
}

/// The main menu.
pub open spec fn main_items(
    account: AccountView,
    typed: Seq<char>,
    status: StatusView,
    build: Seq<char>,
    web: bool,
) -> Seq<ItemView> {
    let offline = offline_text(status, web);
    let ranked = ranked_offline_text(status, account.user is Some, web);
    let banner = if status.update(build) {
        banner_items(status, web)
    } else {
        Seq::empty()
    };
    let outdated = if status.state == SignalState::Outdated {
        seq![
            label_item(
                if web {
                    "a newer build is available: reload the page"@
                } else {
                    "a newer build is available: update the client"@
                },
                Tint::LightRed,
            ),
        ]
    } else {
        Seq::empty()
    };
    banner + seq![
        ItemView::Queue {
            label: "Quick play"@,
            action: UiAction::QuickPlay,
            press: press_of(offline),
            count: count_text(account.stats, QueueKind::Quick),
        },
        ItemView::Queue {
            label: "Competitive"@,
            action: UiAction::Competitive,
            press: press_of(ranked),
            count: count_text(account.stats, QueueKind::Competitive),
        },
        button_item("Practice (offline)"@, UiAction::Practice),
        online_item("Create private room"@, UiAction::CreateRoom, offline),
        heading_item("JOIN A ROOM"@, Tint::Orange),
        label_item("type the six letter code"@, Tint::OffWhite),
        ItemView::Code(spaced(typed, ROOM_CODE_LEN as nat)),
        button_item("paste"@, UiAction::Paste),
    ] + outdated + seq![
        online_item("Join room"@, UiAction::JoinRoom, offline),
        button_item("Settings"@, UiAction::OpenSettings),
        heading_item("VOLUME"@, Tint::TanLight),
        ItemView::Slide { label: Seq::empty(), slider: Slider::Volume },
    ]
}

/// The main menu.
pub fn main_screen(
    account: &Account,
    typed: &str,
    status: &SignalingStatus,
    build: &str,
    web: bool,
) -> (r: Vec<Item>)
    ensures
        items(r@) == main_items(account@, typed@, status@, build@, web),
{
    let offline = offline_reason(status, web);
    let ranked = match &offline {
        Some(why) => Some(why.clone()),
        None => if account.logged_in() {
            None
        } else {
            Some(owned("log in to play matchmaking."))
        },
    };
    let mut v: Vec<Item> = Vec::new();
    if status.update_available(build) {
        v = update_banner(status, web);
    }
    let none = String::new();
    proof {
        assert(none@ =~= Seq::<char>::empty());
    }
    let top: Vec<Item> = vec![
        Item::Queue {
            label: owned("Quick play"),
            action: UiAction::QuickPlay,
            press: press(&offline),
            count: count_label(account.stats, QueueKind::Quick),
        },
        Item::Queue {
            label: owned("Competitive"),
            action: UiAction::Competitive,
            press: press(&ranked),
            count: count_label(account.stats, QueueKind::Competitive),
        },
        button("Practice (offline)", UiAction::Practice),
        online_button("Create private room", UiAction::CreateRoom, &offline),
        heading("JOIN A ROOM", Tint::Orange),
        label("type the six letter code", Tint::OffWhite),
        Item::Code(code_display(typed, ROOM_CODE_LEN)),
        button("paste", UiAction::Paste),
    ];
    put_all(&mut v, top);
    if status.is_outdated() {
        put(
            &mut v,
            label(
                if web {
                    "a newer build is available: reload the page"
                } else {
                    "a newer build is available: update the client"
                },
                Tint::LightRed,
            ),
        );
    }
    let bottom: Vec<Item> = vec![
        online_button("Join room", UiAction::JoinRoom, &offline),
        button("Settings", UiAction::OpenSettings),
        heading("VOLUME", Tint::TanLight),
        Item::Slide { label: none, slider: Slider::Volume },
    ];
    put_all(&mut v, bottom);
    proof {
        assert(items(v@) =~= main_items(account@, typed@, status@, build@, web));
    }
    v
}

/// While the server is unreachable or another protocol, every online button of the main menu is
/// greyed out with the reason; practice and the settings never are.
pub proof fn law_offline_greys_out_online_play(
    account: AccountView,
    typed: Seq<char>,
    status: StatusView,
    build: Seq<char>,
    web: bool,
    i: int,
)
    requires
        0 <= i < main_items(account, typed, status, build, web).len(),
        offline_text(status, web) is Some,
    ensures
        match main_items(account, typed, status, build, web)[i] {
            ItemView::Queue { press, .. } => press == press_of(offline_text(status, web)),
            ItemView::Button { action, press, .. } => {
                &&& (action == UiAction::CreateRoom || action == UiAction::JoinRoom) ==> press
                    == press_of(offline_text(status, web))
                &&& (action == UiAction::Practice || action == UiAction::OpenSettings) ==> press
                    == PressView::Enabled
            },
            _ => true,
        },
{
}

// ---- the bookmark tabs ----

/// Tab geometry, in pixels.
pub const TAB_W: u32 = 46;

pub const TAB_H: u32 = 64;

pub const TAB_GAP: u32 = 3;

/// Distance from the panel's top to the first tab.
pub const TAB_TOP: u32 = 18;

pub const TAB_ICON: u32 = 28;

/// The panel's border, which the selected tab lies over.
pub const PANEL_BORDER: u32 = 2;

/// A bookmark tab on the right edge of a title panel. The page on show has no border against the
/// panel: it lies over the panel's border, and the others step past it. Both end the same distance
/// out.
#[derive(Clone, Copy, Debug, PartialEq, Eq, Structural)]
pub struct TabLook {
    pub tab: Tab,
    /// The page on show, which is not a button.
    pub on: bool,
    pub top: u32,
    pub width: u32,
    /// Distance from the inner edge of the panel's border.
    pub left: u32,
    pub icon: u32,
    /// The icon's tint at rest and while hovered.
    pub rest: Tint,
    pub hover: Tint,
}

/// How far down a tab hangs.
pub open spec fn tab_top(i: int) -> int {
    TAB_TOP + i * (TAB_H + TAB_GAP)
}

pub open spec fn tab_look(tab: Tab, i: int, selected: Tab) -> TabLook {
    let on = tab == selected;
    TabLook {
        tab,
        on,
        top: tab_top(i) as u32,
        width: if on {
            (TAB_W + PANEL_BORDER) as u32
        } else {
            TAB_W
        },
        left: if on {
            0
        } else {
            PANEL_BORDER
        },
        icon: match tab {
            Tab::Menu => TAB_ICON,
            Tab::Leaderboard => (TAB_ICON + 4) as u32,
        },
        rest: match tab {
            Tab::Menu => if on {
                Tint::TanLight
            } else {
                Tint::TanDark
            },
            Tab::Leaderboard => if on {
                Tint::White
            } else {
                Tint::Grey
            },
        },
        hover: match tab {
            Tab::Menu => Tint::TanLight,
            Tab::Leaderboard => Tint::White,
        },
    }
}

fn look(tab: Tab, i: u32, selected: Tab) -> (r: TabLook)
    requires
        i <= 1,
    ensures
        r == tab_look(tab, i as int, selected),
{
    let on = tab == selected;
    TabLook {
        tab,
        on,
        top: TAB_TOP + i * (TAB_H + TAB_GAP),
        width: if on {
            TAB_W + PANEL_BORDER
        } else {
            TAB_W
        },
        left: if on {
            0
        } else {
            PANEL_BORDER
        },
        icon: match tab {
            Tab::Menu => TAB_ICON,
            Tab::Leaderboard => TAB_ICON + 4,
        },
        rest: match tab {
            Tab::Menu => if on {
                Tint::TanLight
            } else {
                Tint::TanDark
            },
            Tab::Leaderboard => if on {
                Tint::White
            } else {
                Tint::Grey
            },
        },
        hover: match tab {
            Tab::Menu => Tint::TanLight,
            Tab::Leaderboard => Tint::White,
        },
    }
}

/// The tabs of a title panel and the panel's right border around the selected one.
pub struct TabStrip {
    pub tabs: Vec<TabLook>,
    /// How long the border's upper piece is, from the panel's outer top edge. It runs a border's
    /// width under the tab's own.
    pub upper: u32,
    /// Where the border's lower piece starts, from the panel's inner top edge.
    pub lower: u32,
}

/// The bookmark tabs on the right edge of a title panel, `selected` being the page on show. The
/// panel's own right border is left out and redrawn in two pieces, above and below the selected
/// tab.
pub fn tabs(selected: Tab) -> (r: TabStrip)
    ensures
        r.tabs@ == Seq::new(
            Tab::all().len(),
            |i: int| tab_look(Tab::all()[i], i, selected),
        ),
        ({
            let i: int = match selected {
                Tab::Menu => 0,
                Tab::Leaderboard => 1,
            };
            &&& Tab::all()[i] == selected
            &&& r.upper == PANEL_BORDER + tab_top(i) + PANEL_BORDER
            &&& r.lower == tab_top(i) + TAB_H - PANEL_BORDER
        }),
{
    let v: Vec<TabLook> = vec![look(Tab::Menu, 0, selected), look(Tab::Leaderboard, 1, selected)];
    proof {
        assert(v@ =~= Seq::new(Tab::all().len(), |i: int| tab_look(Tab::all()[i], i, selected)));
    }
    let i: u32 = match selected {
        Tab::Menu => 0,
        Tab::Leaderboard => 1,
    };
    let gap_top: u32 = TAB_TOP + i * (TAB_H + TAB_GAP);
    TabStrip {
        tabs: v,
        upper: PANEL_BORDER + gap_top + PANEL_BORDER,
        lower: gap_top + TAB_H - PANEL_BORDER,
    }
}

/// The tabs never overlap, and all of them end the same distance out.
pub proof fn law_tabs_line_up(a: int, b: int, selected: Tab)
    requires
        0 <= a < b < Tab::all().len(),
    ensures
        ({
            let x = tab_look(Tab::all()[a], a, selected);
            let y = tab_look(Tab::all()[b], b, selected);
            x.top + TAB_H < y.top && x.left + x.width == y.left + y.width
        }),
{
}

// ---- the leaderboard ----

/// What a line of the leaderboard says.
#[derive(Debug, PartialEq)]
pub struct LeaderboardRow {
    pub place: String,
    pub place_tint: Tint,
    pub name: String,
    pub name_tint: Tint,
    pub elo: String,
    pub wins: String,
    pub losses: String,
    pub win_rate: String,
}

#[verifier::ext_equal]
pub struct LeaderboardRowView {
    pub place: Seq<char>,
    pub place_tint: Tint,
    pub name: Seq<char>,
    pub name_tint: Tint,
    pub elo: Seq<char>,
    pub wins: Seq<char>,
    pub losses: Seq<char>,
    pub win_rate: Seq<char>,
}

impl View for LeaderboardRow {
    type V = LeaderboardRowView;

    open spec fn view(&self) -> LeaderboardRowView {
        LeaderboardRowView {
            place: self.place@,
            place_tint: self.place_tint,
            name: self.name@,
            name_tint: self.name_tint,
            elo: self.elo@,
            wins: self.wins@,
            losses: self.losses@,
            win_rate: self.win_rate@,
        }
    }
}

/// The share of the games won, in percent; nothing was won of no games.
pub open spec fn win_rate_text(e: LeaderboardEntry) -> Seq<char> {
    let games = e.wins + e.losses;
    if games == 0 {
        "0%"@
    } else {
        percentage(e.wins as int, games) + "%"@
    }
}

/// A line of the leaderboard: place, name, rating, record and win rate. `me` lights up the viewer's
/// own line.
pub open spec fn leaderboard_row_of(e: LeaderboardEntry, me: Option<Seq<char>>) -> LeaderboardRowView {
    LeaderboardRowView {
        place: "#"@ + decimal(e.rank as nat),
        place_tint: if e.rank == 1 {
            Tint::Yellow
        } else {
            Tint::TanLight
        },
        name: e.username@,
        name_tint: if me == Some(e.username@) {
            Tint::Yellow
        } else {
            Tint::OffWhite
        },
        elo: signed_decimal(e.elo as int),
        wins: decimal(e.wins as nat),
        losses: decimal(e.losses as nat),
        win_rate: win_rate_text(e),
    }
}

/// One line of the leaderboard.
pub fn leaderboard_row(e: &LeaderboardEntry, me: &Option<String>) -> (r: LeaderboardRow)
    ensures
        r@ == leaderboard_row_of(*e, opt(*me)),
{
    let rank = show(e.rank as u64);
    let mine = match me {
        Some(name) => eq(name.as_str(), e.username.as_str()),
        None => false,
    };
    let games: i64 = e.wins as i64 + e.losses as i64;
    let win_rate = if games == 0 {
        owned("0%")
    } else {
        let p = show_percentage(e.wins as i64, games);
        cat(p.as_str(), "%")
    };
    LeaderboardRow {
        place: cat("#", rank.as_str()),
        place_tint: if e.rank == 1 {
            Tint::Yellow
        } else {
            Tint::TanLight
        },
        name: e.username.clone(),
        name_tint: if mine {
            Tint::Yellow
        } else {
            Tint::OffWhite
        },
        elo: show_signed(e.elo as i64),
        wins: show(e.wins as u64),
        losses: show(e.losses as u64),
        win_rate,
    }
}

pub open spec fn leaderboard_rows_view(v: Seq<LeaderboardRow>) -> Seq<LeaderboardRowView> {
    v.map_values(|r: LeaderboardRow| r@)
}

/// What the leaderboard tab shows: its title, the headings of its columns, its lines or a note in
/// their place, and the page buttons.
pub struct LeaderboardScreen {
    pub title: Item,
    pub headings: Vec<Item>,
    pub rows: Vec<LeaderboardRow>,
    pub note: Option<String>,
    pub prev: Item,
    pub pages: String,
    pub next: Item,
}

/// The headings of the leaderboard's columns: place, name, rating, record and win rate.
pub open spec fn leaderboard_headings() -> Seq<ItemView> {
    seq![
        heading_item("#"@, Tint::TanDark),
        heading_item("PLAYER"@, Tint::TanDark),
        heading_item("ELO"@, Tint::TanDark),
        heading_item("W - L"@, Tint::TanDark),
        heading_item("WIN%"@, Tint::TanDark),
    ]
}

/// The page on show and how many there are.
pub open spec fn page_of(lb: Option<Leaderboard>) -> (u32, u32) {
    match lb {
        Some(l) => (l.page, l.pages),
        None => (1, 1),
    }
}

pub open spec fn leaderboard_note(account: AccountView) -> Option<Seq<char>> {
    match account.leaderboard {
        Some(lb) => if lb.players@.len() == 0 {
            Some("nobody has played a competitive match yet"@)
        } else {
            None
        },
        // A failure is on the error line above the panel.
        None => if account.error is Some {
            Some(""@)
        } else {
            Some("loading..."@)
        },
    }
}

/// The page before; the first page has none before it.
pub open spec fn page_before(page: u32) -> u32 {
    if page <= 2 {
        1
    } else {
        (page - 1) as u32
    }
}

/// The page behind, up to the last.
pub open spec fn page_behind(page: u32, pages: u32) -> u32 {
    if page < pages {
        (page + 1) as u32
    } else {
        pages
    }
}

pub open spec fn page_button(label: Seq<char>, page: u32, greyed: bool) -> ItemView {
    ItemView::Button {
        label,
        action: UiAction::LeaderboardPage(page),
        press: if greyed {
            PressView::Greyed
        } else {
            PressView::Enabled
        },
    }
}

fn pager(text: &str, page: u32, greyed: bool) -> (r: Item)
    ensures
        r@ == page_button(text@, page, greyed),
{
    Item::Button {
        label: owned(text),
        action: UiAction::LeaderboardPage(page),
        press: if greyed {
            Press::Greyed
        } else {
            Press::Enabled
        },
    }
}

/// The title screen's leaderboard tab: the top players by rating, and the page buttons: previous,
/// "page N of M", next. The ends are greyed out.
pub fn leaderboard_screen(account: &Account) -> (r: LeaderboardScreen)
    ensures
        ({
            let a = account@;
            let me = match a.user {
                Some(u) => Some(u.username@),
                None => None,
            };
            let (page, pages) = page_of(a.leaderboard);
            &&& r.title@ == title_item("LEADERBOARD"@, Tint::TanLight)
            &&& items(r.headings@) == leaderboard_headings()
            &&& leaderboard_rows_view(r.rows@) == match a.leaderboard {
                Some(lb) => lb.players@.map_values(
                    |e: LeaderboardEntry| leaderboard_row_of(e, me),
                ),
                None => Seq::empty(),
            }
            &&& opt(r.note) == leaderboard_note(a)
            &&& r.prev@ == page_button("<"@, page_before(page), page <= 1)
            &&& r.pages@ == "page "@ + decimal(page as nat) + " of "@ + decimal(pages as nat)
            &&& r.next@ == page_button(">"@, page_behind(page, pages), page >= pages)
        }),
{
    let me: Option<String> = match &account.user {
        Some(u) => Some(u.username.clone()),
        None => None,
    };
    let mut rows: Vec<LeaderboardRow> = Vec::new();
    let mut note: Option<String> = None;
    let mut page: u32 = 1;
    let mut pages: u32 = 1;
    match &account.leaderboard {
        Some(lb) => {
            page = lb.page;
            pages = lb.pages;
            if lb.players.len() == 0 {
                note = Some(owned("nobody has played a competitive match yet"));
            }
            let mut i: usize = 0;
            while i < lb.players.len()
                invariant
                    i <= lb.players.len(),
                    rows@.len() == i,
                    forall|j: int|
                        0 <= j < i ==> (#[trigger] rows@[j])@ == leaderboard_row_of(
                            lb.players@[j],
                            opt(me),
                        ),
                decreases lb.players.len() - i,
            {
                rows.push(leaderboard_row(&lb.players[i], &me));
                i = i + 1;
            }
            proof {
                assert(leaderboard_rows_view(rows@) =~= lb.players@.map_values(
                    |e: LeaderboardEntry| leaderboard_row_of(e, opt(me)),
                ));
            }
        },
        None => {
            note = Some(
                owned(
                    if account.error.is_some() {
                        ""
                    } else {
                        "loading..."
                    },
                ),
            );
            proof {
                assert(leaderboard_rows_view(rows@) =~= Seq::empty());
            }
        },
    }
    let before: u32 = if page <= 2 {
        1
    } else {
        page - 1
    };
    let behind: u32 = if page < pages {
        page + 1
    } else {
        pages
    };
    let p = show(page as u64);
    let n = show(pages as u64);
    let mut text = cat3("page ", p.as_str(), " of ");
    text.append(n.as_str());
    let headings: Vec<Item> = vec![
        heading("#", Tint::TanDark),
        heading("PLAYER", Tint::TanDark),
        heading("ELO", Tint::TanDark),
        heading("W - L", Tint::TanDark),
        heading("WIN%", Tint::TanDark),
    ];
    proof {
        assert(items(headings@) =~= leaderboard_headings());
    }
    LeaderboardScreen {
        title: title("LEADERBOARD", Tint::TanLight),
        headings,
        rows,
        note,
        prev: pager("<", before, page <= 1),
        pages: text,
        next: pager(">", behind, page >= pages),
    }
}

/// The page buttons stay within the pages, and turning a page and back is the page one was on.
pub proof fn law_pages_turn_back(page: u32, pages: u32)
    requires
        1 <= page < pages,
    ensures
        1 <= page_before(page) <= pages,
        1 <= page_behind(page, pages) <= pages,
        page_before(page_behind(page, pages)) == page,
{
}

// ---- the result of a ranked match ----

/// The popup over the main menu after a ranked match: how it ended and what it did to the rating.
pub open spec fn result_items(result: RankedResult) -> Seq<ItemView> {
    let tint = match result.ending {
        Ending::Won | Ending::OpponentLeft => Tint::Yellow,
        Ending::Lost | Ending::WeLeft => Tint::LightRed,
    };
    seq![
        title_item(
            match result.ending {
                Ending::Won => "YOU WON!"@,
                Ending::OpponentLeft => "OPPONENT LEFT! YOU WON!"@,
                Ending::Lost => "YOU LOST!"@,
                Ending::WeLeft => "YOU LEFT! YOU LOST!"@,
            },
            tint,
        ),
        match result.rating {
            Rating::Settled(d) => heading_item(with_sign(d as int) + " ELO"@, tint),
            Rating::Pending => label_item("updating rating..."@, Tint::OffWhite),
            Rating::Void => label_item(
                "match voided: the two results did not agree, so ratings are unchanged"@,
                Tint::OffWhite,
            ),
            Rating::Unconfirmed => label_item(
                "rating not confirmed yet; check your profile in a moment"@,
                Tint::OffWhite,
            ),
        },
        button_item("OK"@, UiAction::ResultOk),
    ]
}

pub fn result_popup(result: &RankedResult) -> (r: Vec<Item>)
    ensures
        items(r@) == result_items(*result),
{
    let tint = match result.ending {
        Ending::Won | Ending::OpponentLeft => Tint::Yellow,
        Ending::Lost | Ending::WeLeft => Tint::LightRed,
    };
    let top = title(
        match result.ending {
            Ending::Won => "YOU WON!",
            Ending::OpponentLeft => "OPPONENT LEFT! YOU WON!",
            Ending::Lost => "YOU LOST!",
            Ending::WeLeft => "YOU LEFT! YOU LOST!",
        },
        tint,
    );
    let rating = match result.rating {
        Rating::Settled(d) => {
            let s = show_with_sign(d as i64);
            let s = cat(s.as_str(), " ELO");
            heading(s.as_str(), tint)
        },
        Rating::Pending => label("updating rating...", Tint::OffWhite),
        Rating::Void => label(
            "match voided: the two results did not agree, so ratings are unchanged",
            Tint::OffWhite,
        ),
        Rating::Unconfirmed => label(
            "rating not confirmed yet; check your profile in a moment",
            Tint::OffWhite,
        ),
    };
    let v: Vec<Item> = vec![top, rating, button("OK", UiAction::ResultOk)];
    proof {
        assert(items(v@) =~= result_items(*result));
    }
    v
}

// ---- pause and settings ----

pub open spec fn pause_items() -> Seq<ItemView> {
    seq![
        title_item("PAUSED"@, Tint::TanLight),
        label_item("the match keeps running"@, Tint::OffWhite),
        button_item("Resume"@, UiAction::Resume),
        button_item("Settings"@, UiAction::OpenSettings),
        button_item("Leave match"@, UiAction::Leave),
    ]
}

pub fn pause_screen() -> (r: Vec<Item>)
    ensures
        items(r@) == pause_items(),
{
    let v: Vec<Item> = vec![
        title("PAUSED", Tint::TanLight),
        label("the match keeps running", Tint::OffWhite),
        button("Resume", UiAction::Resume),
        button("Settings", UiAction::OpenSettings),
        button("Leave match", UiAction::Leave),
    ];
    proof {
        assert(items(v@) =~= pause_items());
    }
    v
}

pub open spec fn is_ctrl(b: BindingView) -> bool {
    b == BindingView::Key("ControlLeft"@) || b == BindingView::Key("ControlRight"@)
}

/// Whether any action sits on a Ctrl key, the one the browser pairs with W to close the tab.
pub open spec fn ctrl_bound(b: BindingsView) -> bool {
    is_ctrl(b.forward) || is_ctrl(b.back) || is_ctrl(b.left) || is_ctrl(b.right) || is_ctrl(b.jump)
        || is_ctrl(b.crouch) || is_ctrl(b.fire)
}

fn on_ctrl(b: &Binding) -> (r: bool)
    ensures
        r == is_ctrl(b@),
{
    match b {
        Binding::Key(k) => eq(k.as_str(), "ControlLeft") || eq(k.as_str(), "ControlRight"),
        _ => false,
    }
}

/// Whether any action sits on a Ctrl key.
pub fn binds_ctrl(s: &Settings) -> (r: bool)
    ensures
        r == ctrl_bound(s@.bindings),
{
    let b = &s.bindings;
    on_ctrl(&b.forward) || on_ctrl(&b.back) || on_ctrl(&b.left) || on_ctrl(&b.right) || on_ctrl(
        &b.jump,
    ) || on_ctrl(&b.crouch) || on_ctrl(&b.fire)
}

/// What the fullscreen toggle buys in this browser (web only).
pub open spec fn fullscreen_text(fullscreen: bool, can_lock: bool) -> Seq<char> {
    if can_lock {
        if fullscreen {
            "in fullscreen Ctrl+W and friends stay in the game; hold Esc to leave it"@
        } else {
            "in fullscreen this browser can keep Ctrl+W and friends in the game"@
        }
    } else {
        "this browser cannot keep Ctrl+W from closing the tab, fullscreen or not"@
    }
}

/// Explains what the fullscreen toggle buys in this browser (web only).
pub fn fullscreen_note(s: &Settings, web: bool, can_lock: bool) -> (r: Option<&'static str>)
    ensures
        match r {
            Some(t) => web && t@ == fullscreen_text(s@.fullscreen, can_lock),
            None => !web,
        },
{
    if !web {
        return None;
    }
    Some(
        if can_lock {
            if s.fullscreen {
                "in fullscreen Ctrl+W and friends stay in the game; hold Esc to leave it"
            } else {
                "in fullscreen this browser can keep Ctrl+W and friends in the game"
            }
        } else {
            "this browser cannot keep Ctrl+W from closing the tab, fullscreen or not"
        },
    )
}

/// The warning when something is bound to Ctrl in a browser that will act on Ctrl+W (web only). The
/// leave-page prompt catches the close, but the match is still interrupted by a dialog.
pub open spec fn ctrl_text(s: SettingsView, web: bool, can_lock: bool) -> Option<Seq<char>> {
    if !web || !ctrl_bound(s.bindings) {
        None
    } else if can_lock {
        if s.fullscreen {
            None
        } else {
            Some(
                "Ctrl+W tries to close the tab outside fullscreen: turn on fullscreen on play, or use Shift"@,
            )
        }
    } else {
        Some(
            "Ctrl+W tries to close the tab in this browser (a leave-page prompt catches it): Shift is safer"@,
        )
    }
}

pub fn ctrl_note(s: &Settings, web: bool, can_lock: bool) -> (r: Option<&'static str>)
    ensures
        match r {
            Some(t) => ctrl_text(s@, web, can_lock) == Some(t@),
            None => ctrl_text(s@, web, can_lock) is None,
        },
{
    if !web || !binds_ctrl(s) {
        return None;
    }
    if can_lock {
        if s.fullscreen {
            None
        } else {
            Some(
                "Ctrl+W tries to close the tab outside fullscreen: turn on fullscreen on play, or use Shift",
            )
        }
    } else {
        Some(
            "Ctrl+W tries to close the tab in this browser (a leave-page prompt catches it): Shift is safer",
        )
    }
}

/// The degrees per count at sensitivity 1, 0.022, as a single-precision number: in 2^-29ths.
pub const DEGREES_PER_COUNT: u128 = 11_811_160;

/// Degrees per count, from a sensitivity in hundredths: the single-precision product of the two, in
/// 2^-56ths (the sensitivity is taken in 2^-27ths).
pub open spec fn yaw_per_count(sensitivity_x: nat) -> nat {
    single(DEGREES_PER_COUNT as nat * single(sensitivity_x * 0x800_0000, 100), 1)
}

/// Degrees per count with three decimals, from a sensitivity in hundredths.
pub open spec fn yaw_text(sensitivity_x: int) -> Seq<char> {
    let thousandths = nearest(
        (yaw_per_count(sensitivity_x as nat) * 1_000) as int,
        0x100_0000_0000_0000,
    ) as nat;
    decimal(thousandths / 1000) + "."@ + zero_padded(decimal(thousandths % 1000), 3)
        + " deg per count at TF2 m_yaw 0.022"@
}

fn yaw_label(s: &Settings) -> (r: String)
    ensures
        r@ == yaw_text(s@.sensitivity_x),
{
    let sensitivity = to_single(s.sensitivity_x as u128 * 0x800_0000, 100);
    let degrees = to_single(DEGREES_PER_COUNT * sensitivity, 1);
    let t: u64 = round_div(degrees * 1_000, 0x100_0000_0000_0000) as u64;
    let whole = show(t / 1000);
    let part = show_padded(t % 1000, 3);
    let mut out = cat3(whole.as_str(), ".", part.as_str());
    out.append(" deg per count at TF2 m_yaw 0.022");
    out
}

pub open spec fn slide_item(label: Seq<char>, slider: Slider) -> ItemView {
    ItemView::Slide { label, slider }
}

pub open spec fn toggle_item(label: Seq<char>, on: bool, action: UiAction) -> ItemView {
    ItemView::Toggle { label, on, action }
}

fn slide(text: &str, slider: Slider) -> (r: Item)
    ensures
        r@ == slide_item(text@, slider),
{
    Item::Slide { label: owned(text), slider }
}

fn toggle(text: &str, on: bool, action: UiAction) -> (r: Item)
    ensures
        r@ == toggle_item(text@, on, action),
{
    Item::Toggle { label: owned(text), on, action }
}

pub open spec fn mouse_items(s: SettingsView) -> Seq<ItemView> {
    let sliders = if s.separate_sensitivity {
        seq![
            slide_item("Sensitivity X"@, Slider::Sens(Axis::X)),
            slide_item("Sensitivity Y"@, Slider::Sens(Axis::Y)),
        ]
    } else {
        seq![slide_item("Sensitivity"@, Slider::Sens(Axis::X))]
    };
    seq![heading_item("MOUSE"@, Tint::Orange)] + sliders + seq![
        toggle_item(
            "Separate X / Y sensitivity"@,
            s.separate_sensitivity,
            UiAction::SeparateSensitivity,
        ),
        toggle_item("Invert Y look"@, s.invert_y, UiAction::InvertY),
        label_item(yaw_text(s.sensitivity_x), Tint::TanDark),
    ]
}

fn mouse_section(s: &Settings) -> (r: Vec<Item>)
    ensures
        items(r@) == mouse_items(s@),
{
    let mut v: Vec<Item> = vec![heading("MOUSE", Tint::Orange)];
    if s.separate_sensitivity {
        put(&mut v, slide("Sensitivity X", Slider::Sens(Axis::X)));
        put(&mut v, slide("Sensitivity Y", Slider::Sens(Axis::Y)));
    } else {
        put(&mut v, slide("Sensitivity", Slider::Sens(Axis::X)));
    }
    put(
        &mut v,
        toggle(
            "Separate X / Y sensitivity",
            s.separate_sensitivity,
            UiAction::SeparateSensitivity,
        ),
    );
    put(&mut v, toggle("Invert Y look", s.invert_y, UiAction::InvertY));
    let yaw = yaw_label(s);
    put(&mut v, label(yaw.as_str(), Tint::TanDark));
    proof {
        assert(items(v@) =~= mouse_items(s@));
    }
    v
}

pub open spec fn machine_items(s: SettingsView, web: bool, can_lock: bool) -> Seq<ItemView> {
    let manual = if s.adaptive_delay {
        Seq::empty()
    } else {
        seq![slide_item("Input delay"@, Slider::InputDelay)]
    };
    let video = if web {
        seq![
            heading_item("VIDEO"@, Tint::Orange),
            toggle_item("Fullscreen on play"@, s.fullscreen, UiAction::Fullscreen),
            label_item(fullscreen_text(s.fullscreen, can_lock), Tint::TanDark),
        ]
    } else {
        Seq::empty()
    };
    seq![
        heading_item("LOADOUT"@, Tint::Orange),
        ItemView::Launchers {
            label: "Preferred rocket launcher"@,
            stock: s.weapon == Weapon::Stock,
        },
        heading_item("AUDIO"@, Tint::Orange),
        slide_item("Volume"@, Slider::Volume),
        heading_item("NETWORK"@, Tint::Orange),
        toggle_item("Adaptive input delay"@, s.adaptive_delay, UiAction::AdaptiveDelay),
    ] + manual + video
}

fn machine_section(s: &Settings, web: bool, can_lock: bool) -> (r: Vec<Item>)
    ensures
        items(r@) == machine_items(s@, web, can_lock),
{
    let mut v: Vec<Item> = vec![
        heading("LOADOUT", Tint::Orange),
        Item::Launchers {
            label: owned("Preferred rocket launcher"),
            stock: s.weapon == Weapon::Stock,
        },
        heading("AUDIO", Tint::Orange),
        slide("Volume", Slider::Volume),
        heading("NETWORK", Tint::Orange),
        toggle("Adaptive input delay", s.adaptive_delay, UiAction::AdaptiveDelay),
    ];
    if !s.adaptive_delay {
        put(&mut v, slide("Input delay", Slider::InputDelay));
    }
    if web {
        put(&mut v, heading("VIDEO", Tint::Orange));
        put(&mut v, toggle("Fullscreen on play", s.fullscreen, UiAction::Fullscreen));
        if let Some(note) = fullscreen_note(s, web, can_lock) {
            put(&mut v, label(note, Tint::TanDark));
        }
    }
    proof {
        assert(items(v@) =~= machine_items(s@, web, can_lock));
    }
    v
}

pub open spec fn key_item(s: SettingsView, a: Action, listening: Option<Action>) -> ItemView {
    ItemView::Key {
        bind: a,
        value: if listening == Some(a) {
            "PRESS A KEY"@
        } else {
            s.bindings.of(a).label()
        },
        listening: listening == Some(a),
    }
}

/// The key bindings, up to the first `n` actions.
pub open spec fn key_items(
    s: SettingsView,
    listening: Option<Action>,
    ctrl: Option<Seq<char>>,
    n: nat,
) -> Seq<ItemView>
    decreases n,
{
    if n == 0 {
        seq![heading_item("KEYS"@, Tint::Orange)]
    } else {
        let a = Action::all()[n - 1];
        let with_key = key_items(s, listening, ctrl, (n - 1) as nat).push(key_item(s, a, listening));
        match ctrl {
            Some(note) => if a == Action::Crouch {
                with_key.push(label_item(note, Tint::TanDark))
            } else {
                with_key
            },
            None => with_key,
        }
    }
}

fn key_section(s: &Settings, listening: Option<Action>, web: bool, can_lock: bool) -> (r: Vec<Item>)
    ensures
        items(r@) == key_items(
            s@,
            listening,
            ctrl_text(s@, web, can_lock),
            Action::all().len(),
        ),
{
    let ctrl = ctrl_note(s, web, can_lock);
    let mut v: Vec<Item> = vec![heading("KEYS", Tint::Orange)];
    let all = Action::list();
    let mut i: usize = 0;
    proof {
        assert(items(v@) =~= seq![heading_item("KEYS"@, Tint::Orange)]);
    }
    while i < all.len()
        invariant
            i <= all.len(),
            all@ == Action::all(),
            match ctrl {
                Some(t) => ctrl_text(s@, web, can_lock) == Some(t@),
                None => ctrl_text(s@, web, can_lock) is None,
            },
            items(v@) == key_items(s@, listening, ctrl_text(s@, web, can_lock), i as nat),
        decreases all.len() - i,
    {
        let a = all[i];
        let here = match listening {
            Some(l) => l == a,
            None => false,
        };
        let value = if here {
            owned("PRESS A KEY")
        } else {
            s.bindings.get(a).label()
        };
        put(&mut v, Item::Key { bind: a, value, listening: here });
        if a == Action::Crouch {
            if let Some(note) = ctrl {
                put(&mut v, label(note, Tint::TanDark));
            }
        }
        i = i + 1;
    }
    v
}

/// The settings screen.
pub open spec fn settings_items(
    s: SettingsView,
    listening: Option<Action>,
    web: bool,
    can_lock: bool,
) -> Seq<ItemView> {
    seq![title_item("SETTINGS"@, Tint::TanLight)] + mouse_items(s) + machine_items(
        s,
        web,
        can_lock,
    ) + key_items(s, listening, ctrl_text(s, web, can_lock), Action::all().len()) + seq![
        button_item("Reset defaults"@, UiAction::ResetDefaults),
        button_item("Back"@, UiAction::Back),
        label_item("Esc goes back"@, Tint::TanDark),
    ]
}

/// The settings screen. `can_lock`: the browser can hand its shortcuts to the page.
pub fn settings_screen(s: &Settings, listening: Option<Action>, web: bool, can_lock: bool) -> (r: Vec<
    Item,
>)
    ensures
        items(r@) == settings_items(s@, listening, web, can_lock),
{
    let mut v: Vec<Item> = vec![title("SETTINGS", Tint::TanLight)];
    proof {
        assert(items(v@) =~= seq![title_item("SETTINGS"@, Tint::TanLight)]);
    }
    put_all(&mut v, mouse_section(s));
    put_all(&mut v, machine_section(s, web, can_lock));
    put_all(&mut v, key_section(s, listening, web, can_lock));
    let end: Vec<Item> = vec![
        button("Reset defaults", UiAction::ResetDefaults),
        button("Back", UiAction::Back),
        label("Esc goes back", Tint::TanDark),
    ];
    proof {
        assert(items(end@) =~= seq![
            button_item("Reset defaults"@, UiAction::ResetDefaults),
            button_item("Back"@, UiAction::Back),
            label_item("Esc goes back"@, Tint::TanDark),
        ]);
    }
    put_all(&mut v, end);
    v
}

// ---- the account forms ----

/// The line under a form: "working...", the last error or a notice.
pub open spec fn status_line_text(account: AccountView) -> (Seq<char>, Tint) {
    if account.waiting() {
        ("working..."@, Tint::TanLight)
    } else if account.error is Some {
        (account.error->0, Tint::LightRed)
    } else if account.notice is Some {
        (account.notice->0, Tint::OffWhite)
    } else {
        (Seq::empty(), Tint::OffWhite)
    }
}

/// "working..." / the last error / a notice.
pub fn status_line(account: &Account) -> (r: (String, Tint))
    ensures
        (r.0@, r.1) == status_line_text(account@),
{
    if account.busy() {
        return (owned("working..."), Tint::TanLight);
    }
    if let Some(e) = &account.error {
        return (e.clone(), Tint::LightRed);
    }
    if let Some(n) = &account.notice {
        return (n.clone(), Tint::OffWhite);
    }
    let none = String::new();
    proof {
        assert(none@ =~= Seq::<char>::empty());
    }
    (none, Tint::OffWhite)
}

/// "resend code", greyed out for a few seconds after a code went out.
pub open spec fn resend_item(ready: bool) -> ItemView {
    ItemView::Button {
        label: "resend code"@,
        action: UiAction::Resend,
        press: if ready {
            PressView::Enabled
        } else {
            PressView::Greyed
        },
    }
}

fn resend_button(ready: bool) -> (r: Item)
    ensures
        r@ == resend_item(ready),
{
    Item::Button {
        label: owned("resend code"),
        action: UiAction::Resend,
        press: if ready {
            Press::Enabled
        } else {
            Press::Greyed
        },
    }
}

/// The title, texts, fields and buttons of a form, between its back arrow and its status line.
pub open spec fn form_items(screen: UiScreen, account: AccountView, now: u64) -> Seq<ItemView> {
    let ready = now >= account.resend_at && !account.waiting();
    match screen {
        UiScreen::Login => seq![
            title_item("LOG IN"@, Tint::TanLight),
            field_item(Field::Login, "username or email"@),
            field_item(Field::Password, "password"@),
            button_item("sign in"@, UiAction::SubmitLogin),
            button_item("create account"@, UiAction::OpenRegister),
            button_item("forgot password"@, UiAction::OpenForgot),
        ],
        UiScreen::Register => seq![
            title_item("CREATE ACCOUNT"@, Tint::TanLight),
            field_item(Field::Email, "e-mail"@),
            field_item(Field::Username, "username (3-20: letters, digits, _ - .)"@),
            field_item(Field::Password, "password (8+ characters)"@),
            field_item(Field::Password2, "password again"@),
            button_item("create account"@, UiAction::SubmitRegister),
        ],
        UiScreen::Verify => seq![
            title_item("CHECK YOUR E-MAIL"@, Tint::TanLight),
            label_item("we sent a 6 digit code to "@ + account.pending_email, Tint::OffWhite),
            field_item(Field::Code, "code"@),
            button_item("verify"@, UiAction::SubmitVerify),
            resend_item(ready),
        ],
        UiScreen::Forgot => seq![
            title_item("FORGOT PASSWORD"@, Tint::TanLight),
            label_item("we will mail you a code to set a new password"@, Tint::OffWhite),
            field_item(Field::Email, "e-mail"@),
            button_item("send code"@, UiAction::SubmitForgot),
        ],
        UiScreen::Reset => seq![
            title_item("RESET PASSWORD"@, Tint::TanLight),
            label_item(
                "if "@ + account.pending_email + " has an account, a code is on its way"@,
                Tint::OffWhite,
            ),
            field_item(Field::Code, "code"@),
            field_item(Field::Password, "new password (8+ characters)"@),
            field_item(Field::Password2, "new password again"@),
            button_item("set password"@, UiAction::SubmitReset),
            resend_item(ready),
        ],
        UiScreen::ChangeUsername => seq![
            title_item("CHANGE USERNAME"@, Tint::TanLight),
            field_item(Field::NewUsername, "new username"@),
            button_item("save"@, UiAction::SubmitUsername),
        ],
        UiScreen::ChangePassword => seq![
            title_item("CHANGE PASSWORD"@, Tint::TanLight),
            field_item(Field::CurrentPassword, "current password"@),
            field_item(Field::Password, "new password (8+ characters)"@),
            field_item(Field::Password2, "new password again"@),
            button_item("save"@, UiAction::SubmitPassword),
        ],
        _ => Seq::empty(),
    }
}

/// The form on a screen, if it is one: a titled panel with a back arrow in its corner and the
/// account status line under the fields.
pub fn form_screen(screen: UiScreen, account: &Account, now: u64) -> (r: Vec<Item>)
    ensures
        items(r@) == form_items(screen, account@, now),
{
    let v: Vec<Item> = match screen {
        UiScreen::Login => vec![
            title("LOG IN", Tint::TanLight),
            field(Field::Login, "username or email"),
            field(Field::Password, "password"),
            button("sign in", UiAction::SubmitLogin),
            button("create account", UiAction::OpenRegister),
            button("forgot password", UiAction::OpenForgot),
        ],
        UiScreen::Register => vec![
            title("CREATE ACCOUNT", Tint::TanLight),
            field(Field::Email, "e-mail"),
            field(Field::Username, "username (3-20: letters, digits, _ - .)"),
            field(Field::Password, "password (8+ characters)"),
            field(Field::Password2, "password again"),
            button("create account", UiAction::SubmitRegister),
        ],
        UiScreen::Verify => {
            let text = cat("we sent a 6 digit code to ", account.pending_email.as_str());
            vec![
                title("CHECK YOUR E-MAIL", Tint::TanLight),
                label(text.as_str(), Tint::OffWhite),
                field(Field::Code, "code"),
                button("verify", UiAction::SubmitVerify),
                resend_button(account.can_resend(now)),
            ]
        },
        UiScreen::Forgot => vec![
            title("FORGOT PASSWORD", Tint::TanLight),
            label("we will mail you a code to set a new password", Tint::OffWhite),
            field(Field::Email, "e-mail"),
            button("send code", UiAction::SubmitForgot),
        ],
        UiScreen::Reset => {
            let text = cat3(
                "if ",
                account.pending_email.as_str(),
                " has an account, a code is on its way",
            );
            vec![
                title("RESET PASSWORD", Tint::TanLight),
                label(text.as_str(), Tint::OffWhite),
                field(Field::Code, "code"),
                field(Field::Password, "new password (8+ characters)"),
                field(Field::Password2, "new password again"),
                button("set password", UiAction::SubmitReset),
                resend_button(account.can_resend(now)),
            ]
        },
        UiScreen::ChangeUsername => vec![
            title("CHANGE USERNAME", Tint::TanLight),
            field(Field::NewUsername, "new username"),
            button("save", UiAction::SubmitUsername),
        ],
        UiScreen::ChangePassword => vec![
            title("CHANGE PASSWORD", Tint::TanLight),
            field(Field::CurrentPassword, "current password"),
            field(Field::Password, "new password (8+ characters)"),
            field(Field::Password2, "new password again"),
            button("save", UiAction::SubmitPassword),
        ],
        _ => Vec::new(),
    };
    proof {
        assert(items(v@) =~= form_items(screen, account@, now));
    }
    v
}

/// Whether a part of a screen is a button for this action that can be pressed.
pub open spec fn presses(item: ItemView, action: UiAction) -> bool {
    match item {
        ItemView::Button { action: a, press, .. } => a == action && press == PressView::Enabled,
        _ => false,
    }
}

/// Every form has the button that Enter presses on it.
pub proof fn law_forms_have_their_button(screen: UiScreen, account: AccountView, now: u64)
    requires
        screen.main_button() is Some,
    ensures
        exists|i: int|
            0 <= i < form_items(screen, account, now).len() && #[trigger] presses(
                form_items(screen, account, now)[i],
                screen.main_button()->0,
            ),
{
    let v = form_items(screen, account, now);
    let i: int = match screen {
        UiScreen::Login => 3,
        UiScreen::Register => 5,
        UiScreen::Verify => 3,
        UiScreen::Forgot => 3,
        UiScreen::Reset => 5,
        UiScreen::ChangeUsername => 2,
        _ => 4,
    };
    assert(presses(v[i], screen.main_button()->0));
}

// ---- the profile ----

/// What the profile shows.
pub struct ProfileScreen {
    /// The back arrow in the corner, and the icon in front of the name.
    pub top: Vec<Item>,
    pub name: String,
    /// The place on the leaderboard.
    pub rank: Option<String>,
    pub elo: String,
    pub record: String,
    pub rate: String,
    /// The title of the match history, and the search field and the COMP / ALL switch next to it.
    pub history: Item,
    pub search: Item,
    pub filter: Item,
    pub rows: Vec<HistoryRow>,
    /// What stands in place of the lines.
    pub note: Option<String>,
    /// The line under the list.
    pub hint: Item,
    /// The buttons under the list.
    pub buttons: Vec<Item>,
}

/// The account that the profile is of: the profile's, or the one that is logged in.
pub open spec fn profile_user(account: AccountView) -> Option<UserInfo> {
    match account.profile {
        Some(p) => Some(p.user),
        None => account.user,
    }
}

pub open spec fn record_text(wins: int, losses: int) -> Seq<char> {
    signed_decimal(wins) + "W - "@ + signed_decimal(losses) + "L"@
}

pub open spec fn rate_text(wins: int, losses: int) -> Seq<char> {
    if wins + losses > 0 {
        percentage(wins, wins + losses) + "% win rate"@
    } else {
        "no ranked games yet"@
    }
}

/// What stands in place of the match history, where it has no lines.
pub open spec fn history_note(
    account: AccountView,
    comp_only: bool,
    query: Seq<char>,
) -> Option<Seq<char>> {
    match account.profile {
        Some(p) => if p.matches@.len() == 0 {
            Some("no matches yet: play a competitive match, or a round of quick play"@)
        } else if listed_rows(p.matches@, comp_only, query).len() == 0 {
            if query.len() == 0 {
                Some("no competitive matches yet"@)
            } else {
                Some("no matches against \""@ + query + "\""@)
            }
        } else {
            None
        },
        None => if account.waiting() {
            Some("loading..."@)
        } else {
            Some(""@)
        },
    }
}

pub open spec fn profile_buttons() -> Seq<ItemView> {
    seq![
        button_item("change username"@, UiAction::OpenChangeUsername),
        button_item("change password"@, UiAction::OpenChangePassword),
        button_item("log out"@, UiAction::Logout),
    ]
}

/// The profile: who it is of, the record, and the match history as far as the filter and the search
/// let it through.
pub fn profile_screen(account: &Account, form: &Form, comp_only: bool) -> (r: ProfileScreen)
    requires
        form.wf(),
    ensures
        ({
            let a = account@;
            let query = trimmed(form@.value(Field::HistorySearch));
            let (name, elo, wins, losses) = match profile_user(a) {
                Some(u) => (u.username@, u.elo as int, u.wins as int, u.losses as int),
                None => (Seq::empty(), 0, 0, 0),
            };
            &&& items(r.top@) == seq![ItemView::BackArrow, ItemView::SoldierIcon]
            &&& r.name@ == name
            &&& opt(r.rank) == match a.profile {
                Some(p) => match p.rank {
                    Some(n) => Some("(#"@ + decimal(n as nat) + ")"@),
                    None => None,
                },
                None => None,
            }
            &&& r.elo@ == signed_decimal(elo) + " ELO"@
            &&& r.record@ == record_text(wins, losses)
            &&& r.rate@ == rate_text(wins, losses)
            &&& r.history@ == heading_item("MATCH HISTORY"@, Tint::Orange)
            &&& r.search@ == field_item(Field::HistorySearch, "search opponent"@)
            &&& r.filter@ == (ItemView::Switch {
                left: "COMP"@,
                right: "ALL"@,
                first: comp_only,
                action: UiAction::HistoryFilter,
            })
            &&& rows_view(r.rows@) == match a.profile {
                Some(p) => listed_rows(p.matches@, comp_only, query),
                None => Seq::empty(),
            }
            &&& opt(r.note) == history_note(a, comp_only, query)
            &&& r.hint@ == label_item("scroll with the mouse wheel"@, Tint::TanDark)
            &&& items(r.buttons@) == profile_buttons()
        }),
{
    let query = trim(form.get(Field::HistorySearch));
    let user: Option<&UserInfo> = match &account.profile {
        Some(p) => Some(&p.user),
        None => match &account.user {
            Some(u) => Some(u),
            None => None,
        },
    };
    let none = String::new();
    proof {
        assert(none@ =~= Seq::<char>::empty());
    }
    let (name, elo, wins, losses): (String, i32, i32, i32) = match user {
        Some(u) => (u.username.clone(), u.elo, u.wins, u.losses),
        None => (none, 0, 0, 0),
    };
    let elo = show_signed(elo as i64);
    let elo = cat(elo.as_str(), " ELO");
    let w = show_signed(wins as i64);
    let l = show_signed(losses as i64);
    let mut record = cat3(w.as_str(), "W - ", l.as_str());
    record.append("L");
    let games: i64 = wins as i64 + losses as i64;
    let rate = if games > 0 {
        let p = show_percentage(wins as i64, games);
        cat(p.as_str(), "% win rate")
    } else {
        owned("no ranked games yet")
    };
    let mut rank: Option<String> = None;
    let mut rows: Vec<HistoryRow> = Vec::new();
    let mut note: Option<String> = None;
    proof {
        assert(rows_view(rows@) =~= Seq::<HistoryRowView>::empty());
    }
    match &account.profile {
        Some(p) => {
            if let Some(n) = p.rank {
                let n = show(n as u64);
                rank = Some(cat3("(#", n.as_str(), ")"));
            }
            rows = history_rows(&p.matches, comp_only, query.as_str());
            proof {
                assert(rows_view(rows@).len() == rows@.len());
            }
            if p.matches.len() == 0 {
                note = Some(
                    owned("no matches yet: play a competitive match, or a round of quick play"),
                );
            } else if rows.len() == 0 {
                note = Some(
                    if query.as_str().is_empty() {
                        owned("no competitive matches yet")
                    } else {
                        cat3("no matches against \"", query.as_str(), "\"")
                    },
                );
            }
        },
        None => {
            note = Some(
                owned(
                    if account.busy() {
                        "loading..."
                    } else {
                        ""
                    },
                ),
            );
        },
    }
    let buttons: Vec<Item> = vec![
        button("change username", UiAction::OpenChangeUsername),
        button("change password", UiAction::OpenChangePassword),
        button("log out", UiAction::Logout),
    ];
    proof {
        assert(items(buttons@) =~= profile_buttons());
    }
    let top: Vec<Item> = vec![Item::BackArrow, Item::SoldierIcon];
    proof {
        assert(items(top@) =~= seq![ItemView::BackArrow, ItemView::SoldierIcon]);
    }
    ProfileScreen {
        top,
        history: heading("MATCH HISTORY", Tint::Orange),
        search: field(Field::HistorySearch, "search opponent"),
        hint: label("scroll with the mouse wheel", Tint::TanDark),
        name,
        rank,
        elo,
        record,
        rate,
        filter: Item::Switch {
            left: owned("COMP"),
            right: owned("ALL"),
            first: comp_only,
            action: UiAction::HistoryFilter,
        },
        rows,
        note,
        buttons,
    }
}

// ---- the queue and the downloads ----

pub open spec fn queue_kind(account: AccountView) -> QueueKind {
    match account.queue {
        Some(q) => q.kind,
        None => QueueKind::Competitive,
    }
}

pub open spec fn own_elo(account: AccountView) -> int {
    match account.user {
        Some(u) => u.elo as int,
        None => 0,
    }
}

/// The queue screen; its two status lines are kept ticking.
pub open spec fn queue_items(account: AccountView, link: Seq<char>) -> Seq<ItemView> {
    let size = queue_size_text(account.queue);
    let name = account.shown_name();
    let end = seq![
        button_item("Cancel"@, UiAction::CancelQueue),
        label_item("Esc to cancel"@, Tint::TanDark),
    ];
    match queue_kind(account) {
        QueueKind::Competitive => seq![
            heading_item("COMPETITIVE"@, Tint::Orange),
            ItemView::SoldierIcon,
            heading_item("SEARCHING FOR A GAME..."@, Tint::TanLight),
            label_item(size, Tint::TanLight),
            label_item(
                "playing as "@ + name + " ("@ + signed_decimal(own_elo(account)) + " ELO)"@,
                Tint::OffWhite,
            ),
        ] + end,
        QueueKind::Quick => seq![
            heading_item("QUICK PLAY"@, Tint::Orange),
            ItemView::SoldierIcon,
            heading_item("SEARCHING FOR A GAME..."@, Tint::TanLight),
            label_item(size, Tint::TanLight),
            label_item("playing as "@ + name, Tint::OffWhite),
            label_item(
                "invite a friend: anyone who opens this link joins the quick play queue"@,
                Tint::OffWhite,
            ),
            ItemView::Link(link),
        ] + end,
    }
}

/// The queue screen. `link` is an invite: whoever opens it lands in the quick play queue too.
pub fn queue_screen(account: &Account, link: &str) -> (r: Vec<Item>)
    ensures
        items(r@) == queue_items(account@, link@),
{
    let kind = match &account.queue {
        Some(q) => q.kind,
        None => QueueKind::Competitive,
    };
    let name = account.display_name();
    let mut who = cat("playing as ", name.as_str());
    let mut v: Vec<Item> = Vec::new();
    put(
        &mut v,
        heading(
            match kind {
                QueueKind::Competitive => "COMPETITIVE",
                QueueKind::Quick => "QUICK PLAY",
            },
            Tint::Orange,
        ),
    );
    put(&mut v, Item::SoldierIcon);
    put(&mut v, heading("SEARCHING FOR A GAME...", Tint::TanLight));
    let size = queue_size_label(account);
    put(&mut v, label(size.as_str(), Tint::TanLight));
    match kind {
        QueueKind::Competitive => {
            let elo: i32 = match &account.user {
                Some(u) => u.elo,
                None => 0,
            };
            let elo = show_signed(elo as i64);
            who.append(" (");
            who.append(elo.as_str());
            who.append(" ELO)");
            put(&mut v, label(who.as_str(), Tint::OffWhite));
        },
        QueueKind::Quick => {
            put(&mut v, label(who.as_str(), Tint::OffWhite));
            put(
                &mut v,
                label(
                    "invite a friend: anyone who opens this link joins the quick play queue",
                    Tint::OffWhite,
                ),
            );
            put(&mut v, Item::Link(owned(link)));
        },
    }
    put(&mut v, button("Cancel", UiAction::CancelQueue));
    put(&mut v, label("Esc to cancel", Tint::TanDark));
    proof {
        assert(items(v@) =~= queue_items(account@, link@));
    }
    v
}

pub open spec fn download_items() -> Seq<ItemView> {
    seq![
        ItemView::BackArrow,
        title_item("DOWNLOAD"@, Tint::TanLight),
        button_item(Platform::Windows.label_text(), UiAction::Download(Platform::Windows)),
        button_item(Platform::Linux.label_text(), UiAction::Download(Platform::Linux)),
    ]
}

/// The desktop builds, one button per platform.
pub fn download_screen() -> (r: Vec<Item>)
    ensures
        items(r@) == download_items(),
{
    let v: Vec<Item> = vec![
        Item::BackArrow,
        title("DOWNLOAD", Tint::TanLight),
        button(Platform::Windows.label(), UiAction::Download(Platform::Windows)),
        button(Platform::Linux.label(), UiAction::Download(Platform::Linux)),
    ];
    proof {
        assert(items(v@) =~= download_items());
    }
    v
}

// ---- waiting for the opponent ----

/// A player's name with the rating behind it.
pub open spec fn rated(name: Seq<char>, elo: int) -> Seq<char> {
    name + " ("@ + signed_decimal(elo) + ")"@
}

fn show_rated(name: &str, elo: i32) -> (r: String)
    ensures
        r@ == rated(name@, elo as int),
{
    let elo = show_signed(elo as i64);
    let mut s = cat3(name, " (", elo.as_str());
    s.append(")");
    s
}

/// The waiting panel.
pub open spec fn connecting_items(
    kind: Option<MatchKind>,
    code: Seq<char>,
    account: AccountView,
    web: bool,
    link: Seq<char>,
    server: Seq<char>,
) -> Seq<ItemView> {
    let top = match kind {
        Some(MatchKind::Ranked(info)) => seq![
            heading_item("RANKED MATCH"@, Tint::Orange),
            ItemView::Versus {
                me: rated(account.shown_name(), own_elo(account)),
                them: rated(info.opponent@, info.opponent_elo as int),
            },
            label_item("ft5; leaving early ffs"@, Tint::OffWhite),
        ],
        Some(MatchKind::Quick(info)) => seq![
            heading_item("QUICK PLAY"@, Tint::Orange),
            ItemView::Versus { me: account.shown_name(), them: info.opponent@ },
            label_item("unranked"@, Tint::OffWhite),
        ],
        _ => seq![
            heading_item("PRIVATE ROOM"@, Tint::Orange),
            ItemView::Code(spaced(code, ROOM_CODE_LEN as nat)),
            label_item(
                if web {
                    "share this link to invite someone:"@
                } else {
                    "share this code to invite someone:"@
                },
                Tint::OffWhite,
            ),
            ItemView::Link(link),
        ],
    };
    top + seq![
        label_item("matchmaking via "@ + server, Tint::TanDark),
        ItemView::SoldierIcon,
        heading_item("CONNECTING TO MATCHMAKING..."@, Tint::TanLight),
        label_item("Esc to cancel"@, Tint::TanDark),
    ]
}

/// The waiting panel: who plays whom, or the room's code and the link to it. `link` is the join
/// link, which is a link on the web and the bare code on desktop.
pub fn setup_connecting(
    kind: &Option<MatchKind>,
    code: &str,
    account: &Account,
    web: bool,
    link: &str,
    server: &str,
) -> (r: Vec<Item>)
    ensures
        items(r@) == connecting_items(*kind, code@, account@, web, link@, server@),
{
    let name = account.display_name();
    let mut v: Vec<Item> = match kind {
        Some(MatchKind::Ranked(info)) => {
            let elo: i32 = match &account.user {
                Some(u) => u.elo,
                None => 0,
            };
            vec![
                heading("RANKED MATCH", Tint::Orange),
                Item::Versus {
                    me: show_rated(name.as_str(), elo),
                    them: show_rated(info.opponent.as_str(), info.opponent_elo),
                },
                label("ft5; leaving early ffs", Tint::OffWhite),
            ]
        },
        Some(MatchKind::Quick(info)) => vec![
            heading("QUICK PLAY", Tint::Orange),
            Item::Versus { me: name, them: info.opponent.clone() },
            label("unranked", Tint::OffWhite),
        ],
        _ => vec![
            heading("PRIVATE ROOM", Tint::Orange),
            Item::Code(code_display(code, ROOM_CODE_LEN)),
            label(
                if web {
                    "share this link to invite someone:"
                } else {
                    "share this code to invite someone:"
                },
                Tint::OffWhite,
            ),
            Item::Link(owned(link)),
        ],
    };
    let via = cat("matchmaking via ", server);
    put(&mut v, label(via.as_str(), Tint::TanDark));
    put(&mut v, Item::SoldierIcon);
    put(&mut v, heading("CONNECTING TO MATCHMAKING...", Tint::TanLight));
    put(&mut v, label("Esc to cancel", Tint::TanDark));
    proof {
        assert(items(v@) =~= connecting_items(*kind, code@, account@, web, link@, server@));
    }
    v
}

/// Lobby status line: reaching the matchmaking server first, then waiting for the other player.
pub open spec fn phase_text(
    failure: Option<RoomFailure>,
    peer_status: Option<Seq<char>>,
    opponent_found: bool,
    connected: bool,
) -> Seq<char> {
    if failure == Some(RoomFailure::Checking) {
        "CHECKING THE ROOM..."@
    } else if peer_status is Some {
        "OPPONENT FOUND, CONNECTING... ("@ + peer_status->0 + ")"@
    } else if opponent_found {
        "OPPONENT FOUND, CONNECTING..."@
    } else if connected {
        "WAITING FOR THE OPPONENT..."@
    } else {
        "CONNECTING TO MATCHMAKING..."@
    }
}

/// Lobby status line. `peer_status`: the browser's state of the direct connection to the opponent
/// while it comes up.
pub fn connecting_phase(
    failure: Option<RoomFailure>,
    peer_status: &Option<String>,
    opponent_found: bool,
    connected: bool,
) -> (r: String)
    ensures
        r@ == phase_text(failure, opt(*peer_status), opponent_found, connected),
{
    let checking = match failure {
        Some(f) => f == RoomFailure::Checking,
        None => false,
    };
    if checking {
        return owned("CHECKING THE ROOM...");
    }
    if let Some(state) = peer_status {
        return cat3("OPPONENT FOUND, CONNECTING... (", state.as_str(), ")");
    }
    owned(
        if opponent_found {
            "OPPONENT FOUND, CONNECTING..."
        } else if connected {
            "WAITING FOR THE OPPONENT..."
        } else {
            "CONNECTING TO MATCHMAKING..."
        },
    )
}

/// What the error box says: a title and a hint; nothing while the room is still being checked.
pub open spec fn failure_text(failure: RoomFailure, web: bool) -> Option<(Seq<char>, Seq<char>)> {
    match failure {
        RoomFailure::Full => Some(
            ("ERROR: ROOM IS FULL."@, "two players are already in this room."@),
        ),
        RoomFailure::Refused => Some(
            (
                "ERROR: COULD NOT JOIN THE ROOM."@,
                "the matchmaking server refused the connection. wait a moment and try again."@,
            ),
        ),
        RoomFailure::Unreachable => Some(
            (
                "ERROR: CANNOT REACH THE MATCHMAKING SERVER."@,
                "try again once the server is back."@,
            ),
        ),
        RoomFailure::Outdated => Some(
            (
                "ERROR: THIS BUILD IS OUT OF DATE."@,
                if web {
                    "reload the page (Ctrl+Shift+R) to get the current version."@
                } else {
                    "update the client to the current version."@
                },
            ),
        ),
        RoomFailure::Timeout => Some(
            (
                "NOBODY JOINED."@,
                "the room was closed after "@ + decimal(LOBBY_TIMEOUT_MINUTES as nat)
                    + " minutes without an opponent. Create a new one when you are both ready."@,
            ),
        ),
        RoomFailure::PeerUnreachable => Some(
            (
                "ERROR: COULD NOT CONNECT TO THE OPPONENT."@,
                "the opponent was found but no connection between you came up."@,
            ),
        ),
        RoomFailure::Checking => None,
    }
}

pub open spec fn box_view(b: Option<(String, String)>) -> Option<(Seq<char>, Seq<char>)> {
    match b {
        Some((t, h)) => Some((t@, h@)),
        None => None,
    }
}

/// Once the room reports an error the waiting panel is replaced by a short error box with an OK
/// button. Says what the box reads.
pub fn failure_box(failure: RoomFailure, web: bool) -> (r: Option<(String, String)>)
    ensures
        box_view(r) == failure_text(failure, web),
{
    match failure {
        RoomFailure::Full => Some(
            (owned("ERROR: ROOM IS FULL."), owned("two players are already in this room.")),
        ),
        RoomFailure::Refused => Some(
            (
                owned("ERROR: COULD NOT JOIN THE ROOM."),
                owned(
                    "the matchmaking server refused the connection. wait a moment and try again.",
                ),
            ),
        ),
        RoomFailure::Unreachable => Some(
            (
                owned("ERROR: CANNOT REACH THE MATCHMAKING SERVER."),
                owned("try again once the server is back."),
            ),
        ),
        RoomFailure::Outdated => Some(
            (
                owned("ERROR: THIS BUILD IS OUT OF DATE."),
                owned(
                    if web {
                        "reload the page (Ctrl+Shift+R) to get the current version."
                    } else {
                        "update the client to the current version."
                    },
                ),
            ),
        ),
        RoomFailure::Timeout => {
            let n = show(LOBBY_TIMEOUT_MINUTES);
            Some(
                (
                    owned("NOBODY JOINED."),
                    cat3(
                        "the room was closed after ",
                        n.as_str(),
                        " minutes without an opponent. Create a new one when you are both ready.",
                    ),
                ),
            )
        },
        RoomFailure::PeerUnreachable => Some(
            (
                owned("ERROR: COULD NOT CONNECT TO THE OPPONENT."),
                owned("the opponent was found but no connection between you came up."),
            ),
        ),
        RoomFailure::Checking => None,
    }
}

/// The error box comes up once for a failure. `shown`: it is up. What comes back is the box to put
/// up.
pub fn connecting_screen(failure: Option<RoomFailure>, shown: &mut bool, web: bool) -> (r: Option<
    (String, String),
>)
    ensures
        *final(shown) == (failure is Some && failure->0 != RoomFailure::Checking),
        box_view(r) == if *final(shown) && !*old(shown) {
            failure_text(failure->0, web)
        } else {
            None
        },
{
    match failure {
        Some(f) => {
            if f == RoomFailure::Checking {
                *shown = false;
                return None;
            }
            if *shown {
                return None;
            }
            *shown = true;
            failure_box(f, web)
        },
        None => {
            *shown = false;
            None
        },
    }
}

/// A queue's button counts its own players, in games and waiting, and says nothing before the server
/// does.
pub proof fn law_what_a_queue_button_counts(s: Stats, kind: QueueKind)
    ensures
        count_text(None, kind).len() == 0,
        count_text(Some(s), QueueKind::Quick) == "("@ + decimal(
            (s.quick.playing + s.quick.waiting) as nat,
        ) + " players)"@,
        count_text(Some(s), QueueKind::Competitive) == "("@ + decimal(
            (s.competitive.playing + s.competitive.waiting) as nat,
        ) + " players)"@,
        online_text(None).len() == 0,
        s.online == 1 ==> online_text(Some(s)) == "1 player online"@,
        s.online != 1 ==> online_text(Some(s)) == decimal(s.online as nat) + " players online"@,
{
}

/// The queue screen counts how long the player has been waiting, in minutes and seconds, and who is
/// ahead of them, if anyone; the size of the queue shows once the server has said it.
pub proof fn law_what_the_queue_screen_counts(q: QueueView, minutes: nat, seconds: nat, now: u64)
    requires
        seconds < 60,
        now - q.since == 1_000_000_000 * (60 * minutes + seconds),
    ensures
        q.position <= 1 ==> queue_status_text(Some(q), now) == "SEARCHING FOR A GAME... "@
            + decimal(minutes) + ":"@ + zero_padded(decimal(seconds), 2),
        q.position > 1 ==> queue_status_text(Some(q), now) == "SEARCHING FOR A GAME... "@ + decimal(
            minutes,
        ) + ":"@ + zero_padded(decimal(seconds), 2) + (" ("@ + decimal((q.position - 1) as nat)
            + " ahead)"@),
        q.waiting == 0 ==> queue_size_text(Some(q)).len() == 0,
        q.waiting > 0 ==> queue_size_text(Some(q)) == decimal(q.playing as nat) + " playing, "@
            + decimal(q.waiting as nat) + " in queue"@,
{
    let secs = elapsed(q.since, now) / SECOND as int;
    assert(secs == 60 * minutes + seconds);
    assert(secs / 60 == minutes && secs % 60 == seconds);
    let base = "SEARCHING FOR A GAME... "@ + decimal(minutes) + ":"@ + zero_padded(
        decimal(seconds),
        2,
    );
    assert(base + Seq::<char>::empty() =~= base);
}

/// The corner shows who is logged in, with the way to the profile and the rating, or else the way to
/// log in and the name to play under.
pub proof fn law_what_the_corner_shows(u: UserInfo)
    ensures
        identity_items(Some(u)).len() == 3,
        identity_items(Some(u))[1] == (ItemView::Button {
            label: u.username@,
            action: UiAction::OpenProfile,
            press: PressView::Enabled,
        }),
        identity_items(Some(u))[2] == (ItemView::Label {
            text: signed_decimal(u.elo as int) + " ELO"@,
            tint: Tint::OffWhite,
        }),
        identity_items(None)[0] == (ItemView::Button {
            label: "[ log in ]"@,
            action: UiAction::OpenLogin,
            press: PressView::Enabled,
        }),
        identity_items(None)[1] == (ItemView::Field { field: Field::AnonName, caption: "name"@ }),
{
}

/// The banner's button works at once in a browser, and on the desktop once the package is there.
pub proof fn law_when_the_update_button_works(status: StatusView, web: bool)
    ensures
        ({
            let b = banner_items(status, web);
            &&& b[2] matches ItemView::Button { action, press, .. } && action == UiAction::Update
                && (press == PressView::Enabled <==> web || status.ready())
            &&& b.len() == if !web && status.state != SignalState::Outdated {
                4int
            } else {
                3
            }
        }),
{
}

/// Playing online is out of the question while the server is down or runs another protocol;
/// matchmaking takes an account besides. A new build alone keeps no one from playing.
pub proof fn law_when_online_play_is_off(status: StatusView, logged_in: bool, web: bool)
    ensures
        offline_text(status, web) is Some <==> status.state == SignalState::Down || status.state
            == SignalState::Outdated,
        ranked_offline_text(status, logged_in, web) is Some <==> status.state == SignalState::Down
            || status.state == SignalState::Outdated || !logged_in,
        offline_text(status, web) is Some ==> ranked_offline_text(status, logged_in, web)
            == offline_text(status, web),
        status.state == SignalState::Down ==> offline_text(status, web) == Some(
            "cannot connect to matchmaking servers."@,
        ),
{
}

/// The tab of the page on show stands out from the other, and reaches over the border.
pub proof fn law_which_tab_stands_out(tab: Tab, i: int, selected: Tab)
    requires
        0 <= i <= 1,
    ensures
        ({
            let t = tab_look(tab, i, selected);
            &&& t.on <==> tab == selected
            &&& t.tab == tab
            &&& t.left + t.width == 48
            &&& t.left == 0 <==> t.on
            &&& t.top == 18 + 67 * i
            &&& t.on ==> t.rest == t.hover
            &&& !t.on ==> t.rest != t.hover
        }),
{
}

/// A line of the leaderboard is the player's own: place, name, rating, wins, losses; the first place
/// and the player's own name stand out.
pub proof fn law_what_a_leaderboard_line_says(e: LeaderboardEntry, me: Option<Seq<char>>)
    ensures
        ({
            let r = leaderboard_row_of(e, me);
            &&& r.place == "#"@ + decimal(e.rank as nat)
            &&& r.name == e.username@
            &&& r.elo == signed_decimal(e.elo as int)
            &&& r.wins == decimal(e.wins as nat)
            &&& r.losses == decimal(e.losses as nat)
            &&& r.place_tint == Tint::Yellow <==> e.rank == 1
            &&& r.name_tint == Tint::Yellow <==> me == Some(e.username@)
            &&& e.wins == 0 && e.losses == 0 ==> r.win_rate == "0%"@
            &&& e.wins > 0 && e.losses == 0 ==> r.win_rate == decimal(100) + "%"@
            &&& e.wins == 0 && e.losses > 0 ==> r.win_rate == decimal(0) + "%"@
        }),
{
    if e.wins > 0 && e.losses == 0 {
        let w = e.wins as int;
        crate::single::law_nearest_is_nearest(100 * w, w);
        assert((100 * w) % w == 0) by {
            vstd::arithmetic::div_mod::lemma_mod_multiples_basic(100, w);
        }
        let q = nearest(100 * w, w);
        assert(q == 100) by (nonlinear_arith)
            requires
                w * q == 100 * w,
                w > 0,
        ;
    }
    if e.wins == 0 && e.losses > 0 {
        let w = e.losses as int;
        crate::single::law_nearest_is_nearest(0, w);
        assert(0int % w == 0) by {
            vstd::arithmetic::div_mod::lemma_small_mod(0, w as nat);
        }
        let q = nearest(0, w);
        assert(q == 0) by (nonlinear_arith)
            requires
                w * q == 0,
                w > 0,
        ;
    }
}

/// The leaderboard's note stands in for the lines where there are none, and nowhere else.
pub proof fn law_when_the_leaderboard_has_a_note(a: AccountView)
    ensures
        leaderboard_note(a) is None <==> (a.leaderboard matches Some(lb) && lb.players@.len() > 0),
        a.leaderboard is None && a.error is None ==> leaderboard_note(a) == Some("loading..."@),
        page_of(None) == (1u32, 1u32),
        a.leaderboard matches Some(lb) ==> page_of(a.leaderboard) == (lb.page, lb.pages),
{
}

/// The result popup says who won and how, in the colour of it, and the rating's change once it is
/// settled; its button dismisses it.
pub proof fn law_what_the_popup_says(r: RankedResult)
    ensures
        ({
            let p = result_items(r);
            let won = r.ending == Ending::Won || r.ending == Ending::OpponentLeft;
            let tint = if won {
                Tint::Yellow
            } else {
                Tint::LightRed
            };
            &&& p.len() == 3
            &&& p[0] == ItemView::Title {
                text: match r.ending {
                    Ending::Won => "YOU WON!"@,
                    Ending::Lost => "YOU LOST!"@,
                    Ending::OpponentLeft => "OPPONENT LEFT! YOU WON!"@,
                    Ending::WeLeft => "YOU LEFT! YOU LOST!"@,
                },
                tint,
            }
            &&& r.rating matches Rating::Settled(d) ==> p[1] == ItemView::Heading {
                text: with_sign(d as int) + " ELO"@,
                tint,
            }
            &&& !(r.rating is Settled) ==> p[1] is Label
            &&& p[2] == ItemView::Button {
                label: "OK"@,
                action: UiAction::ResultOk,
                press: PressView::Enabled,
            }
        }),
{
}

/// A warning about Ctrl comes up in a browser only, where Ctrl is bound, unless fullscreen keeps it
/// in the game.
pub proof fn law_when_ctrl_is_warned_about(s: SettingsView, web: bool, can_lock: bool)
    ensures
        ctrl_text(s, web, can_lock) is Some <==> web && !(can_lock && s.fullscreen) && (is_ctrl(
            s.bindings.forward,
        ) || is_ctrl(s.bindings.back) || is_ctrl(s.bindings.left) || is_ctrl(s.bindings.right)
            || is_ctrl(s.bindings.jump) || is_ctrl(s.bindings.crouch) || is_ctrl(s.bindings.fire)),
{
}

/// The settings show each switch as it stands, both sensitivities only where they are apart, and the
/// input delay only where the game does not pick it.
pub proof fn law_what_the_settings_show(s: SettingsView, web: bool, can_lock: bool)
    ensures
        ({
            let m = mouse_items(s);
            let n = m.len() as int;
            let k = machine_items(s, web, can_lock);
            &&& n == if s.separate_sensitivity {
                6int
            } else {
                5
            }
            &&& m[1] matches ItemView::Slide { slider, .. } && slider == Slider::Sens(Axis::X)
            &&& s.separate_sensitivity ==> (m[2] matches ItemView::Slide { slider, .. } && slider
                == Slider::Sens(Axis::Y))
            &&& m[n - 3] matches ItemView::Toggle { on, action, .. } && on
                == s.separate_sensitivity && action == UiAction::SeparateSensitivity
            &&& m[n - 2] matches ItemView::Toggle { on, action, .. } && on == s.invert_y && action
                == UiAction::InvertY
            &&& k[1] matches ItemView::Launchers { stock, .. } && (stock <==> s.weapon
                == Weapon::Stock)
            &&& k[3] matches ItemView::Slide { slider, .. } && slider == Slider::Volume
            &&& k[5] matches ItemView::Toggle { on, action, .. } && on == s.adaptive_delay && action
                == UiAction::AdaptiveDelay
            &&& !s.adaptive_delay ==> (k[6] matches ItemView::Slide { slider, .. } && slider
                == Slider::InputDelay)
            &&& k.len() == 6 + (if s.adaptive_delay {
                0int
            } else {
                1
            }) + (if web {
                3int
            } else {
                0
            })
        }),
{
}

/// Each key row shows what its action is bound to, or that it is listened for.
pub proof fn law_what_a_key_row_shows(s: SettingsView, a: Action, listening: Option<Action>)
    ensures
        key_item(s, a, listening) matches ItemView::Key { bind, value, listening: l } && bind == a
            && (l <==> listening == Some(a)) && (l ==> value == "PRESS A KEY"@) && (!l ==> value
            == s.bindings.of(a).label()),
{
}

/// The line of a form: that it is working before anything else, then what went wrong, then what went
/// well.
pub proof fn law_what_a_form_line_says(a: AccountView)
    ensures
        a.waiting() ==> status_line_text(a) == ("working..."@, Tint::TanLight),
        !a.waiting() && a.error is Some ==> status_line_text(a) == (a.error->0, Tint::LightRed),
        !a.waiting() && a.error is None && a.notice is Some ==> status_line_text(a) == (
            a.notice->0,
            Tint::OffWhite,
        ),
        !a.waiting() && a.error is None && a.notice is None ==> status_line_text(a).0.len() == 0,
{
}

/// Whether a field is on a screen.
pub open spec fn asks(items: Seq<ItemView>, f: Field) -> bool {
    exists|i: int|
        0 <= i < items.len() && (#[trigger] items[i] matches ItemView::Field { field, .. } && field
            == f)
}

/// Each form asks for what its own button sends.
pub proof fn law_what_each_form_asks_for(a: AccountView, now: u64)
    ensures
        asks(form_items(UiScreen::Login, a, now), Field::Login),
        asks(form_items(UiScreen::Login, a, now), Field::Password),
        asks(form_items(UiScreen::Register, a, now), Field::Email),
        asks(form_items(UiScreen::Register, a, now), Field::Username),
        asks(form_items(UiScreen::Register, a, now), Field::Password),
        asks(form_items(UiScreen::Register, a, now), Field::Password2),
        asks(form_items(UiScreen::Verify, a, now), Field::Code),
        asks(form_items(UiScreen::Forgot, a, now), Field::Email),
        asks(form_items(UiScreen::Reset, a, now), Field::Code),
        asks(form_items(UiScreen::Reset, a, now), Field::Password),
        asks(form_items(UiScreen::Reset, a, now), Field::Password2),
        asks(form_items(UiScreen::ChangeUsername, a, now), Field::NewUsername),
        asks(form_items(UiScreen::ChangePassword, a, now), Field::CurrentPassword),
        asks(form_items(UiScreen::ChangePassword, a, now), Field::Password),
        asks(form_items(UiScreen::ChangePassword, a, now), Field::Password2),
        form_items(UiScreen::Main, a, now).len() == 0,
{
    assert(form_items(UiScreen::Login, a, now)[1] == field_item(
        Field::Login,
        "username or email"@,
    ));
    assert(form_items(UiScreen::Login, a, now)[2] == field_item(Field::Password, "password"@));
    let r = form_items(UiScreen::Register, a, now);
    assert(r[1] is Field && r[2] is Field && r[3] is Field && r[4] is Field);
    let v = form_items(UiScreen::Verify, a, now);
    assert(v[2] is Field);
    let g = form_items(UiScreen::Forgot, a, now);
    assert(g[2] is Field);
    let s = form_items(UiScreen::Reset, a, now);
    assert(s[2] is Field && s[3] is Field && s[4] is Field);
    let u = form_items(UiScreen::ChangeUsername, a, now);
    assert(u[1] is Field);
    let p = form_items(UiScreen::ChangePassword, a, now);
    assert(p[1] is Field && p[2] is Field && p[3] is Field);
}

/// Another code can be asked for, on the two screens that wait for one, once the wait is over and
/// nothing is under way.
pub proof fn law_when_resend_works(a: AccountView, now: u64)
    ensures
        form_items(UiScreen::Verify, a, now).last() matches ItemView::Button { action, press, .. }
            && action == UiAction::Resend && (press == PressView::Enabled <==> now >= a.resend_at
            && !a.waiting()),
        form_items(UiScreen::Reset, a, now).last() matches ItemView::Button { action, press, .. }
            && action == UiAction::Resend && (press == PressView::Enabled <==> now >= a.resend_at
            && !a.waiting()),
{
}

/// The profile shows the player that was fetched, or else who is logged in; a share of wins where
/// there are games; and a note where no match is listed.
pub proof fn law_what_the_profile_shows(a: AccountView, comp_only: bool, query: Seq<char>, wins: int)
    ensures
        a.profile matches Some(p) ==> profile_user(a) == Some(p.user),
        a.profile is None ==> profile_user(a) == a.user,
        rate_text(0, 0) == "no ranked games yet"@,
        wins > 0 ==> rate_text(wins, 0) == percentage(wins, wins) + "% win rate"@,
        a.profile matches Some(p) ==> (history_note(a, comp_only, query) is None <==> p.matches@.len()
            > 0 && listed_rows(p.matches@, comp_only, query).len() > 0),
        a.profile is None && a.waiting() ==> history_note(a, comp_only, query) == Some(
            "loading..."@,
        ),
        a.profile is None && !a.waiting() ==> history_note(a, comp_only, query) == Some(""@),
        (a.profile matches Some(p) && p.matches@.len() > 0 && listed_rows(
            p.matches@,
            comp_only,
            query,
        ).len() == 0 && query.len() > 0) ==> history_note(a, comp_only, query) == Some(
            "no matches against \""@ + query + "\""@,
        ),
        record_text(wins, 0) == signed_decimal(wins) + "W - "@ + signed_decimal(0) + "L"@,
{
}

/// The queue screen is that of the queue the player is in; only quick play has a link to share.
pub proof fn law_which_queue_is_shown(a: AccountView, link: Seq<char>)
    ensures
        a.queue matches Some(q) ==> queue_kind(a) == q.kind,
        (a.queue matches Some(q) && q.kind == QueueKind::Quick) ==> queue_items(a, link)[0]
            == heading_item("QUICK PLAY"@, Tint::Orange) && queue_items(a, link)[6]
            == ItemView::Link(link),
        (a.queue matches Some(q) && q.kind == QueueKind::Competitive) ==> queue_items(a, link)[0]
            == heading_item("COMPETITIVE"@, Tint::Orange),
        queue_items(a, link).len() >= 2,
        queue_items(a, link)[queue_items(a, link).len() - 2] == button_item(
            "Cancel"@,
            UiAction::CancelQueue,
        ),
{
}

/// While connecting, a ranked match shows both players with their ratings, quick play both names,
/// and a private room the code and the link.
pub proof fn law_what_connecting_shows(
    info: crate::account::MatchInfo,
    quick: crate::account::QuickMatch,
    code: Seq<char>,
    a: AccountView,
    web: bool,
    link: Seq<char>,
    server: Seq<char>,
)
    ensures
        connecting_items(Some(MatchKind::Ranked(info)), code, a, web, link, server)[1]
            == (ItemView::Versus {
            me: rated(a.shown_name(), own_elo(a)),
            them: rated(info.opponent@, info.opponent_elo as int),
        }),
        connecting_items(Some(MatchKind::Quick(quick)), code, a, web, link, server)[1]
            == (ItemView::Versus { me: a.shown_name(), them: quick.opponent@ }),
        connecting_items(None, code, a, web, link, server)[1] == ItemView::Code(spaced(code, 6)),
        connecting_items(None, code, a, web, link, server)[3] == ItemView::Link(link),
{
}

/// What is said while connecting: the check of the room first, then the opponent, then the wait.
pub proof fn law_what_is_said_while_connecting(
    failure: Option<RoomFailure>,
    peer: Option<Seq<char>>,
    found: bool,
    connected: bool,
)
    ensures
        ({
            let t = phase_text(failure, peer, found, connected);
            let checking = failure == Some(RoomFailure::Checking);
            &&& checking ==> t == "CHECKING THE ROOM..."@
            &&& !checking && peer is Some ==> t == "OPPONENT FOUND, CONNECTING... ("@ + peer->0
                + ")"@
            &&& !checking && peer is None && found ==> t == "OPPONENT FOUND, CONNECTING..."@
            &&& !checking && peer is None && !found && connected ==> t
                == "WAITING FOR THE OPPONENT..."@
            &&& !checking && peer is None && !found && !connected ==> t
                == "CONNECTING TO MATCHMAKING..."@
        }),
{
}

/// Every failure but the one that is still looked into has its box.
pub proof fn law_every_failure_has_its_box(f: RoomFailure, web: bool)
    ensures
        failure_text(f, web) is None <==> f == RoomFailure::Checking,
        f == RoomFailure::Full ==> (failure_text(f, web)->0).0 == "ERROR: ROOM IS FULL."@,
        f == RoomFailure::Refused ==> (failure_text(f, web)->0).0
            == "ERROR: COULD NOT JOIN THE ROOM."@,
        f == RoomFailure::Unreachable ==> (failure_text(f, web)->0).0
            == "ERROR: CANNOT REACH THE MATCHMAKING SERVER."@,
        f == RoomFailure::Outdated ==> (failure_text(f, web)->0).0
            == "ERROR: THIS BUILD IS OUT OF DATE."@,
        f == RoomFailure::Timeout ==> (failure_text(f, web)->0).0 == "NOBODY JOINED."@,
        f == RoomFailure::PeerUnreachable ==> (failure_text(f, web)->0).0
            == "ERROR: COULD NOT CONNECT TO THE OPPONENT."@,
{
}

/// The buttons of the pause menu, of the profile and of the download page.
pub proof fn law_the_buttons_of_the_smaller_screens()
    ensures
        pause_items()[2] == button_item("Resume"@, UiAction::Resume),
        pause_items()[3] == button_item("Settings"@, UiAction::OpenSettings),
        pause_items()[4] == button_item("Leave match"@, UiAction::Leave),
        profile_buttons()[0] == button_item("change username"@, UiAction::OpenChangeUsername),
        profile_buttons()[1] == button_item("change password"@, UiAction::OpenChangePassword),
        profile_buttons()[2] == button_item("log out"@, UiAction::Logout),
        download_items()[2] == button_item(
            "Windows"@,
            UiAction::Download(Platform::Windows),
        ),
        download_items()[3] == button_item("Linux"@, UiAction::Download(Platform::Linux)),
{
}

/// The page buttons lead to their page and are greyed where there is none.
pub proof fn law_what_a_page_button_does(label: Seq<char>, page: u32, greyed: bool)
    ensures
        page_button(label, page, greyed) matches ItemView::Button { action, press, .. } && action
            == UiAction::LeaderboardPage(page) && (press == PressView::Enabled <==> !greyed),
{
}

} // verus!
