//! The menus: what the buttons and keys do, and what the screens show.

use endif_client::account::{
    Account, Activity, Ending, HistoryEntry, Leaderboard, LeaderboardEntry, Profile, QueueKind, Rating,
    RankedResult, Req, Stats, UserInfo,
};
use endif_client::config::{ClientConfig, Sources};
use endif_client::menu::act::{check_form, Menu, MenuEffect, MenuEnv};
use endif_client::menu::history::{history_row, history_rows};
use endif_client::menu::input::{command_held, rows_that_fit, wheel_scroll, DragInput};
use endif_client::menu::screens::{
    build_label, connecting_phase, connecting_screen, count_label, ctrl_note, download_screen, failure_box,
    form_screen, fullscreen_note, identity, leaderboard_row, leaderboard_screen, main_screen,
    offline_reason, online_label, pause_screen, profile_screen, queue_screen, queue_size_label,
    queue_status, result_popup, settings_screen, setup_connecting, status_line, tabs, title_screen,
    Item, Press,
};
use endif_client::menu::{
    back_target, enter_menu, ui_button, ButtonStyle, Platform, Shade, Tab, Touch, UiAction, UiScreen,
};
use endif_client::net::{MatchKind, NetCommand, RoomFailure, SignalState, SignalingStatus};
use endif_client::settings::{Action, Axis, Binding, FruitRules, Held, MouseButton, Settings, Slider, Weapon};
use endif_client::textfield::{Field, TypedKey};
use endif_client::theme::Tint;

const SECOND: u64 = 1_000_000_000;

fn rules() -> FruitRules {
    FruitRules {
        difficulties: vec!["Easy".to_string(), "Hard".to_string()],
        soldiers_min: 1,
        soldiers_max: 10,
        speed_min: 0,
        speed_max: 1000,
        distance_min: 500,
        distance_max: 2000,
        difficulty: 0,
        soldiers: 3,
        speed: 300,
        distance: 1000,
    }
}

fn config() -> ClientConfig {
    let mut cfg = ClientConfig::load(&Sources {
        page_signaling: None,
        page_host: None,
        built_in_signaling: None,
        built_in_api: None,
        built_in_ice: None,
        env_signaling: None,
        env_api: None,
        env_ice: None,
        args: Vec::new(),
        search: None,
    });
    cfg.api_override = Some("https://api.example.org".to_string());
    cfg
}

fn menu() -> Menu {
    Menu::new(Settings::new(&rules(), false), Account::load(None, Some("Tester".to_string()), None))
}

fn env() -> MenuEnv {
    MenuEnv { in_game: false, web: false, now: 0, server_build: Some("b2".to_string()) }
}

fn press(m: &mut Menu, action: UiAction) -> Vec<MenuEffect> {
    m.perform(action, &config(), &rules(), &env());
    m.take_effects()
}

fn user(name: &str) -> UserInfo {
    UserInfo { id: 7, username: name.to_string(), email: None, elo: 1500, wins: 3, losses: 1 }
}

fn typed(s: &str) -> TypedKey {
    TypedKey::Character(s.to_string())
}

fn has_button(items: &[Item], action: UiAction) -> bool {
    items.iter().any(|i| matches!(i, Item::Button { action: a, .. } if *a == action))
}

#[test]
fn buttons_start_matches() {
    let mut m = menu();
    assert_eq!(press(&mut m, UiAction::Practice), vec![MenuEffect::Net(NetCommand::Practice)]);
    assert_eq!(press(&mut m, UiAction::CreateRoom), vec![MenuEffect::Net(NetCommand::CreateRoom)]);
    m.typed = "ABCDEF".to_string();
    assert_eq!(press(&mut m, UiAction::JoinRoom), vec![MenuEffect::Net(NetCommand::JoinRoom("ABCDEF".to_string()))]);
    assert_eq!(press(&mut m, UiAction::Leave), vec![MenuEffect::Net(NetCommand::Leave)]);
}

#[test]
fn competitive_play_is_for_accounts() {
    let mut m = menu();
    m.screen = UiScreen::Main;
    assert!(press(&mut m, UiAction::Competitive).is_empty());
    assert_eq!(m.screen, UiScreen::Main);
    assert!(m.account.queue.is_none());
    m.account.user = Some(user("me"));
    let effects = press(&mut m, UiAction::Competitive);
    assert_eq!(m.screen, UiScreen::Queue);
    assert!(matches!(&effects[..], [MenuEffect::Send(r)] if r.kind == Req::QueueJoin));
}

#[test]
fn switches_switch_back() {
    let mut m = menu();
    let before = m.settings.invert_y;
    assert_eq!(press(&mut m, UiAction::InvertY), vec![MenuEffect::SaveSettings]);
    assert_eq!(m.settings.invert_y, !before);
    press(&mut m, UiAction::InvertY);
    assert_eq!(m.settings.invert_y, before);
    press(&mut m, UiAction::Launcher);
    assert_eq!(m.settings.weapon, Weapon::Original);
    press(&mut m, UiAction::Launcher);
    assert_eq!(m.settings.weapon, Weapon::Stock);
}

#[test]
fn forms_are_checked_before_they_are_sent() {
    let mut m = menu();
    m.screen = UiScreen::Register;
    assert_eq!(check_form(&m.form, UiAction::SubmitRegister), Some("enter your e-mail address"));
    assert_eq!(check_form(&m.form, UiAction::SubmitLogin), Some("enter your username and password"));
    assert_eq!(check_form(&m.form, UiAction::SubmitVerify), Some("the code has 6 digits"));
    assert_eq!(check_form(&m.form, UiAction::SubmitForgot), Some("enter your e-mail address"));
    assert_eq!(check_form(&m.form, UiAction::SubmitReset), Some("the code has 6 digits"));
    assert_eq!(check_form(&m.form, UiAction::SubmitUsername), Some("the username needs at least 3 characters"));
    assert_eq!(check_form(&m.form, UiAction::SubmitPassword), Some("enter your current password"));
    let effects = press(&mut m, UiAction::SubmitRegister);
    assert!(effects.is_empty() && m.account.error.is_some());
    m.form.set(Field::Email, "me@example.org".to_string());
    m.form.set(Field::Username, "me".to_string());
    assert_eq!(check_form(&m.form, UiAction::SubmitRegister), Some("the username needs at least 3 characters"));
    m.form.set(Field::Username, "myself".to_string());
    assert_eq!(check_form(&m.form, UiAction::SubmitRegister), Some("the password needs at least 8 characters"));
    m.form.set(Field::Password, "longenough".to_string());
    assert_eq!(check_form(&m.form, UiAction::SubmitRegister), Some("the passwords do not match"));
    m.form.set(Field::Password2, "longenough".to_string());
    let effects = press(&mut m, UiAction::SubmitRegister);
    assert!(matches!(&effects[..], [MenuEffect::Send(r)] if r.kind == Req::Register), "{effects:?}");
    // Nothing is sent twice while it is on its way.
    assert!(press(&mut m, UiAction::SubmitRegister).is_empty());
}

#[test]
fn screens_lead_back() {
    assert_eq!(back_target(UiScreen::Verify, false), UiScreen::Register);
    assert_eq!(back_target(UiScreen::ChangePassword, false), UiScreen::Profile);
    assert_eq!(back_target(UiScreen::Settings { from_game: true }, true), UiScreen::Pause);
    assert_eq!(back_target(UiScreen::Settings { from_game: false }, false), UiScreen::Main);
    let mut ret = Some(UiScreen::Queue);
    assert_eq!(enter_menu(&mut ret), UiScreen::Queue);
    assert_eq!(enter_menu(&mut ret), UiScreen::Main);
}

#[test]
fn escape_pauses_and_goes_back() {
    let cfg = config();
    let mut m = menu();
    m.screen = UiScreen::Hidden;
    m.escape_key(true, false, true, &cfg);
    assert_eq!(m.screen, UiScreen::Pause);
    m.escape_key(true, false, true, &cfg);
    assert_eq!(m.screen, UiScreen::Hidden);
    m.screen = UiScreen::Login;
    m.escape_key(true, false, false, &cfg);
    assert_eq!(m.screen, UiScreen::Main);
    m.escape_key(false, false, false, &cfg);
    assert_eq!(m.screen, UiScreen::Main);
}

#[test]
fn values_can_be_typed() {
    let mut m = menu();
    m.screen = UiScreen::Settings { from_game: false };
    press(&mut m, UiAction::EditValue(Slider::Volume));
    assert!(m.editing.is_some());
    m.editing = Some((Slider::Volume, String::new()));
    m.edit_value_keys(&vec![typed("4"), typed("x"), typed("2")], false, &rules());
    assert_eq!(m.value_text(Slider::Volume).0, "42_");
    m.edit_value_keys(&vec![TypedKey::Enter], true, &rules());
    assert!(m.editing.is_some());
    m.edit_value_keys(&vec![TypedKey::Enter], false, &rules());
    assert_eq!(m.settings.volume, 42);
    assert!(m.editing.is_none());
}

#[test]
fn sliders_are_dragged() {
    let mut m = menu();
    let mut active = None;
    let at = DragInput { just_pressed: true, down: true, over: Some(Slider::Volume), along: Some(500_000) };
    m.slider_drag(&mut active, at, &rules());
    assert_eq!(active, Some(Slider::Volume));
    assert_eq!(m.settings.volume, 50);
    let off = DragInput { just_pressed: false, down: false, over: None, along: None };
    m.slider_drag(&mut active, off, &rules());
    assert_eq!(active, None);
    assert!(m.take_effects().contains(&MenuEffect::SaveSettings));
}

#[test]
fn keys_are_bound() {
    let mut m = menu();
    press(&mut m, UiAction::Bind(Action::Jump));
    assert_eq!(m.listening, Some(Action::Jump));
    m.capture_binding(&vec!["KeyJ".to_string()], &vec![]);
    assert_eq!(m.settings.bindings.get(Action::Jump), &Binding::Key("KeyJ".to_string()));
    assert_eq!(m.listening, None);
    press(&mut m, UiAction::Bind(Action::Jump));
    m.capture_binding(&vec![], &vec![MouseButton::Right]);
    assert_eq!(m.settings.bindings.get(Action::Jump), &Binding::Mouse(MouseButton::Right));
}

#[test]
fn defaults_come_back() {
    let mut m = menu();
    m.settings.volume = 3;
    m.settings.set_separate_sensitivity(true);
    let effects = press(&mut m, UiAction::ResetDefaults);
    assert!(effects.contains(&MenuEffect::SaveSettings));
    assert_eq!(m.settings.volume, 75);
    assert!(!m.settings.separate_sensitivity);
}

#[test]
fn codes_are_typed_and_pasted() {
    let mut m = menu();
    m.screen = UiScreen::Main;
    m.type_code(&vec![typed("a"), typed("1"), typed("b"), TypedKey::Backspace, typed("c")], false, false);
    assert_eq!(m.typed, "AC");
    m.type_code(&vec![typed("v")], true, false);
    assert_eq!(m.typed, "AC");
    assert!(m.apply_paste("https://endif.tf/?room=lkjqwe"));
    assert_eq!(m.typed, "LKJQWE");
    m.take_effects();
    m.type_code(&vec![TypedKey::Enter], false, true);
    assert!(m.take_effects().is_empty());
    m.type_code(&vec![TypedKey::Enter], false, false);
    assert_eq!(m.take_effects(), vec![MenuEffect::Net(NetCommand::JoinRoom("LKJQWE".to_string()))]);
    let held = Held { keys: vec!["ControlLeft".to_string()], mouse: vec![] };
    assert!(command_held(&held));
    m.paste_shortcut(&held, true);
    assert_eq!(m.take_effects(), vec![MenuEffect::ReadClipboard]);
}

#[test]
fn an_invitation_is_acted_on_once() {
    let mut cfg = config();
    cfg.initial_room = Some("ABCDEF".to_string());
    let mut m = menu();
    m.auto_join(&mut cfg, 0);
    let effects = m.take_effects();
    assert!(effects.contains(&MenuEffect::Net(NetCommand::JoinRoom("ABCDEF".to_string()))), "{effects:?}");
    assert!(effects.contains(&MenuEffect::ForgetJoin));
    m.auto_join(&mut cfg, 0);
    assert!(m.take_effects().is_empty());
}

#[test]
fn quick_play_waits_in_its_queue() {
    let mut m = menu();
    let at = env().now;
    assert_eq!(press(&mut m, UiAction::QuickPlay), vec![MenuEffect::JoinQuick]);
    assert_eq!(m.screen, UiScreen::Queue);
    let queue = m.account.queue.as_ref().unwrap();
    assert_eq!(queue.kind, QueueKind::Quick);
    assert_eq!(queue.since, at);
    let shown = queue_screen(&m.account, "https://endif.tf/?qp");
    assert!(matches!(&shown[0], Item::Heading { text, .. } if text == "QUICK PLAY"), "{shown:?}");
}

#[test]
fn a_quick_play_link_queues_once() {
    let mut cfg = config();
    cfg.initial_quick = true;
    let mut m = menu();
    m.auto_join(&mut cfg, 5 * SECOND);
    assert_eq!(m.take_effects(), vec![MenuEffect::JoinQuick, MenuEffect::ForgetJoin]);
    assert_eq!(m.screen, UiScreen::Queue);
    assert_eq!(m.account.queue.as_ref().map(|q| (q.kind, q.since)), Some((QueueKind::Quick, 5 * SECOND)));
    m.auto_join(&mut cfg, 6 * SECOND);
    assert!(m.take_effects().is_empty());
}

#[test]
fn the_lobby_can_be_left() {
    let mut m = menu();
    assert!(m.connecting_keys(None, true, false, false, false));
    assert!(!m.connecting_keys(None, false, true, false, false));
    assert!(!m.connecting_keys(Some(RoomFailure::Full), false, true, false, true));
    assert!(m.connecting_keys(Some(RoomFailure::Full), false, true, false, false));
}

#[test]
fn updates_are_launched() {
    let mut m = menu();
    assert_eq!(press(&mut m, UiAction::Update), vec![MenuEffect::LaunchUpdater("b2".to_string())]);
    assert!(m.updater_started(Ok(())));
    assert!(!m.updater_started(Err("no updater".to_string())));
    assert_eq!(m.account.error.as_deref(), Some("no updater"));
    m.perform(UiAction::Update, &config(), &rules(), &MenuEnv { web: true, ..env() });
    assert_eq!(m.take_effects(), vec![MenuEffect::Reload]);
}

#[test]
fn tabs_and_pages() {
    let mut m = menu();
    m.screen = UiScreen::Main;
    press(&mut m, UiAction::OpenTab(Tab::Leaderboard));
    assert_eq!(m.screen, Tab::Leaderboard.screen());
    m.rows = Some(10);
    m.leaderboard_fetch(false);
    assert_eq!(m.take_effects(), vec![MenuEffect::FetchLeaderboard { page: 1, per: 10 }]);
    assert_eq!(press(&mut m, UiAction::LeaderboardPage(3)), vec![MenuEffect::FetchLeaderboard { page: 3, per: 10 }]);
    assert_eq!(rows_that_fit(0), 1);
    assert_eq!(rows_that_fit(10_000_000_000), 50);
    let strip = tabs(Tab::Menu);
    assert_eq!(strip.tabs.len(), 2);
    assert!(strip.tabs[0].on && !strip.tabs[1].on);
}

#[test]
fn panes_scroll_within_their_content() {
    assert_eq!(wheel_scroll(100, 30, 1_000), 70);
    assert_eq!(wheel_scroll(100, 300, 1_000), 0);
    assert_eq!(wheel_scroll(900, -300, 1_000), 1_000);
}

#[test]
fn buttons_have_their_looks() {
    assert_eq!(ui_button(UiAction::Practice, Touch::Pressed, true), (Some(Shade::Disabled), false));
    assert_eq!(ui_button(UiAction::Practice, Touch::Pressed, false), (Some(Shade::Active), true));
    assert_eq!(ui_button(UiAction::Practice, Touch::Hovered, false), (Some(Shade::Hover), false));
    assert_eq!(UiAction::Practice.style(), ButtonStyle::Plain);
    assert_eq!(Platform::Windows.label(), "Windows");
    assert!(UiScreen::Pause.blocks_game_input() && !UiScreen::Main.blocks_game_input());
    assert_eq!(UiScreen::Login.submit_action(), Some(UiAction::SubmitLogin));
}

#[test]
fn counts_are_shown() {
    let stats = Some(Stats {
        online: 1,
        competitive: Activity { playing: 2, waiting: 3 },
        quick: Activity { playing: 4, waiting: 0 },
    });
    assert_eq!(count_label(stats, QueueKind::Competitive), "(5 players)");
    assert_eq!(count_label(stats, QueueKind::Quick), "(4 players)");
    assert_eq!(count_label(None, QueueKind::Quick), "");
    assert_eq!(online_label(stats), "1 player online");
    assert_eq!(online_label(None), "");
}

#[test]
fn the_queue_says_how_it_goes() {
    let cfg = config();
    let mut a = Account::load(None, Some("Tester".to_string()), None);
    assert_eq!(queue_status(&a, 0), "SEARCHING FOR A GAME...");
    a.join_queue(&cfg, 0);
    assert_eq!(queue_status(&a, 65 * SECOND), "SEARCHING FOR A GAME... 1:05");
    if let Some(q) = a.queue.as_mut() {
        q.position = 3;
        q.waiting = 4;
        q.playing = 6;
    }
    assert_eq!(queue_status(&a, 0), "SEARCHING FOR A GAME... 0:00 (2 ahead)");
    assert_eq!(queue_size_label(&a), "6 playing, 4 in queue");
    assert!(has_button(&queue_screen(&a, "link"), UiAction::CancelQueue));
}

#[test]
fn offline_play_is_always_there() {
    let a = Account::load(None, Some("Tester".to_string()), None);
    let mut down = SignalingStatus::new();
    down.state = SignalState::Down;
    assert_eq!(offline_reason(&down, false).as_deref(), Some("cannot connect to matchmaking servers."));
    let items = main_screen(&a, "AB", &down, "b1", false);
    for i in &items {
        if let Item::Button { action, press, .. } = i {
            match action {
                UiAction::CreateRoom | UiAction::JoinRoom => assert!(matches!(press, Press::GreyedBecause(_))),
                UiAction::Practice => assert_eq!(press, &Press::Enabled),
                _ => {}
            }
        }
    }
    assert!(items.contains(&Item::Code("A B _ _ _ _".to_string())));
    let mut up = SignalingStatus::new();
    up.state = SignalState::Up;
    assert_eq!(offline_reason(&up, false), None);
}

#[test]
fn titles_show_who_plays() {
    let mut a = Account::load(None, Some("Tester".to_string()), None);
    let t = title_screen(&a, "abcdef0123", "p1", true);
    assert!(t.download.is_some());
    assert_eq!(t.logo, Item::Title { text: "endif.tf".to_string(), tint: Tint::Orange });
    assert_eq!(t.error, "");
    assert!(!build_label("abcdef0123", "p1").is_empty());
    assert!(has_button(&identity(&a), UiAction::OpenLogin));
    a.user = Some(user("me"));
    assert!(!has_button(&identity(&a), UiAction::OpenLogin));
}

#[test]
fn leaderboards_are_listed() {
    let e = LeaderboardEntry { rank: 1, username: "me".to_string(), elo: 1700, wins: 2, losses: 1 };
    let row = leaderboard_row(&e, &Some("me".to_string()));
    assert_eq!((row.place.as_str(), row.win_rate.as_str(), row.name_tint), ("#1", "67%", Tint::Yellow));
    let mut a = Account::load(None, Some("Tester".to_string()), None);
    assert_eq!(leaderboard_screen(&a).note.as_deref(), Some("loading..."));
    a.leaderboard = Some(Leaderboard { players: vec![e], page: 2, pages: 3 });
    let s = leaderboard_screen(&a);
    assert_eq!((s.rows.len(), s.note), (1, None));
    assert_eq!(s.title, Item::Title { text: "LEADERBOARD".to_string(), tint: Tint::TanLight });
    let headings: Vec<Item> = ["#", "PLAYER", "ELO", "W - L", "WIN%"]
        .into_iter()
        .map(|h| Item::Heading { text: h.to_string(), tint: Tint::TanDark })
        .collect();
    assert_eq!(s.headings, headings);
    assert!(matches!(s.next, Item::Button { action: UiAction::LeaderboardPage(3), press: Press::Enabled, .. }));
    assert!(matches!(s.prev, Item::Button { action: UiAction::LeaderboardPage(1), press: Press::Enabled, .. }));
}

#[test]
fn results_pop_up() {
    let r = RankedResult { match_id: 1, ending: Ending::OpponentLeft, rating: Rating::Settled(12), since: None, next_poll: 0 };
    let items = result_popup(&r);
    assert_eq!(items[0], Item::Title { text: "OPPONENT LEFT! YOU WON!".to_string(), tint: Tint::Yellow });
    assert_eq!(items[1], Item::Heading { text: "+12 ELO".to_string(), tint: Tint::Yellow });
    assert!(has_button(&items, UiAction::ResultOk));
}

#[test]
fn settings_are_listed() {
    let s = Settings::new(&rules(), true);
    let items = settings_screen(&s, Some(Action::Jump), true, false);
    assert!(items.iter().any(|i| matches!(i, Item::Key { bind: Action::Jump, listening: true, .. })));
    assert!(items.iter().any(|i| matches!(i, Item::Slide { slider: Slider::Sens(Axis::X), .. })));
    let mut s = s;
    for n in 10..=1000 {
        s.sensitivity_x = n;
        let degrees: f32 = 0.022 * (n as f32 / 100.0);
        let want = format!("{degrees:.3} deg per count at TF2 m_yaw 0.022");
        let shown = settings_screen(&s, None, false, false);
        assert!(shown.iter().any(|i| matches!(i, Item::Label { text, .. } if *text == want)), "{n}: {want}");
    }
    s.sensitivity_x = 125;
    let shown = settings_screen(&s, None, false, false);
    assert!(shown.iter().any(|i| matches!(i, Item::Label { text, .. } if text.starts_with("0.027 deg"))));
    assert!(fullscreen_note(&s, false, true).is_none());
    assert!(fullscreen_note(&s, true, true).is_some());
    let mut c = Settings::new(&rules(), true);
    c.bindings.set(Action::Crouch, Binding::Key("ControlLeft".to_string()));
    assert!(ctrl_note(&c, true, false).is_some());
    assert!(ctrl_note(&c, false, false).is_none());
    assert!(has_button(&pause_screen(), UiAction::Resume));
    assert!(!download_screen().is_empty());
}

#[test]
fn every_form_has_its_button() {
    let a = Account::load(None, Some("Tester".to_string()), None);
    for screen in [UiScreen::Login, UiScreen::Register, UiScreen::Verify, UiScreen::Forgot, UiScreen::Reset] {
        let items = form_screen(screen, &a, 0);
        assert!(has_button(&items, screen.submit_action().unwrap()), "{screen:?}");
    }
    let mut b = Account::load(None, Some("Tester".to_string()), None);
    b.error = Some("oops".to_string());
    assert_eq!(status_line(&b), ("oops".to_string(), Tint::LightRed));
}

fn entry(opponent: &str, ranked: bool) -> HistoryEntry {
    HistoryEntry {
        id: 1,
        ranked,
        opponent: opponent.to_string(),
        my_score: 5,
        their_score: 3,
        won: true,
        my_elo: Some(1510),
        their_elo: Some(1490),
        delta: Some(10),
        played_at: 951_782_400,
    }
}

#[test]
fn the_history_is_filtered() {
    let row = history_row(&entry("Pal", false));
    assert_eq!((row.date.as_str(), row.result.as_str(), row.tint), ("2000-02-29", "WIN", Tint::Yellow));
    assert_eq!((row.change.as_str(), row.ratings.as_str()), ("", "casual"));
    let row = history_row(&HistoryEntry { won: false, delta: Some(-7), ..entry("Pal", true) });
    assert_eq!((row.result.as_str(), row.tint), ("LOSS", Tint::LightRed));
    assert_eq!((row.change.as_str(), row.ratings.as_str()), ("-7", "1510 → 1503"));
    let all = vec![entry("Alice", true), entry("Bob", false)];
    assert_eq!(history_rows(&all, false, "").len(), 2);
    assert_eq!(history_rows(&all, true, "").len(), 1);
    assert_eq!(history_rows(&all, false, "bb").len(), 1);
    let mut m = menu();
    m.account.profile = Some(Profile { user: user("me"), matches: all, rank: Some(4) });
    let p = profile_screen(&m.account, &m.form, false);
    assert_eq!((p.name.as_str(), p.record.as_str(), p.rate.as_str()), ("me", "3W - 1L", "75% win rate"));
    assert_eq!(p.rows.len(), 2);
    assert_eq!(p.top, vec![Item::BackArrow, Item::SoldierIcon]);
    assert_eq!(p.history, Item::Heading { text: "MATCH HISTORY".to_string(), tint: Tint::Orange });
    assert_eq!(p.search, Item::Field { field: Field::HistorySearch, caption: "search opponent".to_string() });
    assert_eq!(p.hint, Item::Label { text: "scroll with the mouse wheel".to_string(), tint: Tint::TanDark });
    m.form.set(Field::HistorySearch, "zzz".to_string());
    let p = profile_screen(&m.account, &m.form, false);
    assert_eq!(p.note.as_deref(), Some("no matches against \"zzz\""));
}

#[test]
fn the_lobby_is_shown() {
    let a = Account::load(None, Some("Tester".to_string()), None);
    let kind = Some(MatchKind::Room { code: "ABCDEF".to_string() });
    let items = setup_connecting(&kind, "ABCDEF", &a, false, "ABCDEF", "wss://endif.tf");
    assert!(items.contains(&Item::Code("A B C D E F".to_string())));
    assert_eq!(connecting_phase(None, &None, false, true), "WAITING FOR THE OPPONENT...");
    assert_eq!(connecting_phase(None, &Some("checking".to_string()), true, true), "OPPONENT FOUND, CONNECTING... (checking)");
    assert_eq!(failure_box(RoomFailure::Checking, false), None);
    let (title, _) = failure_box(RoomFailure::Full, false).unwrap();
    assert_eq!(title, "ERROR: ROOM IS FULL.");
    let mut shown = false;
    assert!(connecting_screen(Some(RoomFailure::Timeout), &mut shown, false).unwrap().1.contains("30 minutes"));
    assert!(connecting_screen(Some(RoomFailure::Timeout), &mut shown, false).is_none());
}

#[test]
fn screens_are_rebuilt_when_something_changed() {
    let mut m = menu();
    m.refresh = false;
    assert!(!m.rebuild_ui(false, false));
    m.refresh = true;
    m.form.set(Field::Password, "hunter22".to_string());
    m.form.set(Field::Email, "a@b.c".to_string());
    assert!(m.rebuild_ui(false, false));
    assert_eq!(m.form.get(Field::Password), "hunter22");
    assert!(m.rebuild_ui(true, false));
    assert_eq!(m.form.get(Field::Password), "");
    assert_eq!(m.form.get(Field::Email), "a@b.c");
    let mut last = String::new();
    m.refresh = false;
    m.screen = UiScreen::Profile;
    m.form.set(Field::HistorySearch, "x".to_string());
    m.history_search(&mut last);
    assert!(m.refresh);
    m.enter_game();
    assert_eq!(m.screen, UiScreen::Hidden);
}

#[test]
fn enter_sends_the_form() {
    let mut m = menu();
    m.screen = UiScreen::Forgot;
    m.form.set(Field::Email, "me@example.org".to_string());
    m.form_submit(&config(), &rules(), &env());
    assert!(m.take_effects().is_empty());
    m.form.submitted = true;
    m.form_submit(&config(), &rules(), &env());
    let effects = m.take_effects();
    assert!(matches!(&effects[..], [MenuEffect::Send(r)] if r.kind == Req::Forgot), "{effects:?}");
}

#[test]
fn the_resend_button_comes_back() {
    let mut m = menu();
    m.screen = UiScreen::Verify;
    m.account.resend_at = 10 * SECOND;
    let mut was_ready = None;
    m.resend_timer(&mut was_ready, 0);
    m.refresh = false;
    m.resend_timer(&mut was_ready, 5 * SECOND);
    assert!(!m.refresh);
    m.resend_timer(&mut was_ready, 10 * SECOND);
    assert!(m.refresh);
}

#[test]
fn leaving_the_menu_and_the_match() {
    let mut m = menu();
    m.form.set_focus(Some(Field::AnonName));
    m.leave_menu();
    assert_eq!(m.form.focus, None);
    m.screen = UiScreen::Pause;
    m.listening = Some(Action::Jump);
    m.leave_game();
    assert_eq!((m.screen, m.listening), (UiScreen::Hidden, None));
}
