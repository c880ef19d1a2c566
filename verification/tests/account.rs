//! The account: names, requests to the server and what their answers do.

use endif_client::account::{
    anon_name_from, clean_name, outcome, printable, random_anon_name, report_for, Account, Answer,
    Ending, MatchInfo, Profile, Rating, RankedState, Reply, Req, UserInfo, QUEUE_POLL, RESEND_WAIT,
    RESULT_POLL, RESULT_WAIT, SEARCHING_POLL,
};
use endif_client::config::{ClientConfig, Sources};
use endif_client::game::SimEvent;
use endif_client::menu::UiScreen;
use endif_client::textfield::{push, Field, Form};

const SECOND: u64 = 1_000_000_000;

fn config() -> ClientConfig {
    let mut cfg = ClientConfig::load(&Sources {
        page_signaling: None,
        page_host: None,
        built_in_signaling: None,
        built_in_api: None,
        built_in_ice: None,
        env_signaling: None,
        env_api: None,
        env_ice: None,
        args: Vec::new(),
        search: None,
    });
    cfg.api_override = Some("https://api.example.org".to_string());
    cfg
}

fn account() -> Account {
    Account::load(None, Some("Tester".to_string()), None)
}

fn user(name: &str) -> UserInfo {
    UserInfo { id: 7, username: name.to_string(), email: None, elo: 1500, wins: 3, losses: 4 }
}

fn reply(status: u16, body: &str) -> Reply {
    Reply {
        status,
        body: body.as_bytes().to_vec(),
        user: None,
        profile: Err("missing field `user`".to_string()),
        matched: Err("missing field `match_id`".to_string()),
    }
}

fn info() -> MatchInfo {
    MatchInfo { match_id: 42, room: "ABCDEF".to_string(), slot: 1, opponent: "Other".to_string(), opponent_elo: 1400 }
}

#[test]
fn names_are_cleaned() {
    assert_eq!(clean_name("  Big\tMick \n"), "BigMick");
    assert_eq!(clean_name("abcdefghijklmnopqrstuvwxyz"), "abcdefghijklmnopqrst");
    assert_eq!(clean_name("\u{7}"), "");
    assert_eq!(printable("a\u{0}b\u{1}cd", 3), "abc");
}

#[test]
fn nobody_is_nameless() {
    assert_eq!(anon_name_from(7), "Soldier007");
    assert_eq!(anon_name_from(999), "Soldier999");
    let name = random_anon_name();
    assert!(name.starts_with("Soldier") && name.len() == 10);
    assert_eq!(Account::load(None, Some("Saved".to_string()), Some("Given".to_string())).anon_name, "Given");
    assert_eq!(Account::load(None, Some("Saved".to_string()), None).anon_name, "Saved");
    assert!(Account::load(None, Some("  ".to_string()), None).anon_name.starts_with("Soldier"));
}

#[test]
fn the_account_name_goes_first() {
    let mut a = account();
    assert_eq!(a.display_name(), "Tester");
    assert!(!a.logged_in());
    a.user = Some(user("Ranked"));
    assert_eq!(a.display_name(), "Ranked");
    assert!(a.logged_in());
}

#[test]
fn the_anonymous_name_is_saved_when_it_changes() {
    let mut a = account();
    assert!(!a.set_anon_name("Tester"));
    assert!(!a.set_anon_name("   "));
    assert!(a.set_anon_name(" New "));
    assert_eq!(a.anon_name, "New");
    let mut form = Form::new();
    assert!(!a.sync_anon_name(&form));
    push(&mut form, Field::AnonName, "Typed");
    assert!(a.sync_anon_name(&form));
    assert_eq!(a.anon_name, "Typed");
}

#[test]
fn a_form_is_posted() {
    let mut a = account();
    a.error = Some("old".to_string());
    a.token = Some("t0k".to_string());
    let r = a.login(&config(), "me", "p\"w");
    assert_eq!(r.kind, Req::Login);
    assert_eq!(r.url, "https://api.example.org/api/login");
    assert_eq!(r.body.as_deref(), Some("{\"password\":\"p\\\"w\",\"username\":\"me\"}"));
    assert!(r.headers.contains(&("Content-Type".to_string(), "application/json".to_string())));
    assert!(r.headers.contains(&("Authorization".to_string(), "Bearer t0k".to_string())));
    assert!(a.busy() && a.in_flight(Req::Login) && !a.in_flight(Req::Me));
    assert_eq!(a.error, None);
}

#[test]
fn the_other_forms_are_posted() {
    let cfg = config();
    let mut a = account();
    let r = a.register(&cfg, "me@example.org", "me", "pw");
    assert_eq!(r.url, "https://api.example.org/api/register");
    assert_eq!(a.pending_email, "me@example.org");
    let r = a.verify(&cfg, "123456");
    assert_eq!(r.body.as_deref(), Some("{\"code\":\"123456\",\"email\":\"me@example.org\"}"));
    let r = a.resend(&cfg);
    assert_eq!(r.body.as_deref(), Some("{\"email\":\"me@example.org\"}"));
    let r = a.forgot(&cfg, "you@example.org");
    assert_eq!(r.url, "https://api.example.org/api/forgot");
    let r = a.reset(&cfg, "1", "new");
    assert_eq!(r.body.as_deref(), Some("{\"code\":\"1\",\"email\":\"you@example.org\",\"password\":\"new\"}"));
    assert_eq!(a.change_username(&cfg, "n").url, "https://api.example.org/api/account/username");
    assert_eq!(a.change_password(&cfg, "o", "n").url, "https://api.example.org/api/account/password");
    let r = a.fetch_profile(&cfg, "me");
    assert_eq!(r.url, "https://api.example.org/api/profile/me");
    assert_eq!(r.body, None);
}

#[test]
fn me_is_asked_once() {
    let mut a = account();
    assert!(a.fetch_me(&config()).is_none());
    a.token = Some("t".to_string());
    assert_eq!(a.fetch_me(&config()).unwrap().url, "https://api.example.org/api/me");
    assert!(a.fetch_me(&config()).is_none());
}

#[test]
fn answers_are_told_apart() {
    let bad = |status: u16, body: &str| outcome(&Ok(reply(status, body).read())).unwrap();
    assert_eq!(outcome(&Ok(reply(200, "{}").read())), None);
    assert_eq!(outcome(&Err("dns".to_string())), Some(("cannot reach the server".to_string(), false)));
    assert_eq!(bad(400, "{\"error\":\"wrong password\"}"), ("wrong password".to_string(), false));
    assert_eq!(bad(401, "{\"error\":\"session expired\"}"), ("session expired".to_string(), true));
    assert_eq!(bad(500, "oops"), ("server error (500)".to_string(), false));
    assert_eq!(
        bad(429, ""),
        ("whoa, slow down a little: too many requests; try again in a moment".to_string(), false)
    );
    assert_eq!(bad(503, ""), ("the server is not answering right now; try again in a moment".to_string(), false));
}

#[test]
fn bodies_are_read() {
    let a = reply(200, "{\"status\":\"waiting\",\"position\":3,\"waiting\":5,\"delta\":-12,\"ticket\":\"x\",\"token\":7}").read();
    assert_eq!(a.status.as_deref(), Some("waiting"));
    assert_eq!((a.position, a.waiting, a.delta), (Some(3), Some(5), Some(-12)));
    assert_eq!(a.ticket.as_deref(), Some("x"));
    assert_eq!(a.token, None);
    assert_eq!(a.error, None);
}

fn finish(a: &mut Account, kind: Req, r: Reply, screen: &mut UiScreen) -> endif_client::account::Effects {
    let mut form = Form::new();
    a.finish(kind, Ok(r), screen, &mut form, &config(), 100 * SECOND)
}

#[test]
fn logging_in_leads_to_the_main_menu() {
    let mut a = account();
    let mut screen = UiScreen::Login;
    let mut form = Form::new();
    push(&mut form, Field::Password, "secret");
    let mut r = reply(200, "{\"token\":\"abc\"}");
    r.user = Some(user("me"));
    let e = a.finish(Req::Login, Ok(r), &mut screen, &mut form, &config(), 0);
    assert_eq!(screen, UiScreen::Main);
    assert_eq!(a.token.as_deref(), Some("abc"));
    assert!(a.logged_in());
    assert!(e.save && e.refresh);
    assert_eq!(form.get(Field::Password), "");
}

#[test]
fn a_refused_login_says_why() {
    let mut a = account();
    let mut screen = UiScreen::Login;
    finish(&mut a, Req::Login, reply(401, "{\"error\":\"wrong password\"}"), &mut screen);
    assert_eq!(screen, UiScreen::Login);
    assert_eq!(a.error.as_deref(), Some("wrong password"));
}

#[test]
fn a_dead_session_logs_out() {
    let mut a = account();
    a.token = Some("t".to_string());
    a.user = Some(user("me"));
    let mut screen = UiScreen::Profile;
    let e = finish(&mut a, Req::Profile, reply(401, "{\"error\":\"your session has ended\"}"), &mut screen);
    assert!(!a.logged_in() && a.token.is_none() && e.save);
    assert_eq!(screen, UiScreen::Main);
}

#[test]
fn registering_waits_for_the_code() {
    let mut a = account();
    let mut screen = UiScreen::Register;
    finish(&mut a, Req::Register, reply(200, "{}"), &mut screen);
    assert_eq!(screen, UiScreen::Verify);
    assert_eq!(a.resend_at, 100 * SECOND + RESEND_WAIT);
    assert!(!a.can_resend(100 * SECOND));
    assert!(a.can_resend(100 * SECOND + RESEND_WAIT));
    finish(&mut a, Req::Resend, reply(200, "{}"), &mut screen);
    assert_eq!(a.notice.as_deref(), Some("a new code is on its way"));
}

#[test]
fn a_forgotten_password_says_so_twice() {
    let mut a = account();
    let mut screen = UiScreen::Forgot;
    finish(&mut a, Req::Forgot, reply(200, "{}"), &mut screen);
    assert_eq!((screen, a.notice.as_deref()), (UiScreen::Reset, None));
    finish(&mut a, Req::Forgot, reply(200, "{}"), &mut screen);
    assert_eq!(a.notice.as_deref(), Some("if that address has an account, a new code is on its way"));
}

#[test]
fn a_changed_name_fetches_the_profile() {
    let mut a = account();
    let mut screen = UiScreen::ChangeUsername;
    let mut r = reply(200, "{\"token\":\"t\"}");
    r.user = Some(user("renamed"));
    let e = finish(&mut a, Req::ChangeUsername, r, &mut screen);
    assert_eq!(screen, UiScreen::Profile);
    assert_eq!(a.notice, None);
    assert_eq!(e.requests.len(), 1);
    assert_eq!(e.requests[0].url, "https://api.example.org/api/profile/renamed");
}

#[test]
fn bad_profiles_are_reported() {
    let mut a = account();
    let mut screen = UiScreen::Profile;
    finish(&mut a, Req::Profile, reply(200, "{}"), &mut screen);
    assert_eq!(a.error.as_deref(), Some("bad profile data: missing field `user`"));
    let mut r = reply(200, "{}");
    r.profile = Ok(Profile { user: user("me"), matches: Vec::new(), rank: Some(3) });
    finish(&mut a, Req::Profile, r, &mut screen);
    assert_eq!(a.profile.as_ref().unwrap().rank, Some(3));
}

#[test]
fn a_match_is_found() {
    let mut a = account();
    let cfg = config();
    let mut screen = UiScreen::Queue;
    let r = a.join_queue(&cfg, 0);
    assert_eq!(r.url, "https://api.example.org/api/queue/join");
    a.take_answered(&vec![true]);
    finish(&mut a, Req::QueueJoin, reply(200, "{\"ticket\":\"q1\",\"waiting\":2}"), &mut screen);
    assert_eq!(a.queue.as_ref().unwrap().ticket.as_deref(), Some("q1"));
    let poll = a.queue_tick(screen, &cfg, 0).unwrap();
    assert_eq!(poll.body.as_deref(), Some("{\"ticket\":\"q1\"}"));
    assert!(a.queue_tick(screen, &cfg, QUEUE_POLL - 1).is_none());
    a.take_answered(&vec![true]);
    let mut r = reply(200, "{\"status\":\"matched\"}");
    r.matched = Ok(info());
    let e = finish(&mut a, Req::QueuePoll, r, &mut screen);
    assert_eq!(e.start, Some(info()));
    assert!(a.queue.is_none());
}

#[test]
fn bad_matches_and_expired_tickets() {
    let cfg = config();
    let mut a = account();
    let mut screen = UiScreen::Queue;
    a.join_queue(&cfg, 0);
    finish(&mut a, Req::QueuePoll, reply(200, "{\"status\":\"matched\"}"), &mut screen);
    assert_eq!(a.error.as_deref(), Some("bad match data: missing field `match_id`"));
    assert_eq!(screen, UiScreen::Main);
    a.join_queue(&cfg, 0);
    screen = UiScreen::Queue;
    let e = finish(&mut a, Req::QueuePoll, reply(200, "{\"status\":\"expired\"}"), &mut screen);
    assert_eq!(e.requests.len(), 1);
    assert_eq!(e.requests[0].kind, Req::QueueJoin);
    finish(&mut a, Req::QueuePoll, reply(401, "{\"error\":\"log in\"}"), &mut screen);
    assert_eq!((screen, a.error.as_deref()), (UiScreen::Main, Some("log in")));
}

#[test]
fn leaving_the_queue_screen_leaves_the_queue() {
    let cfg = config();
    let mut a = account();
    a.join_queue(&cfg, 0);
    a.queue.as_mut().unwrap().ticket = Some("q".to_string());
    let r = a.queue_tick(UiScreen::Main, &cfg, 0).unwrap();
    assert_eq!(r.kind, Req::QueueLeave);
    assert!(a.queue.is_none());
    assert!(a.leave_queue(&cfg).is_none());
}

#[test]
fn the_count_of_searchers_is_kept_current() {
    let cfg = config();
    let mut a = account();
    assert!(a.searching_tick(UiScreen::Login, true, &cfg, 0).is_none());
    assert!(a.searching_tick(UiScreen::Main, false, &cfg, 0).is_none());
    assert_eq!(a.searching_tick(UiScreen::Main, true, &cfg, 0).unwrap().kind, Req::QueueCount);
    a.take_answered(&vec![true]);
    assert!(a.searching_tick(UiScreen::Main, true, &cfg, SEARCHING_POLL - 1).is_none());
    let mut screen = UiScreen::Main;
    finish(&mut a, Req::QueueCount, reply(200, "{\"waiting\":4}"), &mut screen);
    assert_eq!(a.searching, Some(4));
    finish(&mut a, Req::QueueCount, reply(500, ""), &mut screen);
    assert_eq!(a.searching, None);
}

#[test]
fn answered_requests_come_out_in_order() {
    let cfg = config();
    let mut a = account();
    a.login(&cfg, "a", "b");
    a.fetch_profile(&cfg, "a");
    a.forgot(&cfg, "a");
    assert_eq!(a.take_answered(&vec![true, false, true]), vec![Req::Login, Req::Forgot]);
    assert_eq!(a.requests, vec![Req::Profile]);
}

#[test]
fn both_sides_report_the_same_result() {
    // Handle 0 in slot 0 against handle 1 in slot 1.
    assert_eq!(report_for(0, 0, (20, 12), 0), ((20, 12), 0));
    assert_eq!(report_for(1, 1, (20, 12), 0), ((20, 12), 0));
    // Handle 0 in slot 1 against handle 1 in slot 0.
    assert_eq!(report_for(1, 0, (20, 12), 0), ((12, 20), 1));
    assert_eq!(report_for(0, 1, (20, 12), 0), ((12, 20), 1));
}

#[test]
fn a_ranked_match_is_reported_once() {
    let cfg = config();
    let mut a = account();
    let mut ranked = RankedState { reported: false, finished_at: None };
    let over = vec![SimEvent::RoundWon { winner: 0, score: [20, 12] }];
    let (sent, leave) = a.ranked_round_end(&info(), 0, &over, &mut ranked, &cfg, SECOND);
    assert_eq!(sent.len(), 1);
    assert_eq!(sent[0].url, "https://api.example.org/api/match/42/report");
    assert_eq!(sent[0].body.as_deref(), Some("{\"score\":[12,20],\"winner\":1}"));
    assert!(!leave);
    assert_eq!(a.result.unwrap().ending, Ending::Won);
    let (sent, leave) = a.ranked_round_end(&info(), 0, &over, &mut ranked, &cfg, 5 * SECOND);
    assert!(sent.is_empty() && leave);
}

#[test]
fn leaving_forfeits() {
    let cfg = config();
    let mut a = account();
    let r = a.ranked_exit(&info(), false, false, Some((3, 2)), 0, &cfg).unwrap();
    assert_eq!(r.body.as_deref(), Some("{\"score\":[2,3],\"winner\":0}"));
    assert_eq!(a.result.unwrap().ending, Ending::WeLeft);
    let r = a.ranked_exit(&info(), true, false, None, 0, &cfg).unwrap();
    assert_eq!(r.body.as_deref(), Some("{\"score\":[0,0],\"winner\":1}"));
    assert!(a.ranked_exit(&info(), true, true, None, 0, &cfg).is_none());
}

#[test]
fn rounds_among_friends_go_into_the_history() {
    let cfg = config();
    let mut a = account();
    let over = vec![SimEvent::RoundWon { winner: 1, score: [7, 20] }];
    assert!(a.casual_round_end("ABCDEF", "Pal", 1, &over, &cfg).is_empty());
    a.user = Some(user("me"));
    let sent = a.casual_round_end("ABCDEF", "  ", 1, &over, &cfg);
    assert_eq!(
        sent[0].body.as_deref(),
        Some("{\"opponent\":\"unknown\",\"room\":\"ABCDEF\",\"score\":[20,7],\"won\":true}")
    );
}

#[test]
fn the_result_is_waited_for() {
    let cfg = config();
    let mut a = account();
    a.set_result(42, Ending::Lost);
    let (r, refresh) = a.result_poll(&cfg, 10 * SECOND);
    assert_eq!(r.unwrap().url, "https://api.example.org/api/match/42");
    assert!(!refresh);
    assert!(a.result_poll(&cfg, 10 * SECOND + RESULT_POLL - 1).0.is_none());
    a.take_answered(&vec![true]);
    let mut screen = UiScreen::Main;
    finish(&mut a, Req::MatchStatus, reply(200, "{\"status\":\"open\"}"), &mut screen);
    assert_eq!(a.result.unwrap().rating, Rating::Pending);
    let e = finish(&mut a, Req::MatchStatus, reply(200, "{\"status\":\"finished\",\"delta\":-14}"), &mut screen);
    assert_eq!(a.result.unwrap().rating, Rating::Settled(-14));
    assert!(e.refresh);
    a.set_result(43, Ending::Won);
    finish(&mut a, Req::MatchStatus, reply(200, "{\"status\":\"void\"}"), &mut screen);
    assert_eq!(a.result.unwrap().rating, Rating::Void);
    a.set_result(44, Ending::Won);
    a.result_poll(&cfg, 0);
    let (r, refresh) = a.result_poll(&cfg, RESULT_WAIT);
    assert!(r.is_none() && refresh);
    assert_eq!(a.result.unwrap().rating, Rating::Unconfirmed);
    a.dismiss_result();
    assert!(a.result.is_none());
}

#[test]
fn a_rejected_token_is_dropped() {
    let mut a = account();
    a.token = Some("t".to_string());
    let mut screen = UiScreen::Main;
    finish(&mut a, Req::Me, reply(500, ""), &mut screen);
    assert!(a.token.is_some());
    finish(&mut a, Req::Me, reply(401, ""), &mut screen);
    assert!(a.token.is_none());
    let mut r = reply(200, "{}");
    r.user = Some(user("me"));
    finish(&mut a, Req::Me, r, &mut screen);
    assert!(a.logged_in());
    a.logout();
    assert!(!a.logged_in());
}

#[test]
fn answers_do_not_reach_past_their_request() {
    let mut a = account();
    let mut screen = UiScreen::Profile;
    let mut form = Form::new();
    let answer = Answer {
        code: 204,
        error: None,
        token: None,
        ticket: None,
        status: None,
        position: None,
        waiting: None,
        delta: None,
        user: None,
        profile: Err(String::new()),
        matched: Err(String::new()),
    };
    let e = a.take_answer(Req::Casual, Ok(answer), &mut screen, &mut form, &config(), 0);
    assert!(e.requests.is_empty() && e.start.is_none() && !e.save);
    assert_eq!(screen, UiScreen::Profile);
}

#[test]
fn cleaning_a_name_twice_changes_nothing_more() {
    let mut a = Account::load(None, Some("Tester".to_string()), None);
    assert!(a.set_anon_name(" \u{7}a name that is much too long \n"));
    assert_eq!(a.anon_name, "a name that is much");
    assert!(!a.set_anon_name("a name that is much"));
    assert_eq!(a.anon_name, "a name that is much");
}
