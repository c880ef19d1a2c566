//! Matchmaking, rooms and sessions.

use endif_client::account::{Account, MatchInfo, QuickMatch};
use endif_client::config::{seed_from_room, ClientConfig, Sources};
use endif_client::net::{
    check_result, classify_failure, handle_net_command, hello, introduce, read_hello, verdict,
    watch_session, BuildIdentity, HttpAnswer, Launch, LobbyAction, LobbyInput, MatchKind, NetCommand,
    PackageBuild, PlayerNames, Presence, PresenceAction, RoomConnection, RoomFailure, SessionEvent,
    SignalState, SignalingStatus, LOBBY_TIMEOUT, PRACTICE_SEED, PRESENCE_RETRY, PROBE_INTERVAL,
    PROBE_RETRY, PROBE_TIMEOUT,
};

const SECOND: u64 = 1_000_000_000;

fn config() -> ClientConfig {
    let mut cfg = ClientConfig::load(&Sources {
        page_signaling: None,
        page_host: None,
        built_in_signaling: None,
        built_in_api: None,
        built_in_ice: None,
        env_signaling: None,
        env_api: None,
        env_ice: None,
        args: Vec::new(),
        search: None,
    });
    cfg.signaling_url = "wss://endif.tf".to_string();
    cfg
}

fn answer(code: u16, body: &str) -> Option<Result<HttpAnswer, String>> {
    Some(Ok(HttpAnswer { code, body: body.as_bytes().to_vec() }))
}

fn ours() -> BuildIdentity {
    BuildIdentity { protocol: "p1".to_string(), build: "b1".to_string() }
}

fn lobby(now: u64) -> LobbyInput {
    LobbyInput {
        loop_ended: None,
        peers_error: None,
        id: None,
        peers: Vec::new(),
        ice_failed: false,
        lookup: None,
        server: SignalState::Up,
        now,
    }
}

#[test]
fn greetings_introduce() {
    let packet = hello("Maggot");
    assert_eq!(read_hello(&packet).as_deref(), Some("Maggot"));
    assert_eq!(read_hello(&vec![9, 65]), None);
    assert_eq!(read_hello(&Vec::new()), None);
    // A name that is no text is mended.
    let mut broken = hello("");
    broken.push(255);
    assert_eq!(read_hello(&broken).as_deref(), Some("\u{fffd}"));
}

#[test]
fn names_go_with_handles() {
    let names = PlayerNames::pair(1, "me".to_string(), "them".to_string());
    assert_eq!((names.first.as_str(), names.second.as_str()), ("them", "me"));
    let (names, packet) = introduce(0, &Some(MatchKind::Quick(QuickMatch { room: "R".to_string(), opponent: "Foe".to_string() })), "me");
    assert_eq!((names.first.as_str(), names.second.as_str()), ("me", "Foe"));
    assert_eq!(read_hello(&packet).as_deref(), Some("me"));
}

#[test]
fn long_names_are_cut_short() {
    let names = PlayerNames { first: "A".to_string(), second: "abcdefghijklmnopqrstuvwxyz".to_string() };
    assert_eq!(names.short(0), "A");
    assert!(names.short(1).chars().count() < 26);
}

#[test]
fn refusals_are_classified() {
    assert_eq!(classify_failure("HTTP error: 401 Unauthorized", SignalState::Up), RoomFailure::Full);
    assert_eq!(classify_failure("426", SignalState::Up), RoomFailure::Outdated);
    assert_eq!(classify_failure("429", SignalState::Up), RoomFailure::Refused);
    assert_eq!(classify_failure("", SignalState::Down), RoomFailure::Unreachable);
    assert_eq!(classify_failure("", SignalState::Outdated), RoomFailure::Outdated);
    assert_eq!(classify_failure("", SignalState::Up), RoomFailure::Checking);
}

#[test]
fn the_room_is_asked() {
    assert_eq!(verdict(Some(2), Some(2)), RoomFailure::Full);
    assert_eq!(verdict(Some(1), Some(2)), RoomFailure::Refused);
    assert_eq!(check_result(&answer(200, "{\"peers\":2,\"max\":2}"), 0, SECOND), Some(RoomFailure::Full));
    assert_eq!(check_result(&Some(Err("dns".to_string())), 0, SECOND), Some(RoomFailure::Unreachable));
    assert_eq!(check_result(&None, 0, SECOND), None);
    assert_eq!(check_result(&None, 0, 60 * SECOND), Some(RoomFailure::Unreachable));
}

#[test]
fn two_peers_start_a_session() {
    let cfg = config();
    let mut room = RoomConnection::new("ABCDEF".to_string());
    assert_eq!(room.poll_room(&lobby(0), &cfg), LobbyAction::Nothing);
    let mut i = lobby(SECOND);
    i.id = Some(5);
    i.peers = vec![9];
    match room.poll_room(&i, &cfg) {
        LobbyAction::Start { local, remote } => {
            assert_eq!(remote, 9);
            let mut other = RoomConnection::new("ABCDEF".to_string());
            let mut j = lobby(SECOND);
            j.id = Some(9);
            j.peers = vec![5];
            match other.poll_room(&j, &cfg) {
                LobbyAction::Start { local: theirs, .. } => assert_eq!(local + theirs, 1),
                a => panic!("{a:?}"),
            }
        }
        a => panic!("{a:?}"),
    }
    room.session_built(true);
    assert!(room.started);
}

#[test]
fn a_lobby_gives_up() {
    let cfg = config();
    let mut room = RoomConnection::new("ABCDEF".to_string());
    let mut i = lobby(0);
    i.id = Some(5);
    room.poll_room(&i, &cfg);
    i.now = LOBBY_TIMEOUT;
    assert_eq!(room.poll_room(&i, &cfg), LobbyAction::Nothing);
    i.now = LOBBY_TIMEOUT + 1;
    assert_eq!(room.poll_room(&i, &cfg), LobbyAction::Close);
    assert_eq!(room.failure, Some(RoomFailure::Timeout));
    i.peers = vec![9];
    assert_eq!(room.poll_room(&i, &cfg), LobbyAction::Nothing);
    assert_eq!(room.failure, Some(RoomFailure::Timeout));
}

#[test]
fn an_unexplained_refusal_is_looked_up() {
    let cfg = config();
    let mut room = RoomConnection::new("ABCDEF".to_string());
    let mut i = lobby(0);
    i.loop_ended = Some(Some("websocket closed".to_string()));
    assert_eq!(room.poll_room(&i, &cfg), LobbyAction::LookUp("https://endif.tf/api/room/ABCDEF".to_string()));
    assert_eq!(room.failure, Some(RoomFailure::Checking));
    i.lookup = answer(200, "{\"peers\":2,\"max\":2}");
    i.now = SECOND;
    room.poll_room(&i, &cfg);
    assert_eq!(room.failure, Some(RoomFailure::Full));
}

#[test]
fn the_server_is_probed() {
    let mut s = SignalingStatus::new();
    let a = s.probe_signaling(&None, &None, &None, &ours(), true, true, 0);
    assert!(a.ask_server);
    let a = s.probe_signaling(&answer(200, "p1"), &answer(200, "b1"), &None, &ours(), true, true, SECOND);
    assert_eq!(s.state, SignalState::Up);
    assert!(a.refresh && a.reload.is_none());
    assert!(!s.update_available("b1"));
    assert!(!s.probe_signaling(&None, &None, &None, &ours(), true, true, SECOND + PROBE_INTERVAL - 1).ask_server);
    assert!(s.probe_signaling(&None, &None, &None, &ours(), true, true, SECOND + PROBE_INTERVAL).ask_server);
    // No answer in time.
    let later = SECOND + PROBE_INTERVAL + PROBE_TIMEOUT + 1;
    s.probe_signaling(&None, &None, &None, &ours(), true, true, later);
    assert!(s.is_down());
    assert!(s.probe_signaling(&None, &None, &None, &ours(), true, true, later + PROBE_RETRY).ask_server);
}

#[test]
fn other_builds_are_noticed() {
    let mut s = SignalingStatus::new();
    s.probe_signaling(&None, &None, &None, &ours(), true, true, 0);
    s.probe_signaling(&answer(200, "p2"), &answer(200, "b2"), &None, &ours(), true, true, SECOND);
    assert!(s.is_outdated());
    assert!(s.update_available("b1"));
    assert!(!s.package_ready());
    let mut w = SignalingStatus::new();
    w.probe_signaling(&None, &None, &None, &ours(), true, false, 0);
    let a = w.probe_signaling(&answer(200, "p2"), &answer(200, "b2"), &None, &ours(), true, false, SECOND);
    assert_eq!(a.reload.as_deref(), Some("b2"));
}

#[test]
fn packages_are_matched_with_the_server() {
    let mut s = SignalingStatus::new();
    s.server_build = Some("b2".to_string());
    s.package_build = PackageBuild::Known("b2".to_string());
    assert!(s.package_ready());
    s.package_build = PackageBuild::Known("b1".to_string());
    assert!(!s.package_ready());
    s.cancel();
    assert!(s.probe.is_none());
}

#[test]
fn commands_lead_to_rooms() {
    let cfg = config();
    let account = Account::load(None, Some("me".to_string()), None);
    let up = SignalingStatus::new();
    let mut down = SignalingStatus::new();
    down.state = SignalState::Down;
    match handle_net_command(NetCommand::JoinRoom("ABCDEF".to_string()), &up, &cfg, &account, "p1") {
        Launch::Room(r) => {
            assert_eq!(r.code, "ABCDEF");
            assert_eq!(r.seed, seed_from_room("ABCDEF"));
            assert_eq!(r.kind, MatchKind::Room { code: "ABCDEF".to_string() });
            assert!(r.url.starts_with("wss://endif.tf"));
        }
        l => panic!("{l:?}"),
    }
    assert_eq!(handle_net_command(NetCommand::JoinRoom("ABC".to_string()), &up, &cfg, &account, "p1"), Launch::Refused);
    assert_eq!(handle_net_command(NetCommand::CreateRoom, &down, &cfg, &account, "p1"), Launch::Refused);
    match handle_net_command(NetCommand::CreateRoom, &up, &cfg, &account, "p1") {
        Launch::Room(r) => assert_eq!(r.code.len(), 6),
        l => panic!("{l:?}"),
    }
    match handle_net_command(NetCommand::Practice, &down, &cfg, &account, "p1") {
        Launch::Practice { seed, names } => {
            assert_eq!(seed, PRACTICE_SEED);
            assert_eq!((names.first.as_str(), names.second.as_str()), ("me", "DUMMY"));
        }
        l => panic!("{l:?}"),
    }
    let info = MatchInfo { match_id: 1, room: "RANKED".to_string(), slot: 0, opponent: "x".to_string(), opponent_elo: 1 };
    match handle_net_command(NetCommand::StartRanked(info), &up, &cfg, &account, "p1") {
        Launch::Room(r) => assert!(matches!(r.kind, MatchKind::Ranked(_)) && r.code == "RANKED"),
        l => panic!("{l:?}"),
    }
    assert_eq!(handle_net_command(NetCommand::Leave, &up, &cfg, &account, "p1"), Launch::ToMenu);
}

#[test]
fn the_session_is_watched() {
    let mut line = String::new();
    assert!(!watch_session(&mut line, SessionEvent::Synchronizing { count: 2, total: 5 }));
    assert_eq!(line, "synchronizing 2/5");
    assert!(!watch_session(&mut line, SessionEvent::Synchronized));
    assert!(!watch_session(&mut line, SessionEvent::WaitRecommendation));
    assert_eq!(line, "connected");
    assert!(!watch_session(&mut line, SessionEvent::Desync { frame: -3 }));
    assert_eq!(line, "desync at frame -3!");
    assert!(watch_session(&mut line, SessionEvent::Disconnected));
    assert_eq!(line, "opponent left");
}

#[test]
fn presence_is_kept_up() {
    let mut p = Presence { open: false, retry_at: 0 };
    assert_eq!(p.keep(false, true, 0), PresenceAction::Nothing);
    assert_eq!(p.keep(false, false, 0), PresenceAction::Open);
    assert_eq!(p.keep(false, false, SECOND), PresenceAction::Nothing);
    assert_eq!(p.keep(true, false, SECOND), PresenceAction::Drop);
    assert_eq!(p.keep(false, false, 2 * SECOND), PresenceAction::Nothing);
    assert_eq!(p.keep(false, false, SECOND + PRESENCE_RETRY), PresenceAction::Open);
}
