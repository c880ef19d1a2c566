//! The client's configuration: server addresses, invite links and room codes.

use endif_client::config::{
    code_from_text, default_signaling, forget_join_in_url, generate_room_code, http_base,
    normalize_room_code, parse_ice, parse_query, room_code_from, seed_from_room, ClientConfig, Page,
    Sources, DEFAULT_ICE, DEFAULT_SIGNALING, ROOM_CODE_LEN,
};

fn sources() -> Sources {
    Sources {
        page_signaling: None,
        page_host: None,
        built_in_signaling: None,
        built_in_api: None,
        built_in_ice: None,
        env_signaling: None,
        env_api: None,
        env_ice: None,
        args: Vec::new(),
        search: None,
    }
}

fn config() -> ClientConfig {
    ClientConfig::load(&sources())
}

fn args(list: &[&str]) -> Vec<String> {
    list.iter().map(|s| s.to_string()).collect()
}

#[test]
fn ice_list_parses_stun_and_turn_entries() {
    let mut cfg = config();
    cfg.ice = "stun:a:1, turn:b:3478|user|pass ,stun:c:2".to_string();
    let ice = cfg.ice_servers();
    assert_eq!(ice.urls, vec!["stun:a:1", "turn:b:3478", "stun:c:2"]);
    assert_eq!(ice.username.as_deref(), Some("user"));
    assert_eq!(ice.credential.as_deref(), Some("pass"));
}

#[test]
fn api_follows_the_signaling_server_unless_overridden() {
    let mut cfg = config();
    cfg.api_override = None;
    cfg.signaling_url = "wss://signal.example.org/".to_string();
    assert_eq!(cfg.api_url(), "https://signal.example.org");
    assert_eq!(cfg.version_url(), "https://signal.example.org/version");
    assert_eq!(cfg.build_url(), "https://signal.example.org/build");
    cfg.api_override = Some("https://api.example.org/".to_string());
    assert_eq!(cfg.api_url(), "https://api.example.org");
}

#[test]
fn desktop_quick_play_link_points_at_the_site() {
    let mut cfg = config();
    cfg.signaling_url = "wss://endif.tf".to_string();
    assert_eq!(cfg.quick_play_link(&None), "https://endif.tf/?qp");
    assert_eq!(cfg.presence_url("0123abcd"), format!("wss://endif.tf/presence?v={}", "0123abcd"));
}

#[test]
fn pasted_links_and_codes_both_yield_the_code() {
    assert_eq!(code_from_text("https://endif.tf/?room=ABCDEF&server=wss://x"), "ABCDEF");
    assert_eq!(code_from_text("  abcdef\n"), "ABCDEF");
    assert_eq!(code_from_text("room=lkjqwe"), "LKJQWE");
}

#[test]
fn normalizer_keeps_valid_letters_verbatim() {
    assert_eq!(normalize_room_code("lkjq"), "LKJQ");
    assert_eq!(normalize_room_code("a-b c1o0"), "ABCO");
    assert_eq!(normalize_room_code("il1"), "IL");
    assert_eq!(normalize_room_code("ABCDEFGH"), "ABCDEF");
}

#[test]
fn normalizing_twice_changes_nothing() {
    for s in ["a-b c1o0", "", "zzz999zzzz", "Ünïcode"] {
        let once = normalize_room_code(s);
        assert_eq!(normalize_room_code(&once), once);
    }
}

#[test]
fn join_links_carry_the_code() {
    let mut cfg = config();
    cfg.signaling_url = "wss://endif.tf".to_string();
    assert_eq!(cfg.join_link(&None, "ABCDEF"), "ABCDEF");
    let page = Some(Page {
        origin: "https://endif.tf".to_string(),
        path: "/".to_string(),
        default_server: "wss://endif.tf".to_string(),
    });
    assert_eq!(code_from_text(&cfg.join_link(&page, "ABCDEF")), "ABCDEF");
}

#[test]
fn page_links_name_another_server() {
    let mut cfg = config();
    cfg.signaling_url = "wss://other.example".to_string();
    let page = Some(Page {
        origin: "https://endif.tf".to_string(),
        path: "/".to_string(),
        default_server: "wss://endif.tf".to_string(),
    });
    let link = cfg.join_link(&page, "ABCDEF");
    assert_eq!(link, "https://endif.tf/?room=ABCDEF&server=wss://other.example");
    cfg.signaling_url = "wss://endif.tf".to_string();
    assert_eq!(cfg.join_link(&page, "ABCDEF"), "https://endif.tf/?room=ABCDEF");
    assert_eq!(cfg.quick_play_link(&page), "https://endif.tf/?qp");
}

#[test]
fn room_codes_are_drawn_from_the_alphabet() {
    let code = room_code_from(&vec![0, 1, 2, 3, 4, 5]);
    assert_eq!(code.len(), ROOM_CODE_LEN);
    assert_eq!(normalize_room_code(&code), code);
    for _ in 0..20 {
        let code = generate_room_code();
        assert_eq!(code.len(), ROOM_CODE_LEN);
        assert_eq!(normalize_room_code(&code), code);
    }
}

#[test]
fn seeds_are_fnv_of_the_code() {
    assert_eq!(seed_from_room(""), 0xcbf2_9ce4_8422_2325);
    assert_eq!(seed_from_room("a"), 0xaf63_dc4c_8601_ec8c);
    assert_ne!(seed_from_room("ABCDEF"), seed_from_room("ABCDEG"));
}

#[test]
fn http_addresses_follow_the_socket_address() {
    assert_eq!(http_base("wss://endif.tf"), "https://endif.tf");
    assert_eq!(http_base("ws://127.0.0.1:3536"), "http://127.0.0.1:3536");
}

#[test]
fn empty_ice_lists_fall_back() {
    let mut cfg = config();
    cfg.ice = String::new();
    let fallback = cfg.ice_servers();
    let built_in = parse_ice(DEFAULT_ICE);
    assert_eq!(fallback.urls, built_in.urls);
    assert_eq!(fallback.username, built_in.username);
    assert!(!fallback.urls.is_empty());
    let plain = parse_ice("stun:a:1");
    assert_eq!(plain.urls, vec!["stun:a:1"]);
    assert_eq!(plain.username, None);
    assert_eq!(plain.credential, None);
}

#[test]
fn a_link_is_found_in_a_longer_text() {
    assert_eq!(code_from_text("  come and play: https://endif.tf/?room=ABCDEF&x=1 \n"), "ABCDEF");
    assert_eq!(code_from_text("\troo room=abc234 zzz"), "ABC234");
}

#[test]
fn the_server_is_looked_up_in_order() {
    let mut s = sources();
    assert_eq!(default_signaling(&s), DEFAULT_SIGNALING);
    s.built_in_signaling = Some("wss://built.in".to_string());
    assert_eq!(ClientConfig::load(&s).signaling_url, "wss://built.in");
    s.page_signaling = Some("wss://page".to_string());
    s.page_host = Some(("play.example.org".to_string(), true));
    assert_eq!(default_signaling(&s), "wss://built.in");
    s.built_in_signaling = None;
    assert_eq!(default_signaling(&s), "wss://page");
    s.page_signaling = Some("__SIGNALING__".to_string());
    assert!(default_signaling(&s).starts_with("wss://play.example.org"));
    s.env_signaling = Some("wss://env".to_string());
    assert_eq!(ClientConfig::load(&s).signaling_url, "wss://env");
    s.args = args(&["endif", "--server", "wss://arg"]);
    assert_eq!(ClientConfig::load(&s).signaling_url, "wss://arg");
    s.args = args(&["endif", "--server", "wss://a", "--name", "--server", "--server", "wss://b", "--server"]);
    let cfg = ClientConfig::load(&s);
    assert_eq!(cfg.signaling_url, "wss://b");
    assert_eq!(cfg.player_name.as_deref(), Some("--server"));
}

#[test]
fn the_page_names_its_room() {
    let mut s = sources();
    s.search = Some("?room=abcdef&name=me".to_string());
    let cfg = ClientConfig::load(&s);
    assert_eq!(cfg.initial_room.as_deref(), Some("ABCDEF"));
    assert!(!cfg.initial_quick);
    s.search = Some("?qp".to_string());
    assert!(ClientConfig::load(&s).initial_quick);
}

#[test]
fn queries_come_apart() {
    let q = parse_query("?room=ABC&qp&x=");
    let want: Vec<(String, String)> = vec![
        ("room".to_string(), "ABC".to_string()),
        ("qp".to_string(), String::new()),
        ("x".to_string(), String::new()),
    ];
    assert_eq!(q, want);
}

#[test]
fn a_used_invite_leaves_the_address() {
    let left = forget_join_in_url("?room=ABCDEF&server=wss://x", "/").unwrap();
    assert!(!left.contains("room="));
    assert!(left.contains("server=wss://x"));
    assert_eq!(forget_join_in_url("?server=wss://x", "/"), None);
}

#[test]
fn downloads_come_from_the_site() {
    let mut cfg = config();
    cfg.signaling_url = "wss://endif.tf".to_string();
    assert_eq!(cfg.download_url("linux"), "https://endif.tf/download/linux");
    assert!(cfg.package_version_url("linux").starts_with("https://endif.tf/download/"));
}

#[test]
fn quitting_is_timed() {
    let mut s = sources();
    let mut at = |text: &str| {
        s.args = args(&["endif", "--quit-after", text]);
        ClientConfig::load(&s).quit_after
    };
    assert_eq!(at("2.5"), Some(2_500_000_000));
    assert_eq!(at("1e-9"), Some(1));
    assert_eq!(at("-3"), Some(-1));
    assert_eq!(at("inf"), Some(i64::MAX));
    assert_eq!(at("soon"), None);
}
