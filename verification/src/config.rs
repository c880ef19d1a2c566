//! Client configuration: signaling server and account API addresses, ICE servers, room codes, and
//! the links built from them. What the process was started with comes in as [`Sources`].

use vstd::prelude::*;
use vstd::string::*;
use vstd::utf8::encode_utf8;
use vstd::wrapping::u64_specs;

use crate::chance::random_below;
use crate::numeral::{settle_text, settled_text};
use crate::text::{ascii_upper, cat, cat3, chars, eq, find, found, join, joined, lemma_found_from,
    lemma_position, lemma_trim_around, lemma_trim_start_suffix, opt, owned, pieces, position,
    replace, replace_first, replaced, replaced_first, skip, split, split_once, stands_at,
    starts_with, strings, to_ascii_upper, trim, trim_end, trim_end_char, trim_start,
    trim_start_char, trimmed, white_space, without_leading, without_trailing};

verus! {

/// Fallback when nothing else names a signaling server: a local dev server.
pub const DEFAULT_SIGNALING: &'static str = "ws://127.0.0.1:3536";

/// ICE servers used when nothing else is configured: public STUN servers plus the game's own TURN
/// relay, which gets two browsers on one LAN or peers behind strict NATs connected. The credential
/// is public by nature: it ships in the web build.
pub const DEFAULT_ICE: &'static str = "stun:stun.l.google.com:19302,stun:stun1.l.google.com:19302,turn:endif.tf:3478|endif|2cedf86bb9ef5599bff1f43cd3c54b76";

pub const ROOM_CODE_LEN: usize = 6;

// ---- room codes ----

/// Every capital letter plus 2-9: leaving 0 and 1 out means a round or vertical glyph can only be O
/// or I.
pub open spec fn room_char(c: char) -> bool {
    'A' <= c <= 'Z' || '2' <= c <= '9'
}

/// The characters of `s` that can stand in a room code, in upper case.
pub open spec fn room_chars(s: Seq<char>) -> Seq<char>
    decreases s.len(),
{
    if s.len() == 0 {
        Seq::empty()
    } else if room_char(ascii_upper(s.last())) {
        room_chars(s.drop_last()).push(ascii_upper(s.last()))
    } else {
        room_chars(s.drop_last())
    }
}

/// At most the first six of them.
pub open spec fn room_code(s: Seq<char>) -> Seq<char> {
    if room_chars(s).len() > ROOM_CODE_LEN {
        room_chars(s).take(ROOM_CODE_LEN as int)
    } else {
        room_chars(s)
    }
}

/// Whether every character can stand in a room code.
pub open spec fn all_room_chars(s: Seq<char>) -> bool {
    forall|i: int| 0 <= i < s.len() ==> room_char(#[trigger] s[i])
}

/// A complete room code.
pub open spec fn full_code(s: Seq<char>) -> bool {
    s.len() == ROOM_CODE_LEN && all_room_chars(s)
}

/// Uppercase and drop characters that are not in the room alphabet (codes never contain 0 or 1).
pub fn normalize_room_code(s: &str) -> (r: String)
    ensures
        r@ == room_code(s@),
{
    let v = chars(s);
    let mut out = String::new();
    let mut n: usize = 0;
    let mut i: usize = 0;
    proof {
        assert(v@.take(0) =~= Seq::<char>::empty());
    }
    while i < v.len()
        invariant
            i <= v.len(),
            n == out@.len(),
            out@ == room_code(v@.take(i as int)),
        decreases v.len() - i,
    {
        let c = to_ascii_upper(v[i]);
        proof {
            assert(v@.take(i as int + 1).drop_last() =~= v@.take(i as int));
            assert(v@.take(i as int + 1).last() == v@[i as int]);
        }
        let ghost before = room_chars(v@.take(i as int));
        if (('A' <= c && c <= 'Z') || ('2' <= c && c <= '9')) && n < ROOM_CODE_LEN {
            out.push(c);
            n = n + 1;
        } else {
            proof {
                if room_char(c) {
                    assert(before.push(c).take(ROOM_CODE_LEN as int) =~= before.take(
                        ROOM_CODE_LEN as int,
                    ));
                    assert(before.len() == ROOM_CODE_LEN ==> before.take(ROOM_CODE_LEN as int)
                        =~= before);
                }
            }
        }
        i = i + 1;
    }
    proof {
        assert(v@.take(v@.len() as int) =~= v@);
    }
    out
}

proof fn lemma_room_chars(s: Seq<char>)
    ensures
        all_room_chars(room_chars(s)),
        room_chars(s).len() <= s.len(),
        all_room_chars(s) ==> room_chars(s) == s,
    decreases s.len(),
{
    if s.len() > 0 {
        lemma_room_chars(s.drop_last());
        if all_room_chars(s) {
            assert(room_char(s[s.len() - 1]));
            assert(s.drop_last().push(s.last()) =~= s);
        }
    }
}

/// A normalized code holds at most six characters, all of the room alphabet, and normalizing it
/// again changes nothing.
pub proof fn law_normalizing_settles(s: Seq<char>)
    ensures
        room_code(s).len() <= ROOM_CODE_LEN,
        all_room_chars(room_code(s)),
        room_code(room_code(s)) == room_code(s),
{
    lemma_room_chars(s);
    let r = room_code(s);
    assert(all_room_chars(r)) by {
        assert forall|i: int| 0 <= i < r.len() implies room_char(#[trigger] r[i]) by {
            assert(r[i] == room_chars(s)[i]);
        }
    }
    lemma_room_chars(r);
}

proof fn lemma_room_chars_concat(a: Seq<char>, b: Seq<char>)
    ensures
        room_chars(a + b) == room_chars(a) + room_chars(b),
    decreases b.len(),
{
    if b.len() == 0 {
        assert(a + b =~= a);
        assert(room_chars(a) + room_chars(b) =~= room_chars(a));
    } else {
        let t = a + b;
        assert(t.drop_last() =~= a + b.drop_last());
        assert(t.last() == b.last());
        lemma_room_chars_concat(a, b.drop_last());
        if room_char(ascii_upper(b.last())) {
            assert(room_chars(a + b.drop_last()).push(ascii_upper(b.last())) =~= room_chars(a)
                + room_chars(b.drop_last()).push(ascii_upper(b.last())));
        }
    }
}

/// The room code in a pasted text: what follows the first `room=`, or the text itself.
pub open spec fn pasted_code(s: Seq<char>) -> Seq<char> {
    let t = trimmed(s);
    match found(t, "room="@) {
        Some(i) => room_code(t.skip(i + 5)),
        None => room_code(t),
    }
}

/// Room code from pasted text: a bare code, or an invite link (`...?room=CODE...`).
pub fn code_from_text(s: &str) -> (r: String)
    ensures
        r@ == pasted_code(s@),
{
    let t = trim(s);
    proof {
        reveal_strlit("room=");
    }
    match find(t.as_str(), "room=") {
        Some(i) => {
            let rest = skip(t.as_str(), i + 5);
            normalize_room_code(rest.as_str())
        },
        None => normalize_room_code(t.as_str()),
    }
}

/// `room=` is found where it stands behind a text without one.
proof fn lemma_room_found(before: Seq<char>, rest: Seq<char>)
    requires
        found(before, "room="@) is None,
    ensures
        found(before + "room="@ + rest, "room="@) == Some(before.len() as int),
{
    reveal_strlit("room=");
    let t = before + "room="@ + rest;
    let n = before.len() as int;
    lemma_found_from(before, "room="@, 0);
    lemma_found_from(t, "room="@, 0);
    assert(t.subrange(n, n + 5) =~= "room="@);
    assert(stands_at(t, "room="@, n));
    assert forall|j: int| 0 <= j < n implies !#[trigger] stands_at(t, "room="@, j) by {
        if stands_at(t, "room="@, j) {
            let part = t.subrange(j, j + 5);
            if j + 5 <= n {
                assert(before.subrange(j, j + 5) =~= part);
                assert(stands_at(before, "room="@, j));
            } else {
                assert(part[n - j] == 'r');
            }
        }
    }
}

/// An invite link yields the code it was made for, whatever follows the code and whatever stands
/// in front of `room=`, as long as that is not another `room=`.
pub proof fn law_link_yields_code(before: Seq<char>, code: Seq<char>, after: Seq<char>)
    requires
        full_code(code),
        found(before, "room="@) is None,
    ensures
        pasted_code(before + "room="@ + code + after) == code,
{
    reveal_strlit("room=");
    let link = "room="@ + code;
    assert(room_char(code[5]));
    assert(before + "room="@ + code + after =~= before + link + after);
    lemma_trim_around(before, link, after);
    let (b, a) = (trim_start(before), trim_end(after));
    assert(found(b, "room="@) is None) by {
        lemma_trim_start_suffix(before);
        lemma_found_from(before, "room="@, 0);
        lemma_found_from(b, "room="@, 0);
        if let Some(k) = found(b, "room="@) {
            let off = before.len() - b.len();
            assert(before.subrange(off + k, off + k + 5) =~= b.subrange(k, k + 5));
            assert(stands_at(before, "room="@, off + k));
        }
    }
    let t = b + link + a;
    assert(t =~= b + "room="@ + (code + a));
    lemma_room_found(b, code + a);
    let rest = t.skip(b.len() as int + 5);
    assert(rest =~= code + a);
    lemma_room_chars(code);
    lemma_room_chars_concat(code, a);
    assert(room_chars(rest).take(ROOM_CODE_LEN as int) =~= code);
    if room_chars(rest).len() == ROOM_CODE_LEN {
        assert(room_chars(rest) =~= code);
    }
}

/// A bare code yields itself.
pub proof fn law_code_yields_itself(code: Seq<char>)
    requires
        full_code(code),
    ensures
        pasted_code(code) == code,
{
    reveal_strlit("room=");
    assert(room_char(code[0]) && room_char(code[5]));
    assert(trimmed(code) == code);
    lemma_found_from(code, "room="@, 0);
    if let Some(k) = found(code, "room="@) {
        assert(stands_at(code, "room="@, k));
        assert(code.subrange(k, k + 5)[0] == 'r');
        assert(room_char(code[k]));
    }
    lemma_room_chars(code);
}

/// The character of the room alphabet at an index: the letters, then the digits from 2.
pub open spec fn room_letter(i: int) -> char {
    if i < 26 {
        (('A' as u32) + i) as char
    } else {
        (('2' as u32) + (i - 26)) as char
    }
}

/// The code that six draws spell.
pub fn room_code_from(draws: &Vec<usize>) -> (r: String)
    requires
        draws.len() == ROOM_CODE_LEN,
        forall|i: int| 0 <= i < draws.len() ==> draws[i] < 34,
    ensures
        r@ == Seq::new(ROOM_CODE_LEN as nat, |i: int| room_letter(draws[i] as int)),
        full_code(r@),
{
    let mut out = String::new();
    let mut i: usize = 0;
    while i < draws.len()
        invariant
            i <= draws.len(),
            draws.len() == ROOM_CODE_LEN,
            forall|j: int| 0 <= j < draws.len() ==> draws[j] < 34,
            out@ == Seq::new(i as nat, |j: int| room_letter(draws[j] as int)),
        decreases draws.len() - i,
    {
        let d = draws[i];
        let c = if d < 26 {
            (65 + d as u8) as char
        } else {
            (50 + (d as u8 - 26)) as char
        };
        out.push(c);
        i = i + 1;
        proof {
            assert(out@ =~= Seq::new(i as nat, |j: int| room_letter(draws[j] as int)));
        }
    }
    proof {
        assert forall|j: int| 0 <= j < out@.len() implies room_char(#[trigger] out@[j]) by {
            assert(draws[j] < 34);
        }
    }
    out
}

/// A fresh room code, drawn at random: six characters of the room alphabet.
pub fn generate_room_code() -> (r: String)
    ensures
        full_code(r@),
        room_code(r@) == r@,
{
    let mut draws: Vec<usize> = Vec::new();
    while draws.len() < ROOM_CODE_LEN
        invariant
            draws.len() <= ROOM_CODE_LEN,
            forall|i: int| 0 <= i < draws.len() ==> draws[i] < 34,
        decreases ROOM_CODE_LEN - draws.len(),
    {
        draws.push(random_below(34));
    }
    let r = room_code_from(&draws);
    proof {
        lemma_room_chars(r@);
    }
    r
}

/// The FNV-1a hash of a run of bytes.
pub open spec fn fnv1a(bytes: Seq<u8>) -> u64
    decreases bytes.len(),
{
    if bytes.len() == 0 {
        0xcbf2_9ce4_8422_2325
    } else {
        u64_specs::wrapping_mul(
            fnv1a(bytes.drop_last()) ^ (bytes.last() as u64),
            0x0000_0100_0000_01b3,
        )
    }
}

/// Deterministic seed shared by both peers: FNV-1a of the room code.
pub fn seed_from_room(code: &str) -> (r: u64)
    ensures
        r == fnv1a(encode_utf8(code@)),
{
    let bytes = code.as_bytes();
    let mut h: u64 = 0xcbf2_9ce4_8422_2325;
    let mut i: usize = 0;
    proof {
        assert(bytes@.take(0) =~= Seq::<u8>::empty());
    }
    while i < bytes.len()
        invariant
            i <= bytes@.len(),
            bytes.len() == bytes@.len(),
            h == fnv1a(bytes@.take(i as int)),
        decreases bytes.len() - i,
    {
        proof {
            assert(bytes@.take(i as int + 1).drop_last() =~= bytes@.take(i as int));
        }
        h = h ^ (bytes[i] as u64);
        h = h.wrapping_mul(0x0000_0100_0000_01b3);
        i = i + 1;
    }
    proof {
        assert(bytes@.take(bytes@.len() as int) =~= bytes@);
    }
    h
}

// ---- ICE servers ----

/// A WebRTC server list: every URL, and the credentials of the first TURN entry.
pub struct IceServers {
    pub urls: Vec<String>,
    pub username: Option<String>,
    pub credential: Option<String>,
}

#[verifier::ext_equal]
pub struct IceView {
    pub urls: Seq<Seq<char>>,
    pub username: Option<Seq<char>>,
    pub credential: Option<Seq<char>>,
}

impl View for IceServers {
    type V = IceView;

    open spec fn view(&self) -> IceView {
        IceView {
            urls: strings(self.urls@),
            username: opt(self.username),
            credential: opt(self.credential),
        }
    }
}

/// One entry of the list, `url` or `url|username|credential`, taken into what came before it. Empty
/// entries are skipped, and only the first credentials count.
pub open spec fn ice_with(ice: IceView, entry: Seq<char>) -> IceView {
    let parts = pieces(trimmed(entry), '|');
    if trimmed(entry).len() == 0 {
        ice
    } else if parts.len() >= 3 && ice.username is None {
        IceView {
            urls: ice.urls.push(parts[0]),
            username: Some(parts[1]),
            credential: Some(parts[2]),
        }
    } else {
        IceView { urls: ice.urls.push(parts[0]), ..ice }
    }
}

/// The entries taken in one after the other.
pub open spec fn ice_of_entries(entries: Seq<Seq<char>>) -> IceView
    decreases entries.len(),
{
    if entries.len() == 0 {
        IceView { urls: Seq::empty(), username: None, credential: None }
    } else {
        ice_with(ice_of_entries(entries.drop_last()), entries.last())
    }
}

/// What a comma separated list of ICE servers says.
pub open spec fn ice_of(list: Seq<char>) -> IceView {
    ice_of_entries(pieces(list, ','))
}

/// The server list that `list` gives: its own, or the default where it names no server.
pub open spec fn ice_or_default(list: Seq<char>) -> IceView {
    if ice_of(list).urls.len() == 0 {
        ice_of(DEFAULT_ICE@)
    } else {
        ice_of(list)
    }
}

proof fn lemma_pieces_nonempty(s: Seq<char>, c: char)
    ensures
        pieces(s, c).len() >= 1,
        pieces(s, c)[0] == s.take(position(s, c)),
{
    lemma_position(s, c);
    if position(s, c) == s.len() {
        assert(s.take(s.len() as int) =~= s);
    }
}

proof fn lemma_ice_urls_grow(entries: Seq<Seq<char>>)
    ensures
        entries.len() > 0 && trimmed(entries[0]).len() > 0 ==> ice_of_entries(entries).urls.len() > 0,
    decreases entries.len(),
{
    if entries.len() > 1 {
        assert(entries.drop_last()[0] == entries[0]);
        lemma_ice_urls_grow(entries.drop_last());
    }
}

/// The default list names servers.
proof fn lemma_default_ice()
    ensures
        ice_of(DEFAULT_ICE@).urls.len() > 0,
{
    reveal_strlit(
        "stun:stun.l.google.com:19302,stun:stun1.l.google.com:19302,turn:endif.tf:3478|endif|2cedf86bb9ef5599bff1f43cd3c54b76",
    );
    let s = DEFAULT_ICE@;
    assert(s[0] == 's');
    lemma_position(s, ',');
    lemma_pieces_nonempty(s, ',');
    let first = pieces(s, ',')[0];
    assert(position(s, ',') > 0);
    assert(first[0] == 's');
    assert(crate::text::trim_start(first) == first);
    lemma_trim_end_keeps_first(first);
    lemma_ice_urls_grow(pieces(s, ','));
}

proof fn lemma_trim_end_keeps_first(s: Seq<char>)
    requires
        s.len() > 0,
        !white_space(s[0]),
    ensures
        crate::text::trim_end(s).len() > 0,
    decreases s.len(),
{
    if white_space(s.last()) {
        assert(s.len() > 1);
        assert(s.drop_last()[0] == s[0]);
        lemma_trim_end_keeps_first(s.drop_last());
    }
}

/// Whatever is configured, the server list names at least one server.
pub proof fn law_ice_never_empty(list: Seq<char>)
    ensures
        ice_or_default(list).urls.len() > 0,
{
    lemma_default_ice();
}

/// The servers of a comma separated list.
pub fn parse_ice(list: &str) -> (r: IceServers)
    ensures
        r@ == ice_of(list@),
{
    let entries = split(list, ',');
    let ghost all = strings(entries@);
    let mut ice = IceServers { urls: Vec::new(), username: None, credential: None };
    let mut i: usize = 0;
    proof {
        assert(all.take(0) =~= Seq::<Seq<char>>::empty());
        assert(ice@ =~= ice_of_entries(all.take(0)));
    }
    while i < entries.len()
        invariant
            i <= entries.len(),
            all == strings(entries@),
            ice@ == ice_of_entries(all.take(i as int)),
        decreases entries.len() - i,
    {
        proof {
            assert(all.take(i as int + 1).drop_last() =~= all.take(i as int));
            assert(all.take(i as int + 1).last() == entries@[i as int]@);
        }
        let ghost before = ice@;
        let entry = trim(entries[i].as_str());
        if !entry.as_str().is_empty() {
            let parts = split(entry.as_str(), '|');
            proof {
                lemma_pieces_nonempty(entry@, '|');
                assert(strings(parts@).len() == parts@.len());
                assert(strings(parts@)[0] == parts@[0]@);
            }
            if parts.len() >= 3 && ice.username.is_none() {
                proof {
                    assert(strings(parts@)[1] == parts@[1]@);
                    assert(strings(parts@)[2] == parts@[2]@);
                }
                ice.username = Some(parts[1].clone());
                ice.credential = Some(parts[2].clone());
            }
            ice.urls.push(parts[0].clone());
            proof {
                assert(ice@.urls =~= before.urls.push(parts@[0]@));
            }
        }
        proof {
            assert(ice@ =~= ice_with(before, entries@[i as int]@));
        }
        i = i + 1;
    }
    proof {
        assert(all.take(all.len() as int) =~= all);
    }
    ice
}

// ---- addresses ----

/// `http(s)://host:port` of a `ws(s)://` URL.
pub open spec fn http_of(url: Seq<char>) -> Seq<char> {
    replaced_first(
        replaced_first(without_trailing(url, '/'), "wss://"@, "https://"@),
        "ws://"@,
        "http://"@,
    )
}

/// `http(s)://host:port` of a `ws(s)://` URL.
pub fn http_base(ws_url: &str) -> (r: String)
    ensures
        r@ == http_of(ws_url@),
{
    let s = trim_end_char(ws_url, '/');
    let s = replace_first(s.as_str(), "wss://", "https://");
    replace_first(s.as_str(), "ws://", "http://")
}

/// The page the web build runs on: its address, and the server it would use by default.
pub struct Page {
    pub origin: String,
    pub path: String,
    pub default_server: String,
}

/// The page's own address with `query` and, when the server is not the page's default one,
/// `server=`, so the link opens against the same server.
pub open spec fn page_address(page: Page, query: Seq<char>, server: Seq<char>) -> Seq<char> {
    let base = page.origin@ + page.path@ + "?"@ + query;
    if server == page.default_server@ {
        base
    } else {
        base + "&server="@ + server
    }
}

pub struct ClientConfig {
    /// Base URL of the signaling server, e.g. `ws://host:3536`.
    pub signaling_url: String,
    /// Base URL of the account API when it is not the signaling server's host.
    pub api_override: Option<String>,
    /// ICE servers, comma separated: `stun:host:port` or `turn:host:port|username|credential`.
    pub ice: String,
    /// Room code supplied on the command line / URL (`?room=CODE`), if any.
    pub initial_room: Option<String>,
    /// `?qp` / `--quick`: join the quick play queue as soon as the menu is up.
    pub initial_quick: bool,
    /// `--name` / `?name=`: anonymous display name for this run (not saved).
    pub player_name: Option<String>,
    /// Dev: start an offline practice match immediately.
    pub auto_practice: bool,
    /// Dev: write a screenshot to this path a few seconds after the match starts.
    pub screenshot: Option<String>,
    /// Dev: exit after this long, in nanoseconds; less than nothing is -1.
    pub quit_after: Option<i64>,
}

impl ClientConfig {
    /// The ICE server list for WebRTC. A list that names no server falls back to the default:
    /// browsers reject an entry without URLs, and a connection without STUN or TURN only ever works
    /// on one LAN.
    pub fn ice_servers(&self) -> (r: IceServers)
        ensures
            r@ == ice_or_default(self.ice@),
            r.urls@.len() > 0,
    {
        proof {
            law_ice_never_empty(self.ice@);
        }
        let ice = parse_ice(self.ice.as_str());
        if ice.urls.len() == 0 {
            let r = parse_ice(DEFAULT_ICE);
            proof {
                assert(r@.urls.len() == r.urls@.len());
            }
            r
        } else {
            ice
        }
    }

    /// Full signaling URL for a room, carrying this build's protocol identity for the server.
    pub fn room_url(&self, code: &str, protocol: &str) -> (r: String)
        ensures
            r@ == without_trailing(self.signaling_url@, '/') + "/endif-"@ + code@ + "?v="@
                + protocol@,
    {
        let mut out = trim_end_char(self.signaling_url.as_str(), '/');
        out.append("/endif-");
        out.append(code);
        out.append("?v=");
        out.append(protocol);
        out
    }

    /// The presence socket: open for as long as the app runs, so the server can count who is
    /// online.
    pub fn presence_url(&self, protocol: &str) -> (r: String)
        ensures
            r@ == without_trailing(self.signaling_url@, '/') + "/presence?v="@ + protocol@,
    {
        let mut out = trim_end_char(self.signaling_url.as_str(), '/');
        out.append("/presence?v=");
        out.append(protocol);
        out
    }

    pub open spec fn api(&self) -> Seq<char> {
        match self.api_override {
            Some(api) => without_trailing(api@, '/'),
            None => http_of(self.signaling_url@),
        }
    }

    /// `http(s)://host:port` of the account API: the override, or the signaling server over HTTP.
    pub fn api_url(&self) -> (r: String)
        ensures
            r@ == self.api(),
    {
        match &self.api_override {
            Some(api) => trim_end_char(api.as_str(), '/'),
            None => http_base(self.signaling_url.as_str()),
        }
    }

    /// `http(s)://.../version` of the signaling server, fetched to detect stale cached builds.
    pub fn version_url(&self) -> (r: String)
        ensures
            r@ == http_of(self.signaling_url@) + "/version"@,
    {
        let base = http_base(self.signaling_url.as_str());
        cat(base.as_str(), "/version")
    }

    /// `http(s)://.../build` of the signaling server: the commit it was built from.
    pub fn build_url(&self) -> (r: String)
        ensures
            r@ == http_of(self.signaling_url@) + "/build"@,
    {
        let base = http_base(self.signaling_url.as_str());
        cat(base.as_str(), "/build")
    }

    /// The desktop package for a platform, served next to the API.
    pub fn download_url(&self, platform: &str) -> (r: String)
        ensures
            r@ == http_of(self.signaling_url@) + "/download/"@ + platform@,
    {
        let base = http_base(self.signaling_url.as_str());
        cat3(base.as_str(), "/download/", platform)
    }

    /// The build id of the package at [`download_url`](Self::download_url), a text file published
    /// next to it. The packages go up after the server restarts; until this matches the server's
    /// build the updater would only fetch the old package.
    pub fn package_version_url(&self, platform: &str) -> (r: String)
        ensures
            r@ == http_of(self.signaling_url@) + "/download/"@ + platform@ + ".version"@,
    {
        let base = http_base(self.signaling_url.as_str());
        let mut out = cat3(base.as_str(), "/download/", platform);
        out.append(".version");
        out
    }

    /// The page's own address with a query that opens against this server.
    pub fn page_link(&self, page: &Page, query: &str) -> (r: String)
        ensures
            r@ == page_address(*page, query@, self.signaling_url@),
    {
        let mut out = cat3(page.origin.as_str(), page.path.as_str(), "?");
        out.append(query);
        if !eq(self.signaling_url.as_str(), page.default_server.as_str()) {
            out.append("&server=");
            out.append(self.signaling_url.as_str());
        }
        out
    }

    /// A shareable link (on a page) or the bare code (desktop).
    pub fn join_link(&self, page: &Option<Page>, code: &str) -> (r: String)
        ensures
            r@ == match *page {
                Some(p) => page_address(p, "room="@ + code@, self.signaling_url@),
                None => code@,
            },
    {
        match page {
            Some(p) => {
                let query = cat("room=", code);
                self.page_link(p, query.as_str())
            },
            None => owned(code),
        }
    }

    /// A link that puts whoever opens it straight into the quick play queue (`?qp`). A page points
    /// at itself; the desktop build at the site the server runs on.
    pub fn quick_play_link(&self, page: &Option<Page>) -> (r: String)
        ensures
            r@ == match *page {
                Some(p) => page_address(p, "qp"@, self.signaling_url@),
                None => http_of(self.signaling_url@) + "/?qp"@,
            },
    {
        match page {
            Some(p) => self.page_link(p, "qp"),
            None => {
                let base = http_base(self.signaling_url.as_str());
                cat(base.as_str(), "/?qp")
            },
        }
    }
}

// ---- where the settings come from ----

/// What the client was built and started with. A desktop build has no page; a web build has no
/// environment and no arguments.
pub struct Sources {
    /// The signaling server set on the page, as it stands there.
    pub page_signaling: Option<String>,
    /// The host the page was served from, and whether it was served over HTTPS.
    pub page_host: Option<(String, bool)>,
    /// Values baked in at build time.
    pub built_in_signaling: Option<String>,
    pub built_in_api: Option<String>,
    pub built_in_ice: Option<String>,
    /// Values of the environment (a `.env` file included).
    pub env_signaling: Option<String>,
    pub env_api: Option<String>,
    pub env_ice: Option<String>,
    /// Command line arguments, without the program's name.
    pub args: Vec<String>,
    /// The query part of the page's address.
    pub search: Option<String>,
}

/// A value that is there once trimmed. Trimming matters for build-time values: a file with CRLF
/// line endings once compiled in a lone carriage return.
pub open spec fn filled(v: Option<Seq<char>>) -> Option<Seq<char>> {
    match v {
        Some(s) if trimmed(s).len() > 0 => Some(trimmed(s)),
        _ => None,
    }
}

fn fill(v: &Option<String>) -> (r: Option<String>)
    ensures
        opt(r) == filled(opt(*v)),
{
    match v {
        Some(s) => {
            let t = trim(s.as_str());
            if t.as_str().is_empty() {
                None
            } else {
                Some(t)
            }
        },
        None => None,
    }
}

/// The signaling server set on the page: empty or an unfilled `__PLACEHOLDER__` means unset.
pub open spec fn page_choice(v: Option<Seq<char>>) -> Option<Seq<char>> {
    match filled(v) {
        Some(s) if !stands_at(s, "__"@, 0) => Some(s),
        _ => None,
    }
}

/// `ws(s)://<page host>:3536` when the page was served from a host.
pub open spec fn derived_server(host: Option<(String, bool)>) -> Option<Seq<char>> {
    match host {
        Some((name, https)) if name@.len() > 0 => Some(
            (if https {
                "wss"@
            } else {
                "ws"@
            }) + "://"@ + name@ + ":3536"@,
        ),
        _ => None,
    }
}

impl Sources {
    /// The signaling server before any runtime override: the build-time value, then the page's, then
    /// the page's own host on the default port, then the local dev server.
    pub open spec fn server(&self) -> Seq<char> {
        if let Some(url) = filled(opt(self.built_in_signaling)) {
            url
        } else if let Some(url) = page_choice(opt(self.page_signaling)) {
            url
        } else if let Some(url) = derived_server(self.page_host) {
            url
        } else {
            DEFAULT_SIGNALING@
        }
    }
}

/// The signaling server to use before any runtime override.
pub fn default_signaling(sources: &Sources) -> (r: String)
    ensures
        r@ == sources.server(),
{
    if let Some(url) = fill(&sources.built_in_signaling) {
        return url;
    }
    if let Some(url) = fill(&sources.page_signaling) {
        if !starts_with(url.as_str(), "__") {
            return url;
        }
    }
    if let Some((name, https)) = &sources.page_host {
        if !name.as_str().is_empty() {
            let mut out = owned(
                if *https {
                    "wss"
                } else {
                    "ws"
                },
            );
            out.append("://");
            out.append(name.as_str());
            out.append(":3536");
            return out;
        }
    }
    owned(DEFAULT_SIGNALING)
}

#[verifier::ext_equal]
pub struct ConfigView {
    pub signaling_url: Seq<char>,
    pub api_override: Option<Seq<char>>,
    pub ice: Seq<char>,
    pub initial_room: Option<Seq<char>>,
    pub initial_quick: bool,
    pub player_name: Option<Seq<char>>,
    pub auto_practice: bool,
    pub screenshot: Option<Seq<char>>,
    pub quit_after: Option<int>,
}

impl View for ClientConfig {
    type V = ConfigView;

    open spec fn view(&self) -> ConfigView {
        ConfigView {
            signaling_url: self.signaling_url@,
            api_override: opt(self.api_override),
            ice: self.ice@,
            initial_room: opt(self.initial_room),
            initial_quick: self.initial_quick,
            player_name: opt(self.player_name),
            auto_practice: self.auto_practice,
            screenshot: opt(self.screenshot),
            quit_after: match self.quit_after {
                Some(t) => Some(t as int),
                None => None,
            },
        }
    }
}

/// The first value where it is there, else the second.
pub open spec fn or_else<T>(a: Option<T>, b: T) -> T {
    match a {
        Some(v) => v,
        None => b,
    }
}

/// The argument at an index, where there is one.
pub open spec fn arg(args: Seq<Seq<char>>, i: int) -> Option<Seq<char>> {
    if 0 <= i < args.len() {
        Some(args[i])
    } else {
        None
    }
}

/// How long a number of seconds is, in nanoseconds; none where the text is no number. One below zero
/// counts as -1, one beyond reach as the longest.
pub open spec fn quit_time(v: Seq<char>) -> Option<int> {
    settled_text(v, 9, -1, i64::MAX as int)
}

/// Whether an argument takes the next one as its value.
pub open spec fn takes_value(a: Seq<char>) -> bool {
    a == "--room"@ || a == "--server"@ || a == "--api"@ || a == "--name"@ || a == "--ice"@ || a
        == "--screenshot"@ || a == "--quit-after"@
}

/// The configuration after one argument and the value behind it. Unknown arguments change nothing.
pub open spec fn with_arg(cfg: ConfigView, a: Seq<char>, value: Option<Seq<char>>) -> ConfigView {
    if a == "--room"@ {
        ConfigView {
            initial_room: match value {
                Some(v) => Some(room_code(v)),
                None => None,
            },
            ..cfg
        }
    } else if a == "--quick"@ {
        ConfigView { initial_quick: true, ..cfg }
    } else if a == "--server"@ {
        ConfigView { signaling_url: or_else(value, cfg.signaling_url), ..cfg }
    } else if a == "--api"@ {
        ConfigView { api_override: value, ..cfg }
    } else if a == "--name"@ {
        ConfigView { player_name: value, ..cfg }
    } else if a == "--ice"@ {
        ConfigView { ice: or_else(value, cfg.ice), ..cfg }
    } else if a == "--practice"@ {
        ConfigView { auto_practice: true, ..cfg }
    } else if a == "--screenshot"@ {
        ConfigView { screenshot: value, ..cfg }
    } else if a == "--quit-after"@ {
        ConfigView {
            quit_after: match value {
                Some(v) => quit_time(v),
                None => None,
            },
            ..cfg
        }
    } else {
        cfg
    }
}

/// The configuration after the arguments from index `i` on.
pub open spec fn with_args(cfg: ConfigView, args: Seq<Seq<char>>, i: int) -> ConfigView
    decreases args.len() + 1 - i,
{
    if 0 <= i < args.len() {
        let next = if takes_value(args[i]) {
            i + 2
        } else {
            i + 1
        };
        with_args(with_arg(cfg, args[i], arg(args, i + 1)), args, next)
    } else {
        cfg
    }
}

/// The key and value of one `key=value` of a query; the value may be missing.
pub open spec fn query_pair(kv: Seq<char>) -> (Seq<char>, Seq<char>) {
    let p = position(kv, '=');
    let value = if p < kv.len() {
        kv.skip(p + 1)
    } else {
        Seq::empty()
    };
    (kv.take(p), replaced(replaced(value, "%3A"@, ":"@), "%2F"@, "/"@))
}

/// The configuration after one pair of a query.
pub open spec fn with_pair(cfg: ConfigView, kv: (Seq<char>, Seq<char>)) -> ConfigView {
    let (k, v) = kv;
    if k == "room"@ {
        ConfigView { initial_room: Some(room_code(v)), ..cfg }
    } else if k == "qp"@ {
        ConfigView { initial_quick: true, ..cfg }
    } else if k == "server"@ {
        ConfigView { signaling_url: v, ..cfg }
    } else if k == "api"@ {
        ConfigView { api_override: Some(v), ..cfg }
    } else if k == "ice"@ {
        ConfigView { ice: v, ..cfg }
    } else if k == "name"@ {
        ConfigView { player_name: Some(v), ..cfg }
    } else {
        cfg
    }
}

/// The pieces that are not empty.
pub open spec fn nonempty(parts: Seq<Seq<char>>) -> Seq<Seq<char>>
    decreases parts.len(),
{
    if parts.len() == 0 {
        Seq::empty()
    } else if parts.last().len() == 0 {
        nonempty(parts.drop_last())
    } else {
        nonempty(parts.drop_last()).push(parts.last())
    }
}

/// The `key=value` pieces of a query string.
pub open spec fn query_pieces(search: Seq<char>) -> Seq<Seq<char>> {
    nonempty(pieces(without_leading(search, '?'), '&'))
}

/// The configuration after the pairs of a query, first to last.
pub open spec fn with_query(cfg: ConfigView, kvs: Seq<Seq<char>>) -> ConfigView
    decreases kvs.len(),
{
    if kvs.len() == 0 {
        cfg
    } else {
        with_pair(with_query(cfg, kvs.drop_last()), query_pair(kvs.last()))
    }
}

/// The configuration that the sources give: built-in values, then the environment, then the
/// arguments, then the page's query, each over what came before.
pub open spec fn loaded(s: Sources) -> ConfigView {
    let base = ConfigView {
        signaling_url: or_else(filled(opt(s.env_signaling)), s.server()),
        api_override: match filled(opt(s.env_api)) {
            Some(v) => Some(v),
            None => filled(opt(s.built_in_api)),
        },
        ice: or_else(
            filled(opt(s.env_ice)),
            or_else(filled(opt(s.built_in_ice)), DEFAULT_ICE@),
        ),
        initial_room: None,
        initial_quick: false,
        player_name: None,
        auto_practice: false,
        screenshot: None,
        quit_after: None,
    };
    let cfg = with_args(base, strings(s.args@), 0);
    match s.search {
        Some(q) => with_query(cfg, query_pieces(q@)),
        None => cfg,
    }
}

/// The pieces of a query string that are not empty.
fn query_parts(search: &str) -> (r: Vec<String>)
    ensures
        strings(r@) == query_pieces(search@),
{
    let body = trim_start_char(search, '?');
    let all = split(body.as_str(), '&');
    let ghost parts = strings(all@);
    let mut out: Vec<String> = Vec::new();
    let mut i: usize = 0;
    proof {
        assert(parts.take(0) =~= Seq::<Seq<char>>::empty());
        assert(strings(out@) =~= nonempty(parts.take(0)));
    }
    while i < all.len()
        invariant
            i <= all.len(),
            parts == strings(all@),
            strings(out@) == nonempty(parts.take(i as int)),
        decreases all.len() - i,
    {
        proof {
            assert(parts.take(i as int + 1).drop_last() =~= parts.take(i as int));
            assert(parts.take(i as int + 1).last() == all@[i as int]@);
        }
        let ghost before = strings(out@);
        if !all[i].as_str().is_empty() {
            out.push(all[i].clone());
            proof {
                assert(strings(out@) =~= before.push(all@[i as int]@));
            }
        }
        i = i + 1;
    }
    proof {
        assert(parts.take(parts.len() as int) =~= parts);
    }
    out
}

/// The pairs of a page's query.
pub fn parse_query(search: &str) -> (r: Vec<(String, String)>)
    ensures
        r@.len() == query_pieces(search@).len(),
        forall|i: int|
            0 <= i < r@.len() ==> ((#[trigger] r@[i]).0@, r@[i].1@) == query_pair(
                query_pieces(search@)[i],
            ),
{
    let parts = query_parts(search);
    let ghost all = strings(parts@);
    let mut out: Vec<(String, String)> = Vec::new();
    let mut i: usize = 0;
    proof {
        reveal_strlit("%3A");
        reveal_strlit("%2F");
    }
    while i < parts.len()
        invariant
            i <= parts.len(),
            all == strings(parts@),
            out@.len() == i,
            "%3A"@.len() > 0,
            "%2F"@.len() > 0,
            forall|j: int|
                0 <= j < i ==> ((#[trigger] out@[j]).0@, out@[j].1@) == query_pair(all[j]),
        decreases parts.len() - i,
    {
        let kv = parts[i].as_str();
        proof {
            assert(all[i as int] == kv@);
            lemma_position(kv@, '=');
        }
        let (k, v) = match split_once(kv, '=') {
            Some((k, v)) => (k, v),
            None => {
                proof {
                    assert(kv@.take(kv@.len() as int) =~= kv@);
                }
                (owned(kv), String::new())
            },
        };
        let v = replace(v.as_str(), "%3A", ":");
        let v = replace(v.as_str(), "%2F", "/");
        out.push((k, v));
        i = i + 1;
    }
    out
}

impl ClientConfig {
    /// The configuration that the sources give.
    pub fn load(sources: &Sources) -> (r: Self)
        ensures
            r@ == loaded(*sources),
    {
        let server = match fill(&sources.env_signaling) {
            Some(url) => url,
            None => default_signaling(sources),
        };
        let api = match fill(&sources.env_api) {
            Some(v) => Some(v),
            None => fill(&sources.built_in_api),
        };
        let ice = match fill(&sources.env_ice) {
            Some(v) => v,
            None => match fill(&sources.built_in_ice) {
                Some(v) => v,
                None => owned(DEFAULT_ICE),
            },
        };
        let mut cfg = ClientConfig {
            signaling_url: server,
            api_override: api,
            ice,
            initial_room: None,
            initial_quick: false,
            player_name: None,
            auto_practice: false,
            screenshot: None,
            quit_after: None,
        };
        cfg.take_args(&sources.args);
        if let Some(search) = &sources.search {
            cfg.take_query(search.as_str());
        }
        cfg
    }

    /// Takes in the command line arguments.
    pub fn take_args(&mut self, args: &Vec<String>)
        ensures
            final(self)@ == with_args(old(self)@, strings(args@), 0),
    {
        let ghost all = strings(args@);
        let ghost start = self@;
        let mut i: usize = 0;
        while i < args.len()
            invariant
                i <= args.len(),
                all == strings(args@),
                with_args(self@, all, i as int) == with_args(start, all, 0),
            decreases args.len() - i,
        {
            let a = args[i].as_str();
            let value: Option<String> = if i + 1 < args.len() {
                Some(args[i + 1].clone())
            } else {
                None
            };
            let ghost before = self@;
            proof {
                assert(all[i as int] == a@);
                if i + 1 < all.len() {
                    assert(all[i + 1] == args@[i + 1]@);
                }
                assert(opt(value) == arg(all, i + 1));
            }
            let two = self.take_arg(a, value);
            proof {
                assert(self@ == with_arg(before, all[i as int], arg(all, i + 1)));
                if i + 2 > all.len() && two {
                    assert(with_args(self@, all, i + 2) == self@);
                    assert(with_args(self@, all, all.len() as int) == self@);
                }
            }
            i = if two && i + 1 < args.len() {
                i + 2
            } else {
                i + 1
            };
        }
    }

    /// Takes in one argument with the value behind it, and says whether it used the value.
    fn take_arg(&mut self, a: &str, value: Option<String>) -> (two: bool)
        ensures
            final(self)@ == with_arg(old(self)@, a@, opt(value)),
            two == takes_value(a@),
    {
        let ghost before = self@;
        proof {
            reveal_strlit("--room");
            reveal_strlit("--quick");
            reveal_strlit("--server");
            reveal_strlit("--api");
            reveal_strlit("--name");
            reveal_strlit("--ice");
            reveal_strlit("--practice");
            reveal_strlit("--screenshot");
            reveal_strlit("--quit-after");
            assert("--room"@.len() == 6 && "--name"@.len() == 6);
            assert("--api"@.len() == 5 && "--ice"@.len() == 5);
            assert("--quick"@.len() == 7 && "--server"@.len() == 8 && "--practice"@.len() == 10);
            assert("--screenshot"@.len() == 12 && "--quit-after"@.len() == 12);
        }
        if eq(a, "--room") {
            self.initial_room = match value {
                Some(v) => Some(normalize_room_code(v.as_str())),
                None => None,
            };
            proof {
                assert(self@ =~= with_arg(before, a@, opt(value)));
            }
            true
        } else if eq(a, "--quick") {
            self.initial_quick = true;
            false
        } else if eq(a, "--server") {
            if let Some(u) = value {
                self.signaling_url = u;
            }
            proof {
                assert(self@ =~= with_arg(before, a@, opt(value)));
            }
            true
        } else if eq(a, "--api") {
            self.api_override = value;
            true
        } else if eq(a, "--name") {
            self.player_name = value;
            true
        } else if eq(a, "--ice") {
            if let Some(v) = value {
                self.ice = v;
            }
            proof {
                assert(self@ =~= with_arg(before, a@, opt(value)));
            }
            true
        } else if eq(a, "--practice") {
            self.auto_practice = true;
            false
        } else if eq(a, "--screenshot") {
            self.screenshot = value;
            true
        } else if eq(a, "--quit-after") {
            self.quit_after = match value {
                Some(v) => settle_text(v.as_str(), 9, -1, i64::MAX),
                None => None,
            };
            true
        } else {
            false
        }
    }

    /// Takes in the query of the page's address.
    pub fn take_query(&mut self, search: &str)
        ensures
            final(self)@ == with_query(old(self)@, query_pieces(search@)),
    {
        let pairs = parse_query(search);
        let ghost all = query_pieces(search@);
        let ghost start = self@;
        let mut i: usize = 0;
        proof {
            assert(all.take(0) =~= Seq::<Seq<char>>::empty());
        }
        while i < pairs.len()
            invariant
                i <= pairs.len(),
                pairs@.len() == all.len(),
                forall|j: int|
                    0 <= j < pairs@.len() ==> ((#[trigger] pairs@[j]).0@, pairs@[j].1@)
                        == query_pair(all[j]),
                self@ == with_query(start, all.take(i as int)),
            decreases pairs.len() - i,
        {
            proof {
                assert(all.take(i as int + 1).drop_last() =~= all.take(i as int));
                assert(all.take(i as int + 1).last() == all[i as int]);
                assert((pairs@[i as int].0@, pairs@[i as int].1@) == query_pair(all[i as int]));
            }
            self.take_pair(pairs[i].0.as_str(), pairs[i].1.as_str());
            i = i + 1;
        }
        proof {
            assert(all.take(all.len() as int) =~= all);
        }
    }

    fn take_pair(&mut self, k: &str, v: &str)
        ensures
            final(self)@ == with_pair(old(self)@, (k@, v@)),
    {
        let ghost before = self@;
        if eq(k, "room") {
            self.initial_room = Some(normalize_room_code(v));
        } else if eq(k, "qp") {
            self.initial_quick = true;
        } else if eq(k, "server") {
            self.signaling_url = owned(v);
        } else if eq(k, "api") {
            self.api_override = Some(owned(v));
        } else if eq(k, "ice") {
            self.ice = owned(v);
        } else if eq(k, "name") {
            self.player_name = Some(owned(v));
        }
        proof {
            assert(self@ =~= with_pair(before, (k@, v@)));
        }
    }
}

/// Whether a piece of a query is one that joins something: `room` or `qp`.
pub open spec fn joining(kv: Seq<char>) -> bool {
    kv.take(position(kv, '=')) == "room"@ || kv.take(position(kv, '=')) == "qp"@
}

/// The pieces of a query that join nothing.
pub open spec fn not_joining(kvs: Seq<Seq<char>>) -> Seq<Seq<char>>
    decreases kvs.len(),
{
    if kvs.len() == 0 {
        Seq::empty()
    } else if joining(kvs.last()) {
        not_joining(kvs.drop_last())
    } else {
        not_joining(kvs.drop_last()).push(kvs.last())
    }
}

/// The page's address once `room=` and `qp` have been acted on, so a reload (or the address copied
/// again later) does not silently rejoin a room whose host has long left, or queue up again. Every
/// other parameter stays. Nothing where there is nothing to drop.
pub fn forget_join_in_url(search: &str, path: &str) -> (r: Option<String>)
    ensures
        ({
            let rest = not_joining(query_pieces(search@));
            opt(r) == if rest.len() == query_pieces(search@).len() {
                None
            } else if rest.len() == 0 {
                Some(path@)
            } else {
                Some(path@ + "?"@ + joined(rest, "&"@))
            }
        }),
{
    let parts = query_parts(search);
    let ghost all = strings(parts@);
    let mut rest: Vec<String> = Vec::new();
    let mut i: usize = 0;
    proof {
        assert(all.take(0) =~= Seq::<Seq<char>>::empty());
        assert(strings(rest@) =~= not_joining(all.take(0)));
    }
    while i < parts.len()
        invariant
            i <= parts.len(),
            all == strings(parts@),
            strings(rest@) == not_joining(all.take(i as int)),
        decreases parts.len() - i,
    {
        proof {
            assert(all.take(i as int + 1).drop_last() =~= all.take(i as int));
            assert(all.take(i as int + 1).last() == parts@[i as int]@);
            lemma_position(parts@[i as int]@, '=');
        }
        let kv = parts[i].as_str();
        let key = match split_once(kv, '=') {
            Some((k, _v)) => k,
            None => {
                proof {
                    assert(kv@.take(kv@.len() as int) =~= kv@);
                }
                owned(kv)
            },
        };
        let ghost before = strings(rest@);
        if !eq(key.as_str(), "room") && !eq(key.as_str(), "qp") {
            rest.push(parts[i].clone());
            proof {
                assert(strings(rest@) =~= before.push(parts@[i as int]@));
            }
        }
        i = i + 1;
    }
    proof {
        assert(all.take(all.len() as int) =~= all);
        assert(strings(rest@).len() == rest@.len());
        assert(all.len() == parts@.len());
    }
    if rest.len() == parts.len() {
        None
    } else if rest.len() == 0 {
        Some(owned(path))
    } else {
        let query = join(&rest, "&");
        Some(cat3(path, "?", query.as_str()))
    }
}

/// What stays in the address joins nothing: neither a room nor the queue. Reading it back leaves
/// both as they were.
pub proof fn law_forgotten_join_is_gone(cfg: ConfigView, kvs: Seq<Seq<char>>)
    ensures
        with_query(cfg, not_joining(kvs)).initial_room == cfg.initial_room,
        with_query(cfg, not_joining(kvs)).initial_quick == cfg.initial_quick,
    decreases kvs.len(),
{
    if kvs.len() > 0 {
        law_forgotten_join_is_gone(cfg, kvs.drop_last());
        if !joining(kvs.last()) {
            let rest = not_joining(kvs.drop_last());
            assert(rest.push(kvs.last()).drop_last() =~= rest);
        }
    }
}

/// Whether the reading of the arguments that starts at index `from` takes the one at index `i` as
/// an argument of its own, not as the value of the one before it.
pub open spec fn reads_at(args: Seq<Seq<char>>, from: int, i: int) -> bool
    decreases i + 1 - from,
{
    from == i || (0 <= from < i && reads_at(
        args,
        if takes_value(args[from]) {
            from + 2
        } else {
            from + 1
        },
        i,
    ))
}

proof fn lemma_reads_on(args: Seq<Seq<char>>, from: int, i: int, j: int)
    requires
        reads_at(args, from, i),
        reads_at(args, i, j),
    ensures
        reads_at(args, from, j),
    decreases i + 1 - from,
{
    if from != i {
        let next = if takes_value(args[from]) {
            from + 2
        } else {
            from + 1
        };
        lemma_reads_on(args, next, i, j);
        lemma_reads_ahead(args, i, j);
    }
}

proof fn lemma_reads_ahead(args: Seq<Seq<char>>, from: int, i: int)
    requires
        reads_at(args, from, i),
    ensures
        from <= i,
{
}

/// What is read before an argument only changes the configuration that it finds.
proof fn lemma_args_up_to(cfg: ConfigView, args: Seq<Seq<char>>, from: int, i: int) -> (met:
    ConfigView)
    requires
        0 <= from,
        i < args.len(),
        reads_at(args, from, i),
    ensures
        with_args(cfg, args, from) == with_args(met, args, i),
    decreases i + 1 - from,
{
    if from == i {
        cfg
    } else {
        let next = if takes_value(args[from]) {
            from + 2
        } else {
            from + 1
        };
        lemma_args_up_to(with_arg(cfg, args[from], arg(args, from + 1)), args, next, i)
    }
}

/// Without a `--server` that has a value the server stays.
proof fn lemma_server_stays(cfg: ConfigView, args: Seq<Seq<char>>, from: int)
    requires
        0 <= from,
        forall|j: int|
            from <= j && j + 1 < args.len() && #[trigger] reads_at(args, from, j) ==> args[j]
                != "--server"@,
    ensures
        with_args(cfg, args, from).signaling_url == cfg.signaling_url,
    decreases args.len() + 1 - from,
{
    if from < args.len() {
        let next = if takes_value(args[from]) {
            from + 2
        } else {
            from + 1
        };
        assert(reads_at(args, from, from));
        assert forall|j: int|
            next <= j && j + 1 < args.len() && #[trigger] reads_at(args, next, j) implies args[j]
            != "--server"@ by {
            assert(reads_at(args, from, j));
        }
        lemma_server_stays(with_arg(cfg, args[from], arg(args, from + 1)), args, next);
    }
}

/// The last word wins: of the servers named on a command line the last one is in use, whatever the
/// other arguments are and whatever the build, the environment or the page said.
pub proof fn law_server_argument_wins(cfg: ConfigView, args: Seq<Seq<char>>, i: int)
    requires
        0 <= i,
        i + 1 < args.len(),
        reads_at(args, 0, i),
        args[i] == "--server"@,
        forall|j: int|
            i < j && j + 1 < args.len() && #[trigger] reads_at(args, 0, j) ==> args[j]
                != "--server"@,
    ensures
        with_args(cfg, args, 0).signaling_url == args[i + 1],
{
    reveal_strlit("--room");
    reveal_strlit("--quick");
    reveal_strlit("--server");
    assert("--room"@.len() != "--server"@.len());
    assert("--quick"@.len() != "--server"@.len());
    let before = lemma_args_up_to(cfg, args, 0, i);
    let c = with_arg(before, args[i], arg(args, i + 1));
    assert(c.signaling_url == args[i + 1]);
    assert forall|j: int|
        i + 2 <= j && j + 1 < args.len() && #[trigger] reads_at(args, i + 2, j) implies args[j]
        != "--server"@ by {
        assert(reads_at(args, i, j));
        lemma_reads_on(args, 0, i, j);
    }
    lemma_server_stays(c, args, i + 2);
}

/// A code is made of the letters and of the digits from two to nine; small letters count as
/// capitals, and everything else is left out.
pub proof fn law_what_a_code_is_made_of(s: Seq<char>, c: char)
    ensures
        'A' <= c <= 'Z' || '2' <= c <= '9' ==> room_chars(s.push(c)) == room_chars(s).push(c),
        'a' <= c <= 'z' ==> room_chars(s.push(c)) == room_chars(s).push(((c as u32) - 32) as char),
        !('A' <= c <= 'Z') && !('a' <= c <= 'z') && !('2' <= c <= '9') ==> room_chars(s.push(c))
            == room_chars(s),
        room_chars(s).len() >= 6 ==> room_code(s) == room_chars(s).take(6),
        room_chars(s).len() <= 6 ==> room_code(s) == room_chars(s),
{
    assert(s.push(c).drop_last() =~= s);
    if room_chars(s).len() == 6 {
        assert(room_chars(s).take(6) =~= room_chars(s));
    }
}

/// Each draw stands for a letter of its own.
pub proof fn law_draws_are_letters(i: int, j: int)
    requires
        0 <= i < 34,
        0 <= j < 34,
    ensures
        room_char(room_letter(i)),
        room_letter(i) == room_letter(j) <==> i == j,
{
}

/// The seed of a room is the FNV-1a hash of its code: from the offset basis on, each byte is mixed
/// in and then multiplied by the prime.
pub proof fn law_the_seed_is_a_hash(bytes: Seq<u8>, b: u8)
    ensures
        fnv1a(Seq::empty()) == 14_695_981_039_346_656_037,
        fnv1a(bytes.push(b)) == u64_specs::wrapping_mul(
            fnv1a(bytes) ^ (b as u64),
            1_099_511_628_211,
        ),
{
    assert(bytes.push(b).drop_last() =~= bytes);
}

/// An entry of the list adds its address; the first one with a name and a password brings those,
/// and a blank entry nothing.
pub proof fn law_what_an_ice_entry_adds(ice: IceView, entry: Seq<char>)
    ensures
        ({
            let t = ice_with(ice, entry);
            let parts = pieces(trimmed(entry), '|');
            &&& trimmed(entry).len() == 0 ==> t == ice
            &&& trimmed(entry).len() > 0 ==> t.urls == ice.urls.push(parts[0])
            &&& ice.username is Some ==> t.username == ice.username && t.credential
                == ice.credential
            &&& trimmed(entry).len() > 0 && ice.username is None && parts.len() >= 3 ==> t.username
                == Some(parts[1]) && t.credential == Some(parts[2])
            &&& parts.len() < 3 ==> t.username == ice.username && t.credential == ice.credential
        }),
{
}

/// A list that names a server is used as it is; only an empty one falls back.
pub proof fn law_when_the_ice_falls_back(list: Seq<char>)
    ensures
        ice_of(list).urls.len() > 0 ==> ice_or_default(list) == ice_of(list),
        ice_of(list).urls.len() == 0 ==> ice_or_default(list) == ice_of(DEFAULT_ICE@),
{
}

/// A link names the server exactly where that is not the page's own.
pub proof fn law_when_a_link_names_the_server(page: Page, query: Seq<char>, server: Seq<char>)
    ensures
        server == page.default_server@ ==> page_address(page, query, server) == page.origin@
            + page.path@ + "?"@ + query,
        server != page.default_server@ ==> page_address(page, query, server) == page.origin@
            + page.path@ + "?"@ + query + "&server="@ + server,
{
}

/// Which server is the default: the one built in, else the one that the page names (unless it still
/// holds its placeholder), else the page's own host, else this machine.
pub proof fn law_which_server_is_the_default(s: Sources)
    ensures
        ({
            let built = s.built_in_signaling matches Some(v) && trimmed(v@).len() > 0;
            let named = s.page_signaling matches Some(v) && trimmed(v@).len() > 0 && !stands_at(
                trimmed(v@),
                "__"@,
                0,
            );
            let hosted = s.page_host matches Some(h) && h.0@.len() > 0;
            &&& built ==> s.server() == trimmed(s.built_in_signaling->0@)
            &&& !built && named ==> s.server() == trimmed(s.page_signaling->0@)
            &&& !built && !named && hosted && (s.page_host->0).1 ==> s.server() == "wss"@ + "://"@
                + (s.page_host->0).0@ + ":3536"@
            &&& !built && !named && hosted && !(s.page_host->0).1 ==> s.server() == "ws"@ + "://"@
                + (s.page_host->0).0@ + ":3536"@
            &&& !built && !named && !hosted ==> s.server() == DEFAULT_SIGNALING@
        }),
{
}

/// The environment goes before what is built in, and what is built in before the defaults; without
/// arguments and a query that is all there is.
pub proof fn law_where_the_configuration_comes_from(s: Sources)
    requires
        s.args@.len() == 0,
        s.search is None,
    ensures
        ({
            let c = loaded(s);
            &&& (s.env_signaling matches Some(v) && trimmed(v@).len() > 0) ==> c.signaling_url
                == trimmed(s.env_signaling->0@)
            &&& !(s.env_signaling matches Some(v) && trimmed(v@).len() > 0) ==> c.signaling_url
                == s.server()
            &&& (s.env_api matches Some(v) && trimmed(v@).len() > 0) ==> c.api_override == Some(
                trimmed(s.env_api->0@),
            )
            &&& (s.env_ice matches Some(v) && trimmed(v@).len() > 0) ==> c.ice == trimmed(
                s.env_ice->0@,
            )
            &&& s.env_ice is None && s.built_in_ice is None ==> c.ice == DEFAULT_ICE@
            &&& s.env_api is None && s.built_in_api is None ==> c.api_override is None
            &&& c.initial_room is None && !c.initial_quick && c.player_name is None
                && !c.auto_practice && c.screenshot is None && c.quit_after is None
        }),
{
    assert(strings(s.args@).len() == 0);
}

proof fn lemma_args_differ()
    ensures
        "--room"@.len() == 6,
        "--quick"@.len() == 7,
        "--server"@.len() == 8,
        "--api"@.len() == 5,
        "--name"@.len() == 6,
        "--ice"@.len() == 5,
        "--practice"@.len() == 10,
        "--screenshot"@.len() == 12,
        "--quit-after"@.len() == 12,
        "--room"@ != "--name"@,
        "--api"@ != "--ice"@,
        "--screenshot"@ != "--quit-after"@,
{
    reveal_strlit("--room");
    reveal_strlit("--quick");
    reveal_strlit("--server");
    reveal_strlit("--api");
    reveal_strlit("--name");
    reveal_strlit("--ice");
    reveal_strlit("--practice");
    reveal_strlit("--screenshot");
    reveal_strlit("--quit-after");
    assert("--room"@[2] == 'r' && "--name"@[2] == 'n');
    assert("--api"@[2] == 'a' && "--ice"@[2] == 'i');
    assert("--screenshot"@[2] == 's' && "--quit-after"@[2] == 'q');
}

/// Each argument sets its own part of the configuration and leaves the rest alone; an unknown one
/// sets nothing.
pub proof fn law_what_each_argument_sets(cfg: ConfigView, v: Seq<char>, other: Seq<char>)
    ensures
        with_arg(cfg, "--room"@, Some(v)) == (ConfigView { initial_room: Some(room_code(v)), ..cfg }),
        with_arg(cfg, "--quick"@, Some(v)) == (ConfigView { initial_quick: true, ..cfg }),
        with_arg(cfg, "--server"@, Some(v)) == (ConfigView { signaling_url: v, ..cfg }),
        with_arg(cfg, "--api"@, Some(v)) == (ConfigView { api_override: Some(v), ..cfg }),
        with_arg(cfg, "--name"@, Some(v)) == (ConfigView { player_name: Some(v), ..cfg }),
        with_arg(cfg, "--ice"@, Some(v)) == (ConfigView { ice: v, ..cfg }),
        with_arg(cfg, "--practice"@, Some(v)) == (ConfigView { auto_practice: true, ..cfg }),
        with_arg(cfg, "--screenshot"@, Some(v)) == (ConfigView { screenshot: Some(v), ..cfg }),
        with_arg(cfg, "--quit-after"@, Some(v)) == (ConfigView { quit_after: quit_time(v), ..cfg }),
        with_arg(cfg, "--server"@, None) == cfg,
        with_arg(cfg, "--ice"@, None) == cfg,
        other.len() < 5 ==> with_arg(cfg, other, Some(v)) == cfg && !takes_value(other),
        !takes_value("--quick"@) && !takes_value("--practice"@),
        takes_value("--room"@) && takes_value("--server"@) && takes_value("--api"@) && takes_value(
            "--name"@,
        ) && takes_value("--ice"@) && takes_value("--screenshot"@) && takes_value("--quit-after"@),
{
    lemma_args_differ();
}

/// Each member of the page's query sets its own part of the configuration and leaves the rest
/// alone; an unknown one sets nothing.
pub proof fn law_what_each_query_member_sets(cfg: ConfigView, v: Seq<char>, other: Seq<char>)
    ensures
        with_pair(cfg, ("room"@, v)) == (ConfigView { initial_room: Some(room_code(v)), ..cfg }),
        with_pair(cfg, ("qp"@, v)) == (ConfigView { initial_quick: true, ..cfg }),
        with_pair(cfg, ("server"@, v)) == (ConfigView { signaling_url: v, ..cfg }),
        with_pair(cfg, ("api"@, v)) == (ConfigView { api_override: Some(v), ..cfg }),
        with_pair(cfg, ("ice"@, v)) == (ConfigView { ice: v, ..cfg }),
        with_pair(cfg, ("name"@, v)) == (ConfigView { player_name: Some(v), ..cfg }),
        other != "room"@ && other != "qp"@ && other != "server"@ && other != "api"@ && other
            != "ice"@ && other != "name"@ ==> with_pair(cfg, (other, v)) == cfg,
{
    reveal_strlit("room");
    reveal_strlit("qp");
    reveal_strlit("server");
    reveal_strlit("api");
    reveal_strlit("ice");
    reveal_strlit("name");
    assert("room"@[0] == 'r' && "name"@[0] == 'n');
    assert("api"@[0] == 'a' && "ice"@[0] == 'i');
    assert("server"@.len() == 6 && "room"@.len() == 4 && "name"@.len() == 4);
    assert("qp"@.len() == 2 && "api"@.len() == 3 && "ice"@.len() == 3);
}

/// A member of the query is a name and a value on the two sides of its first equals sign; without
/// one it is a name alone.
pub proof fn law_how_a_query_member_reads(name: Seq<char>, value: Seq<char>)
    requires
        forall|i: int| 0 <= i < name.len() ==> name[i] != '=',
    ensures
        query_pair(name.push('=') + value) == (
            name,
            replaced(replaced(value, "%3A"@, ":"@), "%2F"@, "/"@),
        ),
        query_pair(name).0 == name,
{
    let kv = name.push('=') + value;
    crate::text::lemma_position_after(name, '=', value);
    crate::text::lemma_position_absent(name, '=');
    assert(kv =~= name + seq!['='] + value);
    assert(kv.take(name.len() as int) =~= name);
    assert(kv.skip(name.len() as int + 1) =~= value);
    assert(name.take(name.len() as int) =~= name);
}

/// What stays of the query once the invitation is out of it: each other member, in order.
pub proof fn law_what_stays_of_the_query(kvs: Seq<Seq<char>>, kv: Seq<char>)
    ensures
        joining(kv) ==> not_joining(kvs.push(kv)) == not_joining(kvs),
        !joining(kv) ==> not_joining(kvs.push(kv)) == not_joining(kvs).push(kv),
        not_joining(Seq::empty()).len() == 0,
        kv.len() == 0 ==> nonempty(kvs.push(kv)) == nonempty(kvs),
        kv.len() > 0 ==> nonempty(kvs.push(kv)) == nonempty(kvs).push(kv),
{
    assert(kvs.push(kv).drop_last() =~= kvs);
}

} // verus!
