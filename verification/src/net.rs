//! Room-based peer-to-peer play: the menu's view of the matchmaking server, the lobby that waits for
//! the other player, the hello with each player's display name, and what the session reports while
//! it runs. The sockets themselves live outside; what they report comes in as plain values.

use vstd::prelude::*;
use vstd::string::*;
use vstd::utf8::encode_utf8;

use crate::account::{first, printable, without_controls, Account, MatchInfo, QuickMatch};
use crate::clock::{after, elapsed, later, since};
use crate::config::{fnv1a, full_code, generate_room_code, seed_from_room, ClientConfig,
    ROOM_CODE_LEN};
use crate::json::{get_count, json_count};
use crate::text::{cat3, chars, contains, decimal, eq, found, from_utf8_lossy, lossy, opt, owned,
    show, string_of, to_uppercase, trim, trimmed, uppercase, without_trailing};
use crate::textfield::NAME_MAX;

verus! {

/// A lobby nobody joins gives its room back after this long, so a forgotten tab cannot hold a room
/// for the rest of the day.
pub const LOBBY_TIMEOUT_MINUTES: u64 = 30;

pub const LOBBY_TIMEOUT: u64 = 1_800_000_000_000;

/// Silence from the peer that a session tolerates before it drops the match. A peer that really went
/// away is noticed sooner, through its connection.
pub const DISCONNECT_TIMEOUT: u64 = 10_000_000_000;

/// Silence after which the connection counts as interrupted.
pub const DISCONNECT_NOTIFY_START: u64 = 1_000_000_000;

/// How long a request to the server may take before the server counts as unreachable.
pub const PROBE_TIMEOUT: u64 = 8_000_000_000;

/// Pause between probes while the server answers.
pub const PROBE_INTERVAL: u64 = 15_000_000_000;

/// Pause between probes after a failure.
pub const PROBE_RETRY: u64 = 5_000_000_000;

/// Pause before the presence socket is opened again after it dropped (or was refused).
pub const PRESENCE_RETRY: u64 = 20_000_000_000;

/// First byte of a hello message on the reliable channel; the rest is the UTF-8 display name.
pub const MSG_HELLO: u8 = 1;

/// Seed of a practice match.
pub const PRACTICE_SEED: u64 = 0xE1_1D1F;

/// How the current match was started.
#[derive(Debug, PartialEq)]
pub enum MatchKind {
    /// Local session, both players controlled locally (player 1 idle).
    Practice,
    /// Peer-to-peer private room. No ratings; finished rounds go into the history as casual.
    Room { code: String },
    /// A quick play pairing: like a private room (unrated, rounds go on until someone leaves), but
    /// the queue picked the opponent.
    Quick(QuickMatch),
    /// A matchmade game between two accounts; the result is reported and rated.
    Ranked(MatchInfo),
    /// Target practice on flying soldiers.
    FruitNinja,
}

// ---- names ----

/// Display names of both players, indexed by handle.
#[derive(Debug, PartialEq)]
pub struct PlayerNames {
    pub first: String,
    pub second: String,
}

impl PlayerNames {
    pub open spec fn of(&self, handle: int) -> Seq<char> {
        if handle == 0 {
            self.first@
        } else if handle == 1 {
            self.second@
        } else {
            Seq::empty()
        }
    }

    /// Name as the HUD shows it (upper case, cut to fit a score box).
    pub open spec fn shown(&self, handle: int) -> Seq<char> {
        let name = self.of(handle);
        let name = if name.len() == 0 {
            "???"@
        } else {
            name
        };
        uppercase(crate::account::first(name, 12))
    }

    /// Name as the HUD shows it (upper case, cut to fit a score box).
    pub fn short(&self, handle: usize) -> (r: String)
        ensures
            r@ == self.shown(handle as int),
    {
        let name = if handle == 0 {
            self.first.as_str()
        } else if handle == 1 {
            self.second.as_str()
        } else {
            ""
        };
        proof {
            reveal_strlit("");
            assert(""@ =~= Seq::<char>::empty());
        }
        let v = if name.is_empty() {
            chars("???")
        } else {
            chars(name)
        };
        let n: usize = if v.len() > 12 {
            12
        } else {
            v.len()
        };
        let cut = string_of(&v, 0, n);
        proof {
            if v@.len() > 12 {
                assert(v@.take(12) =~= v@.subrange(0, 12));
            } else {
                assert(v@ =~= v@.subrange(0, v@.len() as int));
            }
        }
        to_uppercase(cut.as_str())
    }

    /// The names of a match in which this player has the handle `local`.
    pub fn pair(local: usize, mine: String, theirs: String) -> (r: PlayerNames)
        requires
            local <= 1,
        ensures
            r.of(local as int) == mine@,
            r.of(1 - local) == theirs@,
    {
        if local == 0 {
            PlayerNames { first: mine, second: theirs }
        } else {
            PlayerNames { first: theirs, second: mine }
        }
    }
}

/// The hello that introduces a player over the reliable channel.
pub open spec fn hello_bytes(name: Seq<char>) -> Seq<u8> {
    seq![MSG_HELLO] + encode_utf8(name)
}

/// The name that a message on the reliable channel introduces; nothing for other messages.
pub open spec fn hello_name(packet: Seq<u8>) -> Option<Seq<char>> {
    if packet.len() > 0 && packet[0] == MSG_HELLO {
        Some(first(without_controls(lossy(packet.skip(1))), NAME_MAX as nat))
    } else {
        None
    }
}

/// Writes the hello.
pub fn hello(name: &str) -> (r: Vec<u8>)
    ensures
        r@ == hello_bytes(name@),
{
    let bytes = name.as_bytes();
    let mut out: Vec<u8> = Vec::new();
    out.push(MSG_HELLO);
    let mut i: usize = 0;
    proof {
        assert(out@ =~= seq![MSG_HELLO] + bytes@.take(0));
    }
    while i < bytes.len()
        invariant
            i <= bytes@.len(),
            out@ == seq![MSG_HELLO] + bytes@.take(i as int),
        decreases bytes.len() - i,
    {
        out.push(bytes[i]);
        i = i + 1;
        proof {
            assert(out@ =~= seq![MSG_HELLO] + bytes@.take(i as int));
        }
    }
    proof {
        assert(bytes@.take(bytes@.len() as int) =~= bytes@);
    }
    out
}

/// Reads a message of the reliable channel.
pub fn read_hello(packet: &Vec<u8>) -> (r: Option<String>)
    ensures
        opt(r) == hello_name(packet@),
{
    if packet.len() == 0 || packet[0] != MSG_HELLO {
        return None;
    }
    let mut rest: Vec<u8> = Vec::new();
    let mut i: usize = 1;
    while i < packet.len()
        invariant
            1 <= i <= packet.len(),
            rest@ == packet@.subrange(1, i as int),
        decreases packet.len() - i,
    {
        rest.push(packet[i]);
        i = i + 1;
        proof {
            assert(rest@ =~= packet@.subrange(1, i as int));
        }
    }
    proof {
        assert(packet@.subrange(1, packet@.len() as int) =~= packet@.skip(1));
    }
    let text = from_utf8_lossy(rest.as_slice());
    Some(printable(text.as_str(), NAME_MAX))
}

/// A player introduces themselves by their name: what the hello of a display name reads as is that
/// name, without control characters and cut to the length of a name.
pub proof fn law_hello_introduces(name: Seq<char>)
    ensures
        hello_name(hello_bytes(name)) == Some(first(without_controls(name), NAME_MAX as nat)),
{
    let packet = hello_bytes(name);
    assert(packet[0] == MSG_HELLO);
    assert(packet.skip(1) =~= encode_utf8(name));
    vstd::utf8::encode_utf8_valid_utf8(name);
    vstd::utf8::encode_utf8_decode_utf8(name);
}

// ---- the matchmaking server ----

/// Whether the matchmaking (signaling) server can be reached right now.
#[derive(Clone, Copy, Debug, PartialEq, Eq, Structural)]
pub enum SignalState {
    Unknown,
    Up,
    Down,
    /// The server is up but runs a different protocol: this build is stale (or too new).
    Outdated,
}

/// Desktop: what the site said about its package.
#[derive(Debug, PartialEq)]
pub enum PackageBuild {
    /// Not asked yet, or the answer is still on its way.
    Unknown,
    /// The site does not publish one (a bare server): the updater has to find out by downloading.
    Unavailable,
    Known(String),
}

pub enum PackageView {
    Unknown,
    Unavailable,
    Known(Seq<char>),
}

impl View for PackageBuild {
    type V = PackageView;

    open spec fn view(&self) -> PackageView {
        match self {
            PackageBuild::Unknown => PackageView::Unknown,
            PackageBuild::Unavailable => PackageView::Unavailable,
            PackageBuild::Known(s) => PackageView::Known(s@),
        }
    }
}

/// An answer over HTTP.
#[derive(Debug, PartialEq)]
pub struct HttpAnswer {
    pub code: u16,
    pub body: Vec<u8>,
}

/// What a request brought: an answer, or the words of a transport error.
pub type HttpResult = Result<HttpAnswer, String>;

/// This build's own identity.
#[derive(Debug, PartialEq)]
pub struct BuildIdentity {
    pub protocol: String,
    pub build: String,
}

/// The menu's view of the matchmaking server, kept current by polling `GET /version` and
/// `GET /build`: the UI greys out online play while it is unreachable or this build's protocol is
/// stale, and offers an update as soon as the server runs a newer build at all.
pub struct SignalingStatus {
    pub state: SignalState,
    /// The protocol id the server last reported.
    pub server_version: Option<String>,
    /// The build id the server last reported (the version an update must reach); `None` from a
    /// server that predates `/build`.
    pub server_build: Option<String>,
    /// Desktop: the build of the package on the site, asked for while an update is pending.
    pub package_build: PackageBuild,
    /// When the `/version` and `/build` requests in flight were sent.
    pub probe: Option<u64>,
    /// When the package request in flight was sent.
    pub package_probe: Option<u64>,
    pub next_probe_at: u64,
}

#[verifier::ext_equal]
pub struct StatusView {
    pub state: SignalState,
    pub server_version: Option<Seq<char>>,
    pub server_build: Option<Seq<char>>,
    pub package_build: PackageView,
    pub probe: Option<u64>,
    pub package_probe: Option<u64>,
    pub next_probe_at: u64,
}

impl View for SignalingStatus {
    type V = StatusView;

    open spec fn view(&self) -> StatusView {
        StatusView {
            state: self.state,
            server_version: opt(self.server_version),
            server_build: opt(self.server_build),
            package_build: self.package_build@,
            probe: self.probe,
            package_probe: self.package_probe,
            next_probe_at: self.next_probe_at,
        }
    }
}

/// The text of an answer.
pub open spec fn body_text(a: HttpAnswer) -> Seq<char> {
    trimmed(lossy(a.body@))
}

impl StatusView {
    pub open spec fn down(self) -> bool {
        self.state == SignalState::Down || self.state == SignalState::Outdated
    }

    pub open spec fn newer(self, build: Seq<char>) -> bool {
        self.server_build matches Some(b) && b != build
    }

    pub open spec fn update(self, build: Seq<char>) -> bool {
        self.state == SignalState::Outdated || self.newer(build)
    }

    pub open spec fn ready(self) -> bool {
        match self.package_build {
            PackageView::Known(p) => self.server_build == Some(p),
            PackageView::Unavailable => true,
            PackageView::Unknown => false,
        }
    }

    /// Everything the menu draws differently; a change means a redraw.
    pub open spec fn looks(self, build: Seq<char>) -> (SignalState, bool, bool) {
        (self.state, self.update(build), self.ready())
    }

    /// What the server reported, once both probe answers are in, and what that makes of it.
    pub open spec fn settled(
        self,
        version: HttpResult,
        build: HttpResult,
        ours: BuildIdentity,
    ) -> (StatusView, SignalState) {
        match version {
            Ok(v) if v.code == 200 => (
                StatusView {
                    server_version: Some(body_text(v)),
                    server_build: match build {
                        Ok(b) if b.code == 200 => Some(body_text(b)),
                        _ => None,
                    },
                    ..self
                },
                if body_text(v) != ours.protocol@ {
                    SignalState::Outdated
                } else {
                    SignalState::Up
                },
            ),
            _ => (self, SignalState::Down),
        }
    }

    /// Web: the build to reload the page for, once a server. Only from the main menu for a build
    /// whose protocol still matches: a reload from a lobby would lose the room.
    pub open spec fn reload(
        self,
        version: HttpResult,
        build: HttpResult,
        ours: BuildIdentity,
        may_reload: bool,
    ) -> Option<Seq<char>> {
        let (after, state) = self.settled(version, build, ours);
        if state == SignalState::Outdated || (state == SignalState::Up && after.newer(
            ours.build@,
        ) && may_reload) {
            match after.server_build {
                Some(b) => Some(b),
                None => after.server_version,
            }
        } else {
            None
        }
    }

    /// What the answer about the package says.
    pub open spec fn with_package(self, answer: Option<HttpResult>, now: u64) -> StatusView {
        match self.package_probe {
            None => self,
            Some(started) => match answer {
                Some(Ok(a)) if a.code == 200 => StatusView {
                    package_build: PackageView::Known(body_text(a)),
                    package_probe: None,
                    ..self
                },
                Some(_) => StatusView {
                    package_build: PackageView::Unavailable,
                    package_probe: None,
                    ..self
                },
                None => if elapsed(started, now) > PROBE_TIMEOUT {
                    StatusView {
                        package_build: PackageView::Unavailable,
                        package_probe: None,
                        ..self
                    }
                } else {
                    self
                },
            },
        }
    }
}

/// The text of an answer.
fn read_body(a: &HttpAnswer) -> (r: String)
    ensures
        r@ == body_text(*a),
{
    let s = from_utf8_lossy(a.body.as_slice());
    trim(s.as_str())
}

/// What a look at the server led to.
pub struct ProbeAction {
    /// Ask for `/version` and `/build`.
    pub ask_server: bool,
    /// Ask the site which build its package is.
    pub ask_package: bool,
    /// Web: reload the page for this build.
    pub reload: Option<String>,
    /// The screen has to be rebuilt.
    pub refresh: bool,
}

impl SignalingStatus {
    pub fn new() -> (r: SignalingStatus)
        ensures
            r@ == (StatusView {
                state: SignalState::Unknown,
                server_version: None,
                server_build: None,
                package_build: PackageView::Unknown,
                probe: None,
                package_probe: None,
                next_probe_at: 0,
            }),
    {
        SignalingStatus {
            state: SignalState::Unknown,
            server_version: None,
            server_build: None,
            package_build: PackageBuild::Unknown,
            probe: None,
            package_probe: None,
            next_probe_at: 0,
        }
    }

    /// Online play is unavailable (server unreachable or this build is out of date).
    pub fn is_down(&self) -> (r: bool)
        ensures
            r == self@.down(),
    {
        matches!(self.state, SignalState::Down | SignalState::Outdated)
    }

    /// The server runs a different protocol: it will refuse this build.
    pub fn is_outdated(&self) -> (r: bool)
        ensures
            r == (self.state == SignalState::Outdated),
    {
        self.state == SignalState::Outdated
    }

    fn is_newer(&self, build: &str) -> (r: bool)
        ensures
            r == self@.newer(build@),
    {
        match &self.server_build {
            Some(b) => !eq(b.as_str(), build),
            None => false,
        }
    }

    /// The server runs a newer build than this one. Without a protocol change this build can
    /// still play; the menu offers the update either way.
    pub fn update_available(&self, build: &str) -> (r: bool)
        ensures
            r == self@.update(build@),
    {
        self.is_outdated() || self.is_newer(build)
    }

    /// Desktop: the package on the site is the server's build, so the updater will get it (or the
    /// site does not say, and the updater checks what it downloaded). The packages go up a few
    /// minutes after the server, so this lags `update_available`.
    pub fn package_ready(&self) -> (r: bool)
        ensures
            r == self@.ready(),
    {
        match &self.package_build {
            PackageBuild::Known(p) => match &self.server_build {
                Some(b) => eq(p.as_str(), b.as_str()),
                None => false,
            },
            PackageBuild::Unavailable => true,
            PackageBuild::Unknown => false,
        }
    }

    /// Everything the menu draws differently; a change means a redraw.
    pub fn ui_key(&self, build: &str) -> (r: (SignalState, bool, bool))
        ensures
            r == self@.looks(build@),
    {
        (self.state, self.update_available(build), self.package_ready())
    }

    /// Forgets the requests in flight (entering a match: the answers are not wanted any more).
    pub fn cancel(&mut self)
        ensures
            final(self)@ == (StatusView { probe: None, package_probe: None, ..old(self)@ }),
    {
        self.probe = None;
        self.package_probe = None;
    }

    /// Both probe answers are in: records what the server reported and returns the new state and
    /// the build that the web page should fetch straight away.
    pub fn settle(
        &mut self,
        version: &HttpResult,
        build: &HttpResult,
        ours: &BuildIdentity,
        may_reload: bool,
    ) -> (r: (SignalState, Option<String>))
        ensures
            (final(self)@, r.0) == old(self)@.settled(*version, *build, *ours),
            opt(r.1) == old(self)@.reload(*version, *build, *ours, may_reload),
    {
        let version = match version {
            Ok(a) => if a.code == 200 {
                read_body(a)
            } else {
                return (SignalState::Down, None);
            },
            Err(_) => {
                return (SignalState::Down, None);
            },
        };
        self.server_build = match build {
            Ok(a) => if a.code == 200 {
                Some(read_body(a))
            } else {
                None
            },
            Err(_) => None,
        };
        let outdated = !eq(version.as_str(), ours.protocol.as_str());
        let newer = self.is_newer(ours.build.as_str());
        let reload = if outdated || (newer && may_reload) {
            match &self.server_build {
                Some(b) => Some(b.clone()),
                None => Some(version.clone()),
            }
        } else {
            None
        };
        self.server_version = Some(version);
        (
            if outdated {
                SignalState::Outdated
            } else {
                SignalState::Up
            },
            reload,
        )
    }

    /// Desktop: takes the answer to the package version request, if it is in.
    pub fn poll_package(&mut self, answer: &Option<HttpResult>, now: u64)
        ensures
            final(self)@ == old(self)@.with_package(*answer, now),
    {
        let started = match self.package_probe {
            Some(t) => t,
            None => {
                return ;
            },
        };
        let build = match answer {
            Some(Ok(a)) => if a.code == 200 {
                PackageBuild::Known(read_body(a))
            } else {
                PackageBuild::Unavailable
            },
            Some(Err(_)) => PackageBuild::Unavailable,
            None => if since(started, now) > PROBE_TIMEOUT {
                PackageBuild::Unavailable
            } else {
                return ;
            },
        };
        self.package_probe = None;
        self.package_build = build;
    }
}

/// Whether the probe in flight has come to an end: both answers are in, or it took too long.
pub open spec fn probe_result(
    s: StatusView,
    version: Option<HttpResult>,
    build: Option<HttpResult>,
    ours: BuildIdentity,
    now: u64,
) -> Option<(StatusView, SignalState)> {
    match s.probe {
        None => None,
        Some(started) => match (version, build) {
            (Some(v), Some(b)) => Some(s.settled(v, b, ours)),
            _ => if elapsed(started, now) > PROBE_TIMEOUT {
                Some((s, SignalState::Down))
            } else {
                None
            },
        },
    }
}

/// The status after a look at the probes.
pub open spec fn probed(
    s: StatusView,
    version: Option<HttpResult>,
    build: Option<HttpResult>,
    package: Option<HttpResult>,
    ours: BuildIdentity,
    desktop: bool,
    now: u64,
) -> StatusView {
    let sent = if s.probe is None && now >= s.next_probe_at {
        StatusView { probe: Some(now), ..s }
    } else {
        s
    };
    let settled = match probe_result(s, version, build, ours, now) {
        None => sent,
        Some((t, state)) => {
            let t = StatusView {
                probe: None,
                next_probe_at: later(
                    now,
                    if state == SignalState::Up {
                        PROBE_INTERVAL
                    } else {
                        PROBE_RETRY
                    },
                ) as u64,
                state,
                ..t
            };
            if desktop && t.update(ours.build@) && !t.ready() && t.package_probe is None {
                StatusView { package_probe: Some(now), ..t }
            } else {
                t
            }
        },
    };
    // A package request that was sent just now has no answer yet.
    if desktop && settled.package_probe == s.package_probe {
        settled.with_package(package, now)
    } else {
        settled
    }
}

impl SignalingStatus {
    /// Polls the server while in the menus: the protocol identity means the server is up (and tells
    /// a stale simulation from a current one); the build identity tells whether a newer build
    /// exists at all. An error, another status or no answer within `PROBE_TIMEOUT` means it is
    /// down, in which case the next probe comes sooner. Desktop: while an update is pending, also
    /// asks the site which build its package is.
    pub fn probe_signaling(
        &mut self,
        version: &Option<HttpResult>,
        build: &Option<HttpResult>,
        package: &Option<HttpResult>,
        ours: &BuildIdentity,
        in_menu: bool,
        desktop: bool,
        now: u64,
    ) -> (r: ProbeAction)
        ensures
            final(self)@ == probed(old(self)@, *version, *build, *package, *ours, desktop, now),
            r.ask_server == (old(self)@.probe is None && now >= old(self)@.next_probe_at),
            r.ask_package == (probe_result(old(self)@, *version, *build, *ours, now) is Some
                && old(self)@.package_probe is None && final(self)@.package_probe is Some),
            opt(r.reload) == (match (old(self)@.probe, *version, *build) {
                (Some(_), Some(v), Some(b)) => old(self)@.reload(v, b, *ours, in_menu),
                _ => None,
            }),
            r.refresh == (final(self)@.looks(ours.build@) != old(self)@.looks(ours.build@)),
    {
        let before = self.ui_key(ours.build.as_str());
        let mut reload: Option<String> = None;
        let mut ask_server = false;
        let mut ask_package = false;
        let new_state: Option<SignalState> = match self.probe {
            None => {
                if now >= self.next_probe_at {
                    self.probe = Some(now);
                    ask_server = true;
                }
                None
            },
            Some(started) => match (version, build) {
                (Some(v), Some(b)) => {
                    let (s, page) = self.settle(v, b, ours, in_menu);
                    reload = page;
                    Some(s)
                },
                _ => if since(started, now) > PROBE_TIMEOUT {
                    Some(SignalState::Down)
                } else {
                    None
                },
            },
        };
        if let Some(s) = new_state {
            self.probe = None;
            self.next_probe_at = after(
                now,
                if s == SignalState::Up {
                    PROBE_INTERVAL
                } else {
                    PROBE_RETRY
                },
            );
            self.state = s;
            if desktop && self.update_available(ours.build.as_str()) && !self.package_ready()
                && self.package_probe.is_none() {
                self.package_probe = Some(now);
                ask_package = true;
            }
        }
        // A package request that was sent just now has no answer yet.
        if desktop && !ask_package {
            self.poll_package(package, now);
        }
        let refresh = {
            let key = self.ui_key(ours.build.as_str());
            key.0 != before.0 || key.1 != before.1 || key.2 != before.2
        };
        ProbeAction { ask_server, ask_package, reload, refresh }
    }
}

// ---- the lobby ----

/// Why a lobby ended without a match.
#[derive(Clone, Copy, Debug, PartialEq, Eq, Structural)]
pub enum RoomFailure {
    /// Both slots of the room are taken.
    Full,
    /// The server is up and the room has space, but it refused or closed our connection (a rate
    /// limit after many handshakes from one address, or the socket died).
    Refused,
    /// The matchmaking server cannot be reached.
    Unreachable,
    /// The server runs a different protocol: this build is out of date.
    Outdated,
    /// Nobody joined within [`LOBBY_TIMEOUT_MINUTES`].
    Timeout,
    /// The opponent was found but the WebRTC connection to them failed (no candidate pair worked,
    /// typically a firewall, VPN or a network that blocks UDP).
    PeerUnreachable,
    /// The browser hides why a websocket was refused, so the server is being asked whether the room
    /// is full. Resolves to one of the above.
    Checking,
}

/// What a signaling loop that ended before the match started means. Desktop websockets report the
/// HTTP status of a refused handshake (401 full, 426 protocol mismatch, 429 rate limited); a
/// browser reports nothing, so unless the server is known to be down the room is asked.
pub open spec fn failure_of(detail: Seq<char>, state: SignalState) -> RoomFailure {
    if state == SignalState::Outdated || found(detail, "426"@) is Some {
        RoomFailure::Outdated
    } else if found(detail, "401"@) is Some {
        RoomFailure::Full
    } else if found(detail, "429"@) is Some {
        RoomFailure::Refused
    } else if state == SignalState::Down {
        RoomFailure::Unreachable
    } else {
        RoomFailure::Checking
    }
}

/// What a signaling loop that ended before the match started means.
pub fn classify_failure(detail: &str, state: SignalState) -> (r: RoomFailure)
    ensures
        r == failure_of(detail@, state),
{
    if state == SignalState::Outdated || contains(detail, "426") {
        RoomFailure::Outdated
    } else if contains(detail, "401") {
        RoomFailure::Full
    } else if contains(detail, "429") {
        RoomFailure::Refused
    } else if state == SignalState::Down {
        RoomFailure::Unreachable
    } else {
        RoomFailure::Checking
    }
}

/// Whether a room with `peers` of at most `max` players has space: 0 of 2 where the server does not
/// say.
pub open spec fn occupancy(peers: Option<u64>, max: Option<u64>) -> RoomFailure {
    let p = match peers {
        Some(n) => n,
        None => 0,
    };
    let m = match max {
        Some(n) => n,
        None => 2,
    };
    if p >= m {
        RoomFailure::Full
    } else {
        RoomFailure::Refused
    }
}

/// What the room's occupancy means for a lobby that was refused.
pub fn verdict(peers: Option<u64>, max: Option<u64>) -> (r: RoomFailure)
    ensures
        r == occupancy(peers, max),
{
    let p: u64 = match peers {
        Some(n) => n,
        None => 0,
    };
    let m: u64 = match max {
        Some(n) => n,
        None => 2,
    };
    if p >= m {
        RoomFailure::Full
    } else {
        RoomFailure::Refused
    }
}

/// Outcome of the room lookup, once it has one.
pub open spec fn looked_up(answer: Option<HttpResult>, started: u64, now: u64) -> Option<
    RoomFailure,
> {
    match answer {
        Some(Ok(a)) => Some(
            if a.code == 200 {
                occupancy(json_count(a.body@, "peers"@), json_count(a.body@, "max"@))
            } else {
                RoomFailure::Refused
            },
        ),
        Some(Err(_)) => Some(RoomFailure::Unreachable),
        None => if elapsed(started, now) > PROBE_TIMEOUT {
            Some(RoomFailure::Unreachable)
        } else {
            None
        },
    }
}

/// Outcome of the room lookup, once it has one.
pub fn check_result(answer: &Option<HttpResult>, started: u64, now: u64) -> (r: Option<RoomFailure>)
    ensures
        r == looked_up(*answer, started, now),
{
    match answer {
        Some(Ok(a)) => if a.code == 200 {
            Some(verdict(get_count(&a.body, "peers"), get_count(&a.body, "max")))
        } else {
            Some(RoomFailure::Refused)
        },
        Some(Err(_)) => Some(RoomFailure::Unreachable),
        None => if since(started, now) > PROBE_TIMEOUT {
            Some(RoomFailure::Unreachable)
        } else {
            None
        },
    }
}

/// Live room state while connecting / playing.
pub struct RoomConnection {
    pub code: String,
    /// False once the lobby gave its slot back.
    pub open: bool,
    /// The signaling server accepted us (we have a peer id) and is waiting for the other player.
    pub connected: bool,
    pub started: bool,
    /// Why the lobby ended, once it has.
    pub failure: Option<RoomFailure>,
    /// Menu time the server accepted us, for the lobby timeout.
    pub accepted_at: Option<u64>,
    /// When the occupancy lookup behind `RoomFailure::Checking` was started.
    pub check: Option<u64>,
}

#[verifier::ext_equal]
pub struct RoomView {
    pub code: Seq<char>,
    pub open: bool,
    pub connected: bool,
    pub started: bool,
    pub failure: Option<RoomFailure>,
    pub accepted_at: Option<u64>,
    pub check: Option<u64>,
}

impl View for RoomConnection {
    type V = RoomView;

    open spec fn view(&self) -> RoomView {
        RoomView {
            code: self.code@,
            open: self.open,
            connected: self.connected,
            started: self.started,
            failure: self.failure,
            accepted_at: self.accepted_at,
            check: self.check,
        }
    }
}

/// What the socket and the page report.
pub struct LobbyInput {
    /// How the signaling loop ended, once it has: the words of its error, or nothing where it just
    /// closed.
    pub loop_ended: Option<Option<String>>,
    /// The words of the error that the peer list brought.
    pub peers_error: Option<String>,
    /// Our peer id, once the server accepted us.
    pub id: Option<u128>,
    /// The peers with an open data channel.
    pub peers: Vec<u128>,
    /// The browser gave up on every candidate pair.
    pub ice_failed: bool,
    /// The answer to the room lookup.
    pub lookup: Option<HttpResult>,
    pub server: SignalState,
    pub now: u64,
}

/// What the lobby wants done.
#[derive(Debug, PartialEq)]
pub enum LobbyAction {
    Nothing,
    /// Ask the server about the room.
    LookUp(String),
    /// Close the socket, which frees our slot right away.
    Close,
    /// Start the session with that peer, as the player with this handle.
    Start { local: usize, remote: u128 },
}

/// Why the lobby is over, in the socket's words; nothing while it goes on.
pub open spec fn ended(i: LobbyInput) -> Option<Seq<char>> {
    match (i.loop_ended, i.peers_error) {
        (None, None) => None,
        (Some(Some(e)), _) => Some(e@),
        (_, Some(e)) => Some(e@),
        _ => Some("signaling connection closed"@),
    }
}

/// The handle of a player: the ids of both, in order.
pub open spec fn handle_of(ours: u128, theirs: u128) -> int {
    if ours <= theirs {
        0
    } else {
        1
    }
}

impl RoomView {
    /// The lobby after a look at what the socket reports.
    pub open spec fn next(self, i: LobbyInput) -> RoomView {
        if self.started {
            self
        } else if self.failure is Some {
            match self.check {
                Some(started) if self.failure == Some(RoomFailure::Checking) => {
                    match looked_up(i.lookup, started, i.now) {
                        Some(f) => RoomView { failure: Some(f), check: None, ..self },
                        None => self,
                    }
                },
                _ => self,
            }
        } else if !self.open {
            self
        } else if let Some(detail) = ended(i) {
            let f = failure_of(detail, i.server);
            RoomView {
                failure: Some(f),
                check: if f == RoomFailure::Checking {
                    Some(i.now)
                } else {
                    self.check
                },
                ..self
            }
        } else if i.id is None {
            self
        } else {
            let t = if self.connected {
                self
            } else {
                RoomView { connected: true, accepted_at: Some(i.now), ..self }
            };
            if i.peers@.len() == 0 {
                if i.ice_failed {
                    RoomView { open: false, failure: Some(RoomFailure::PeerUnreachable), ..t }
                } else if t.accepted_at matches Some(at) && elapsed(at, i.now) > LOBBY_TIMEOUT {
                    RoomView { open: false, failure: Some(RoomFailure::Timeout), ..t }
                } else {
                    t
                }
            } else if i.peers@.len() > 1 {
                RoomView { failure: Some(RoomFailure::Full), ..t }
            } else {
                t
            }
        }
    }

    /// Whether the lobby is done waiting: exactly one other peer is there.
    pub open spec fn paired(self, i: LobbyInput) -> bool {
        &&& !self.started
        &&& self.failure is None
        &&& self.open
        &&& ended(i) is None
        &&& i.id is Some
        &&& i.peers@.len() == 1
    }
}

impl RoomConnection {
    /// A lobby that was just opened.
    pub fn new(code: String) -> (r: RoomConnection)
        ensures
            r@ == (RoomView {
                code: code@,
                open: true,
                connected: false,
                started: false,
                failure: None,
                accepted_at: None,
                check: None,
            }),
    {
        RoomConnection {
            code,
            open: true,
            connected: false,
            started: false,
            failure: None,
            accepted_at: None,
            check: None,
        }
    }

    /// Waits for exactly one other peer, then says to start the session. The signaling loop ending
    /// before that means the server refused us (room full, rate limited) or cannot be reached /
    /// went away while we were waiting.
    pub fn poll_room(&mut self, i: &LobbyInput, cfg: &ClientConfig) -> (r: LobbyAction)
        ensures
            final(self)@ == old(self)@.next(*i),
            match r {
                LobbyAction::Nothing => {
                    &&& !old(self)@.paired(*i)
                    &&& final(self)@.open == old(self)@.open
                    &&& !(final(self)@.failure == Some(RoomFailure::Checking)
                        && old(self)@.failure is None)
                },
                LobbyAction::LookUp(url) => {
                    &&& final(self)@.failure == Some(RoomFailure::Checking)
                    &&& old(self)@.failure is None
                    &&& url@ == cfg.api() + "/api/room/"@ + old(self)@.code
                },
                LobbyAction::Close => old(self)@.open && !final(self)@.open,
                LobbyAction::Start { local, remote } => {
                    &&& old(self)@.paired(*i)
                    &&& remote == i.peers@[0]
                    &&& local == handle_of(i.id->0, remote)
                },
            },
    {
        if self.started {
            return LobbyAction::Nothing;
        }
        if let Some(f) = self.failure {
            if f == RoomFailure::Checking {
                if let Some(started) = self.check {
                    if let Some(resolved) = check_result(&i.lookup, started, i.now) {
                        self.failure = Some(resolved);
                        self.check = None;
                    }
                }
            }
            return LobbyAction::Nothing;
        }
        if !self.open {
            return LobbyAction::Nothing;
        }
        let detail: Option<String> = match (&i.loop_ended, &i.peers_error) {
            (None, None) => None,
            (Some(Some(e)), _) => Some(e.clone()),
            (_, Some(e)) => Some(e.clone()),
            _ => Some(owned("signaling connection closed")),
        };
        if let Some(d) = detail {
            let f = classify_failure(d.as_str(), i.server);
            self.failure = Some(f);
            if f == RoomFailure::Checking {
                self.check = Some(i.now);
                let api = cfg.api_url();
                return LobbyAction::LookUp(cat3(api.as_str(), "/api/room/", self.code.as_str()));
            }
            return LobbyAction::Nothing;
        }
        let ours = match i.id {
            Some(id) => id,
            None => {
                return LobbyAction::Nothing;
            },
        };
        if !self.connected {
            self.connected = true;
            self.accepted_at = Some(i.now);
        }
        if i.peers.len() == 0 {
            if i.ice_failed {
                self.open = false;
                self.failure = Some(RoomFailure::PeerUnreachable);
                return LobbyAction::Close;
            }
            if let Some(at) = self.accepted_at {
                if since(at, i.now) > LOBBY_TIMEOUT {
                    self.open = false;
                    self.failure = Some(RoomFailure::Timeout);
                    return LobbyAction::Close;
                }
            }
            return LobbyAction::Nothing;
        }
        if i.peers.len() > 1 {
            self.failure = Some(RoomFailure::Full);
            return LobbyAction::Nothing;
        }
        let remote = i.peers[0];
        let local: usize = if ours <= remote {
            0
        } else {
            1
        };
        LobbyAction::Start { local, remote }
    }

    /// The session was started, or could not be.
    pub fn session_built(&mut self, ok: bool)
        ensures
            final(self)@ == if ok {
                (RoomView { started: true, ..old(self)@ })
            } else {
                (RoomView { failure: Some(RoomFailure::Refused), ..old(self)@ })
            },
    {
        if ok {
            self.started = true;
        } else {
            self.failure = Some(RoomFailure::Refused);
        }
    }
}

/// The two players of a match get different handles, and agree on which is whose.
pub proof fn law_handles_are_distinct(a: u128, b: u128)
    requires
        a != b,
    ensures
        handle_of(a, b) + handle_of(b, a) == 1,
{
}

/// A lobby that ended stays ended: a failure is never taken back, only a lookup resolves.
pub proof fn law_failure_is_final(room: RoomView, i: LobbyInput)
    requires
        room.failure is Some,
    ensures
        room.next(i).failure is Some,
        room.failure != Some(RoomFailure::Checking) ==> room.next(i) == room,
        !room.paired(i),
{
}

/// The other player's name, as far as the server said it: a matchmade opponent's. A private room's
/// opponent introduces themselves once the session runs.
pub open spec fn known_opponent(kind: Option<MatchKind>) -> Seq<char> {
    match kind {
        Some(MatchKind::Ranked(info)) => info.opponent@,
        Some(MatchKind::Quick(info)) => info.opponent@,
        _ => Seq::empty(),
    }
}

/// The names a match starts with, and the hello that introduces this player.
pub fn introduce(local: usize, kind: &Option<MatchKind>, my_name: &str) -> (r: (
    PlayerNames,
    Vec<u8>,
))
    requires
        local <= 1,
    ensures
        r.0.of(local as int) == my_name@,
        r.0.of(1 - local) == known_opponent(*kind),
        r.1@ == hello_bytes(my_name@),
{
    let theirs = match kind {
        Some(MatchKind::Ranked(info)) => info.opponent.clone(),
        Some(MatchKind::Quick(info)) => info.opponent.clone(),
        _ => String::new(),
    };
    (PlayerNames::pair(local, owned(my_name), theirs), hello(my_name))
}

// ---- commands of the menu ----

/// Requests from the menu.
#[derive(Debug, PartialEq)]
pub enum NetCommand {
    CreateRoom,
    JoinRoom(String),
    /// The competitive queue paired us: join the match's room.
    StartRanked(MatchInfo),
    /// The quick play queue paired us: join the room.
    StartQuick(QuickMatch),
    Practice,
    Leave,
}

#[verifier::ext_equal]
pub enum CommandView {
    CreateRoom,
    JoinRoom(Seq<char>),
    StartRanked(MatchInfo),
    StartQuick(QuickMatch),
    Practice,
    Leave,
}

impl View for NetCommand {
    type V = CommandView;

    open spec fn view(&self) -> CommandView {
        match self {
            NetCommand::CreateRoom => CommandView::CreateRoom,
            NetCommand::JoinRoom(code) => CommandView::JoinRoom(code@),
            NetCommand::StartRanked(info) => CommandView::StartRanked(*info),
            NetCommand::StartQuick(info) => CommandView::StartQuick(*info),
            NetCommand::Practice => CommandView::Practice,
            NetCommand::Leave => CommandView::Leave,
        }
    }
}

/// A room to open.
#[derive(Debug, PartialEq)]
pub struct RoomStart {
    pub code: String,
    pub url: String,
    pub seed: u64,
    pub kind: MatchKind,
}

/// What a command leads to.
#[derive(Debug, PartialEq)]
pub enum Launch {
    /// Nothing: the server is unreachable, or the code is no code.
    Refused,
    Room(RoomStart),
    /// An offline match against a dummy.
    Practice { seed: u64, names: PlayerNames },
    ToMenu,
}

/// The address of a room's lobby.
pub open spec fn lobby_url(cfg: ClientConfig, code: Seq<char>, protocol: Seq<char>) -> Seq<char> {
    without_trailing(cfg.signaling_url@, '/') + "/endif-"@ + code + "?v="@ + protocol
}

impl RoomStart {
    /// Whether it opens the room `code` as a match of this kind.
    pub open spec fn opens(
        self,
        code: Seq<char>,
        cfg: ClientConfig,
        protocol: Seq<char>,
    ) -> bool {
        &&& self.code@ == code
        &&& self.url@ == lobby_url(cfg, code, protocol)
        &&& self.seed == fnv1a(encode_utf8(code))
    }
}

/// The room with that code. Both peers seed the simulation from the code.
pub fn start_room(code: &str, kind: MatchKind, cfg: &ClientConfig, protocol: &str) -> (r: RoomStart)
    ensures
        r.opens(code@, *cfg, protocol@),
        r.kind == kind,
{
    RoomStart {
        code: owned(code),
        url: cfg.room_url(code, protocol),
        seed: seed_from_room(code),
        kind,
    }
}

/// What a command of the menu leads to. Rooms take a server that can be reached, and a code that is
/// complete.
pub fn handle_net_command(
    cmd: NetCommand,
    status: &SignalingStatus,
    cfg: &ClientConfig,
    account: &Account,
    protocol: &str,
) -> (r: Launch)
    ensures
        match cmd {
            NetCommand::CreateRoom => if status@.down() {
                r is Refused
            } else {
                &&& r matches Launch::Room(s)
                &&& full_code(s.code@)
                &&& s.opens(s.code@, *cfg, protocol@)
                &&& s.kind matches MatchKind::Room { code } && code@ == s.code@
            },
            NetCommand::JoinRoom(c) => if encode_utf8(c@).len() != ROOM_CODE_LEN
                || status@.down() {
                r is Refused
            } else {
                &&& r matches Launch::Room(s)
                &&& s.opens(c@, *cfg, protocol@)
                &&& s.kind matches MatchKind::Room { code } && code@ == c@
            },
            NetCommand::StartRanked(info) => if status@.down() {
                r is Refused
            } else {
                r matches Launch::Room(s) && s.opens(info.room@, *cfg, protocol@) && s.kind
                    == MatchKind::Ranked(info)
            },
            NetCommand::StartQuick(info) => if status@.down() {
                r is Refused
            } else {
                r matches Launch::Room(s) && s.opens(info.room@, *cfg, protocol@) && s.kind
                    == MatchKind::Quick(info)
            },
            NetCommand::Practice => r matches Launch::Practice { seed, names } && seed
                == PRACTICE_SEED && names.of(0) == account@.shown_name() && names.of(1)
                == "DUMMY"@,
            NetCommand::Leave => r is ToMenu,
        },
{
    match cmd {
        NetCommand::CreateRoom => {
            if status.is_down() {
                return Launch::Refused;
            }
            let code = generate_room_code();
            Launch::Room(
                start_room(code.as_str(), MatchKind::Room { code: code.clone() }, cfg, protocol),
            )
        },
        NetCommand::JoinRoom(code) => {
            let bytes = code.as_str().as_bytes();
            if bytes.len() != ROOM_CODE_LEN || status.is_down() {
                return Launch::Refused;
            }
            Launch::Room(
                start_room(code.as_str(), MatchKind::Room { code: code.clone() }, cfg, protocol),
            )
        },
        NetCommand::StartRanked(info) => {
            if status.is_down() {
                return Launch::Refused;
            }
            let room = info.room.clone();
            Launch::Room(start_room(room.as_str(), MatchKind::Ranked(info), cfg, protocol))
        },
        NetCommand::StartQuick(info) => {
            if status.is_down() {
                return Launch::Refused;
            }
            let room = info.room.clone();
            Launch::Room(start_room(room.as_str(), MatchKind::Quick(info), cfg, protocol))
        },
        NetCommand::Practice => Launch::Practice {
            seed: PRACTICE_SEED,
            names: PlayerNames { first: account.display_name(), second: owned("DUMMY") },
        },
        NetCommand::Leave => Launch::ToMenu,
    }
}

// ---- a running session ----

/// What the session reports.
#[derive(Clone, Copy, Debug, PartialEq, Eq, Structural)]
pub enum SessionEvent {
    /// The WebRTC connection itself went away (tab closed, network gone).
    PeerLeft,
    Synchronizing { count: u32, total: u32 },
    Synchronized,
    Interrupted,
    Resumed,
    Disconnected,
    Desync { frame: i32 },
    WaitRecommendation,
}

/// The line that an event puts on the HUD; nothing where it leaves the line as it is.
pub open spec fn session_line(ev: SessionEvent) -> Option<Seq<char>> {
    match ev {
        SessionEvent::PeerLeft | SessionEvent::Disconnected => Some("opponent left"@),
        SessionEvent::Synchronizing { count, total } => Some(
            "synchronizing "@ + decimal(count as nat) + "/"@ + decimal(total as nat),
        ),
        SessionEvent::Synchronized | SessionEvent::Resumed => Some("connected"@),
        SessionEvent::Interrupted => Some("connection interrupted"@),
        SessionEvent::Desync { frame } => Some(
            "desync at frame "@ + crate::text::signed_decimal(frame as int) + "!"@,
        ),
        SessionEvent::WaitRecommendation => None,
    }
}

/// Takes in an event of the session: the HUD's line follows it, and true where the opponent is gone
/// and the match drops back to the menu.
pub fn watch_session(line: &mut String, ev: SessionEvent) -> (gone: bool)
    ensures
        final(line)@ == match session_line(ev) {
            Some(t) => t,
            None => old(line)@,
        },
        gone == (ev == SessionEvent::PeerLeft || ev == SessionEvent::Disconnected),
{
    match ev {
        SessionEvent::PeerLeft | SessionEvent::Disconnected => {
            *line = owned("opponent left");
            true
        },
        SessionEvent::Synchronizing { count, total } => {
            let a = show(count as u64);
            let b = show(total as u64);
            let mut out = cat3("synchronizing ", a.as_str(), "/");
            out.append(b.as_str());
            *line = out;
            false
        },
        SessionEvent::Synchronized | SessionEvent::Resumed => {
            *line = owned("connected");
            false
        },
        SessionEvent::Interrupted => {
            *line = owned("connection interrupted");
            false
        },
        SessionEvent::Desync { frame } => {
            let n = crate::text::show_signed(frame as i64);
            *line = cat3("desync at frame ", n.as_str(), "!");
            false
        },
        SessionEvent::WaitRecommendation => false,
    }
}

// ---- presence ----

/// The socket that counts this client as online: opened when the app starts, kept for its whole
/// life and reopened when it drops. One per running client, so nobody is counted twice.
#[derive(Clone, Copy, Debug, PartialEq, Eq, Structural)]
pub struct Presence {
    pub open: bool,
    pub retry_at: u64,
}

#[derive(Clone, Copy, Debug, PartialEq, Eq, Structural)]
pub enum PresenceAction {
    Nothing,
    Open,
    Drop,
}

impl Presence {
    /// Keeps the presence socket open. It only drops when the connection dies or the server
    /// restarts, and is then reopened after a pause. An out-of-date build would only be turned away
    /// until it has updated.
    pub fn keep(&mut self, ended: bool, outdated: bool, now: u64) -> (r: PresenceAction)
        ensures
            r == if old(self).open {
                if ended {
                    PresenceAction::Drop
                } else {
                    PresenceAction::Nothing
                }
            } else if now < old(self).retry_at || outdated {
                PresenceAction::Nothing
            } else {
                PresenceAction::Open
            },
            *final(self) == match r {
                PresenceAction::Nothing => *old(self),
                PresenceAction::Open => Presence {
                    open: true,
                    retry_at: later(now, PRESENCE_RETRY) as u64,
                },
                PresenceAction::Drop => Presence {
                    open: false,
                    retry_at: later(now, PRESENCE_RETRY) as u64,
                },
            },
    {
        if self.open {
            if ended {
                self.open = false;
                self.retry_at = after(now, PRESENCE_RETRY);
                return PresenceAction::Drop;
            }
            return PresenceAction::Nothing;
        }
        if now < self.retry_at || outdated {
            return PresenceAction::Nothing;
        }
        self.open = true;
        self.retry_at = after(now, PRESENCE_RETRY);
        PresenceAction::Open
    }
}

/// What a player is called by: each handle has its own name, none other has one, and the name on
/// the score box is twelve characters at most of it.
pub proof fn law_each_handle_has_its_name(n: PlayerNames, handle: int)
    ensures
        n.of(0) == n.first@,
        n.of(1) == n.second@,
        handle != 0 && handle != 1 ==> n.of(handle).len() == 0,
        0 < n.of(handle).len() <= 12 ==> n.shown(handle) == uppercase(n.of(handle)),
        n.of(handle).len() > 12 ==> n.shown(handle) == uppercase(n.of(handle).take(12)),
        n.of(handle).len() == 0 ==> n.shown(handle) == uppercase("???"@),
{
    reveal_strlit("???");
}

/// Only a packet that begins with the introduction's mark introduces anyone.
pub proof fn law_only_a_hello_introduces(packet: Seq<u8>)
    ensures
        hello_name(packet) is Some <==> packet.len() > 0 && packet[0] == 1,
        hello_name(packet) matches Some(n) ==> n.len() <= 20,
{
}

/// The server is up, for us, exactly where it answers with our own protocol; it is outdated where
/// it answers with another; and it is down where it does not answer properly. Only an answer
/// changes what is known of it.
pub proof fn law_what_a_probe_finds(
    s: StatusView,
    version: HttpResult,
    build: HttpResult,
    ours: BuildIdentity,
)
    ensures
        ({
            let (t, state) = s.settled(version, build, ours);
            let answered = version matches Ok(v) && v.code == 200;
            &&& !answered ==> state == SignalState::Down && t == s
            &&& answered ==> {
                &&& t.server_version == Some(trimmed(lossy(version->Ok_0.body@)))
                &&& state == SignalState::Up <==> t.server_version == Some(ours.protocol@)
                &&& state == SignalState::Outdated <==> t.server_version != Some(ours.protocol@)
                &&& (build matches Ok(b) && b.code == 200) ==> t.server_build == Some(
                    trimmed(lossy(build->Ok_0.body@)),
                )
                &&& !(build matches Ok(b) && b.code == 200) ==> t.server_build is None
                &&& t == (StatusView {
                    server_version: t.server_version,
                    server_build: t.server_build,
                    ..s
                })
            }
        }),
{
}

/// The page reloads for a build only where the server runs another protocol, or runs ours in
/// another build and a reload is welcome; and it reloads for what the server said.
pub proof fn law_when_the_page_reloads(
    s: StatusView,
    version: HttpResult,
    build: HttpResult,
    ours: BuildIdentity,
    may_reload: bool,
)
    ensures
        ({
            let (t, state) = s.settled(version, build, ours);
            let r = s.reload(version, build, ours, may_reload);
            &&& r is Some <==> state == SignalState::Outdated || (state == SignalState::Up
                && may_reload && t.server_build is Some && t.server_build->0 != ours.build@)
            &&& r is Some ==> (t.server_build is Some ==> r == t.server_build) && (t.server_build
                is None ==> r == t.server_version)
            &&& state == SignalState::Down ==> r is None
        }),
{
}

/// An update is there where the server is past this build: another protocol, or another build. The
/// site has it once its package is that build, or once it is known that it does not say.
pub proof fn law_when_an_update_is_there(s: StatusView, build: Seq<char>)
    ensures
        s.update(build) <==> s.state == SignalState::Outdated || (s.server_build is Some
            && s.server_build->0 != build),
        s.down() <==> s.state == SignalState::Down || s.state == SignalState::Outdated,
        s.package_build is Unknown ==> !s.ready(),
        s.package_build is Unavailable ==> s.ready(),
        s.package_build matches PackageView::Known(p) ==> (s.ready() <==> s.server_build is Some
            && s.server_build->0 == p),
        s.looks(build) == (s.state, s.update(build), s.ready()),
{
}

/// A probe is sent when it is due and none is out; one that is out ends with both answers or after
/// eight seconds; the next one follows fifteen seconds after the server was up, five after it was
/// not. What state the server is in changes with a finished probe and with nothing else.
pub proof fn law_how_the_server_is_probed(
    s: StatusView,
    version: Option<HttpResult>,
    build: Option<HttpResult>,
    package: Option<HttpResult>,
    ours: BuildIdentity,
    desktop: bool,
    now: u64,
)
    ensures
        ({
            let t = probed(s, version, build, package, ours, desktop, now);
            let finished = s.probe is Some && (version is Some && build is Some || (now
                >= s.probe->0 && now - s.probe->0 > 8_000_000_000));
            &&& s.probe is None && now >= s.next_probe_at ==> t.probe == Some(now)
            &&& s.probe is None && now < s.next_probe_at ==> t.probe is None
            &&& s.probe is Some && !finished ==> t.probe == s.probe
            &&& finished ==> t.probe is None
            &&& !finished ==> t.state == s.state && t.next_probe_at == s.next_probe_at
                && t.server_version == s.server_version && t.server_build == s.server_build
            &&& finished && version is Some && build is Some ==> t.state == s.settled(
                version->0,
                build->0,
                ours,
            ).1
            &&& finished && !(version is Some && build is Some) ==> t.state == SignalState::Down
                && t.server_version == s.server_version && t.server_build == s.server_build
            &&& finished && t.state == SignalState::Up && now + 15_000_000_000 <= u64::MAX
                ==> t.next_probe_at == now + 15_000_000_000
            &&& finished && t.state != SignalState::Up && now + 5_000_000_000 <= u64::MAX
                ==> t.next_probe_at == now + 5_000_000_000
            &&& !desktop ==> t.package_probe == s.package_probe && t.package_build
                == s.package_build
        }),
{
}

/// The answer about the package ends its request, and so do eight seconds without one: the build it
/// names, or that the site does not say. Without a request out nothing happens.
pub proof fn law_what_the_package_answer_says(s: StatusView, answer: Option<HttpResult>, now: u64)
    ensures
        ({
            let t = s.with_package(answer, now);
            let late = s.package_probe matches Some(at) && now >= at && now - at > 8_000_000_000;
            &&& s.package_probe is None ==> t == s
            &&& s.package_probe is Some && answer is None && !late ==> t == s
            &&& s.package_probe is Some && answer is None && late ==> t.package_probe is None
                && t.package_build is Unavailable
            &&& s.package_probe is Some && answer is Some ==> t.package_probe is None
            &&& s.package_probe is Some && (answer matches Some(Ok(a)) && a.code == 200)
                ==> t.package_build == PackageView::Known(trimmed(lossy(answer->0->Ok_0.body@)))
            &&& s.package_probe is Some && answer is Some && !(answer matches Some(Ok(a)) && a.code
                == 200) ==> t.package_build is Unavailable
            &&& t == (StatusView {
                package_build: t.package_build,
                package_probe: t.package_probe,
                ..s
            })
        }),
{
}

/// What an ended connection is put down to: a stale build before anything else, then a full room,
/// then a server that asks to slow down, then a server that is not there, and only without any of
/// these is the server asked.
pub proof fn law_what_a_failure_is_put_down_to(detail: Seq<char>, state: SignalState)
    ensures
        ({
            let stale = state == SignalState::Outdated || found(detail, "426"@) is Some;
            let full = found(detail, "401"@) is Some;
            let busy = found(detail, "429"@) is Some;
            let f = failure_of(detail, state);
            &&& f == RoomFailure::Outdated <==> stale
            &&& f == RoomFailure::Full <==> !stale && full
            &&& f == RoomFailure::Refused <==> !stale && !full && busy
            &&& f == RoomFailure::Unreachable <==> !stale && !full && !busy && state
                == SignalState::Down
            &&& f == RoomFailure::Checking <==> !stale && !full && !busy && state
                != SignalState::Down
        }),
{
}

/// A room with as many players as it takes (two where the server does not say) is full; with fewer
/// it refused us. More players never make it less full.
pub proof fn law_when_a_room_is_full(peers: u64, more: u64, max: u64)
    requires
        peers <= more,
    ensures
        occupancy(Some(peers), Some(max)) == RoomFailure::Full <==> peers >= max,
        occupancy(Some(peers), Some(max)) == RoomFailure::Refused <==> peers < max,
        occupancy(Some(peers), None) == RoomFailure::Full <==> peers >= 2,
        occupancy(None, Some(max)) == RoomFailure::Full <==> max == 0,
        occupancy(Some(peers), Some(max)) == RoomFailure::Full ==> occupancy(Some(more), Some(max))
            == RoomFailure::Full,
{
}

/// A lookup waits eight seconds for its answer; without a proper one the server is out of reach,
/// and an answer other than a success is a refusal.
pub proof fn law_how_a_lookup_ends(answer: Option<HttpResult>, started: u64, now: u64)
    ensures
        answer is None ==> (looked_up(answer, started, now) is None <==> now < started || now
            - started <= 8_000_000_000),
        answer is None && looked_up(answer, started, now) is Some ==> looked_up(
            answer,
            started,
            now,
        ) == Some(RoomFailure::Unreachable),
        answer is Some ==> looked_up(answer, started, now) is Some,
        answer matches Some(Err(_)) ==> looked_up(answer, started, now) == Some(
            RoomFailure::Unreachable,
        ),
        answer matches Some(Ok(a)) ==> (a.code != 200 ==> looked_up(answer, started, now) == Some(
            RoomFailure::Refused,
        )),
        looked_up(answer, started, now) != Some(RoomFailure::Checking),
{
}

/// A lobby fails for a reason and stays open without one: it waits without a peer while the server
/// has it, gives up half an hour after it was accepted, and is full with more than one peer. A
/// match begins only with exactly one.
pub proof fn law_how_a_lobby_ends(room: RoomView, i: LobbyInput)
    requires
        !room.started,
        room.failure is None,
        room.open,
    ensures
        ({
            let t = room.next(i);
            let closed = i.loop_ended is Some || i.peers_error is Some;
            let at = if room.connected {
                room.accepted_at
            } else {
                Some(i.now)
            };
            let late = at matches Some(t0) && i.now >= t0 && i.now - t0 > 1_800_000_000_000;
            &&& t.code == room.code && !t.started
            &&& closed ==> t.failure == Some(failure_of(ended(i)->0, i.server)) && t.open
            &&& closed && t.failure == Some(RoomFailure::Checking) ==> t.check == Some(i.now)
            &&& !closed && i.id is None ==> t == room
            &&& !closed && i.id is Some ==> t.connected && t.accepted_at == at
            &&& !closed && i.id is Some && i.peers@.len() > 1 ==> t.failure == Some(
                RoomFailure::Full,
            )
            &&& !closed && i.id is Some && i.peers@.len() == 1 ==> t.failure is None && t.open
            &&& !closed && i.id is Some && i.peers@.len() == 0 && i.ice_failed ==> t.failure
                == Some(RoomFailure::PeerUnreachable) && !t.open
            &&& !closed && i.id is Some && i.peers@.len() == 0 && !i.ice_failed && late
                ==> t.failure == Some(RoomFailure::Timeout) && !t.open
            &&& !closed && i.id is Some && i.peers@.len() == 0 && !i.ice_failed && !late
                ==> t.failure is None && t.open
            &&& room.paired(i) <==> !closed && i.id is Some && i.peers@.len() == 1
        }),
{
}

/// Why a connection ended: in the words of its own error first, then of the peer list's, then in
/// ours; it has not ended where neither did.
pub proof fn law_why_a_connection_ended(i: LobbyInput)
    ensures
        ended(i) is None <==> i.loop_ended is None && i.peers_error is None,
        i.loop_ended matches Some(Some(e)) ==> ended(i) == Some(e@),
        !(i.loop_ended matches Some(Some(_))) && i.peers_error is Some ==> ended(i) == Some(
            i.peers_error->0@,
        ),
{
}

/// The lower peer id is the first player.
pub proof fn law_the_lower_id_plays_first(ours: u128, theirs: u128)
    requires
        ours != theirs,
    ensures
        handle_of(ours, theirs) == 0 <==> ours < theirs,
        handle_of(ours, theirs) == 1 <==> ours > theirs,
{
}

/// The queues name the opponent beforehand; no other match does.
pub proof fn law_who_names_the_opponent(kind: Option<MatchKind>)
    ensures
        kind matches Some(MatchKind::Ranked(info)) ==> known_opponent(kind) == info.opponent@,
        kind matches Some(MatchKind::Quick(info)) ==> known_opponent(kind) == info.opponent@,
        !(kind matches Some(MatchKind::Ranked(_))) && !(kind matches Some(MatchKind::Quick(_)))
            ==> known_opponent(kind).len() == 0,
{
}

/// The line about the session: a word for each thing that happens to it, none for advice; leaving
/// and coming back are told apart.
pub proof fn law_what_the_session_line_says(count: u32, total: u32, frame: i32)
    ensures
        session_line(SessionEvent::Synchronized) == Some("connected"@),
        session_line(SessionEvent::Resumed) == Some("connected"@),
        session_line(SessionEvent::Interrupted) == Some("connection interrupted"@),
        session_line(SessionEvent::PeerLeft) == session_line(SessionEvent::Disconnected),
        session_line(SessionEvent::PeerLeft) == Some("opponent left"@),
        session_line(SessionEvent::WaitRecommendation) is None,
        session_line(SessionEvent::Synchronizing { count, total }) == Some(
            "synchronizing "@ + decimal(count as nat) + "/"@ + decimal(total as nat),
        ),
        session_line(SessionEvent::Desync { frame }) is Some,
{
}

/// A room is opened at the server under its code, with the protocol spoken, and plays from the seed
/// of the code: two players with one code play the same match.
pub proof fn law_one_code_is_one_match(
    a: RoomStart,
    b: RoomStart,
    code: Seq<char>,
    cfg: ClientConfig,
    protocol: Seq<char>,
)
    requires
        a.opens(code, cfg, protocol),
        b.opens(code, cfg, protocol),
    ensures
        a.seed == b.seed && a.code@ == b.code@ && a.url@ == b.url@,
        a.code@ == code,
        a.seed == fnv1a(encode_utf8(code)),
        a.url@ == without_trailing(cfg.signaling_url@, '/') + "/endif-"@ + code + "?v="@
            + protocol,
{
}

} // verus!
