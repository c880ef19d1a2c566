//! Who the player is: the anonymous name used while logged out, the logged-in account (login token
//! + profile), the calls to the server's `/api`, the matchmaking queue and the reporting of ranked
//! results. A call is handed out as an [`HttpRequest`]; its answer comes back as a [`Reply`].

use vstd::prelude::*;
use vstd::string::*;

use crate::chance::random_below;
use crate::clock::{after, elapsed, later, since};
use crate::config::ClientConfig;
use crate::game::SimEvent;
use crate::json::{braced, flag_text, get_count, get_integer, get_text, json_count, json_integer,
    json_text, object1, object2, object3, pair_text, quoted, with_member, Object};
use crate::menu::UiScreen;
use crate::text::{cat, cat3, chars, contains, control, decimal, eq, found, lemma_trimmed_fixed,
    lemma_trimmed_part, opt, opt_clone, or_empty, owned, show, show_padded, signed_decimal, trim,
    trimmed, white_space, zero_padded};
use crate::textfield::{Field, Form, FormView, NAME_MAX};

verus! {

/// How often the queue is polled.
pub const QUEUE_POLL: u64 = 1_500_000_000;

/// How often the main menu asks how many players are searching.
pub const SEARCHING_POLL: u64 = 5_000_000_000;

/// How long the result banner stays up before a finished ranked match returns to the menu.
pub const RANKED_EXIT: u64 = 4_000_000_000;

/// How often the result popup asks the server whether the match has been settled.
pub const RESULT_POLL: u64 = 2_000_000_000;

/// How long the popup keeps asking before it gives up on showing the rating change. A forfeit
/// settles once the server's grace period for the missing report (15 s) has passed.
pub const RESULT_WAIT: u64 = 60_000_000_000;

/// How long "resend code" stays greyed out after a code was sent (the server has its own, longer
/// cooldown; this just stops a double click from asking twice).
pub const RESEND_WAIT: u64 = 10_000_000_000;

#[derive(Debug, PartialEq)]
pub struct UserInfo {
    pub id: u64,
    pub username: String,
    pub email: Option<String>,
    pub elo: i32,
    pub wins: i32,
    pub losses: i32,
}

#[derive(Debug, PartialEq)]
pub struct HistoryEntry {
    pub id: u64,
    /// False for a private-room round: no ratings, and it counted for nothing.
    pub ranked: bool,
    pub opponent: String,
    pub my_score: i32,
    pub their_score: i32,
    pub won: bool,
    /// Ratings at match time and the change; absent on casual rounds.
    pub my_elo: Option<i32>,
    pub their_elo: Option<i32>,
    pub delta: Option<i32>,
    /// Unix seconds.
    pub played_at: i64,
}

#[derive(Debug, PartialEq)]
pub struct Profile {
    pub user: UserInfo,
    pub matches: Vec<HistoryEntry>,
    /// Place on the leaderboard, where the player has one.
    pub rank: Option<u32>,
}

/// A ranked pairing from the queue.
#[derive(Debug, PartialEq)]
pub struct MatchInfo {
    pub match_id: u64,
    pub room: String,
    /// 0 = player_a, 1 = player_b in the server's record.
    pub slot: u8,
    pub opponent: String,
    pub opponent_elo: i32,
}

/// A quick play pairing: unrated, rounds go on until someone leaves.
#[derive(Debug, PartialEq)]
pub struct QuickMatch {
    pub room: String,
    pub opponent: String,
}

/// A line of the leaderboard.
#[derive(Debug, PartialEq)]
pub struct LeaderboardEntry {
    pub rank: u32,
    pub username: String,
    pub elo: i32,
    pub wins: u32,
    pub losses: u32,
}

/// A page of the leaderboard.
#[derive(Debug, PartialEq)]
pub struct Leaderboard {
    pub players: Vec<LeaderboardEntry>,
    /// From 1.
    pub page: u32,
    pub pages: u32,
}

/// Which queue.
#[derive(Clone, Copy, Debug, PartialEq, Eq, Structural)]
pub enum QueueKind {
    Competitive,
    Quick,
}

/// How many players a queue has, in games and waiting for one.
#[derive(Clone, Copy, Debug, PartialEq, Eq, Structural)]
pub struct Activity {
    pub playing: u32,
    pub waiting: u32,
}

/// Who is online and what they do.
#[derive(Clone, Copy, Debug, PartialEq, Eq, Structural)]
pub struct Stats {
    pub online: u64,
    pub competitive: Activity,
    pub quick: Activity,
}

#[derive(Clone, Copy, Debug, PartialEq, Eq, Structural)]
pub enum Req {
    Me,
    Login,
    Register,
    Verify,
    /// A fresh verification code for the pending registration.
    Resend,
    Forgot,
    Reset,
    ChangeUsername,
    ChangePassword,
    Profile,
    QueueJoin,
    QueuePoll,
    QueueLeave,
    /// How many players are searching, for the main menu.
    QueueCount,
    Report,
    /// A private-room round for the history.
    Casual,
    /// Whether a finished match has been settled yet (the result popup).
    MatchStatus,
}

impl Req {
    /// Requests the forms wait on (buttons show "working...").
    pub open spec fn waited_on(self) -> bool {
        match self {
            Req::Me | Req::QueuePoll | Req::QueueLeave | Req::QueueCount | Req::Report
            | Req::Casual | Req::MatchStatus => false,
            _ => true,
        }
    }

    pub fn blocks(self) -> (r: bool)
        ensures
            r == self.waited_on(),
    {
        !matches!(
            self,
            Req::Me | Req::QueuePoll | Req::QueueLeave | Req::QueueCount | Req::Report | Req::Casual
                | Req::MatchStatus
        )
    }
}

/// A call to the server: a POST where it has a body, a GET where it has none.
#[derive(Debug, PartialEq)]
pub struct HttpRequest {
    pub kind: Req,
    pub url: String,
    pub headers: Vec<(String, String)>,
    pub body: Option<String>,
}

#[verifier::ext_equal]
pub struct RequestView {
    pub kind: Req,
    pub url: Seq<char>,
    pub headers: Seq<(Seq<char>, Seq<char>)>,
    pub body: Option<Seq<char>>,
}

impl View for HttpRequest {
    type V = RequestView;

    open spec fn view(&self) -> RequestView {
        RequestView {
            kind: self.kind,
            url: self.url@,
            headers: self.headers@.map_values(|h: (String, String)| (h.0@, h.1@)),
            body: opt(self.body),
        }
    }
}

/// The views of a list of requests.
pub open spec fn requests(v: Seq<HttpRequest>) -> Seq<RequestView> {
    v.map_values(|r: HttpRequest| r@)
}

/// A call as it is sent: below `/api` of the server, JSON in the body, and the login token where
/// there is one.
pub open spec fn request(
    api: Seq<char>,
    token: Option<Seq<char>>,
    kind: Req,
    path: Seq<char>,
    body: Option<Seq<char>>,
) -> RequestView {
    let accept = seq![("Accept"@, "*/*"@)];
    let typed = if body is Some {
        accept.push(("Content-Type"@, "application/json"@))
    } else {
        accept
    };
    RequestView {
        kind,
        url: api + "/api"@ + path,
        headers: match token {
            Some(t) => typed.push(("Authorization"@, "Bearer "@ + t)),
            None => typed,
        },
        body,
    }
}

/// An answer of the server, with what its JSON holds of the client's own records.
#[derive(Debug, PartialEq)]
pub struct Reply {
    pub status: u16,
    pub body: Vec<u8>,
    /// The `user` member.
    pub user: Option<UserInfo>,
    /// The whole answer as a profile, or what is wrong with it.
    pub profile: Result<Profile, String>,
    /// The `match` member, or what is wrong with it.
    pub matched: Result<MatchInfo, String>,
}

pub struct QueueState {
    pub kind: QueueKind,
    pub ticket: Option<String>,
    pub next_poll: u64,
    pub position: u64,
    /// Players in the queue, us included (0 until the server has answered).
    pub waiting: u64,
    /// Players in games of this kind.
    pub playing: u64,
    pub since: u64,
}

#[verifier::ext_equal]
pub struct QueueView {
    pub kind: QueueKind,
    pub ticket: Option<Seq<char>>,
    pub next_poll: u64,
    pub position: u64,
    pub waiting: u64,
    pub playing: u64,
    pub since: u64,
}

impl View for QueueState {
    type V = QueueView;

    open spec fn view(&self) -> QueueView {
        QueueView {
            kind: self.kind,
            ticket: opt(self.ticket),
            next_poll: self.next_poll,
            position: self.position,
            waiting: self.waiting,
            playing: self.playing,
            since: self.since,
        }
    }
}

pub open spec fn queue_view(q: Option<QueueState>) -> Option<QueueView> {
    match q {
        Some(q) => Some(q@),
        None => None,
    }
}

/// How a ranked match ended, from this player's side.
#[derive(Clone, Copy, Debug, PartialEq, Eq, Structural)]
pub enum Ending {
    Won,
    Lost,
    /// The opponent dropped or left: a win by forfeit.
    OpponentLeft,
    /// We left through the pause menu: a loss by forfeit.
    WeLeft,
}

/// The rating side of a finished match, as the server settles it.
#[derive(Clone, Copy, Debug, PartialEq, Eq, Structural)]
pub enum Rating {
    /// Still waiting on the server (the other report, or its grace period).
    Pending,
    Settled(i32),
    /// The two reports named different winners; nobody's rating moved.
    Void,
    /// Gave up waiting; the profile will show it once the server gets there.
    Unconfirmed,
}

/// A ranked match that just ended: shown as a popup on the main menu until dismissed.
#[derive(Clone, Copy, Debug, PartialEq, Eq, Structural)]
pub struct RankedResult {
    pub match_id: u64,
    pub ending: Ending,
    pub rating: Rating,
    /// Menu time the popup started waiting, and when it next asks the server.
    pub since: Option<u64>,
    pub next_poll: u64,
}

pub struct Account {
    pub token: Option<String>,
    pub user: Option<UserInfo>,
    pub anon_name: String,
    /// Last fetched profile (own or not), for the profile screen.
    pub profile: Option<Profile>,
    /// Address the register / forgot flows are waiting on a code for.
    pub pending_email: String,
    /// Menu time from which "resend code" may be pressed again.
    pub resend_at: u64,
    pub error: Option<String>,
    pub notice: Option<String>,
    pub queue: Option<QueueState>,
    /// Players searching for a match right now, as last reported; `None` until the server has
    /// answered (or after it stopped answering).
    pub searching: Option<u64>,
    /// Menu time of the next count request.
    pub next_searching_poll: u64,
    /// The ranked match that just ended, until its popup is dismissed.
    pub result: Option<RankedResult>,
    /// The requests in flight, oldest first.
    pub requests: Vec<Req>,
    /// Who is online, as last reported.
    pub stats: Option<Stats>,
    /// The leaderboard page on show.
    pub leaderboard: Option<Leaderboard>,
}

#[verifier::ext_equal]
pub struct AccountView {
    pub token: Option<Seq<char>>,
    pub user: Option<UserInfo>,
    pub anon_name: Seq<char>,
    pub profile: Option<Profile>,
    pub pending_email: Seq<char>,
    pub resend_at: u64,
    pub error: Option<Seq<char>>,
    pub notice: Option<Seq<char>>,
    pub queue: Option<QueueView>,
    pub searching: Option<u64>,
    pub next_searching_poll: u64,
    pub result: Option<RankedResult>,
    pub requests: Seq<Req>,
    pub stats: Option<Stats>,
    pub leaderboard: Option<Leaderboard>,
}

impl View for Account {
    type V = AccountView;

    open spec fn view(&self) -> AccountView {
        AccountView {
            token: opt(self.token),
            user: self.user,
            anon_name: self.anon_name@,
            profile: self.profile,
            pending_email: self.pending_email@,
            resend_at: self.resend_at,
            error: opt(self.error),
            notice: opt(self.notice),
            queue: queue_view(self.queue),
            searching: self.searching,
            next_searching_poll: self.next_searching_poll,
            result: self.result,
            requests: self.requests@,
            stats: self.stats,
            leaderboard: self.leaderboard,
        }
    }
}

impl AccountView {
    /// A form request is in flight.
    pub open spec fn waiting(self) -> bool {
        exists|i: int| 0 <= i < self.requests.len() && (#[trigger] self.requests[i]).waited_on()
    }

    /// The name shown to the other player: the account name, or the anonymous one.
    pub open spec fn shown_name(self) -> Seq<char> {
        match self.user {
            Some(u) => u.username@,
            None => self.anon_name,
        }
    }

    /// The account once a call of that kind is under way. A call that the forms wait on clears the
    /// messages of the one before.
    pub open spec fn called(self, kind: Req) -> AccountView {
        if kind.waited_on() {
            AccountView {
                error: None,
                notice: None,
                requests: self.requests.push(kind),
                ..self
            }
        } else {
            AccountView { requests: self.requests.push(kind), ..self }
        }
    }

    /// Logged out, with the saved login forgotten.
    pub open spec fn logged_out(self) -> AccountView {
        AccountView { token: None, user: None, profile: None, ..self }
    }

    /// The account once its own record was asked for, which takes a login and happens once at a
    /// time.
    pub open spec fn asks_me(self) -> bool {
        self.token is Some && !self.requests.contains(Req::Me)
    }
}

// ---- names ----

/// A text without its control characters.
pub open spec fn without_controls(s: Seq<char>) -> Seq<char>
    decreases s.len(),
{
    if s.len() == 0 {
        Seq::empty()
    } else if control(s.last()) {
        without_controls(s.drop_last())
    } else {
        without_controls(s.drop_last()).push(s.last())
    }
}

/// The first characters of a text, at most `n`.
pub open spec fn first(s: Seq<char>, n: nat) -> Seq<char> {
    if s.len() > n {
        s.take(n as int)
    } else {
        s
    }
}

/// A display name, trimmed and capped.
pub open spec fn cleaned(name: Seq<char>) -> Seq<char> {
    trimmed(first(without_controls(trimmed(name)), NAME_MAX as nat))
}

proof fn lemma_without_controls(s: Seq<char>)
    ensures
        forall|i: int|
            0 <= i < without_controls(s).len() ==> !control(#[trigger] without_controls(s)[i]),
        (forall|i: int| 0 <= i < s.len() ==> !control(#[trigger] s[i])) ==> without_controls(s) == s,
    decreases s.len(),
{
    if s.len() > 0 {
        lemma_without_controls(s.drop_last());
        let before = without_controls(s.drop_last());
        assert forall|i: int| 0 <= i < without_controls(s).len() implies !control(
            #[trigger] without_controls(s)[i],
        ) by {
            if i < before.len() {
                assert(without_controls(s)[i] == before[i]);
            }
        }
        if forall|i: int| 0 <= i < s.len() ==> !control(#[trigger] s[i]) {
            assert(forall|i: int|
                0 <= i < s.drop_last().len() ==> #[trigger] s.drop_last()[i] == s[i]);
            assert(!control(s[s.len() - 1]));
            assert(s.drop_last().push(s.last()) =~= s);
        }
    }
}

/// A cleaned name fits, holds no control character and no white space at its ends, and cleaning it
/// again changes nothing more.
pub proof fn law_cleaning_settles(name: Seq<char>)
    ensures
        cleaned(name).len() <= NAME_MAX,
        forall|i: int| 0 <= i < cleaned(name).len() ==> !control(#[trigger] cleaned(name)[i]),
        cleaned(name).len() > 0 ==> !white_space(cleaned(name)[0]) && !white_space(
            cleaned(name).last(),
        ),
        cleaned(cleaned(name)) == cleaned(name),
{
    let kept = without_controls(trimmed(name));
    let capped = first(kept, NAME_MAX as nat);
    let r = cleaned(name);
    lemma_without_controls(trimmed(name));
    lemma_trimmed_part(capped);
    assert forall|i: int| 0 <= i < r.len() implies !control(#[trigger] r[i]) by {
        let j = choose|j: int| 0 <= j < capped.len() && capped[j] == r[i];
        assert(capped.contains(r[i]));
        assert(capped[j] == kept[j]);
    }
    lemma_trimmed_fixed(r);
    lemma_without_controls(r);
}

/// The first characters of a text that are no control characters, at most `n`.
pub fn printable(s: &str, n: usize) -> (r: String)
    ensures
        r@ == first(without_controls(s@), n as nat),
{
    let v = chars(s);
    let mut out = String::new();
    let mut kept: usize = 0;
    let mut i: usize = 0;
    proof {
        assert(v@.take(0) =~= Seq::<char>::empty());
    }
    while i < v.len()
        invariant
            i <= v.len(),
            kept == out@.len(),
            out@ == first(without_controls(v@.take(i as int)), n as nat),
        decreases v.len() - i,
    {
        let c = v[i];
        let ghost before = without_controls(v@.take(i as int));
        proof {
            assert(v@.take(i as int + 1).drop_last() =~= v@.take(i as int));
            assert(v@.take(i as int + 1).last() == c);
        }
        if !c.is_control() {
            if kept < n {
                out.push(c);
                kept = kept + 1;
            }
            proof {
                if before.len() >= n {
                    assert(before.push(c).take(n as int) =~= before.take(n as int));
                    if before.len() == n {
                        assert(before.take(n as int) =~= before);
                    }
                }
            }
        }
        i = i + 1;
    }
    proof {
        assert(v@.take(v@.len() as int) =~= v@);
    }
    out
}

/// Trims and caps a display name.
pub fn clean_name(name: &str) -> (r: String)
    ensures
        r@ == cleaned(name@),
{
    let t = trim(name);
    let p = printable(t.as_str(), NAME_MAX);
    trim(p.as_str())
}

/// `SoldierXYZ` with three digits.
pub open spec fn soldier_name(n: nat) -> Seq<char> {
    "Soldier"@ + zero_padded(decimal(n), 3)
}

/// The name that a draw gives.
pub fn anon_name_from(draw: usize) -> (r: String)
    ensures
        r@ == soldier_name(draw as nat),
{
    let d = show_padded(draw as u64, 3);
    cat("Soldier", d.as_str())
}

/// `SoldierXYZ` with three random digits.
pub fn random_anon_name() -> (r: String)
    ensures
        exists|n: nat| n < 1000 && r@ == soldier_name(n),
{
    let n = random_below(1000);
    let r = anon_name_from(n);
    proof {
        assert((n as nat) < 1000 && r@ == soldier_name(n as nat));
    }
    r
}

/// The name a run starts with: the one given for it, or the saved one, cleaned; else a fresh one.
pub open spec fn starting_name(given: Option<Seq<char>>, saved: Option<Seq<char>>) -> Option<
    Seq<char>,
> {
    let name = match given {
        Some(n) => Some(n),
        None => saved,
    };
    match name {
        Some(n) if cleaned(n).len() > 0 => Some(cleaned(n)),
        _ => None,
    }
}

// ---- calls ----

impl Account {
    /// A fresh account state: what was saved, under the name the run starts with.
    pub fn load(
        token: Option<String>,
        saved_name: Option<String>,
        name_override: Option<String>,
    ) -> (r: Account)
        ensures
            ({
                let name = starting_name(opt(name_override), opt(saved_name));
                &&& name matches Some(n) ==> r@.anon_name == n
                &&& name is None ==> exists|n: nat| n < 1000 && r@.anon_name == soldier_name(n)
                &&& r@ == (AccountView {
                    token: opt(token),
                    user: None,
                    anon_name: r@.anon_name,
                    profile: None,
                    pending_email: Seq::empty(),
                    resend_at: 0,
                    error: None,
                    notice: None,
                    queue: None,
                    searching: None,
                    next_searching_poll: 0,
                    result: None,
                    requests: Seq::empty(),
                    stats: None,
                    leaderboard: None,
                })
            }),
    {
        let wanted = match &name_override {
            Some(n) => clean_name(n.as_str()),
            None => match &saved_name {
                Some(n) => clean_name(n.as_str()),
                None => String::new(),
            },
        };
        let anon_name = if wanted.as_str().is_empty() {
            random_anon_name()
        } else {
            wanted
        };
        let r = Account {
            token,
            user: None,
            anon_name,
            profile: None,
            pending_email: String::new(),
            resend_at: 0,
            error: None,
            notice: None,
            queue: None,
            searching: None,
            next_searching_poll: 0,
            result: None,
            requests: Vec::new(),
            stats: None,
            leaderboard: None,
        };
        proof {
            assert(r@.requests =~= Seq::<Req>::empty());
        }
        r
    }

    pub fn logged_in(&self) -> (r: bool)
        ensures
            r == self@.user is Some,
    {
        self.user.is_some()
    }

    /// The name shown to the other player: the account name, or the anonymous one.
    pub fn display_name(&self) -> (r: String)
        ensures
            r@ == self@.shown_name(),
    {
        match &self.user {
            Some(u) => u.username.clone(),
            None => self.anon_name.clone(),
        }
    }

    /// Takes a typed anonymous name; true where it changed and has to be saved.
    pub fn set_anon_name(&mut self, name: &str) -> (save: bool)
        ensures
            save == (cleaned(name@).len() > 0 && cleaned(name@) != old(self)@.anon_name),
            final(self)@ == if save {
                AccountView { anon_name: cleaned(name@), ..old(self)@ }
            } else {
                old(self)@
            },
    {
        let name = clean_name(name);
        if !name.as_str().is_empty() && !eq(name.as_str(), self.anon_name.as_str()) {
            self.anon_name = name;
            true
        } else {
            false
        }
    }

    /// The anonymous name box saves as it is typed: true where the name changed.
    pub fn sync_anon_name(&mut self, form: &Form) -> (save: bool)
        requires
            form.wf(),
        ensures
            ({
                let typed = form@.value(Field::AnonName);
                &&& save == (typed.len() > 0 && cleaned(typed).len() > 0 && cleaned(typed) != old(
                    self,
                )@.anon_name)
                &&& final(self)@ == if save {
                    AccountView { anon_name: cleaned(typed), ..old(self)@ }
                } else {
                    old(self)@
                }
            }),
    {
        let typed = form.get(Field::AnonName);
        if typed.is_empty() {
            return false;
        }
        self.set_anon_name(typed)
    }

    /// A form request is in flight.
    pub fn busy(&self) -> (r: bool)
        ensures
            r == self@.waiting(),
    {
        let mut i: usize = 0;
        while i < self.requests.len()
            invariant
                i <= self.requests.len(),
                forall|j: int| 0 <= j < i ==> !(#[trigger] self.requests@[j]).waited_on(),
            decreases self.requests.len() - i,
        {
            if self.requests[i].blocks() {
                proof {
                    assert(self@.requests[i as int].waited_on());
                }
                return true;
            }
            i = i + 1;
        }
        false
    }

    /// Whether a request of that kind is in flight.
    pub fn in_flight(&self, kind: Req) -> (r: bool)
        ensures
            r == self@.requests.contains(kind),
    {
        let mut i: usize = 0;
        while i < self.requests.len()
            invariant
                i <= self.requests.len(),
                forall|j: int| 0 <= j < i ==> self.requests@[j] != kind,
            decreases self.requests.len() - i,
        {
            if self.requests[i] == kind {
                proof {
                    assert(self@.requests[i as int] == kind);
                }
                return true;
            }
            i = i + 1;
        }
        false
    }

    /// Puts a call under way.
    pub fn call(&mut self, cfg: &ClientConfig, kind: Req, path: &str, body: Option<String>) -> (r:
        HttpRequest)
        ensures
            final(self)@ == old(self)@.called(kind),
            r@ == request(cfg.api(), old(self)@.token, kind, path@, opt(body)),
    {
        if kind.blocks() {
            self.error = None;
            self.notice = None;
        }
        let api = cfg.api_url();
        let url = cat3(api.as_str(), "/api", path);
        let mut headers: Vec<(String, String)> = Vec::new();
        headers.push((owned("Accept"), owned("*/*")));
        if body.is_some() {
            headers.push((owned("Content-Type"), owned("application/json")));
        }
        if let Some(t) = &self.token {
            headers.push((owned("Authorization"), cat("Bearer ", t.as_str())));
        }
        self.requests.push(kind);
        let r = HttpRequest { kind, url, headers, body };
        proof {
            assert(r@ =~= request(cfg.api(), old(self)@.token, kind, path@, opt(body)));
            assert(self@ =~= old(self)@.called(kind));
        }
        r
    }

    /// Asks for the account behind the saved login, where there is one and no such request is out.
    pub fn fetch_me(&mut self, cfg: &ClientConfig) -> (r: Option<HttpRequest>)
        ensures
            r is Some <==> old(self)@.asks_me(),
            r matches Some(q) ==> q@ == request(
                cfg.api(),
                old(self)@.token,
                Req::Me,
                "/me"@,
                None,
            ),
            final(self)@ == if old(self)@.asks_me() {
                old(self)@.called(Req::Me)
            } else {
                old(self)@
            },
    {
        if self.token.is_some() && !self.in_flight(Req::Me) {
            Some(self.call(cfg, Req::Me, "/me", None))
        } else {
            None
        }
    }

    /// Logs in.
    pub fn login(&mut self, cfg: &ClientConfig, username: &str, password: &str) -> (r: HttpRequest)
        ensures
            final(self)@ == old(self)@.called(Req::Login),
            r@ == request(
                cfg.api(),
                old(self)@.token,
                Req::Login,
                "/login"@,
                Some(object2("password"@, password@, "username"@, username@)),
            ),
    {
        let mut body = Object::new();
        body.text("password", password);
        body.text("username", username);
        self.call(cfg, Req::Login, "/login", Some(body.finish()))
    }

    /// Registers an account; the code goes to `email`.
    pub fn register(&mut self, cfg: &ClientConfig, email: &str, username: &str, password: &str) -> (r: HttpRequest)
        ensures
            final(self)@ == (AccountView { pending_email: email@, ..old(self)@ }).called(Req::Register),
            r@ == request(
                cfg.api(),
                old(self)@.token,
                Req::Register,
                "/register"@,
                Some(
                    object3(
                        "email"@,
                        email@,
                        "password"@,
                        password@,
                        "username"@,
                        username@,
                    ),
                ),
            ),
    {
        self.pending_email = owned(email);
        let mut body = Object::new();
        body.text("email", email);
        body.text("password", password);
        body.text("username", username);
        self.call(cfg, Req::Register, "/register", Some(body.finish()))
    }

    /// Confirms the pending registration with the code that was sent.
    pub fn verify(&mut self, cfg: &ClientConfig, code: &str) -> (r: HttpRequest)
        ensures
            final(self)@ == old(self)@.called(Req::Verify),
            r@ == request(
                cfg.api(),
                old(self)@.token,
                Req::Verify,
                "/verify"@,
                Some(object2("code"@, code@, "email"@, old(self)@.pending_email)),
            ),
    {
        let email = self.pending_email.clone();
        let mut body = Object::new();
        body.text("code", code);
        body.text("email", email.as_str());
        self.call(cfg, Req::Verify, "/verify", Some(body.finish()))
    }

    /// Asks for another verification code for the registration waiting on `pending_email`.
    pub fn resend(&mut self, cfg: &ClientConfig) -> (r: HttpRequest)
        ensures
            final(self)@ == old(self)@.called(Req::Resend),
            r@ == request(
                cfg.api(),
                old(self)@.token,
                Req::Resend,
                "/resend"@,
                Some(object1("email"@, old(self)@.pending_email)),
            ),
    {
        let email = self.pending_email.clone();
        let mut body = Object::new();
        body.text("email", email.as_str());
        self.call(cfg, Req::Resend, "/resend", Some(body.finish()))
    }

    /// Asks for a code to reset the password with.
    pub fn forgot(&mut self, cfg: &ClientConfig, email: &str) -> (r: HttpRequest)
        ensures
            final(self)@ == (AccountView { pending_email: email@, ..old(self)@ }).called(Req::Forgot),
            r@ == request(
                cfg.api(),
                old(self)@.token,
                Req::Forgot,
                "/forgot"@,
                Some(object1("email"@, email@)),
            ),
    {
        self.pending_email = owned(email);
        let mut body = Object::new();
        body.text("email", email);
        self.call(cfg, Req::Forgot, "/forgot", Some(body.finish()))
    }

    /// Sets a new password with the code that was sent.
    pub fn reset(&mut self, cfg: &ClientConfig, code: &str, password: &str) -> (r: HttpRequest)
        ensures
            final(self)@ == old(self)@.called(Req::Reset),
            r@ == request(
                cfg.api(),
                old(self)@.token,
                Req::Reset,
                "/reset"@,
                Some(
                    object3(
                        "code"@,
                        code@,
                        "email"@,
                        old(self)@.pending_email,
                        "password"@,
                        password@,
                    ),
                ),
            ),
    {
        let email = self.pending_email.clone();
        let mut body = Object::new();
        body.text("code", code);
        body.text("email", email.as_str());
        body.text("password", password);
        self.call(cfg, Req::Reset, "/reset", Some(body.finish()))
    }

    /// Changes the account's name.
    pub fn change_username(&mut self, cfg: &ClientConfig, username: &str) -> (r: HttpRequest)
        ensures
            final(self)@ == old(self)@.called(Req::ChangeUsername),
            r@ == request(
                cfg.api(),
                old(self)@.token,
                Req::ChangeUsername,
                "/account/username"@,
                Some(object1("username"@, username@)),
            ),
    {
        let mut body = Object::new();
        body.text("username", username);
        self.call(cfg, Req::ChangeUsername, "/account/username", Some(body.finish()))
    }

    /// Changes the account's password.
    pub fn change_password(&mut self, cfg: &ClientConfig, current: &str, password: &str) -> (r: HttpRequest)
        ensures
            final(self)@ == old(self)@.called(Req::ChangePassword),
            r@ == request(
                cfg.api(),
                old(self)@.token,
                Req::ChangePassword,
                "/account/password"@,
                Some(object2("current"@, current@, "password"@, password@)),
            ),
    {
        let mut body = Object::new();
        body.text("current", current);
        body.text("password", password);
        self.call(cfg, Req::ChangePassword, "/account/password", Some(body.finish()))
    }

    /// Asks for a player's profile.
    pub fn fetch_profile(&mut self, cfg: &ClientConfig, username: &str) -> (r: HttpRequest)
        ensures
            final(self)@ == old(self)@.called(Req::Profile),
            r@ == request(
                cfg.api(),
                old(self)@.token,
                Req::Profile,
                "/profile/"@ + username@,
                None,
            ),
    {
        let path = cat("/profile/", username);
        self.call(cfg, Req::Profile, path.as_str(), None)
    }

    /// "resend code" is pressable: the short wait after the last code is over and nothing is in
    /// flight.
    pub fn can_resend(&self, now: u64) -> (r: bool)
        ensures
            r == (now >= self@.resend_at && !self@.waiting()),
    {
        now >= self.resend_at && !self.busy()
    }

    /// Forgets the login, saved one included.
    pub fn logout(&mut self)
        ensures
            final(self)@ == old(self)@.logged_out(),
    {
        self.token = None;
        self.user = None;
        self.profile = None;
    }

    /// Joins the competitive queue.
    pub fn join_queue(&mut self, cfg: &ClientConfig, now: u64) -> (r: HttpRequest)
        ensures
            final(self)@ == (AccountView {
                queue: Some(fresh_queue(QueueKind::Competitive, now)),
                ..old(self)@
            }).called(Req::QueueJoin),
            r@ == request(
                cfg.api(),
                old(self)@.token,
                Req::QueueJoin,
                "/queue/join"@,
                Some(braced(Seq::empty())),
            ),
    {
        self.wait_in(QueueKind::Competitive, now);
        self.rejoin_queue(cfg)
    }

    /// Starts waiting in a queue.
    pub(crate) fn wait_in(&mut self, kind: QueueKind, now: u64)
        ensures
            final(self)@ == (AccountView { queue: Some(fresh_queue(kind, now)), ..old(self)@ }),
    {
        self.queue = Some(
            QueueState {
                kind,
                ticket: None,
                next_poll: now,
                position: 0,
                waiting: 0,
                playing: 0,
                since: now,
            },
        );
    }

    fn rejoin_queue(&mut self, cfg: &ClientConfig) -> (r: HttpRequest)
        ensures
            final(self)@ == old(self)@.called(Req::QueueJoin),
            r@ == request(
                cfg.api(),
                old(self)@.token,
                Req::QueueJoin,
                "/queue/join"@,
                Some(braced(Seq::empty())),
            ),
    {
        let body = Object::new();
        self.call(cfg, Req::QueueJoin, "/queue/join", Some(body.finish()))
    }

    /// Leaves the queue; the server is told where it had given out a ticket.
    pub fn leave_queue(&mut self, cfg: &ClientConfig) -> (r: Option<HttpRequest>)
        ensures
            match old(self)@.queue {
                Some(QueueView { ticket: Some(t), .. }) => {
                    &&& final(self)@ == (AccountView { queue: None, ..old(self)@ }).called(
                        Req::QueueLeave,
                    )
                    &&& r matches Some(q) && q@ == request(
                        cfg.api(),
                        old(self)@.token,
                        Req::QueueLeave,
                        "/queue/leave"@,
                        Some(object1("ticket"@, t)),
                    )
                },
                _ => r is None && final(self)@ == (AccountView { queue: None, ..old(self)@ }),
            },
    {
        let ticket = match &self.queue {
            Some(q) => opt_clone(&q.ticket),
            None => None,
        };
        self.queue = None;
        match ticket {
            Some(t) => {
                let mut body = Object::new();
                body.text("ticket", t.as_str());
                Some(self.call(cfg, Req::QueueLeave, "/queue/leave", Some(body.finish())))
            },
            None => None,
        }
    }

    /// Sends this player's view of a ranked result: the score in match-record order (a, b).
    pub fn report(&mut self, cfg: &ClientConfig, match_id: u64, score: (i32, i32), winner: u8) -> (r:
        HttpRequest)
        ensures
            final(self)@ == old(self)@.called(Req::Report),
            r@ == request(
                cfg.api(),
                old(self)@.token,
                Req::Report,
                "/match/"@ + decimal(match_id as nat) + "/report"@,
                Some(
                    braced(
                        with_member(
                            with_member(Seq::empty(), "score"@, pair_text(score.0, score.1)),
                            "winner"@,
                            signed_decimal(winner as int),
                        ),
                    ),
                ),
            ),
    {
        let id = show(match_id);
        let path = cat3("/match/", id.as_str(), "/report");
        let mut body = Object::new();
        body.pair("score", score.0, score.1);
        body.number("winner", winner as i64);
        self.call(cfg, Req::Report, path.as_str(), Some(body.finish()))
    }

    /// Records a finished private-room round in the history (logged-in players only).
    pub fn report_casual(
        &mut self,
        cfg: &ClientConfig,
        room: &str,
        opponent: &str,
        score: (i32, i32),
        won: bool,
    ) -> (r: Option<HttpRequest>)
        ensures
            r is Some <==> old(self)@.user is Some,
            final(self)@ == if r is Some {
                old(self)@.called(Req::Casual)
            } else {
                old(self)@
            },
            r matches Some(q) ==> q@ == request(
                cfg.api(),
                old(self)@.token,
                Req::Casual,
                "/match/casual"@,
                Some(casual_body(room@, opponent@, score, won)),
            ),
    {
        if !self.logged_in() {
            return None;
        }
        let mut body = Object::new();
        body.text("opponent", opponent);
        body.text("room", room);
        body.pair("score", score.0, score.1);
        body.flag("won", won);
        Some(self.call(cfg, Req::Casual, "/match/casual", Some(body.finish())))
    }

    /// Remembers how the ranked match that just ended went, for the popup on the main menu.
    pub fn set_result(&mut self, match_id: u64, ending: Ending)
        ensures
            final(self)@ == (AccountView {
                result: Some(fresh_result(match_id, ending)),
                ..old(self)@
            }),
    {
        self.result = Some(
            RankedResult { match_id, ending, rating: Rating::Pending, since: None, next_poll: 0 },
        );
    }

    /// The result popup is up: dismiss it.
    pub fn dismiss_result(&mut self)
        ensures
            final(self)@ == (AccountView { result: None, ..old(self)@ }),
    {
        self.result = None;
    }
}

/// A queue that was just joined.
pub open spec fn fresh_queue(kind: QueueKind, now: u64) -> QueueView {
    QueueView { kind, ticket: None, next_poll: now, position: 0, waiting: 0, playing: 0, since: now }
}

/// The popup of a match that just ended.
pub open spec fn fresh_result(match_id: u64, ending: Ending) -> RankedResult {
    RankedResult { match_id, ending, rating: Rating::Pending, since: None, next_poll: 0 }
}

/// A private-room round as it is reported.
pub open spec fn casual_body(
    room: Seq<char>,
    opponent: Seq<char>,
    score: (i32, i32),
    won: bool,
) -> Seq<char> {
    braced(
        with_member(
            with_member(
                with_member(
                    with_member(Seq::empty(), "opponent"@, quoted(opponent)),
                    "room"@,
                    quoted(room),
                ),
                "score"@,
                pair_text(score.0, score.1),
            ),
            "won"@,
            flag_text(won),
        ),
    )
}

/// A call that the forms wait on greys out "resend" and clears the messages of the call before it.
pub proof fn law_form_call_takes_over(a: AccountView, kind: Req)
    requires
        kind.waited_on(),
    ensures
        a.called(kind).waiting(),
        a.called(kind).error is None,
        a.called(kind).notice is None,
{
    assert(a.called(kind).requests[a.requests.len() as int] == kind);
}

/// The forms wait on what the player asked for and is shown the outcome of; what runs in the
/// background (who is logged in, the polls, the reports, leaving the queue) they do not wait on,
/// and it leaves the messages alone.
pub proof fn law_background_calls_are_quiet(a: AccountView, kind: Req)
    ensures
        kind.waited_on() <==> kind == Req::Login || kind == Req::Register || kind == Req::Verify
            || kind == Req::Resend || kind == Req::Forgot || kind == Req::Reset || kind
            == Req::ChangeUsername || kind == Req::ChangePassword || kind == Req::Profile || kind
            == Req::QueueJoin,
        !kind.waited_on() ==> a.called(kind) == (AccountView {
            requests: a.requests.push(kind),
            ..a
        }),
        !kind.waited_on() ==> (a.called(kind).waiting() <==> a.waiting()),
        a.called(kind).requests == a.requests.push(kind),
        a.called(kind).token == a.token && a.called(kind).user == a.user && a.called(kind).queue
            == a.queue && a.called(kind).result == a.result && a.called(kind).pending_email
            == a.pending_email && a.called(kind).resend_at == a.resend_at,
{
    let b = a.called(kind);
    if !kind.waited_on() {
        if a.waiting() {
            let i = choose|i: int|
                0 <= i < a.requests.len() && (#[trigger] a.requests[i]).waited_on();
            assert(b.requests[i].waited_on());
        }
        if b.waiting() {
            let i = choose|i: int|
                0 <= i < b.requests.len() && (#[trigger] b.requests[i]).waited_on();
            assert(a.requests[i].waited_on());
        }
    }
}

/// A call goes below `/api` of the server. It carries the login exactly where there is one, and
/// says that it sends JSON exactly where it has a body.
pub proof fn law_how_a_call_is_sent(
    api: Seq<char>,
    token: Option<Seq<char>>,
    kind: Req,
    path: Seq<char>,
    body: Option<Seq<char>>,
)
    ensures
        ({
            let r = request(api, token, kind, path, body);
            &&& r.kind == kind
            &&& r.url == api + "/api"@ + path
            &&& r.body == body
            &&& token is Some ==> r.headers.contains(("Authorization"@, "Bearer "@ + token->0))
            &&& body is Some ==> r.headers.contains(("Content-Type"@, "application/json"@))
            &&& r.headers.len() == 1 + (if token is Some {
                1int
            } else {
                0
            }) + (if body is Some {
                1int
            } else {
                0
            })
            &&& r.headers[0] == ("Accept"@, "*/*"@)
        }),
{
    let r = request(api, token, kind, path, body);
    if body is Some {
        assert(r.headers[1] == ("Content-Type"@, "application/json"@));
    }
    if token is Some {
        assert(r.headers.last() == ("Authorization"@, "Bearer "@ + token->0));
    }
}

/// Logging out forgets the login, the account and the profile on show, and nothing else; the name
/// shown is the anonymous one again.
pub proof fn law_logging_out_forgets_the_login(a: AccountView)
    ensures
        ({
            let b = a.logged_out();
            &&& b.token is None && b.user is None && b.profile is None
            &&& b.shown_name() == a.anon_name
            &&& !b.asks_me()
            &&& (AccountView { token: a.token, user: a.user, profile: a.profile, ..b }) == a
        }),
        a.user matches Some(u) ==> a.shown_name() == u.username@,
{
}

/// A name given for the run goes before the saved one, and either is used cleaned; without a usable
/// one there is none.
pub proof fn law_which_name_a_run_starts_with(given: Option<Seq<char>>, saved: Option<Seq<char>>)
    ensures
        given is Some ==> starting_name(given, saved) == starting_name(given, None),
        given is None ==> starting_name(given, saved) == starting_name(saved, None),
        starting_name(None, None) is None,
        given matches Some(n) ==> match starting_name(given, saved) {
            Some(m) => m == cleaned(n) && m.len() > 0,
            None => cleaned(n).len() == 0,
        },
{
}

/// Removing the control characters keeps every other character, in order.
pub proof fn law_only_controls_are_removed(s: Seq<char>, c: char)
    ensures
        without_controls(Seq::empty()) == Seq::<char>::empty(),
        control(c) ==> without_controls(s.push(c)) == without_controls(s),
        !control(c) ==> without_controls(s.push(c)) == without_controls(s).push(c),
{
    assert(s.push(c).drop_last() =~= s);
}

/// A queue that was just joined is polled at once, and waits from now on; the popup of a match that
/// just ended waits for the server.
pub proof fn law_what_starts_fresh(kind: QueueKind, now: u64, match_id: u64, ending: Ending)
    ensures
        fresh_queue(kind, now).kind == kind,
        fresh_queue(kind, now).since == now,
        fresh_queue(kind, now).next_poll == now,
        fresh_queue(kind, now).ticket is None,
        fresh_queue(kind, now).waiting == 0,
        fresh_result(match_id, ending).match_id == match_id,
        fresh_result(match_id, ending).ending == ending,
        fresh_result(match_id, ending).rating == Rating::Pending,
        fresh_result(match_id, ending).since is None,
        fresh_result(match_id, ending).next_poll == 0,
        fresh_queue(kind, now).position == 0,
        fresh_queue(kind, now).playing == 0,
{
}

// ---- answers ----

/// The members of an answer that the client reads.
#[derive(Debug, PartialEq)]
pub struct Answer {
    /// The HTTP status.
    pub code: u16,
    pub error: Option<String>,
    pub token: Option<String>,
    pub ticket: Option<String>,
    pub status: Option<String>,
    pub position: Option<u64>,
    pub waiting: Option<u64>,
    pub delta: Option<i64>,
    pub user: Option<UserInfo>,
    pub profile: Result<Profile, String>,
    pub matched: Result<MatchInfo, String>,
}

#[verifier::ext_equal]
pub struct AnswerView {
    pub code: u16,
    pub error: Option<Seq<char>>,
    pub token: Option<Seq<char>>,
    pub ticket: Option<Seq<char>>,
    pub status: Option<Seq<char>>,
    pub position: Option<u64>,
    pub waiting: Option<u64>,
    pub delta: Option<i64>,
    pub user: Option<UserInfo>,
    pub profile: Result<Profile, String>,
    pub matched: Result<MatchInfo, String>,
}

impl View for Answer {
    type V = AnswerView;

    open spec fn view(&self) -> AnswerView {
        AnswerView {
            code: self.code,
            error: opt(self.error),
            token: opt(self.token),
            ticket: opt(self.ticket),
            status: opt(self.status),
            position: self.position,
            waiting: self.waiting,
            delta: self.delta,
            user: self.user,
            profile: self.profile,
            matched: self.matched,
        }
    }
}

impl Reply {
    /// What the answer's JSON says.
    pub open spec fn said(self) -> AnswerView {
        AnswerView {
            code: self.status,
            error: json_text(self.body@, "error"@),
            token: json_text(self.body@, "token"@),
            ticket: json_text(self.body@, "ticket"@),
            status: json_text(self.body@, "status"@),
            position: json_count(self.body@, "position"@),
            waiting: json_count(self.body@, "waiting"@),
            delta: json_integer(self.body@, "delta"@),
            user: self.user,
            profile: self.profile,
            matched: self.matched,
        }
    }

    /// Reads the members of the answer's JSON.
    pub fn read(self) -> (r: Answer)
        ensures
            r@ == self.said(),
    {
        Answer {
            code: self.status,
            error: get_text(&self.body, "error"),
            token: get_text(&self.body, "token"),
            ticket: get_text(&self.body, "ticket"),
            status: get_text(&self.body, "status"),
            position: get_count(&self.body, "position"),
            waiting: get_count(&self.body, "waiting"),
            delta: get_integer(&self.body, "delta"),
            user: self.user,
            profile: self.profile,
            matched: self.matched,
        }
    }
}

/// Each member of an answer is read under its own name.
pub proof fn law_each_member_is_read_under_its_name(r: Reply)
    ensures
        r.said().code == r.status,
        r.said().error == json_text(r.body@, "error"@),
        r.said().token == json_text(r.body@, "token"@),
        r.said().ticket == json_text(r.body@, "ticket"@),
        r.said().status == json_text(r.body@, "status"@),
        r.said().position == json_count(r.body@, "position"@),
        r.said().waiting == json_count(r.body@, "waiting"@),
        r.said().delta == json_integer(r.body@, "delta"@),
        r.said().user == r.user,
        r.said().profile == r.profile,
        r.said().matched == r.matched,
{
}

/// Too many requests and a server that is not answering have words of their own; any other status
/// is named by its number.
pub proof fn law_what_a_status_is_called(status: u16)
    ensures
        status == 429 ==> status_words(status)
            == "whoa, slow down a little: too many requests; try again in a moment"@,
        status == 502 || status == 503 || status == 504 ==> status_words(status)
            == "the server is not answering right now; try again in a moment"@,
        status != 429 && status != 502 && status != 503 && status != 504 ==> status_words(status)
            == "server error ("@ + decimal(status as nat) + ")"@,
{
}

/// An anonymous name ends in three digits, different for each draw.
pub proof fn law_anonymous_names(n: nat, m: nat)
    requires
        n < 1000,
        m < 1000,
    ensures
        soldier_name(n).len() == 10,
        soldier_name(n) == soldier_name(m) ==> n == m,
{
    reveal_strlit("Soldier");
    crate::text::lemma_decimal(n);
    crate::text::lemma_decimal(m);
    reveal_with_fuel(decimal, 4);
    let a = zero_padded(decimal(n), 3);
    let b = zero_padded(decimal(m), 3);
    crate::text::lemma_zero_padded(decimal(n), 3);
    crate::text::lemma_zero_padded(decimal(m), 3);
    if soldier_name(n) == soldier_name(m) {
        assert(soldier_name(n).skip(7) =~= a);
        assert(soldier_name(m).skip(7) =~= b);
    }
}

/// What came back from a call: the answer, or nothing where the network failed.
pub open spec fn answer_view(result: Result<Answer, String>) -> Option<AnswerView> {
    match result {
        Ok(a) => Some(a@),
        Err(_) => None,
    }
}

/// What came back from a call, once its JSON is read.
pub open spec fn reply_view(result: Result<Reply, String>) -> Option<AnswerView> {
    match result {
        Ok(r) => Some(r.said()),
        Err(_) => None,
    }
}

/// The words for an answer that came without any: a proxy in between, or a body that is not JSON.
pub open spec fn status_words(status: u16) -> Seq<char> {
    if status == 429 {
        "whoa, slow down a little: too many requests; try again in a moment"@
    } else if 502 <= status <= 504 {
        "the server is not answering right now; try again in a moment"@
    } else {
        "server error ("@ + decimal(status as nat) + ")"@
    }
}

/// Why a call failed, for the player, and whether it was the login being rejected; nothing where it
/// succeeded.
pub open spec fn failure(result: Option<AnswerView>) -> Option<(Seq<char>, bool)> {
    match result {
        None => Some(("cannot reach the server"@, false)),
        Some(a) => if 200 <= a.code < 300 {
            None
        } else {
            Some(
                (
                    match a.error {
                        Some(msg) => msg,
                        None => status_words(a.code),
                    },
                    a.code == 401,
                ),
            )
        },
    }
}

/// Why a call failed: the server's own words (its errors are written for the player) or a network
/// message.
pub fn outcome(result: &Result<Answer, String>) -> (r: Option<(String, bool)>)
    ensures
        match r {
            Some((msg, rejected)) => failure(answer_view(*result)) == Some((msg@, rejected)),
            None => failure(answer_view(*result)) is None,
        },
{
    match result {
        Err(_) => Some((owned("cannot reach the server"), false)),
        Ok(a) => {
            if 200 <= a.code && a.code < 300 {
                return None;
            }
            let msg = match &a.error {
                Some(msg) => msg.clone(),
                None => if a.code == 429 {
                    owned("whoa, slow down a little: too many requests; try again in a moment")
                } else if 502 <= a.code && a.code <= 504 {
                    owned("the server is not answering right now; try again in a moment")
                } else {
                    let n = show(a.code as u64);
                    cat3("server error (", n.as_str(), ")")
                },
            };
            Some((msg, a.code == 401))
        },
    }
}

/// What an answer led to, beyond the account itself.
pub struct Effects {
    /// The screen has to be rebuilt.
    pub refresh: bool,
    /// The login has to be saved.
    pub save: bool,
    /// Calls to make.
    pub requests: Vec<HttpRequest>,
    /// The queue paired us: join the match's room.
    pub start: Option<MatchInfo>,
}

/// Everything that an answer may change.
#[verifier::ext_equal]
pub struct Turn {
    pub account: AccountView,
    pub screen: UiScreen,
    pub form: FormView,
    pub refresh: bool,
    pub save: bool,
    pub requests: Seq<RequestView>,
    pub start: Option<MatchInfo>,
}

/// A count, 0 where there is none.
pub open spec fn or_zero(n: Option<u64>) -> u64 {
    match n {
        Some(n) => n,
        None => 0,
    }
}

/// The rating that an answer about a finished match gives.
pub open spec fn rating_of(a: AnswerView) -> Rating {
    if or_empty(a.status) == "finished"@ {
        Rating::Settled(
            match a.delta {
                Some(d) => d as i32,
                None => 0,
            },
        )
    } else if or_empty(a.status) == "void"@ {
        Rating::Void
    } else {
        Rating::Pending
    }
}

impl Turn {
    /// The login that an answer brought.
    pub open spec fn logged_in(self, kind: Req, a: AnswerView, api: Seq<char>) -> Turn {
        let account = AccountView {
            token: a.token,
            user: a.user,
            ..self.account
        };
        let form = self.form.without_secrets().without(Field::Code).without(Field::NewUsername);
        let turn = Turn { account, form, save: true, ..self };
        match kind {
            Req::ChangeUsername => Turn {
                account: (AccountView {
                    notice: Some("username changed"@),
                    ..account
                }).called(Req::Profile),
                screen: UiScreen::Profile,
                requests: self.requests.push(
                    request(
                        api,
                        account.token,
                        Req::Profile,
                        "/profile/"@ + account.shown_name(),
                        None,
                    ),
                ),
                ..turn
            },
            Req::ChangePassword => Turn {
                account: AccountView { notice: Some("password changed"@), ..account },
                screen: UiScreen::Profile,
                ..turn
            },
            _ => Turn { screen: UiScreen::Main, ..turn },
        }
    }

    /// Back to the main menu with a message, out of the queue.
    pub open spec fn out_of_queue(self, msg: Seq<char>) -> Turn {
        Turn {
            account: AccountView { queue: None, error: Some(msg), ..self.account },
            screen: UiScreen::Main,
            ..self
        }
    }

    /// What a poll of the queue brought.
    pub open spec fn polled(self, a: AnswerView, api: Seq<char>) -> Turn {
        if or_empty(a.status) == "matched"@ {
            match a.matched {
                Ok(info) => Turn {
                    account: AccountView { queue: None, ..self.account },
                    start: Some(info),
                    ..self
                },
                Err(e) => self.out_of_queue("bad match data: "@ + e@),
            }
        } else if or_empty(a.status) == "waiting"@ {
            match self.account.queue {
                Some(q) => Turn {
                    account: AccountView {
                        queue: Some(
                            QueueView {
                                position: or_zero(a.position),
                                waiting: or_zero(a.waiting),
                                ..q
                            },
                        ),
                        ..self.account
                    },
                    ..self
                },
                None => self,
            }
        } else {
            let account = match self.account.queue {
                Some(q) => AccountView {
                    queue: Some(QueueView { ticket: None, ..q }),
                    ..self.account
                },
                None => self.account,
            };
            if self.screen == UiScreen::Queue {
                Turn {
                    account: account.called(Req::QueueJoin),
                    requests: self.requests.push(
                        request(
                            api,
                            account.token,
                            Req::QueueJoin,
                            "/queue/join"@,
                            Some(braced(Seq::empty())),
                        ),
                    ),
                    ..self
                }
            } else {
                Turn { account, ..self }
            }
        }
    }

    /// What the server said about a finished match. Once it is settled the identity corner, which
    /// shows the rating, picks up the new one.
    pub open spec fn settled(self, a: AnswerView, api: Seq<char>) -> Turn {
        match self.account.result {
            Some(r) if rating_of(a) != Rating::Pending => {
                let account = AccountView {
                    result: Some(RankedResult { rating: rating_of(a), ..r }),
                    ..self.account
                };
                if account.asks_me() {
                    Turn {
                        account: account.called(Req::Me),
                        refresh: true,
                        requests: self.requests.push(
                            request(api, account.token, Req::Me, "/me"@, None),
                        ),
                        ..self
                    }
                } else {
                    Turn { account, refresh: true, ..self }
                }
            },
            _ => self,
        }
    }

    /// What a call that succeeded led to.
    pub open spec fn succeeded(self, kind: Req, a: AnswerView, api: Seq<char>, now: u64) -> Turn {
        match kind {
            Req::Me => match a.user {
                Some(user) => Turn {
                    account: AccountView { user: Some(user), ..self.account },
                    ..self
                },
                None => self,
            },
            Req::Login | Req::Verify | Req::Reset | Req::ChangeUsername | Req::ChangePassword =>
                self.logged_in(kind, a, api),
            Req::Register => Turn {
                account: AccountView { resend_at: later(now, RESEND_WAIT) as u64, ..self.account },
                screen: UiScreen::Verify,
                ..self
            },
            Req::Resend => Turn {
                account: AccountView {
                    resend_at: later(now, RESEND_WAIT) as u64,
                    notice: Some("a new code is on its way"@),
                    ..self.account
                },
                ..self
            },
            // Pressed "resend code" on the reset screen: say so (the address is not confirmed
            // either way, and the server keeps its own cooldown, so the older code still works).
            Req::Forgot => Turn {
                account: AccountView {
                    resend_at: later(now, RESEND_WAIT) as u64,
                    notice: if self.screen == UiScreen::Reset {
                        Some("if that address has an account, a new code is on its way"@)
                    } else {
                        self.account.notice
                    },
                    ..self.account
                },
                screen: UiScreen::Reset,
                ..self
            },
            Req::Profile => match a.profile {
                Ok(p) => Turn {
                    account: AccountView { profile: Some(p), ..self.account },
                    ..self
                },
                Err(e) => Turn {
                    account: AccountView {
                        error: Some("bad profile data: "@ + e@),
                        ..self.account
                    },
                    ..self
                },
            },
            Req::QueueJoin => match self.account.queue {
                Some(q) => Turn {
                    account: AccountView {
                        queue: Some(
                            QueueView {
                                ticket: a.ticket,
                                waiting: or_zero(a.waiting),
                                ..q
                            },
                        ),
                        ..self.account
                    },
                    ..self
                },
                None => self,
            },
            Req::QueuePoll => self.polled(a, api),
            Req::QueueCount => Turn {
                account: AccountView { searching: a.waiting, ..self.account },
                ..self
            },
            Req::QueueLeave | Req::Report | Req::Casual => self,
            Req::MatchStatus => self.settled(a, api),
        }
    }

    /// What a call that failed led to.
    pub open spec fn failed(self, kind: Req, msg: Seq<char>, rejected: bool) -> Turn {
        match kind {
            // The saved login is no longer valid.
            Req::Me => if rejected {
                Turn { account: self.account.logged_out(), save: true, ..self }
            } else {
                self
            },
            Req::QueueJoin => self.out_of_queue(msg),
            Req::QueuePoll => if rejected {
                self.out_of_queue(msg)
            } else {
                self
            },
            Req::QueueCount => Turn {
                account: AccountView { searching: None, ..self.account },
                ..self
            },
            Req::Report | Req::Casual | Req::MatchStatus => self,
            _ => {
                let ended = rejected && (kind == Req::ChangeUsername || kind == Req::ChangePassword
                    || kind == Req::Profile) && self.account.token is Some && found(
                    msg,
                    "session"@,
                ) is Some;
                if ended {
                    Turn {
                        account: AccountView {
                            error: Some(msg),
                            ..self.account.logged_out()
                        },
                        screen: UiScreen::Main,
                        save: true,
                        ..self
                    }
                } else {
                    Turn { account: AccountView { error: Some(msg), ..self.account }, ..self }
                }
            },
        }
    }
}

/// What an answer led to. The screen is rebuilt for it, except for the polls that answer all the
/// time while nothing on screen changes.
pub open spec fn answered(
    account: AccountView,
    screen: UiScreen,
    form: FormView,
    kind: Req,
    result: Option<AnswerView>,
    api: Seq<char>,
    now: u64,
) -> Turn {
    let turn = Turn {
        account,
        screen,
        form,
        refresh: kind != Req::QueuePoll && kind != Req::MatchStatus && kind != Req::QueueCount,
        save: false,
        requests: Seq::empty(),
        start: None,
    };
    match failure(result) {
        None => turn.succeeded(kind, result->0, api, now),
        Some((msg, rejected)) => turn.failed(kind, msg, rejected),
    }
}

/// An answer that succeeded.
pub open spec fn good(a: AnswerView) -> bool {
    200 <= a.code < 300
}

proof fn lemma_statuses_differ()
    ensures
        "waiting"@ != "matched"@,
        "finished"@ != "void"@,
        "waiting"@.len() > 0,
        "matched"@.len() > 0,
        "finished"@.len() > 0,
        "void"@.len() > 0,
{
    reveal_strlit("waiting");
    reveal_strlit("matched");
    reveal_strlit("finished");
    reveal_strlit("void");
    assert("waiting"@[0] == 'w');
    assert("matched"@[0] == 'm');
    assert("finished"@[0] == 'f');
    assert("void"@[0] == 'v');
}

/// While the server says "waiting" the player stays in the queue they are in: the same queue, the
/// same ticket, the next poll when it was due, since when they were. The place and the number of
/// players are the answer's. Nothing else moves, and nothing is sent.
pub proof fn law_waiting_keeps_the_place(
    account: AccountView,
    screen: UiScreen,
    form: FormView,
    a: AnswerView,
    api: Seq<char>,
    now: u64,
)
    requires
        good(a),
        a.status == Some("waiting"@),
    ensures
        ({
            let t = answered(account, screen, form, Req::QueuePoll, Some(a), api, now);
            &&& account.queue is Some <==> t.account.queue is Some
            &&& account.queue matches Some(q) ==> {
                let r = t.account.queue->0;
                &&& r.kind == q.kind
                &&& r.ticket == q.ticket
                &&& r.next_poll == q.next_poll
                &&& r.since == q.since
                &&& r.playing == q.playing
                &&& a.position matches Some(n) ==> r.position == n
                &&& a.waiting matches Some(n) ==> r.waiting == n
                &&& a.position is None ==> r.position == 0
                &&& a.waiting is None ==> r.waiting == 0
            }
            &&& t.account == (AccountView { queue: t.account.queue, ..account })
            &&& t.screen == screen
            &&& t.form == form
            &&& t.requests.len() == 0
            &&& t.start is None
            &&& !t.save && !t.refresh
        }),
{
    lemma_statuses_differ();
}

/// The account after a run of answers to polls.
pub open spec fn after_polls(
    account: AccountView,
    screen: UiScreen,
    form: FormView,
    answers: Seq<AnswerView>,
    api: Seq<char>,
    now: u64,
) -> AccountView
    decreases answers.len(),
{
    if answers.len() == 0 {
        account
    } else {
        let before = after_polls(account, screen, form, answers.drop_last(), api, now);
        answered(before, screen, form, Req::QueuePoll, Some(answers.last()), api, now).account
    }
}

/// However often the server says "waiting", the player keeps their place, and the next poll stays
/// due, with the same ticket: as soon as its time has come and no poll or join is out.
pub proof fn law_waiting_players_keep_polling(
    account: AccountView,
    screen: UiScreen,
    form: FormView,
    answers: Seq<AnswerView>,
    api: Seq<char>,
    now: u64,
    t: u64,
)
    requires
        account.queue is Some,
        account.queue->0.ticket is Some,
        forall|i: int|
            0 <= i < answers.len() ==> good(#[trigger] answers[i]) && answers[i].status == Some(
                "waiting"@,
            ),
    ensures
        ({
            let b = after_polls(account, screen, form, answers, api, now);
            let q = account.queue->0;
            &&& b.queue is Some
            &&& b.queue->0.kind == q.kind
            &&& b.queue->0.ticket == q.ticket
            &&& b.queue->0.next_poll == q.next_poll
            &&& b.queue->0.since == q.since
            &&& b == (AccountView { queue: b.queue, ..account })
            &&& b.poll_due(t) <==> t >= q.next_poll && (forall|i: int|
                0 <= i < account.requests.len() ==> (#[trigger] account.requests[i])
                    != Req::QueuePoll && account.requests[i] != Req::QueueJoin)
        }),
    decreases answers.len(),
{
    if answers.len() > 0 {
        let d = answers.drop_last();
        assert forall|i: int| 0 <= i < d.len() implies good(#[trigger] d[i]) && d[i].status == Some(
            "waiting"@,
        ) by {
            assert(d[i] == answers[i]);
        }
        law_waiting_players_keep_polling(account, screen, form, d, api, now, t);
        let before = after_polls(account, screen, form, d, api, now);
        assert(answers.last() == answers[answers.len() - 1]);
        law_waiting_keeps_the_place(before, screen, form, answers.last(), api, now);
    }
    let free = forall|i: int|
        0 <= i < account.requests.len() ==> (#[trigger] account.requests[i]) != Req::QueuePoll
            && account.requests[i] != Req::QueueJoin;
    if free {
        assert(!account.requests.contains(Req::QueuePoll));
        assert(!account.requests.contains(Req::QueueJoin));
    } else {
        let i = choose|i: int|
            0 <= i < account.requests.len() && ((#[trigger] account.requests[i]) == Req::QueuePoll
                || account.requests[i] == Req::QueueJoin);
        assert(account.requests.contains(account.requests[i]));
    }
}

/// A pairing takes the player out of the queue and into that match; one that cannot be read takes
/// them back to the main menu with a word about it.
pub proof fn law_a_pairing_starts_the_match(
    account: AccountView,
    screen: UiScreen,
    form: FormView,
    a: AnswerView,
    api: Seq<char>,
    now: u64,
)
    requires
        good(a),
        a.status == Some("matched"@),
    ensures
        ({
            let t = answered(account, screen, form, Req::QueuePoll, Some(a), api, now);
            &&& t.account.queue is None
            &&& match a.matched {
                Ok(info) => {
                    &&& t.start == Some(info)
                    &&& t.screen == screen
                    &&& t.account == (AccountView { queue: None, ..account })
                },
                Err(e) => {
                    &&& t.start is None
                    &&& t.screen == UiScreen::Main
                    &&& t.account.error is Some
                    &&& t.account == (AccountView {
                        queue: None,
                        error: t.account.error,
                        ..account
                    })
                },
            }
            &&& t.form == form && t.requests.len() == 0 && !t.save
        }),
{
    lemma_statuses_differ();
}

/// Any other word about the ticket means it is gone: the player joins again without one while the
/// queue screen is up, and keeps since when they wait. Off that screen nothing is sent.
pub proof fn law_a_lost_ticket_joins_again(
    account: AccountView,
    screen: UiScreen,
    form: FormView,
    a: AnswerView,
    api: Seq<char>,
    now: u64,
)
    requires
        good(a),
        a.status != Some("waiting"@),
        a.status != Some("matched"@),
    ensures
        ({
            let t = answered(account, screen, form, Req::QueuePoll, Some(a), api, now);
            &&& account.queue is Some <==> t.account.queue is Some
            &&& account.queue matches Some(q) ==> t.account.queue == Some(
                QueueView { ticket: None, ..q },
            )
            &&& screen == UiScreen::Queue ==> t.requests.len() == 1 && t.requests[0].kind
                == Req::QueueJoin && t.account.requests == account.requests.push(Req::QueueJoin)
            &&& screen != UiScreen::Queue ==> t.requests.len() == 0 && t.account.requests
                == account.requests
            &&& t.screen == screen && t.form == form && t.start is None && !t.save
            &&& t.account.token == account.token && t.account.user == account.user
        }),
{
    lemma_statuses_differ();
}

/// A poll that fails leaves everything as it is, so that the next one can succeed; only a rejected
/// login takes the player out of the queue.
pub proof fn law_a_failed_poll_is_tried_again(
    account: AccountView,
    screen: UiScreen,
    form: FormView,
    result: Option<AnswerView>,
    api: Seq<char>,
    now: u64,
)
    requires
        result matches Some(a) ==> !good(a),
    ensures
        ({
            let t = answered(account, screen, form, Req::QueuePoll, result, api, now);
            let rejected = result matches Some(a) && a.code == 401;
            &&& !rejected ==> t.account == account && t.screen == screen
            &&& rejected ==> t.account.queue is None && t.account.error is Some && t.screen
                == UiScreen::Main
            &&& t.form == form && t.requests.len() == 0 && t.start is None && !t.save
        }),
{
}

/// The queue takes a player in with the ticket of the answer; a join that fails, in any way, takes
/// them back to the main menu with the reason.
pub proof fn law_joining_gives_the_ticket(
    account: AccountView,
    screen: UiScreen,
    form: FormView,
    result: Option<AnswerView>,
    api: Seq<char>,
    now: u64,
)
    ensures
        ({
            let t = answered(account, screen, form, Req::QueueJoin, result, api, now);
            &&& t.form == form && t.requests.len() == 0 && t.start is None && !t.save && t.refresh
            &&& (result matches Some(a) && good(a)) ==> {
                let a = result->0;
                &&& t.screen == screen
                &&& account.queue is None ==> t.account == account
                &&& account.queue matches Some(q) ==> {
                    &&& t.account.queue is Some
                    &&& t.account.queue->0.ticket == a.ticket
                    &&& a.waiting matches Some(n) ==> t.account.queue->0.waiting == n
                    &&& t.account.queue->0.kind == q.kind
                    &&& t.account.queue->0.next_poll == q.next_poll
                    &&& t.account.queue->0.since == q.since
                    &&& t.account.queue->0.position == q.position
                    &&& t.account == (AccountView { queue: t.account.queue, ..account })
                }
            }
            &&& !(result matches Some(a) && good(a)) ==> {
                &&& t.screen == UiScreen::Main
                &&& t.account.queue is None
                &&& t.account.error is Some
                &&& t.account == (AccountView { queue: None, error: t.account.error, ..account })
            }
        }),
{
}

/// A call fails exactly where the network did or the status is no success; the words are the
/// server's own where it sent any; and only the status 401 rejects the login.
pub proof fn law_when_a_call_fails(result: Option<AnswerView>)
    ensures
        failure(result) is None <==> (result matches Some(a) && 200 <= a.code && a.code <= 299),
        failure(result) matches Some((_, rejected)) ==> (rejected <==> (result matches Some(a)
            && a.code == 401)),
        result matches Some(a) ==> (failure(result) matches Some((msg, _)) ==> (a.error matches Some(
            e,
        ) ==> msg == e)),
{
}

/// A login, however it came about, is the token and the account of the answer. It is saved, the
/// passwords and the code are wiped from the form, and the rest of the form is kept.
pub proof fn law_a_login_is_taken_over(
    account: AccountView,
    screen: UiScreen,
    form: FormView,
    kind: Req,
    a: AnswerView,
    api: Seq<char>,
    now: u64,
)
    requires
        good(a),
        kind == Req::Login || kind == Req::Verify || kind == Req::Reset || kind
            == Req::ChangeUsername || kind == Req::ChangePassword,
    ensures
        ({
            let t = answered(account, screen, form, kind, Some(a), api, now);
            &&& t.account.token == a.token
            &&& t.account.user == a.user
            &&& t.save && t.refresh && t.start is None
            &&& t.form.value(Field::Password).len() == 0
            &&& t.form.value(Field::Password2).len() == 0
            &&& t.form.value(Field::CurrentPassword).len() == 0
            &&& t.form.value(Field::Code).len() == 0
            &&& t.form.value(Field::NewUsername).len() == 0
            &&& t.form.value(Field::Login) == form.value(Field::Login)
            &&& t.form.value(Field::Email) == form.value(Field::Email)
            &&& t.form.value(Field::Username) == form.value(Field::Username)
            &&& t.form.value(Field::AnonName) == form.value(Field::AnonName)
            &&& t.form.value(Field::HistorySearch) == form.value(Field::HistorySearch)
            &&& kind == Req::Login || kind == Req::Verify || kind == Req::Reset ==> t.screen
                == UiScreen::Main && t.requests.len() == 0
            &&& kind == Req::ChangePassword ==> t.screen == UiScreen::Profile && t.requests.len()
                == 0 && t.account.notice is Some
            &&& kind == Req::ChangeUsername ==> t.screen == UiScreen::Profile && t.requests.len()
                == 1 && t.requests[0].kind == Req::Profile
            &&& t.account.queue == account.queue && t.account.anon_name == account.anon_name
                && t.account.pending_email == account.pending_email && t.account.result
                == account.result && t.account.resend_at == account.resend_at
        }),
{
}

/// A code that was sent holds off the next one for ten seconds, and leads to the screen where it is
/// typed; asking for another code stays where it is.
pub proof fn law_a_sent_code_holds_off_the_next(
    account: AccountView,
    screen: UiScreen,
    form: FormView,
    kind: Req,
    a: AnswerView,
    api: Seq<char>,
    now: u64,
)
    requires
        good(a),
        kind == Req::Register || kind == Req::Resend || kind == Req::Forgot,
        now + 10_000_000_000 <= u64::MAX,
    ensures
        ({
            let t = answered(account, screen, form, kind, Some(a), api, now);
            &&& t.account.resend_at == now + 10_000_000_000
            &&& kind == Req::Register ==> t.screen == UiScreen::Verify && t.account.notice
                == account.notice
            &&& kind == Req::Forgot ==> t.screen == UiScreen::Reset && (screen != UiScreen::Reset
                ==> t.account.notice == account.notice) && (screen == UiScreen::Reset
                ==> t.account.notice is Some)
            &&& kind == Req::Resend ==> t.screen == screen && t.account.notice is Some
            &&& t.form == form && t.requests.len() == 0 && !t.save && t.start is None
            &&& t.account == (AccountView {
                resend_at: t.account.resend_at,
                notice: t.account.notice,
                ..account
            })
        }),
{
}

/// A login ends only where the server rejects it: the saved one where it is asked who it is, the
/// one in use where it says that the session is over. No other failure logs the player out or is
/// saved, and whatever the forms wait on tells them the reason.
pub proof fn law_only_a_rejection_logs_out(
    account: AccountView,
    screen: UiScreen,
    form: FormView,
    kind: Req,
    result: Option<AnswerView>,
    api: Seq<char>,
    now: u64,
)
    requires
        result matches Some(a) ==> !good(a),
    ensures
        ({
            let t = answered(account, screen, form, kind, result, api, now);
            let rejected = result matches Some(a) && a.code == 401;
            &&& t.form == form && t.requests.len() == 0 && t.start is None
            &&& !rejected ==> t.account.token == account.token && t.account.user == account.user
                && !t.save
            &&& t.save ==> t.account.token is None && t.account.user is None && t.account.profile
                is None
            &&& !t.save ==> t.account.token == account.token && t.account.user == account.user
                && t.account.profile == account.profile
            &&& kind == Req::Me && rejected ==> t.save
            &&& kind == Req::Me && !rejected ==> t.account == account && t.screen == screen
            &&& kind == Req::Login || kind == Req::Register || kind == Req::Verify || kind
                == Req::Resend || kind == Req::Forgot || kind == Req::Reset ==> !t.save && t.screen
                == screen && t.account.error is Some && t.account == (AccountView {
                error: t.account.error,
                ..account
            })
            &&& kind == Req::ChangeUsername || kind == Req::ChangePassword || kind == Req::Profile
                ==> t.account.error is Some && (t.screen == screen || t.save && t.screen
                == UiScreen::Main)
            &&& kind == Req::Report || kind == Req::Casual || kind == Req::MatchStatus ==> t.account
                == account && t.screen == screen && !t.save
        }),
{
}

/// What a settled match says about the rating: the change where it was rated, that it is void where
/// the reports disagree, and otherwise nothing yet. Once it is settled the popup shows it, for the
/// same match and ending, and the account is asked for where there is a login.
pub proof fn law_a_settled_match_shows_its_rating(
    account: AccountView,
    screen: UiScreen,
    form: FormView,
    a: AnswerView,
    api: Seq<char>,
    now: u64,
)
    requires
        good(a),
        account.result is Some,
    ensures
        ({
            let t = answered(account, screen, form, Req::MatchStatus, Some(a), api, now);
            let p = account.result->0;
            &&& t.account.result is Some
            &&& t.account.result->0.match_id == p.match_id
            &&& t.account.result->0.ending == p.ending
            &&& t.account.result->0.since == p.since
            &&& a.status == Some("finished"@) ==> (match a.delta {
                Some(d) => i32::MIN <= d <= i32::MAX ==> t.account.result->0.rating
                    == Rating::Settled(d as i32),
                None => t.account.result->0.rating == Rating::Settled(0),
            })
            &&& a.status == Some("void"@) ==> t.account.result->0.rating == Rating::Void
            &&& a.status == Some("finished"@) || a.status == Some("void"@) ==> t.refresh && (
            t.requests.len() == 1 <==> account.token is Some && !account.requests.contains(Req::Me))
            &&& a.status != Some("finished"@) && a.status != Some("void"@) ==> t.account == account
                && t.requests.len() == 0 && !t.refresh
            &&& t.requests.len() <= 1
            &&& t.requests.len() == 1 ==> t.requests[0].kind == Req::Me
            &&& t.screen == screen && t.form == form && !t.save && t.start is None
            &&& t.account.token == account.token && t.account.user == account.user
                && t.account.queue == account.queue
        }),
{
    lemma_statuses_differ();
}

/// An answer about a match after its popup was dismissed changes nothing.
pub proof fn law_a_dismissed_result_stays_dismissed(
    account: AccountView,
    screen: UiScreen,
    form: FormView,
    result: Option<AnswerView>,
    api: Seq<char>,
    now: u64,
)
    requires
        account.result is None,
    ensures
        ({
            let t = answered(account, screen, form, Req::MatchStatus, result, api, now);
            t.account == account && t.screen == screen && t.form == form && t.requests.len() == 0
        }),
{
}

/// The count of searching players is the last answer's, and none where the server did not answer.
pub proof fn law_the_searching_count_is_the_last_answers(
    account: AccountView,
    screen: UiScreen,
    form: FormView,
    result: Option<AnswerView>,
    api: Seq<char>,
    now: u64,
)
    ensures
        ({
            let t = answered(account, screen, form, Req::QueueCount, result, api, now);
            &&& t.account.searching == match result {
                Some(a) => if good(a) {
                    a.waiting
                } else {
                    None
                },
                None => None,
            }
            &&& t.account == (AccountView { searching: t.account.searching, ..account })
            &&& t.screen == screen && t.form == form && t.requests.len() == 0 && !t.refresh
                && !t.save
        }),
{
}

/// A profile that can be read is the one on show; one that cannot leaves the old one, with a word
/// about it. The account's own record is taken where the answer holds one.
pub proof fn law_records_are_taken_over(
    account: AccountView,
    screen: UiScreen,
    form: FormView,
    a: AnswerView,
    api: Seq<char>,
    now: u64,
)
    requires
        good(a),
    ensures
        ({
            let t = answered(account, screen, form, Req::Profile, Some(a), api, now);
            let m = answered(account, screen, form, Req::Me, Some(a), api, now);
            &&& match a.profile {
                Ok(p) => t.account == (AccountView { profile: Some(p), ..account }),
                Err(_) => t.account.profile == account.profile && t.account.error is Some,
            }
            &&& t.screen == screen && t.form == form && t.requests.len() == 0 && !t.save
            &&& match a.user {
                Some(u) => m.account == (AccountView { user: Some(u), ..account }),
                None => m.account == account,
            }
            &&& m.screen == screen && m.form == form && m.requests.len() == 0 && !m.save
        }),
{
}

/// The screen is rebuilt for every answer but those to the polls that run all the time.
pub proof fn law_polls_do_not_rebuild_the_screen(
    account: AccountView,
    screen: UiScreen,
    form: FormView,
    kind: Req,
    result: Option<AnswerView>,
    api: Seq<char>,
    now: u64,
)
    ensures
        kind == Req::QueuePoll || kind == Req::QueueCount ==> !answered(
            account,
            screen,
            form,
            kind,
            result,
            api,
            now,
        ).refresh,
        kind != Req::QueuePoll && kind != Req::QueueCount && kind != Req::MatchStatus ==> answered(
            account,
            screen,
            form,
            kind,
            result,
            api,
            now,
        ).refresh,
{
}

/// Leaving the queue, a report, a private round: the answer changes nothing.
pub proof fn law_some_answers_change_nothing(
    account: AccountView,
    screen: UiScreen,
    form: FormView,
    kind: Req,
    a: AnswerView,
    api: Seq<char>,
    now: u64,
)
    requires
        good(a),
        kind == Req::QueueLeave || kind == Req::Report || kind == Req::Casual,
    ensures
        ({
            let t = answered(account, screen, form, kind, Some(a), api, now);
            t.account == account && t.screen == screen && t.form == form && t.requests.len() == 0
                && !t.save && t.start is None
        }),
{
}

impl Effects {
    fn new(refresh: bool) -> (r: Effects)
        ensures
            r.refresh == refresh,
            !r.save,
            requests(r.requests@) == Seq::<RequestView>::empty(),
            r.start is None,
    {
        let r = Effects { refresh, save: false, requests: Vec::new(), start: None };
        proof {
            assert(requests(r.requests@) =~= Seq::<RequestView>::empty());
        }
        r
    }

    fn send(&mut self, r: HttpRequest)
        ensures
            requests(final(self).requests@) == requests(old(self).requests@).push(r@),
            final(self).refresh == old(self).refresh,
            final(self).save == old(self).save,
            final(self).start == old(self).start,
    {
        self.requests.push(r);
        proof {
            assert(requests(self.requests@) =~= requests(old(self).requests@).push(r@));
        }
    }
}

/// The turn that an account, a screen, a form and effects make up.
pub open spec fn turn_of(account: Account, screen: UiScreen, form: Form, e: Effects) -> Turn {
    Turn {
        account: account@,
        screen,
        form: form@,
        refresh: e.refresh,
        save: e.save,
        requests: requests(e.requests@),
        start: e.start,
    }
}

impl Account {
    /// Takes the answered requests out of those in flight, oldest first: `answered` says of each
    /// whether its answer is in. What comes back are the kinds of the answered ones.
    pub fn take_answered(&mut self, answered: &Vec<bool>) -> (r: Vec<Req>)
        requires
            answered@.len() == old(self).requests@.len(),
        ensures
            r@ == picked(old(self)@.requests, answered@, true),
            final(self)@ == (AccountView {
                requests: picked(old(self)@.requests, answered@, false),
                ..old(self)@
            }),
    {
        let mut done: Vec<Req> = Vec::new();
        let mut rest: Vec<Req> = Vec::new();
        let mut i: usize = 0;
        let ghost all = self.requests@;
        proof {
            assert(all.take(0) =~= Seq::<Req>::empty());
        }
        while i < self.requests.len()
            invariant
                i <= self.requests.len(),
                self@ == old(self)@,
                all == self.requests@,
                answered@.len() == all.len(),
                done@ == picked(all.take(i as int), answered@, true),
                rest@ == picked(all.take(i as int), answered@, false),
            decreases self.requests.len() - i,
        {
            proof {
                assert(all.take(i as int + 1).drop_last() =~= all.take(i as int));
            }
            let kind = self.requests[i];
            if answered[i] {
                done.push(kind);
            } else {
                rest.push(kind);
            }
            i = i + 1;
        }
        proof {
            assert(all.take(all.len() as int) =~= all);
        }
        self.requests = rest;
        done
    }

    /// Takes in what came back from a call.
    pub fn finish(
        &mut self,
        kind: Req,
        result: Result<Reply, String>,
        screen: &mut UiScreen,
        form: &mut Form,
        cfg: &ClientConfig,
        now: u64,
    ) -> (r: Effects)
        requires
            old(form).wf(),
        ensures
            final(form).wf(),
            turn_of(*final(self), *final(screen), *final(form), r) == answered(
                old(self)@,
                *old(screen),
                old(form)@,
                kind,
                reply_view(result),
                cfg.api(),
                now,
            ),
    {
        let result = match result {
            Ok(reply) => Ok(reply.read()),
            Err(e) => Err(e),
        };
        self.take_answer(kind, result, screen, form, cfg, now)
    }

    /// Takes in an answer: what it means for the account, the screen and the form, and what is to
    /// be done about it.
    pub fn take_answer(
        &mut self,
        kind: Req,
        result: Result<Answer, String>,
        screen: &mut UiScreen,
        form: &mut Form,
        cfg: &ClientConfig,
        now: u64,
    ) -> (r: Effects)
        requires
            old(form).wf(),
        ensures
            final(form).wf(),
            turn_of(*final(self), *final(screen), *final(form), r) == answered(
                old(self)@,
                *old(screen),
                old(form)@,
                kind,
                answer_view(result),
                cfg.api(),
                now,
            ),
    {
        let failure = outcome(&result);
        let mut e = Effects::new(
            !matches!(kind, Req::QueuePoll | Req::MatchStatus | Req::QueueCount),
        );
        match failure {
            Some((msg, rejected)) => {
                self.fail(kind, msg, rejected, screen, &mut e);
            },
            None => {
                if let Ok(a) = result {
                    self.succeed(kind, a, screen, form, cfg, now, &mut e);
                }
            },
        }
        e
    }

    fn fail(
        &mut self,
        kind: Req,
        msg: String,
        rejected: bool,
        screen: &mut UiScreen,
        e: &mut Effects,
    )
        ensures
            forall|form: Form|
                #[trigger] turn_of(*final(self), *final(screen), form, *final(e)) == turn_of(
                    *old(self),
                    *old(screen),
                    form,
                    *old(e),
                ).failed(kind, msg@, rejected),
    {
        match kind {
            Req::Me => {
                if rejected {
                    self.logout();
                    e.save = true;
                }
            },
            Req::QueueJoin => {
                self.queue = None;
                self.error = Some(msg);
                *screen = UiScreen::Main;
            },
            Req::QueuePoll => {
                if rejected {
                    self.queue = None;
                    self.error = Some(msg);
                    *screen = UiScreen::Main;
                }
            },
            Req::QueueCount => {
                self.searching = None;
            },
            Req::Report | Req::Casual | Req::MatchStatus => {},
            _ => {
                if rejected && matches!(
                    kind,
                    Req::ChangeUsername | Req::ChangePassword | Req::Profile
                ) && self.token.is_some() && contains(msg.as_str(), "session") {
                    self.logout();
                    e.save = true;
                    *screen = UiScreen::Main;
                }
                self.error = Some(msg);
            },
        }
    }

    fn succeed(
        &mut self,
        kind: Req,
        a: Answer,
        screen: &mut UiScreen,
        form: &mut Form,
        cfg: &ClientConfig,
        now: u64,
        e: &mut Effects,
    )
        requires
            old(form).wf(),
        ensures
            final(form).wf(),
            turn_of(*final(self), *final(screen), *final(form), *final(e)) == turn_of(
                *old(self),
                *old(screen),
                *old(form),
                *old(e),
            ).succeeded(kind, a@, cfg.api(), now),
    {
        match kind {
            Req::Me => {
                if let Some(user) = a.user {
                    self.user = Some(user);
                }
            },
            Req::Login | Req::Verify | Req::Reset | Req::ChangeUsername | Req::ChangePassword => {
                self.log_in(kind, a, screen, form, cfg, e);
            },
            Req::Register => {
                self.resend_at = after(now, RESEND_WAIT);
                *screen = UiScreen::Verify;
            },
            Req::Resend => {
                self.resend_at = after(now, RESEND_WAIT);
                self.notice = Some(owned("a new code is on its way"));
            },
            Req::Forgot => {
                self.resend_at = after(now, RESEND_WAIT);
                if *screen == UiScreen::Reset {
                    self.notice = Some(
                        owned("if that address has an account, a new code is on its way"),
                    );
                }
                *screen = UiScreen::Reset;
            },
            Req::Profile => {
                match a.profile {
                    Ok(p) => {
                        self.profile = Some(p);
                    },
                    Err(why) => {
                        self.error = Some(cat("bad profile data: ", why.as_str()));
                    },
                }
            },
            Req::QueueJoin => {
                let Answer { ticket, waiting, .. } = a;
                if let Some(q) = &mut self.queue {
                    q.ticket = ticket;
                    q.waiting = unwrap_count(waiting);
                }
            },
            Req::QueuePoll => {
                self.take_poll(a, screen, cfg, e);
            },
            Req::QueueCount => {
                self.searching = a.waiting;
            },
            Req::QueueLeave | Req::Report | Req::Casual => {},
            Req::MatchStatus => {
                self.take_status(a, cfg, e);
            },
        }
    }

    fn log_in(
        &mut self,
        kind: Req,
        a: Answer,
        screen: &mut UiScreen,
        form: &mut Form,
        cfg: &ClientConfig,
        e: &mut Effects,
    )
        requires
            old(form).wf(),
        ensures
            final(form).wf(),
            turn_of(*final(self), *final(screen), *final(form), *final(e)) == turn_of(
                *old(self),
                *old(screen),
                *old(form),
                *old(e),
            ).logged_in(kind, a@, cfg.api()),
    {
        let Answer { token, user, .. } = a;
        self.token = token;
        self.user = user;
        e.save = true;
        form.clear_secrets();
        form.clear(Field::Code);
        form.clear(Field::NewUsername);
        match kind {
            Req::ChangeUsername => {
                self.notice = Some(owned("username changed"));
                let name = self.display_name();
                let r = self.fetch_profile(cfg, name.as_str());
                e.send(r);
                *screen = UiScreen::Profile;
            },
            Req::ChangePassword => {
                self.notice = Some(owned("password changed"));
                *screen = UiScreen::Profile;
            },
            _ => {
                *screen = UiScreen::Main;
            },
        }
    }

    fn take_poll(&mut self, a: Answer, screen: &mut UiScreen, cfg: &ClientConfig, e: &mut Effects)
        ensures
            forall|form: Form|
                #[trigger] turn_of(*final(self), *final(screen), form, *final(e)) == turn_of(
                    *old(self),
                    *old(screen),
                    form,
                    *old(e),
                ).polled(a@, cfg.api()),
    {
        let status = status_text(&a.status);
        if eq(status.as_str(), "matched") {
            match a.matched {
                Ok(info) => {
                    self.queue = None;
                    e.start = Some(info);
                },
                Err(why) => {
                    self.queue = None;
                    self.error = Some(cat("bad match data: ", why.as_str()));
                    *screen = UiScreen::Main;
                },
            }
        } else if eq(status.as_str(), "waiting") {
            if let Some(q) = &mut self.queue {
                q.position = unwrap_count(a.position);
                q.waiting = unwrap_count(a.waiting);
            }
        } else {
            // Expired (the server restarted, or we stopped polling): join again.
            if let Some(q) = &mut self.queue {
                q.ticket = None;
            }
            if *screen == UiScreen::Queue {
                let r = self.rejoin_queue(cfg);
                e.send(r);
            }
        }
    }

    fn take_status(&mut self, a: Answer, cfg: &ClientConfig, e: &mut Effects)
        ensures
            forall|screen: UiScreen, form: Form|
                #[trigger] turn_of(*final(self), screen, form, *final(e)) == turn_of(
                    *old(self),
                    screen,
                    form,
                    *old(e),
                ).settled(a@, cfg.api()),
    {
        let status = status_text(&a.status);
        let rating = if eq(status.as_str(), "finished") {
            match a.delta {
                Some(d) => Rating::Settled(
                    #[verifier::truncate]
                    (d as i32),
                ),
                None => Rating::Settled(0),
            }
        } else if eq(status.as_str(), "void") {
            Rating::Void
        } else {
            Rating::Pending
        };
        if self.result.is_none() || rating == Rating::Pending {
            return ;
        }
        if let Some(r) = &mut self.result {
            r.rating = rating;
        }
        e.refresh = true;
        if let Some(q) = self.fetch_me(cfg) {
            e.send(q);
        }
    }
}

fn status_text(s: &Option<String>) -> (r: String)
    ensures
        r@ == or_empty(opt(*s)),
{
    match s {
        Some(s) => s.clone(),
        None => String::new(),
    }
}

fn unwrap_count(n: Option<u64>) -> (r: u64)
    ensures
        r == or_zero(n),
{
    match n {
        Some(n) => n,
        None => 0,
    }
}

/// The requests that are marked `which`, in order.
pub open spec fn picked(all: Seq<Req>, marks: Seq<bool>, which: bool) -> Seq<Req>
    decreases all.len(),
{
    if all.len() == 0 {
        Seq::empty()
    } else {
        let before = picked(all.drop_last(), marks, which);
        if marks[all.len() - 1] == which {
            before.push(all.last())
        } else {
            before
        }
    }
}

/// The answered requests keep their order, and so do those still out: the last one is at the end of
/// its own kind and leaves the other as it is.
pub proof fn law_answers_keep_their_order(all: Seq<Req>, r: Req, marks: Seq<bool>, which: bool)
    requires
        marks.len() > all.len(),
    ensures
        marks[all.len() as int] == which ==> picked(all.push(r), marks, which) == picked(
            all,
            marks,
            which,
        ).push(r),
        marks[all.len() as int] != which ==> picked(all.push(r), marks, which) == picked(
            all,
            marks,
            which,
        ),
        picked(Seq::empty(), marks, which).len() == 0,
{
    assert(all.push(r).drop_last() =~= all);
}

/// Every request in flight is either answered or still out, never both and never lost: the answered
/// ones are those whose mark says so.
pub proof fn law_each_request_is_answered_or_out(all: Seq<Req>, marks: Seq<bool>)
    requires
        marks.len() >= all.len(),
    ensures
        picked(all, marks, true).len() + picked(all, marks, false).len() == all.len(),
        forall|i: int|
            0 <= i < all.len() ==> picked(all, marks, #[trigger] marks[i]).contains(all[i]),
        (forall|i: int| 0 <= i < all.len() ==> #[trigger] marks[i]) ==> picked(all, marks, true)
            == all,
        (forall|i: int| 0 <= i < all.len() ==> !#[trigger] marks[i]) ==> picked(all, marks, false)
            == all,
    decreases all.len(),
{
    if all.len() > 0 {
        let d = all.drop_last();
        law_each_request_is_answered_or_out(d, marks);
        let n = all.len() - 1;
        assert(d.push(all.last()) =~= all);
        assert forall|i: int| 0 <= i < all.len() implies picked(
            all,
            marks,
            #[trigger] marks[i],
        ).contains(all[i]) by {
            let now = picked(all, marks, marks[i]);
            let before = picked(d, marks, marks[i]);
            if i < n {
                assert(d[i] == all[i]);
                assert(before.contains(d[i]));
                let j = choose|j: int| 0 <= j < before.len() && before[j] == all[i];
                assert(now[j] == all[i]);
            } else {
                assert(now[now.len() - 1] == all[i]);
            }
        }
    }
}

// ---- on the clock ----

impl AccountView {
    /// Whether the queue is due for a poll: it is up, has a ticket, its time has come and no poll
    /// or join is out.
    pub open spec fn poll_due(self, now: u64) -> bool {
        &&& self.queue matches Some(q) && now >= q.next_poll && q.ticket is Some
        &&& !self.requests.contains(Req::QueuePoll)
        &&& !self.requests.contains(Req::QueueJoin)
    }
}

impl Account {
    /// Polls the queue while the queue screen is up; leaves it when the screen goes away.
    pub fn queue_tick(&mut self, screen: UiScreen, cfg: &ClientConfig, now: u64) -> (r: Option<
        HttpRequest,
    >)
        ensures
            ({
                let a = old(self)@;
                if screen != UiScreen::Queue {
                    match a.queue {
                        Some(QueueView { ticket: Some(t), .. }) => {
                            &&& final(self)@ == (AccountView { queue: None, ..a }).called(
                                Req::QueueLeave,
                            )
                            &&& r matches Some(q) && q@ == request(
                                cfg.api(),
                                a.token,
                                Req::QueueLeave,
                                "/queue/leave"@,
                                Some(object1("ticket"@, t)),
                            )
                        },
                        _ => r is None && final(self)@ == (AccountView { queue: None, ..a }),
                    }
                } else if a.queue is Some && now >= (a.queue->0).next_poll {
                    let waits = AccountView {
                        queue: Some(
                            QueueView { next_poll: later(now, QUEUE_POLL) as u64, ..a.queue->0 },
                        ),
                        ..a
                    };
                    if a.poll_due(now) {
                        &&& final(self)@ == waits.called(Req::QueuePoll)
                        &&& r matches Some(q) && q@ == request(
                            cfg.api(),
                            a.token,
                            Req::QueuePoll,
                            "/queue/poll"@,
                            Some(object1("ticket"@, (a.queue->0).ticket->0)),
                        )
                    } else {
                        r is None && final(self)@ == waits
                    }
                } else {
                    r is None && final(self)@ == a
                }
            }),
    {
        if screen != UiScreen::Queue {
            return self.leave_queue(cfg);
        }
        let ticket = match &mut self.queue {
            None => {
                return None;
            },
            Some(q) => {
                if now < q.next_poll {
                    return None;
                }
                q.next_poll = after(now, QUEUE_POLL);
                opt_clone(&q.ticket)
            },
        };
        match ticket {
            None => None,
            Some(t) => if !self.in_flight(Req::QueuePoll) && !self.in_flight(Req::QueueJoin) {
                let mut body = Object::new();
                body.text("ticket", t.as_str());
                Some(self.call(cfg, Req::QueuePoll, "/queue/poll", Some(body.finish())))
            } else {
                None
            },
        }
    }

    /// Keeps the main menu's count of searching players current while it is up and the server
    /// answers.
    pub fn searching_tick(
        &mut self,
        screen: UiScreen,
        server_up: bool,
        cfg: &ClientConfig,
        now: u64,
    ) -> (r: Option<HttpRequest>)
        ensures
            ({
                let a = old(self)@;
                let due = screen == UiScreen::Main && server_up && now >= a.next_searching_poll;
                let waits = AccountView {
                    next_searching_poll: later(now, SEARCHING_POLL) as u64,
                    ..a
                };
                if due && !a.requests.contains(Req::QueueCount) {
                    &&& final(self)@ == waits.called(Req::QueueCount)
                    &&& r matches Some(q) && q@ == request(
                        cfg.api(),
                        a.token,
                        Req::QueueCount,
                        "/queue"@,
                        None,
                    )
                } else {
                    &&& r is None
                    &&& final(self)@ == if due {
                        waits
                    } else {
                        a
                    }
                }
            }),
    {
        if screen != UiScreen::Main || !server_up || now < self.next_searching_poll {
            return None;
        }
        self.next_searching_poll = after(now, SEARCHING_POLL);
        if self.in_flight(Req::QueueCount) {
            None
        } else {
            Some(self.call(cfg, Req::QueueCount, "/queue", None))
        }
    }

    /// While the result popup is up and the rating is pending, asks the server every few seconds
    /// whether the match has been settled; gives up after a while. Besides the request: whether the
    /// popup has to be redrawn.
    pub fn result_poll(&mut self, cfg: &ClientConfig, now: u64) -> (r: (Option<HttpRequest>, bool))
        ensures
            result_polled(old(self)@, final(self)@, r.0, r.1, cfg.api(), now),
    {
        let popup = match self.result {
            Some(p) => p,
            None => {
                return (None, false);
            },
        };
        if popup.rating != Rating::Pending {
            return (None, false);
        }
        let start = match popup.since {
            Some(t) => t,
            None => now,
        };
        if since(start, now) >= RESULT_WAIT {
            self.result = Some(
                RankedResult { rating: Rating::Unconfirmed, since: Some(start), ..popup },
            );
            return (None, true);
        }
        if now < popup.next_poll {
            self.result = Some(RankedResult { since: Some(start), ..popup });
            return (None, false);
        }
        self.result = Some(
            RankedResult { since: Some(start), next_poll: after(now, RESULT_POLL), ..popup },
        );
        if self.in_flight(Req::MatchStatus) {
            return (None, false);
        }
        let id = show(popup.match_id);
        let path = cat("/match/", id.as_str());
        (Some(self.call(cfg, Req::MatchStatus, path.as_str(), None)), false)
    }
}

/// One look at the result popup. It waits from the first look on; past `RESULT_WAIT` it gives up,
/// before that it asks every `RESULT_POLL`, one request at a time.
pub open spec fn result_polled(
    a: AccountView,
    b: AccountView,
    sent: Option<HttpRequest>,
    redraw: bool,
    api: Seq<char>,
    now: u64,
) -> bool {
    match a.result {
        Some(p) if p.rating == Rating::Pending => {
            let start = match p.since {
                Some(t) => t,
                None => now,
            };
            let p = RankedResult { since: Some(start), ..p };
            if elapsed(start, now) >= RESULT_WAIT {
                &&& sent is None
                &&& redraw
                &&& b == AccountView {
                    result: Some(RankedResult { rating: Rating::Unconfirmed, ..p }),
                    ..a
                }
            } else if now < p.next_poll {
                sent is None && !redraw && b == AccountView { result: Some(p), ..a }
            } else {
                let waits = AccountView {
                    result: Some(
                        RankedResult { next_poll: later(now, RESULT_POLL) as u64, ..p },
                    ),
                    ..a
                };
                &&& !redraw
                &&& if a.requests.contains(Req::MatchStatus) {
                    sent is None && b == waits
                } else {
                    &&& b == waits.called(Req::MatchStatus)
                    &&& sent matches Some(q) && q@ == request(
                        api,
                        a.token,
                        Req::MatchStatus,
                        "/match/"@ + decimal(p.match_id as nat),
                        None,
                    )
                }
            }
        },
        _ => sent is None && !redraw && b == a,
    }
}

/// The popup gives up a minute after it first looked, asks at most every two seconds before that,
/// one request at a time, and asks nothing once the match is settled or dismissed. Whatever it
/// does, it stays the popup of the same match.
pub proof fn law_how_the_popup_waits(
    a: AccountView,
    b: AccountView,
    sent: Option<HttpRequest>,
    redraw: bool,
    api: Seq<char>,
    now: u64,
)
    requires
        result_polled(a, b, sent, redraw, api, now),
    ensures
        a.result is None || a.result->0.rating != Rating::Pending ==> sent is None && !redraw && b
            == a,
        a.result is Some ==> b.result is Some && b.result->0.match_id == a.result->0.match_id
            && b.result->0.ending == a.result->0.ending,
        a.result is Some && a.result->0.rating == Rating::Pending ==> {
            let p = a.result->0;
            let r = b.result->0;
            let over = p.since matches Some(t) && now >= t && now - t >= 60_000_000_000;
            &&& over <==> r.rating == Rating::Unconfirmed
            &&& !over ==> r.rating == Rating::Pending
            &&& redraw <==> over
            &&& sent is Some <==> !over && now >= p.next_poll && !a.requests.contains(
                Req::MatchStatus,
            )
            &&& sent is Some ==> sent->0@.kind == Req::MatchStatus && b.requests.contains(
                Req::MatchStatus,
            )
            &&& sent is Some && now + 2_000_000_000 <= u64::MAX ==> r.next_poll == now
                + 2_000_000_000
            &&& p.since is None ==> r.since == Some(now)
            &&& p.since is Some ==> r.since == p.since
        },
{
    if sent is Some {
        assert(b.requests.last() == Req::MatchStatus);
        assert(b.requests[b.requests.len() - 1] == Req::MatchStatus);
    }
}

/// One poll follows the other: once a poll is out, the queue is next due a second and a half later,
/// and where the answer to it says "waiting" it is due then, with the same ticket, and not before.
pub proof fn law_polls_follow_each_other(
    a: AccountView,
    screen: UiScreen,
    form: FormView,
    answer: AnswerView,
    api: Seq<char>,
    now: u64,
    at: u64,
    t: u64,
)
    requires
        a.poll_due(now),
        now + 1_500_000_000 <= u64::MAX,
        good(answer),
        answer.status == Some("waiting"@),
    ensures
        ({
            let q = a.queue->0;
            // The account with the poll under way, and with its answer taken out of those in flight.
            let out = AccountView {
                queue: Some(QueueView { next_poll: later(now, QUEUE_POLL) as u64, ..q }),
                requests: a.requests.push(Req::QueuePoll),
                ..a
            };
            let back = AccountView { requests: a.requests, ..out };
            let next = answered(back, screen, form, Req::QueuePoll, Some(answer), api, at).account;
            &&& !out.poll_due(t)
            &&& next.queue is Some
            &&& next.queue->0.ticket == q.ticket
            &&& next.queue->0.kind == q.kind
            &&& next.queue->0.since == q.since
            &&& next.poll_due(t) <==> t >= now + 1_500_000_000
        }),
{
    let q = a.queue->0;
    let out = AccountView {
        queue: Some(QueueView { next_poll: later(now, QUEUE_POLL) as u64, ..q }),
        requests: a.requests.push(Req::QueuePoll),
        ..a
    };
    let back = AccountView { requests: a.requests, ..out };
    assert(out.requests[a.requests.len() as int] == Req::QueuePoll);
    assert(out.requests.contains(Req::QueuePoll));
    law_waiting_keeps_the_place(back, screen, form, answer, api, at);
}

// ---- results ----

/// Per-match bookkeeping for ranked games.
#[derive(Clone, Copy, Debug, PartialEq, Eq, Structural)]
pub struct RankedState {
    pub reported: bool,
    /// When the deciding round ended; the match leaves for the menu a few seconds later.
    pub finished_at: Option<u64>,
}

/// The score of a player, by handle.
pub open spec fn score_of(score: (i32, i32), handle: int) -> i32 {
    if handle == 0 {
        score.0
    } else {
        score.1
    }
}

/// A result of the simulation (indexed by handle) in the server's a/b order: the score and the
/// winner.
pub open spec fn in_record_order(slot: u8, local: int, score: (i32, i32), winner: int) -> (
    (i32, i32),
    int,
) {
    let mine = score_of(score, local);
    let theirs = score_of(score, 1 - local);
    (
        if slot == 0 {
            (mine, theirs)
        } else {
            (theirs, mine)
        },
        if winner == local {
            slot as int
        } else {
            1 - slot
        },
    )
}

/// Maps a result of the simulation (indexed by handle) to the server's a/b order.
pub fn report_for(slot: u8, local: usize, score: (i32, i32), winner_handle: usize) -> (r: (
    (i32, i32),
    u8,
))
    requires
        slot <= 1,
        local <= 1,
    ensures
        (r.0, r.1 as int) == in_record_order(slot, local as int, score, winner_handle as int),
        r.1 <= 1,
        r.1 == slot <==> winner_handle == local,
        slot == 0 ==> r.0.0 == (if local == 0 {
            score.0
        } else {
            score.1
        }),
        slot == 1 ==> r.0.1 == (if local == 0 {
            score.0
        } else {
            score.1
        }),
        r.0 == score || r.0 == (score.1, score.0),
{
    let (mine, theirs) = if local == 0 {
        (score.0, score.1)
    } else {
        (score.1, score.0)
    };
    let ordered = if slot == 0 {
        (mine, theirs)
    } else {
        (theirs, mine)
    };
    let winner = if winner_handle == local {
        slot
    } else {
        1 - slot
    };
    (ordered, winner)
}

/// Both players report the same result: the two sides of a match, each with its own handle and its
/// own slot, name the same score and the same winner.
pub proof fn law_both_sides_report_the_same(slot: u8, local: int, score: (i32, i32), winner: int)
    requires
        slot <= 1,
        0 <= local <= 1,
        0 <= winner <= 1,
    ensures
        in_record_order(slot, local, score, winner) == in_record_order(
            (1 - slot) as u8,
            1 - local,
            score,
            winner,
        ),
{
}

/// The reported winner is this player's own slot exactly where this player won. The two possible
/// winners are never reported the same, and each player's score stands at that player's place: the
/// winner's at the reported winner's, this player's at this player's slot.
pub proof fn law_the_report_names_the_winner(slot: u8, local: int, score: (i32, i32), winner: int)
    requires
        slot <= 1,
        0 <= local <= 1,
        0 <= winner <= 1,
    ensures
        ({
            let (reported, place) = in_record_order(slot, local, score, winner);
            let (_, other) = in_record_order(slot, local, score, 1 - winner);
            &&& place == slot <==> winner == local
            &&& 0 <= place <= 1
            &&& place != other
            &&& seq![reported.0, reported.1][place] == seq![score.0, score.1][winner]
            &&& seq![reported.0, reported.1][1 - place] == seq![score.0, score.1][1 - winner]
            &&& seq![reported.0, reported.1][slot as int] == seq![score.0, score.1][local]
        }),
{
}

/// A ranked result, as this player's side sends it.
pub open spec fn report_request(
    a: AccountView,
    api: Seq<char>,
    match_id: u64,
    report: ((i32, i32), int),
) -> RequestView {
    request(
        api,
        a.token,
        Req::Report,
        "/match/"@ + decimal(match_id as nat) + "/report"@,
        Some(
            braced(
                with_member(
                    with_member(Seq::empty(), "score"@, pair_text(report.0.0, report.0.1)),
                    "winner"@,
                    signed_decimal(report.1),
                ),
            ),
        ),
    )
}

/// The account after the deciding rounds among the events, and the reports about them.
pub open spec fn rounds_reported(
    a: AccountView,
    info: MatchInfo,
    local: int,
    events: Seq<SimEvent>,
    api: Seq<char>,
) -> (AccountView, Seq<RequestView>, bool)
    decreases events.len(),
{
    if events.len() == 0 {
        (a, Seq::empty(), false)
    } else {
        let (b, sent, any) = rounds_reported(a, info, local, events.drop_last(), api);
        match events.last() {
            SimEvent::RoundWon { winner, score } => {
                let report = in_record_order(info.slot, local, (score@[0], score@[1]), winner as int);
                let ending = if winner as int == local {
                    Ending::Won
                } else {
                    Ending::Lost
                };
                (
                    AccountView {
                        result: Some(fresh_result(info.match_id, ending)),
                        ..b.called(Req::Report)
                    },
                    sent.push(report_request(b, api, info.match_id, report)),
                    true,
                )
            },
            _ => (b, sent, any),
        }
    }
}

/// Whether an event decides a round.
pub open spec fn decides(e: SimEvent) -> bool {
    e is RoundWon
}

/// How many events decide a round.
pub open spec fn decided(events: Seq<SimEvent>) -> nat
    decreases events.len(),
{
    if events.len() == 0 {
        0
    } else {
        decided(events.drop_last()) + (if decides(events.last()) {
            1nat
        } else {
            0
        })
    }
}

/// Each deciding round is reported once, none where there is none; the popup says "won" exactly
/// where the last of them went to this player, and it is about this match.
pub proof fn law_each_deciding_round_is_reported(
    a: AccountView,
    info: MatchInfo,
    local: int,
    events: Seq<SimEvent>,
    api: Seq<char>,
)
    ensures
        ({
            let (b, sent, any) = rounds_reported(a, info, local, events, api);
            &&& sent.len() == decided(events)
            &&& any <==> decided(events) > 0
            &&& !any ==> b == a
            &&& forall|i: int| 0 <= i < sent.len() ==> (#[trigger] sent[i]).kind == Req::Report
            &&& any ==> b.result is Some && b.result->0.match_id == info.match_id
                && b.result->0.rating == Rating::Pending
            &&& events.len() > 0 && events.last() is RoundWon ==> b.result->0.ending == (if (
            events.last()->winner) as int == local {
                Ending::Won
            } else {
                Ending::Lost
            })
            &&& b.token == a.token && b.user == a.user && b.queue == a.queue
        }),
    decreases events.len(),
{
    if events.len() > 0 {
        law_each_deciding_round_is_reported(a, info, local, events.drop_last(), api);
    }
}

impl Account {
    /// The deciding round of a ranked match ended: report it, then head back to the menu, where the
    /// result popup waits for the server to settle the rating. Besides the reports: whether it is
    /// time to leave for the menu.
    pub fn ranked_round_end(
        &mut self,
        info: &MatchInfo,
        local: usize,
        events: &Vec<SimEvent>,
        ranked: &mut RankedState,
        cfg: &ClientConfig,
        now: u64,
    ) -> (r: (Vec<HttpRequest>, bool))
        requires
            info.slot <= 1,
            local <= 1,
        ensures
            ({
                let (a, sent, any) = if old(ranked).reported {
                    (old(self)@, Seq::empty(), false)
                } else {
                    rounds_reported(old(self)@, *info, local as int, events@, cfg.api())
                };
                let finished = if any {
                    Some(now)
                } else {
                    old(ranked).finished_at
                };
                let leave = finished matches Some(t) && elapsed(t, now) >= RANKED_EXIT;
                &&& final(self)@ == a
                &&& requests(r.0@) == sent
                &&& r.1 == leave
                &&& *final(ranked) == RankedState {
                    reported: old(ranked).reported || any,
                    finished_at: if leave {
                        None
                    } else {
                        finished
                    },
                }
            }),
    {
        let mut sent: Vec<HttpRequest> = Vec::new();
        let ghost start = self@;
        let ghost state = *ranked;
        let ghost mut any = false;
        proof {
            assert(requests(sent@) =~= Seq::<RequestView>::empty());
        }
        if !ranked.reported {
            let mut i: usize = 0;
            proof {
                assert(events@.take(0) =~= Seq::<SimEvent>::empty());
            }
            while i < events.len()
                invariant
                    i <= events.len(),
                    info.slot <= 1,
                    local <= 1,
                    (self@, requests(sent@), any) == rounds_reported(
                        start,
                        *info,
                        local as int,
                        events@.take(i as int),
                        cfg.api(),
                    ),
                    ranked.reported == any,
                    ranked.finished_at == if any {
                        Some(now)
                    } else {
                        state.finished_at
                    },
                decreases events.len() - i,
            {
                proof {
                    assert(events@.take(i as int + 1).drop_last() =~= events@.take(i as int));
                    assert(events@.take(i as int + 1).last() == events@[i as int]);
                }
                if let SimEvent::RoundWon { winner, score } = events[i] {
                    let won = winner as usize == local;
                    let (ordered, slot) = report_for(
                        info.slot,
                        local,
                        (score[0], score[1]),
                        winner as usize,
                    );
                    let ghost before = requests(sent@);
                    let q = self.report(cfg, info.match_id, ordered, slot);
                    let ghost qv = q@;
                    sent.push(q);
                    proof {
                        assert(requests(sent@) =~= before.push(qv));
                    }
                    self.set_result(
                        info.match_id,
                        if won {
                            Ending::Won
                        } else {
                            Ending::Lost
                        },
                    );
                    ranked.reported = true;
                    ranked.finished_at = Some(now);
                    proof {
                        any = true;
                    }
                }
                i = i + 1;
            }
            proof {
                assert(events@.take(events@.len() as int) =~= events@);
            }
        }
        if let Some(t) = ranked.finished_at {
            if since(t, now) >= RANKED_EXIT {
                ranked.finished_at = None;
                return (sent, true);
            }
        }
        (sent, false)
    }

    /// Leaving a ranked match early: whoever left forfeits with the score as it stood.
    pub fn ranked_exit(
        &mut self,
        info: &MatchInfo,
        opponent_left: bool,
        reported: bool,
        score: Option<(i32, i32)>,
        local: usize,
        cfg: &ClientConfig,
    ) -> (r: Option<HttpRequest>)
        requires
            info.slot <= 1,
            local <= 1,
        ensures
            ({
                let a = old(self)@;
                let s = match score {
                    Some(s) => s,
                    None => (0i32, 0i32),
                };
                let winner = if opponent_left {
                    local as int
                } else {
                    1 - local
                };
                let report = in_record_order(info.slot, local as int, s, winner);
                if reported {
                    r is None && final(self)@ == a
                } else {
                    &&& r matches Some(q) && q@ == report_request(
                        a,
                        cfg.api(),
                        info.match_id,
                        report,
                    )
                    &&& final(self)@ == AccountView {
                        result: Some(
                            fresh_result(
                                info.match_id,
                                if opponent_left {
                                    Ending::OpponentLeft
                                } else {
                                    Ending::WeLeft
                                },
                            ),
                        ),
                        ..a.called(Req::Report)
                    }
                }
            }),
    {
        if reported {
            return None;
        }
        let score = match score {
            Some(s) => s,
            None => (0, 0),
        };
        let winner_handle = if opponent_left {
            local
        } else {
            1 - local
        };
        let (ordered, winner) = report_for(info.slot, local, score, winner_handle);
        let q = self.report(cfg, info.match_id, ordered, winner);
        self.set_result(
            info.match_id,
            if opponent_left {
                Ending::OpponentLeft
            } else {
                Ending::WeLeft
            },
        );
        Some(q)
    }
}

/// The opponent of a private-room round, by the name that goes into the history.
pub open spec fn opponent_name(name: Seq<char>) -> Seq<char> {
    if trimmed(name).len() == 0 {
        "unknown"@
    } else {
        trimmed(name)
    }
}

/// The account after the private-room rounds among the events, and what is recorded of them.
pub open spec fn casual_reported(
    a: AccountView,
    code: Seq<char>,
    opponent: Seq<char>,
    local: int,
    events: Seq<SimEvent>,
    api: Seq<char>,
) -> (AccountView, Seq<RequestView>)
    decreases events.len(),
{
    if events.len() == 0 {
        (a, Seq::empty())
    } else {
        let (b, sent) = casual_reported(a, code, opponent, local, events.drop_last(), api);
        match events.last() {
            SimEvent::RoundWon { winner, score } if b.user is Some => {
                let pair = (score@[0], score@[1]);
                (
                    b.called(Req::Casual),
                    sent.push(
                        request(
                            api,
                            b.token,
                            Req::Casual,
                            "/match/casual"@,
                            Some(
                                casual_body(
                                    code,
                                    opponent_name(opponent),
                                    (score_of(pair, local), score_of(pair, 1 - local)),
                                    winner as int == local,
                                ),
                            ),
                        ),
                    ),
                )
            },
            _ => (b, sent),
        }
    }
}

/// A private round is recorded where the player has an account, each one once; a player without one
/// records nothing. The opponent always has a name.
pub proof fn law_private_rounds_are_recorded_for_accounts(
    a: AccountView,
    code: Seq<char>,
    opponent: Seq<char>,
    local: int,
    events: Seq<SimEvent>,
    api: Seq<char>,
)
    ensures
        ({
            let (b, sent) = casual_reported(a, code, opponent, local, events, api);
            &&& a.user is Some ==> sent.len() == decided(events)
            &&& a.user is None ==> sent.len() == 0 && b == a
            &&& forall|i: int| 0 <= i < sent.len() ==> (#[trigger] sent[i]).kind == Req::Casual
            &&& b.user == a.user && b.token == a.token && b.result == a.result
        }),
        opponent_name(opponent).len() > 0,
        trimmed(opponent).len() > 0 ==> opponent_name(opponent) == trimmed(opponent),
    decreases events.len(),
{
    reveal_strlit("unknown");
    if events.len() > 0 {
        law_private_rounds_are_recorded_for_accounts(
            a,
            code,
            opponent,
            local,
            events.drop_last(),
            api,
        );
    }
}

impl Account {
    /// A round in a private room reached the frag limit: put it in the history. The room goes on
    /// (the simulation resets the scores for the next round), so this fires once per round, and a
    /// round abandoned part-way is not recorded. The opponent is known by display name only.
    pub fn casual_round_end(
        &mut self,
        code: &str,
        opponent: &str,
        local: usize,
        events: &Vec<SimEvent>,
        cfg: &ClientConfig,
    ) -> (r: Vec<HttpRequest>)
        requires
            local <= 1,
        ensures
            (final(self)@, requests(r@)) == casual_reported(
                old(self)@,
                code@,
                opponent@,
                local as int,
                events@,
                cfg.api(),
            ),
    {
        let name = trim(opponent);
        let name = if name.as_str().is_empty() {
            owned("unknown")
        } else {
            name
        };
        let mut sent: Vec<HttpRequest> = Vec::new();
        let ghost start = self@;
        let mut i: usize = 0;
        proof {
            assert(events@.take(0) =~= Seq::<SimEvent>::empty());
            assert(requests(sent@) =~= Seq::<RequestView>::empty());
        }
        while i < events.len()
            invariant
                i <= events.len(),
                local <= 1,
                name@ == opponent_name(opponent@),
                (self@, requests(sent@)) == casual_reported(
                    start,
                    code@,
                    opponent@,
                    local as int,
                    events@.take(i as int),
                    cfg.api(),
                ),
            decreases events.len() - i,
        {
            proof {
                assert(events@.take(i as int + 1).drop_last() =~= events@.take(i as int));
                assert(events@.take(i as int + 1).last() == events@[i as int]);
            }
            if let SimEvent::RoundWon { winner, score } = events[i] {
                let pair = if local == 0 {
                    (score[0], score[1])
                } else {
                    (score[1], score[0])
                };
                let ghost before = requests(sent@);
                if let Some(q) = self.report_casual(
                    cfg,
                    code,
                    name.as_str(),
                    pair,
                    winner as usize == local,
                ) {
                    let ghost qv = q@;
                    sent.push(q);
                    proof {
                        assert(requests(sent@) =~= before.push(qv));
                    }
                }
            }
            i = i + 1;
        }
        proof {
            assert(events@.take(events@.len() as int) =~= events@);
        }
        sent
    }
}

} // verus!
