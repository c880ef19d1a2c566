//! What happens before the window opens: the questions the program answers and exits, which display
//! server it takes on Linux, and which render errors it survives.

use vstd::prelude::*;
use vstd::string::*;

use crate::text::{cat, cat3, contains, ends_with, eq, found, opt, owned, starts, starts_with, strings};

verus! {

pub const WINDOW_TITLE: &'static str = "endif.tf";

pub const WINDOW_WIDTH: u32 = 1420;

pub const WINDOW_HEIGHT: u32 = 800;

/// What the program is doing.
#[derive(Clone, Copy, Debug, PartialEq, Eq, Hash, Structural)]
pub enum AppState {
    Menu,
    /// Waiting for the other peer to join the room.
    Connecting,
    InGame,
}

/// Whether an argument is among those given.
pub open spec fn asked_for(args: Seq<Seq<char>>, arg: Seq<char>) -> bool {
    exists|i: int| 0 <= i < args.len() && #[trigger] args[i] == arg
}

fn given(args: &Vec<String>, arg: &str) -> (r: bool)
    ensures
        r == asked_for(strings(args@), arg@),
{
    let mut i: usize = 0;
    while i < args.len()
        invariant
            i <= args.len(),
            forall|j: int| 0 <= j < i ==> #[trigger] strings(args@)[j] != arg@,
        decreases args.len() - i,
    {
        if eq(args[i].as_str(), arg) {
            proof {
                assert(strings(args@)[i as int] == arg@);
            }
            return true;
        }
        i = i + 1;
    }
    false
}

/// `--build-id` prints the build identity and exits: the updater asks a freshly downloaded build
/// this before installing it. `--protocol` (the simulation's identity) is what older updaters ask;
/// it is still answered. Nothing is printed otherwise, and the game runs.
pub fn answer(args: &Vec<String>, build_id: &str, protocol: &str) -> (r: Option<String>)
    ensures
        opt(r) == if asked_for(strings(args@), "--build-id"@) {
            Some(build_id@)
        } else if asked_for(strings(args@), "--protocol"@) {
            Some(protocol@)
        } else {
            None
        },
{
    if given(args, "--build-id") {
        Some(owned(build_id))
    } else if given(args, "--protocol") {
        Some(owned(protocol))
    } else {
        None
    }
}

/// The variables that choose a display server. One that is unset or not text is `None`.
pub struct DisplayEnv {
    /// `WINIT_UNIX_BACKEND` is set, to whatever.
    pub forced: bool,
    /// `WAYLAND_DISPLAY`.
    pub wayland: Option<String>,
    /// `DISPLAY`.
    pub display: Option<String>,
    /// `XDG_RUNTIME_DIR`.
    pub runtime_dir: Option<String>,
}

/// A variable that is set and not empty.
pub open spec fn set_to(v: Option<String>) -> Option<Seq<char>> {
    match v {
        Some(s) => if s@.len() == 0 {
            None
        } else {
            Some(s@)
        },
        None => None,
    }
}

/// A path below a directory.
pub open spec fn below(dir: Seq<char>, name: Seq<char>) -> Seq<char> {
    if dir.len() > 0 && dir.last() == '/' {
        dir + name
    } else {
        dir + "/"@ + name
    }
}

impl DisplayEnv {
    /// The Wayland socket whose absence would make the game take X11.
    pub open spec fn socket(self) -> Option<Seq<char>> {
        if self.forced || set_to(self.display) is None {
            None
        } else {
            match set_to(self.wayland) {
                Some(w) => if starts(w, "/"@) {
                    Some(w)
                } else {
                    match set_to(self.runtime_dir) {
                        Some(dir) => Some(below(dir, w)),
                        None => None,
                    }
                },
                None => None,
            }
        }
    }
}

fn named(v: &Option<String>) -> (r: Option<&str>)
    ensures
        match r {
            Some(s) => set_to(*v) == Some(s@),
            None => set_to(*v) is None,
        },
{
    match v {
        Some(s) => if s.as_str().is_empty() {
            None
        } else {
            Some(s.as_str())
        },
        None => None,
    }
}

/// The Wayland socket to look for. The window library picks Wayland whenever `WAYLAND_DISPLAY` is set
/// and never falls back, so where that socket does not exist and an X display is named, the variable
/// is dropped.
pub fn wayland_socket(env: &DisplayEnv) -> (r: Option<String>)
    ensures
        opt(r) == env.socket(),
{
    if env.forced {
        return None;
    }
    let wayland = match named(&env.wayland) {
        Some(w) => w,
        None => {
            return None;
        },
    };
    if named(&env.display).is_none() {
        return None;
    }
    if starts_with(wayland, "/") {
        return Some(owned(wayland));
    }
    match named(&env.runtime_dir) {
        Some(dir) => {
            if ends_with(dir, "/") {
                proof {
                    reveal_strlit("/");
                    assert(dir@.last() == dir@.skip(dir@.len() - 1)[0]);
                    assert("/"@[0] == '/');
                }
                Some(cat(dir, wayland))
            } else {
                proof {
                    reveal_strlit("/");
                    if dir@.last() == '/' {
                        assert(dir@.skip(dir@.len() - 1) =~= "/"@);
                    }
                }
                Some(cat3(dir, "/", wayland))
            }
        },
        None => None,
    }
}

/// What is said where the Wayland socket is missing.
pub fn display_notice(wayland: &str, socket: &str) -> (r: String)
    ensures
        r@ == "WAYLAND_DISPLAY="@ + wayland@ + " but "@ + socket@
            + " does not exist; using X11 (DISPLAY)"@,
{
    let mut s = cat3("WAYLAND_DISPLAY=", wayland, " but ");
    s.append(socket);
    s.append(" does not exist; using X11 (DISPLAY)");
    s
}

/// Whether a render error is let pass. The browser expires the canvas's swap chain texture when the
/// tab is hidden or resized in mid-frame; the next frame acquires a fresh one. On every other error
/// the game quits.
pub fn survives(validation: bool, description: &str) -> (r: bool)
    ensures
        r == (validation && found(description@, "swap chain texture"@) is Some),
{
    validation && contains(description, "swap chain texture")
}

/// A path below a directory has one slash between the two, whether the directory ends in one or
/// not.
pub proof fn law_one_slash_between(dir: Seq<char>, name: Seq<char>)
    requires
        dir.len() == 0 || dir.last() != '/',
    ensures
        below(dir, name) == dir + "/"@ + name,
        below(dir + "/"@, name) == below(dir, name),
{
    reveal_strlit("/");
    assert((dir + "/"@).last() == '/');
}

/// The socket is looked at exactly where both displays are set and none is forced: by its own path
/// where that is absolute, and below the runtime directory where it is not.
pub proof fn law_when_the_socket_is_looked_at(env: DisplayEnv)
    ensures
        env.forced ==> env.socket() is None,
        env.display is None || env.display->0@.len() == 0 ==> env.socket() is None,
        env.wayland is None || env.wayland->0@.len() == 0 ==> env.socket() is None,
        !env.forced && (env.display matches Some(d) && d@.len() > 0) && (env.wayland matches Some(w)
            && w@.len() > 0) ==> {
            let w = env.wayland->0@;
            &&& starts(w, "/"@) ==> env.socket() == Some(w)
            &&& !starts(w, "/"@) && (env.runtime_dir matches Some(d) && d@.len() > 0)
                ==> env.socket() == Some(below(env.runtime_dir->0@, w))
            &&& !starts(w, "/"@) && (env.runtime_dir is None || env.runtime_dir->0@.len() == 0)
                ==> env.socket() is None
        },
{
}

} // verus!
