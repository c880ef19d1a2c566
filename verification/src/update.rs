//! Desktop only: the "update now" button. The game cannot replace its own executable, so it hands
//! off to the updater that ships next to it and quits. The updater downloads the current package,
//! waits for the game to exit, swaps the files and starts it again.

use vstd::prelude::*;
use vstd::string::*;

use crate::text::{cat, owned, show, strings};

verus! {

/// The updater's file name.
pub fn updater_name(windows: bool) -> (r: &'static str)
    ensures
        r@ == if windows {
            "endif-updater.exe"@
        } else {
            "endif-updater"@
        },
{
    if windows {
        "endif-updater.exe"
    } else {
        "endif-updater"
    }
}

/// Why the updater could not be started.
pub enum UpdaterFault {
    /// The game's executable cannot be found.
    NoExecutable(String),
    /// The game's executable lies in no directory.
    NoDirectory,
    /// The updater is missing; the current build is at this address.
    Missing(String),
    /// The updater did not start.
    NotStarted(String),
}

impl UpdaterFault {
    pub open spec fn message(self) -> Seq<char> {
        match self {
            UpdaterFault::NoExecutable(e) => "cannot find the game executable: "@ + e@,
            UpdaterFault::NoDirectory => "the game executable has no directory"@,
            UpdaterFault::Missing(url) =>
                "the updater is missing next to the game; download the current build from "@ + url@,
            UpdaterFault::NotStarted(e) => "could not start the updater: "@ + e@,
        }
    }

    /// What the menu says of it.
    pub fn text(&self) -> (r: String)
        ensures
            r@ == self.message(),
    {
        match self {
            UpdaterFault::NoExecutable(e) => cat("cannot find the game executable: ", e.as_str()),
            UpdaterFault::NoDirectory => owned("the game executable has no directory"),
            UpdaterFault::Missing(url) => cat(
                "the updater is missing next to the game; download the current build from ",
                url.as_str(),
            ),
            UpdaterFault::NotStarted(e) => cat("could not start the updater: ", e.as_str()),
        }
    }
}

/// The updater's arguments: where the game lies, where the package is, what to start afterwards,
/// which process to wait for, and the build that is expected where it is known.
pub open spec fn updater_line(
    dir: Seq<char>,
    url: Seq<char>,
    exe: Seq<char>,
    pid: nat,
    server_version: Seq<char>,
) -> Seq<Seq<char>> {
    seq![
        "--dir"@,
        dir,
        "--url"@,
        url,
        "--launch"@,
        exe,
        "--wait-pid"@,
        crate::text::decimal(pid),
    ] + if server_version.len() == 0 {
        Seq::empty()
    } else {
        seq!["--expect"@, server_version]
    }
}

/// The updater's arguments.
pub fn updater_args(dir: &str, url: &str, exe: &str, pid: u32, server_version: &str) -> (r: Vec<
    String,
>)
    ensures
        strings(r@) == updater_line(dir@, url@, exe@, pid as nat, server_version@),
{
    let mut args: Vec<String> = Vec::new();
    args.push(owned("--dir"));
    args.push(owned(dir));
    args.push(owned("--url"));
    args.push(owned(url));
    args.push(owned("--launch"));
    args.push(owned(exe));
    args.push(owned("--wait-pid"));
    args.push(show(pid as u64));
    if !server_version.is_empty() {
        args.push(owned("--expect"));
        args.push(owned(server_version));
    }
    proof {
        assert(strings(args@) =~= updater_line(dir@, url@, exe@, pid as nat, server_version@));
    }
    args
}

/// The updater is told each thing behind the word for it, and the version to expect exactly where
/// one is known.
pub proof fn law_what_the_updater_is_told(
    dir: Seq<char>,
    url: Seq<char>,
    exe: Seq<char>,
    pid: nat,
    version: Seq<char>,
)
    ensures
        ({
            let line = updater_line(dir, url, exe, pid, version);
            &&& line.len() == if version.len() == 0 {
                8int
            } else {
                10
            }
            &&& line[0] == "--dir"@ && line[1] == dir
            &&& line[2] == "--url"@ && line[3] == url
            &&& line[4] == "--launch"@ && line[5] == exe
            &&& line[6] == "--wait-pid"@ && line[7] == crate::text::decimal(pid)
            &&& version.len() > 0 ==> line[8] == "--expect"@ && line[9] == version
        }),
{
}

/// Each fault of the updater is named by what it is, with what was told of it.
pub proof fn law_what_an_updater_fault_says(e: String)
    ensures
        UpdaterFault::NoExecutable(e).message() == "cannot find the game executable: "@ + e@,
        UpdaterFault::NoDirectory.message() == "the game executable has no directory"@,
        UpdaterFault::Missing(e).message()
            == "the updater is missing next to the game; download the current build from "@ + e@,
        UpdaterFault::NotStarted(e).message() == "could not start the updater: "@ + e@,
{
}

} // verus!
