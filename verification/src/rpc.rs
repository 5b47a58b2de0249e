//! The watcher processes: how the launcher re-runs itself to watch a client, how a command line
//! is sorted into the launcher's modes, and which window titles are renamed.
use vstd::prelude::*;

use crate::config::Kind;
use crate::fps::FPS_FLAG;
use crate::text::{contains, occurs, replace, replace_all, str_equal, texts};

verus! {

/// The flag that makes the launcher start and watch the player.
pub const WATCH_FLAG: &'static str = "--rpc-play";

/// The flag that makes the launcher start and watch the studio.
pub const STUDIO_WATCH_FLAG: &'static str = "--rpc-studio";

/// The title of the player's window.
pub const CLIENT_TITLE: &'static str = "Roblox";

/// The text in the studio's window titles that is replaced.
pub const STUDIO_TITLE_NEEDLE: &'static str = "Roblox Studio";

/// What replaces it.
pub const STUDIO_TITLE_REPLACEMENT: &'static str = "Octane Studio";

/// The flag that asks for watching a kind.
pub open spec fn watch_flag(kind: Kind) -> Seq<char> {
    match kind {
        Kind::Player => "--rpc-play"@,
        Kind::Studio => "--rpc-studio"@,
    }
}

/// The arguments the launcher re-runs itself with to start and watch a client: the watch flag,
/// the client's executable, then the client's own arguments.
pub fn watcher_args(kind: Kind, exe: &str, args: &Vec<String>) -> (r: Vec<String>)
    ensures
        texts(r@) == seq![watch_flag(kind), exe@] + texts(args@),
{
    let mut out: Vec<String> = Vec::new();
    match kind {
        Kind::Player => out.push(WATCH_FLAG.to_owned()),
        Kind::Studio => out.push(STUDIO_WATCH_FLAG.to_owned()),
    }
    out.push(exe.to_owned());
    let mut i: usize = 0;
    while i < args.len()
        invariant
            i <= args@.len(),
            texts(out@) == seq![watch_flag(kind), exe@] + texts(args@).take(i as int),
        decreases args.len() - i,
    {
        let ghost before = texts(out@);
        let item = args[i].clone();
        assert(item@ == texts(args@)[i as int]);
        out.push(item);
        assert(texts(out@) =~= before.push(item@));
        assert(texts(args@).take(i + 1) =~= texts(args@).take(i as int).push(item@));
        i += 1;
        assert(texts(out@) =~= seq![watch_flag(kind), exe@] + texts(args@).take(i as int));
    }
    assert(texts(args@).take(args@.len() as int) =~= texts(args@));
    out
}

/// What a command line asks the launcher to be.
#[derive(PartialEq, Eq, Debug)]
pub enum Mode {
    /// Start and watch the player with the rest of the command line.
    WatchPlayer(Vec<String>),
    /// Start and watch the studio with the rest of the command line.
    WatchStudio(Vec<String>),
    /// Run the frame-rate tray.
    FpsTray,
    /// Run the launcher window.
    Launcher,
}

/// The mode a command line (without the program name) asks for, decided by its first argument.
pub open spec fn mode_of(args: Seq<Seq<char>>) -> (int, Seq<Seq<char>>) {
    if args.len() > 0 && args[0] == "--rpc-play"@ {
        (0, args.skip(1))
    } else if args.len() > 0 && args[0] == "--rpc-studio"@ {
        (1, args.skip(1))
    } else if args.len() > 0 && args[0] == "--fps"@ {
        (2, Seq::empty())
    } else {
        (3, Seq::empty())
    }
}

/// The view of a mode: its number in declaration order and the arguments it carries.
pub open spec fn mode_view(m: Mode) -> (int, Seq<Seq<char>>) {
    match m {
        Mode::WatchPlayer(rest) => (0, texts(rest@)),
        Mode::WatchStudio(rest) => (1, texts(rest@)),
        Mode::FpsTray => (2, Seq::empty()),
        Mode::Launcher => (3, Seq::empty()),
    }
}

/// The arguments after the first.
fn rest_of(args: &Vec<String>) -> (r: Vec<String>)
    requires
        args@.len() > 0,
    ensures
        texts(r@) == texts(args@).skip(1),
{
    let mut out: Vec<String> = Vec::new();
    let mut i: usize = 1;
    while i < args.len()
        invariant
            1 <= i <= args@.len(),
            texts(out@) == texts(args@).subrange(1, i as int),
        decreases args.len() - i,
    {
        let ghost before = texts(out@);
        let item = args[i].clone();
        assert(item@ == texts(args@)[i as int]);
        out.push(item);
        assert(texts(out@) =~= before.push(item@));
        assert(texts(args@).subrange(1, i + 1) =~= texts(args@).subrange(1, i as int).push(item@));
        i += 1;
    }
    assert(texts(args@).subrange(1, args@.len() as int) =~= texts(args@).skip(1));
    out
}

/// Sorts a command line (without the program name) into the launcher's modes.
pub fn mode(args: &Vec<String>) -> (r: Mode)
    ensures
        mode_view(r) == mode_of(texts(args@)),
{
    if args.len() > 0 {
        let first = args[0].as_str();
        assert(texts(args@)[0] == first@);
        if str_equal(first, WATCH_FLAG) {
            return Mode::WatchPlayer(rest_of(args));
        }
        if str_equal(first, STUDIO_WATCH_FLAG) {
            return Mode::WatchStudio(rest_of(args));
        }
        if str_equal(first, FPS_FLAG) {
            return Mode::FpsTray;
        }
    }
    Mode::Launcher
}

/// The client to start and its arguments, from a watcher's command line: the first argument is
/// the executable; `None` when there is none.
pub fn watch_target(args: &Vec<String>) -> (r: Option<(String, Vec<String>)>)
    ensures
        match r {
            Some((exe, rest)) => args@.len() > 0 && exe@ == texts(args@)[0] && texts(rest@) == texts(args@).skip(1),
            None => args@.len() == 0,
        },
{
    if args.len() == 0 {
        return None;
    }
    let exe = args[0].clone();
    let rest = rest_of(args);
    Some((exe, rest))
}

/// A re-run launcher is sorted into the watcher for the kind it was started for, with exactly
/// the client and arguments it was given.
pub proof fn lemma_watcher_roundtrip(kind: Kind, exe: Seq<char>, args: Seq<Seq<char>>)
    ensures
        mode_of(seq![watch_flag(kind), exe] + args) == (
            match kind {
                Kind::Player => 0int,
                Kind::Studio => 1int,
            },
            seq![exe] + args,
        ),
{
    reveal_strlit("--rpc-play");
    reveal_strlit("--rpc-studio");
    let line = seq![watch_flag(kind), exe] + args;
    assert(line[0] == watch_flag(kind));
    assert(line.skip(1) =~= seq![exe] + args);
    if kind == Kind::Studio {
        assert(watch_flag(kind).len() != "--rpc-play"@.len());
    }
}

/// Whether a window title is the player's.
pub fn is_client_title(title: &str) -> (r: bool)
    ensures
        r == (title@ == "Roblox"@),
{
    str_equal(title, CLIENT_TITLE)
}

/// The new title of a studio window: `Roblox Studio` replaced by `Octane Studio` throughout;
/// `None` when the title does not mention `Roblox Studio`.
pub fn studio_title(current: &str) -> (r: Option<String>)
    ensures
        match r {
            Some(t) => occurs(current@, "Roblox Studio"@) && t@ == replace_all(
                current@,
                "Roblox Studio"@,
                "Octane Studio"@,
            ),
            None => !occurs(current@, "Roblox Studio"@),
        },
{
    if !contains(current, STUDIO_TITLE_NEEDLE) {
        return None;
    }
    proof {
        reveal_strlit("Roblox Studio");
    }
    Some(replace(current, STUDIO_TITLE_NEEDLE, STUDIO_TITLE_REPLACEMENT))
}

/// A renamed studio title no longer mentions `Roblox Studio`.
pub proof fn lemma_studio_title_renamed(current: Seq<char>)
    ensures
        !occurs(replace_all(current, "Roblox Studio"@, "Octane Studio"@), "Roblox Studio"@),
{
    reveal_strlit("Roblox Studio");
    reveal_strlit("Octane Studio");
    let n = "Roblox Studio"@;
    let r = "Octane Studio"@;
    assert forall|k: int| 0 <= k < r.len() implies r[k] != n[0] by {
    }
    assert forall|m: int| 1 <= m < n.len() implies n[m] != r[0] by {
    }
    crate::text::lemma_replace_all_removes(current, n, r);
}

} // verus!
