//! What a launch is about: the kind and link picked from the command line, the client arguments
//! a launch link carries, the order of the launch pipeline, and which running process counts as
//! the launcher's own client.
use vstd::prelude::*;

use crate::config::{
    concat, install_root, install_root_path, kind_of_url, label_text, exe_text, Kind, BASE_URL,
    STUDIO_FLAG,
};
use crate::text::{
    chars_equal, chars_of, eq_ignore_ascii_case, eq_ignore_case, lower_seq, split_all,
    split_chars, split_once, split_once_chars, starts_with, str_equal, str_starts_with,
    string_of, texts, to_ascii_lowercase, views,
};

verus! {

/// What the percent-encoding crate's `percent_decode_str(..).decode_utf8_lossy()` gives for a
/// string: `%` followed by two hex digits becomes that byte, and the bytes are read as UTF-8 with
/// invalid sequences replaced.
pub uninterp spec fn percent_decoded(s: Seq<char>) -> Seq<char>;

/// Percent-decodes a link parameter (`percent_encoding::percent_decode_str`, then
/// `decode_utf8_lossy`). The result is named; the crate's source shows that text without a `%`
/// comes back unchanged, and the contract states that too.
#[verifier::external_body]
fn percent_decode(s: &str) -> (r: String)
    ensures
        r@ == percent_decoded(s@),
        !s@.contains('%') ==> r@ == s@,
{
    percent_encoding::percent_decode_str(s).decode_utf8_lossy().into_owned()
}

/// A link parameter's value once percent-decoded: a value without `%` is taken as it stands.
pub open spec fn decoded_value(v: Seq<char>) -> Seq<char> {
    if v.contains('%') {
        percent_decoded(v)
    } else {
        v
    }
}

/// The value of link parameter `key` among the `+`-separated tokens of a link: each token is
/// `key:value`; the last token with that key wins, and its value is percent-decoded.
pub open spec fn param_value(tokens: Seq<Seq<char>>, key: Seq<char>) -> Option<Seq<char>>
    decreases tokens.len(),
{
    if tokens.len() == 0 {
        None
    } else {
        match split_once(tokens.last(), ':') {
            Some((k, v)) => if k == key {
                Some(decoded_value(v))
            } else {
                param_value(tokens.drop_last(), key)
            },
            None => param_value(tokens.drop_last(), key),
        }
    }
}

/// The address the client negotiates its login with.
pub open spec fn negotiate_url() -> Seq<char> {
    "https://octane.wtf"@ + "/Login/Negotiate.ashx"@
}

/// The client arguments a launch link gives, or the first parameter it lacks. The player takes
/// `gameinfo` and `placelauncherurl`; the studio takes `gameinfo`, `task`, `placeId` and
/// `universeId`.
pub open spec fn launch_args_for(kind: Kind, url: Seq<char>) -> Result<Seq<Seq<char>>, Seq<char>> {
    let t = split_all(url, '+');
    let gameinfo = param_value(t, "gameinfo"@);
    match kind {
        Kind::Player => {
            let place = param_value(t, "placelauncherurl"@);
            if gameinfo is None {
                Err("gameinfo"@)
            } else if place is None {
                Err("placelauncherurl"@)
            } else {
                Ok(seq!["-a"@, negotiate_url(), "-t"@, gameinfo->0, "-j"@, place->0])
            }
        },
        Kind::Studio => {
            let task = param_value(t, "task"@);
            let place = param_value(t, "placeId"@);
            let universe = param_value(t, "universeId"@);
            if gameinfo is None {
                Err("gameinfo"@)
            } else if task is None {
                Err("task"@)
            } else if place is None {
                Err("placeId"@)
            } else if universe is None {
                Err("universeId"@)
            } else {
                Ok(
                    seq![
                        "-url"@,
                        negotiate_url(),
                        "-ticket"@,
                        gameinfo->0,
                        "-task"@,
                        task->0,
                        "-placeId"@,
                        place->0,
                        "-universeId"@,
                        universe->0,
                    ],
                )
            }
        },
    }
}

/// Why a launch link could not be turned into client arguments.
#[derive(PartialEq, Eq, Debug)]
pub enum LaunchError {
    /// The link has no parameter with this name.
    MissingParam(String),
}

/// The value of parameter `key` among the link's tokens (the last one wins), percent-decoded.
fn param(tokens: &Vec<Vec<char>>, key: &str) -> (r: Option<String>)
    ensures
        match r {
            Some(v) => param_value(views(tokens@), key@) == Some(v@),
            None => param_value(views(tokens@), key@) is None,
        },
{
    let want = chars_of(key);
    let mut found: Option<String> = None;
    let mut i: usize = 0;
    assert(views(tokens@).take(0) =~= Seq::<Seq<char>>::empty());
    while i < tokens.len()
        invariant
            want@ == key@,
            i <= tokens@.len(),
            match found {
                Some(v) => param_value(views(tokens@).take(i as int), key@) == Some(v@),
                None => param_value(views(tokens@).take(i as int), key@) is None,
            },
        decreases tokens.len() - i,
    {
        let ghost before = views(tokens@).take(i as int);
        let ghost now = views(tokens@).take(i + 1);
        proof {
            assert(now.drop_last() =~= before);
            assert(now.last() == tokens@[i as int]@);
        }
        match split_once_chars(tokens[i].as_slice(), ':') {
            Some((k, v)) => {
                if chars_equal(k.as_slice(), want.as_slice()) {
                    let raw = string_of(v.as_slice());
                    found = Some(percent_decode(raw.as_str()));
                }
            },
            None => {},
        }
        i += 1;
    }
    assert(views(tokens@).take(tokens@.len() as int) =~= views(tokens@));
    found
}

/// The client arguments a launch link gives for `kind`, or the first parameter it lacks.
pub fn launch_args(kind: Kind, url: &str) -> (r: Result<Vec<String>, LaunchError>)
    ensures
        match r {
            Ok(args) => launch_args_for(kind, url@) == Ok::<Seq<Seq<char>>, Seq<char>>(texts(args@)),
            Err(LaunchError::MissingParam(key)) => launch_args_for(kind, url@) == Err::<Seq<Seq<char>>, Seq<char>>(key@),
        },
{
    let cs = chars_of(url);
    let tokens = split_chars(cs.as_slice(), '+');
    let negotiate = concat(BASE_URL, "/Login/Negotiate.ashx");
    let gameinfo = match param(&tokens, "gameinfo") {
        Some(v) => v,
        None => return Err(LaunchError::MissingParam("gameinfo".to_owned())),
    };
    match kind {
        Kind::Player => {
            let place = match param(&tokens, "placelauncherurl") {
                Some(v) => v,
                None => return Err(LaunchError::MissingParam("placelauncherurl".to_owned())),
            };
            let mut args: Vec<String> = Vec::new();
            args.push("-a".to_owned());
            args.push(negotiate);
            args.push("-t".to_owned());
            args.push(gameinfo);
            args.push("-j".to_owned());
            args.push(place);
            assert(texts(args@) =~= launch_args_for(kind, url@)->Ok_0);
            Ok(args)
        },
        Kind::Studio => {
            let task = match param(&tokens, "task") {
                Some(v) => v,
                None => return Err(LaunchError::MissingParam("task".to_owned())),
            };
            let place = match param(&tokens, "placeId") {
                Some(v) => v,
                None => return Err(LaunchError::MissingParam("placeId".to_owned())),
            };
            let universe = match param(&tokens, "universeId") {
                Some(v) => v,
                None => return Err(LaunchError::MissingParam("universeId".to_owned())),
            };
            let mut args: Vec<String> = Vec::new();
            args.push("-url".to_owned());
            args.push(negotiate);
            args.push("-ticket".to_owned());
            args.push(gameinfo);
            args.push("-task".to_owned());
            args.push(task);
            args.push("-placeId".to_owned());
            args.push(place);
            args.push("-universeId".to_owned());
            args.push(universe);
            assert(texts(args@) =~= launch_args_for(kind, url@)->Ok_0);
            Ok(args)
        },
    }
}

/// Argument `i` is the first launch link on the command line.
pub open spec fn first_link_at(args: Seq<Seq<char>>, i: int) -> bool {
    &&& 0 <= i < args.len()
    &&& kind_of_url(args[i]) is Some
    &&& forall|j: int| 0 <= j < i ==> kind_of_url(args[j]) is None
}

/// The kind and link a command line asks for: the first argument that is a launch link decides
/// both; without one, `--studio` anywhere asks for the studio and otherwise the player starts.
pub open spec fn launch_of(args: Seq<Seq<char>>) -> (Kind, Option<Seq<char>>) {
    if exists|i: int| first_link_at(args, i) {
        let i = choose|i: int| first_link_at(args, i);
        (kind_of_url(args[i])->0, Some(args[i]))
    } else if args.contains("--studio"@) {
        (Kind::Studio, None)
    } else {
        (Kind::Player, None)
    }
}

/// A launch: which program, the launch link if one was given, and the command line it came from.
pub struct Launch {
    pub kind: Kind,
    pub url: Option<String>,
    args: Vec<String>,
}

impl Launch {
    /// The command line this launch came from.
    pub closed spec fn command_line(&self) -> Seq<Seq<char>> {
        texts(self.args@)
    }

    /// The program this launch is about.
    pub closed spec fn launched(&self) -> Kind {
        self.kind
    }

    /// The launch link, if one was given.
    pub closed spec fn link(&self) -> Option<Seq<char>> {
        match self.url {
            Some(u) => Some(u@),
            None => None,
        }
    }

    /// Works out a launch from the command-line arguments (without the program name).
    pub fn parse(args: Vec<String>) -> (r: Launch)
        ensures
            r.command_line() == texts(args@),
            r.launched() == launch_of(texts(args@)).0,
            r.link() == launch_of(texts(args@)).1,
    {
        let ghost a = texts(args@);
        let mut i: usize = 0;
        while i < args.len()
            invariant
                a == texts(args@),
                i <= args@.len(),
                forall|j: int| 0 <= j < i ==> kind_of_url(a[j]) is None,
            decreases args.len() - i,
        {
            match Kind::from_url(args[i].as_str()) {
                Some(kind) => {
                    proof {
                        assert(first_link_at(a, i as int));
                        let k = choose|k: int| first_link_at(a, k);
                        if k < i {
                            assert(kind_of_url(a[k]) is None);
                        }
                        if i < k {
                            assert(kind_of_url(a[i as int]) is None);
                        }
                    }
                    let url = args[i].clone();
                    return Launch { kind, url: Some(url), args };
                },
                None => {},
            }
            i += 1;
        }
        proof {
            assert forall|k: int| !first_link_at(a, k) by {
                if first_link_at(a, k) {
                    assert(kind_of_url(a[k]) is None);
                }
            }
        }
        let mut studio = false;
        let mut j: usize = 0;
        while j < args.len()
            invariant
                a == texts(args@),
                j <= args@.len(),
                studio <==> exists|k: int| 0 <= k < j && a[k] == "--studio"@,
            decreases args.len() - j,
        {
            let is_flag = str_equal(args[j].as_str(), STUDIO_FLAG);
            proof {
                assert(a[j as int] == args@[j as int]@);
                assert(STUDIO_FLAG@ == "--studio"@);
                if !is_flag {
                    assert(a[j as int] != "--studio"@);
                }
            }
            if is_flag {
                studio = true;
            }
            j += 1;
        }
        proof {
            if studio {
                let k = choose|k: int| 0 <= k < j && a[k] == "--studio"@;
                assert(a.contains("--studio"@));
            } else {
                if a.contains("--studio"@) {
                    let k = choose|k: int| 0 <= k < a.len() && a[k] == "--studio"@;
                    assert(0 <= k < j && a[k] == "--studio"@);
                }
            }
        }
        let kind = if studio {
            Kind::Studio
        } else {
            Kind::Player
        };
        Launch { kind, url: None, args }
    }

    /// The program this launch is about.
    pub fn kind(&self) -> (r: Kind)
        ensures
            r == self.launched(),
    {
        self.kind
    }

    /// The launch link, if one was given.
    pub fn url(&self) -> (r: Option<&str>)
        ensures
            match r {
                Some(u) => self.link() == Some(u@),
                None => self.link() is None,
            },
    {
        match &self.url {
            Some(u) => Some(u.as_str()),
            None => None,
        }
    }

    /// The command line this launch came from.
    pub fn args(&self) -> (r: &Vec<String>)
        ensures
            texts(r@) == self.command_line(),
    {
        &self.args
    }
}

/// The install root in lower case, for comparing process image paths.
pub fn install_root_lowercase() -> (r: Result<String, crate::config::ConfigError>)
    ensures
        r matches Ok(p) ==> exists|local: Seq<char>| p@ == lower_seq(install_root_path(local)),
        r matches Err(e) ==> e == crate::config::ConfigError::NoLocalAppData,
{
    let root = install_root()?;
    Ok(to_ascii_lowercase(root.as_str()))
}

/// Whether a process image path lies under the (lower-cased) install root: the path, lower-cased,
/// must begin with it.
pub fn image_under_root(image: &str, root_lowercase: &str) -> (r: bool)
    ensures
        r == starts_with(lower_seq(image@), root_lowercase@),
{
    let lowered = to_ascii_lowercase(image);
    str_starts_with(lowered.as_str(), root_lowercase)
}

/// Whether a process's executable name is the player's, ignoring ASCII case.
pub fn is_player_exe(name: &str) -> (r: bool)
    ensures
        r == eq_ignore_case(name@, exe_text(Kind::Player)),
{
    eq_ignore_ascii_case(name, Kind::Player.exe())
}

/// The status shown while the launcher checks for a newer version of itself.
pub fn upgrading_status(kind: Kind) -> (r: String)
    ensures
        r@ == "Upgrading "@ + label_text(kind) + "..."@,
{
    let a = concat("Upgrading ", kind.label());
    concat(a.as_str(), "...")
}

/// The status shown while a client starts.
pub fn starting_status(kind: Kind) -> (r: String)
    ensures
        r@ == "Starting "@ + label_text(kind) + "..."@,
{
    let a = concat("Starting ", kind.label());
    concat(a.as_str(), "...")
}

/// What the launch pipeline does next.
#[derive(Clone, Copy, PartialEq, Eq, Debug, Structural)]
pub enum PipelineStep {
    /// Turn the launch link into the client's arguments.
    ReadLink,
    /// Stop with the error the launch link gave: it lacks a parameter.
    Fail,
    /// Ask the web site whether the launcher itself is out of date.
    CheckLauncher,
    /// Download the new launcher, put it in place, start it with the same command line, and close.
    UpdateLauncher,
    /// Install the launcher, register the URL schemes, honour the site-wide version and make sure
    /// the client is installed.
    Install,
    /// Put studio shortcuts in the start menu and on the desktop.
    CreateShortcuts,
    /// Tell the user the player is ready and stay open; there is nothing to start.
    ShowReady,
    /// Start the player with the link's arguments, under the frame-rate tray and the watcher.
    StartPlayer,
    /// Start the studio with the link's arguments, under the watcher.
    StartStudio,
    /// Close the window: the pipeline is over.
    Close,
}

/// What the last step of the pipeline came to.
#[derive(Clone, Copy, PartialEq, Eq, Debug, Structural)]
pub enum PipelineEvent {
    /// The pipeline begins.
    Begun,
    /// The launch link was read; `valid` when it gave the client's arguments.
    LinkRead { valid: bool },
    /// The launcher version was checked.
    LauncherChecked { outdated: bool },
    /// The new launcher was started.
    LauncherUpdated,
    /// The install steps finished; `fresh` when the client was (re)installed just now.
    Installed { fresh: bool },
    /// The studio shortcuts were created.
    ShortcutsCreated,
    /// The client was started.
    Started,
}

/// What follows the installation: a player without a link has nothing to start.
pub open spec fn after_install(kind: Kind, has_link: bool) -> PipelineStep {
    match kind {
        Kind::Player => if has_link {
            PipelineStep::StartPlayer
        } else {
            PipelineStep::ShowReady
        },
        Kind::Studio => PipelineStep::StartStudio,
    }
}

/// The step that follows `event` in the launch of `kind`, with or without a launch link. A link
/// is read first, and one that lacks a parameter ends the launch before anything else is done.
pub open spec fn next_step(kind: Kind, has_link: bool, event: PipelineEvent) -> PipelineStep {
    match event {
        PipelineEvent::Begun => if has_link {
            PipelineStep::ReadLink
        } else {
            PipelineStep::CheckLauncher
        },
        PipelineEvent::LinkRead { valid } => if valid {
            PipelineStep::CheckLauncher
        } else {
            PipelineStep::Fail
        },
        PipelineEvent::LauncherChecked { outdated } => if outdated {
            PipelineStep::UpdateLauncher
        } else {
            PipelineStep::Install
        },
        PipelineEvent::LauncherUpdated => PipelineStep::Close,
        PipelineEvent::Installed { fresh } => if kind == Kind::Studio && fresh {
            PipelineStep::CreateShortcuts
        } else {
            after_install(kind, has_link)
        },
        PipelineEvent::ShortcutsCreated => after_install(kind, has_link),
        PipelineEvent::Started => PipelineStep::Close,
    }
}

/// Decides the next step of the launch pipeline.
pub fn pipeline_next(kind: Kind, has_link: bool, event: PipelineEvent) -> (r: PipelineStep)
    ensures
        r == next_step(kind, has_link, event),
{
    let after = match kind {
        Kind::Player => if has_link {
            PipelineStep::StartPlayer
        } else {
            PipelineStep::ShowReady
        },
        Kind::Studio => PipelineStep::StartStudio,
    };
    match event {
        PipelineEvent::Begun => if has_link {
            PipelineStep::ReadLink
        } else {
            PipelineStep::CheckLauncher
        },
        PipelineEvent::LinkRead { valid } => if valid {
            PipelineStep::CheckLauncher
        } else {
            PipelineStep::Fail
        },
        PipelineEvent::LauncherChecked { outdated } => if outdated {
            PipelineStep::UpdateLauncher
        } else {
            PipelineStep::Install
        },
        PipelineEvent::LauncherUpdated => PipelineStep::Close,
        PipelineEvent::Installed { fresh } => if kind == Kind::Studio && fresh {
            PipelineStep::CreateShortcuts
        } else {
            after
        },
        PipelineEvent::ShortcutsCreated => after,
        PipelineEvent::Started => PipelineStep::Close,
    }
}

/// What a step comes to, given how the outside work goes: whether the link was valid, whether
/// the launcher was out of date and whether the client was installed just now. `None` for a step
/// that ends the launch.
pub open spec fn outcome_of(step: PipelineStep, valid: bool, outdated: bool, fresh: bool) -> Option<PipelineEvent> {
    match step {
        PipelineStep::ReadLink => Some(PipelineEvent::LinkRead { valid }),
        PipelineStep::CheckLauncher => Some(PipelineEvent::LauncherChecked { outdated }),
        PipelineStep::UpdateLauncher => Some(PipelineEvent::LauncherUpdated),
        PipelineStep::Install => Some(PipelineEvent::Installed { fresh }),
        PipelineStep::CreateShortcuts => Some(PipelineEvent::ShortcutsCreated),
        PipelineStep::StartPlayer => Some(PipelineEvent::Started),
        PipelineStep::StartStudio => Some(PipelineEvent::Started),
        PipelineStep::Fail => None,
        PipelineStep::ShowReady => None,
        PipelineStep::Close => None,
    }
}

/// The steps a launch goes through from `event` on (at most `fuel` of them).
pub open spec fn run_from(
    kind: Kind,
    has_link: bool,
    event: PipelineEvent,
    valid: bool,
    outdated: bool,
    fresh: bool,
    fuel: nat,
) -> Seq<PipelineStep>
    decreases fuel,
{
    if fuel == 0 {
        Seq::empty()
    } else {
        let step = next_step(kind, has_link, event);
        match outcome_of(step, valid, outdated, fresh) {
            None => seq![step],
            Some(e) => seq![step] + run_from(kind, has_link, e, valid, outdated, fresh, (fuel - 1) as nat),
        }
    }
}

/// The whole run of a launch's pipeline, from its beginning.
pub open spec fn pipeline_run(kind: Kind, has_link: bool, valid: bool, outdated: bool, fresh: bool) -> Seq<
    PipelineStep,
> {
    run_from(kind, has_link, PipelineEvent::Begun, valid, outdated, fresh, 8)
}

/// The pipeline visits exactly these steps, in this order: a link is read first and a bad one
/// ends the launch at once; an out-of-date launcher is replaced and the launch closes without
/// installing anything; otherwise the client is installed, a freshly installed studio gets its
/// shortcuts, and then the studio, or the player started from a link, is started before the
/// window closes, while a player without a link only shows that it is ready.
pub proof fn lemma_pipeline_runs(kind: Kind, has_link: bool, valid: bool, outdated: bool, fresh: bool)
    ensures
        ({
            let run = pipeline_run(kind, has_link, valid, outdated, fresh);
            let head: Seq<PipelineStep> = if has_link {
                seq![PipelineStep::ReadLink]
            } else {
                Seq::empty()
            };
            let shortcuts: Seq<PipelineStep> = if fresh {
                seq![PipelineStep::CreateShortcuts]
            } else {
                Seq::empty()
            };
            &&& has_link && !valid ==> run == seq![PipelineStep::ReadLink, PipelineStep::Fail]
            &&& (!has_link || valid) && outdated ==> run == head + seq![
                PipelineStep::CheckLauncher,
                PipelineStep::UpdateLauncher,
                PipelineStep::Close,
            ]
            &&& (!has_link || valid) && !outdated && kind == Kind::Studio ==> run == head + seq![
                PipelineStep::CheckLauncher,
                PipelineStep::Install,
            ] + shortcuts + seq![PipelineStep::StartStudio, PipelineStep::Close]
            &&& (!has_link || valid) && !outdated && kind == Kind::Player && has_link ==> run == head
                + seq![
                PipelineStep::CheckLauncher,
                PipelineStep::Install,
                PipelineStep::StartPlayer,
                PipelineStep::Close,
            ]
            &&& !has_link && !outdated && kind == Kind::Player ==> run == seq![
                PipelineStep::CheckLauncher,
                PipelineStep::Install,
                PipelineStep::ShowReady,
            ]
        }),
{
    reveal_with_fuel(run_from, 9);
    let run = pipeline_run(kind, has_link, valid, outdated, fresh);
    assert(run =~= run);
}

/// Once the shortcuts of a freshly installed studio are made, the studio is started, whether it
/// was launched from a link or not.
pub proof fn lemma_shortcuts_then_studio(has_link: bool)
    ensures
        next_step(Kind::Studio, has_link, PipelineEvent::ShortcutsCreated) == PipelineStep::StartStudio,
        outcome_of(PipelineStep::StartStudio, true, false, true) == Some(PipelineEvent::Started),
        next_step(Kind::Studio, has_link, PipelineEvent::Started) == PipelineStep::Close,
{
}

/// The link a command line launches with is a link for the kind it launches.
pub proof fn lemma_link_matches_kind(args: Seq<Seq<char>>)
    ensures
        launch_of(args).1 matches Some(u) ==> kind_of_url(u) == Some(launch_of(args).0),
{
}

} // verus!
