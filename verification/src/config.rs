//! Names, addresses and install locations of the launcher and the two clients it manages.
use vstd::prelude::*;

use crate::text::{ascii_lower, chars_eq_ignore_case, chars_of, eq_ignore_case, first_at, split_once, split_once_chars};

verus! {

/// The web site everything is downloaded from.
pub const BASE_URL: &'static str = "https://octane.wtf";

/// The product name.
pub const APP_NAME: &'static str = "Octane";

/// This launcher's version as the web site publishes it: the package's major version.
pub const LAUNCHER_VERSION: &'static str = "0";

/// The command-line flag that selects the studio.
pub const STUDIO_FLAG: &'static str = "--studio";

/// The file name of the installed launcher.
pub const LAUNCHER_EXE: &'static str = "OctanePlayerLauncher.exe";

/// The client release this launcher installs.
pub const CLIENT: &'static str = "2021";

/// Which program a launch is about.
#[derive(Clone, Copy, PartialEq, Eq, Debug, Structural)]
pub enum Kind {
    Player,
    Studio,
}

/// Both kinds, in the order URL schemes are tried and registered.
pub open spec fn kinds() -> Seq<Kind> {
    seq![Kind::Player, Kind::Studio]
}

/// The URL scheme that launches a kind.
pub open spec fn scheme_text(kind: Kind) -> Seq<char> {
    match kind {
        Kind::Player => "octane-player"@,
        Kind::Studio => "octane-studio"@,
    }
}

/// The human-readable name of a kind.
pub open spec fn label_text(kind: Kind) -> Seq<char> {
    match kind {
        Kind::Player => "Octane"@,
        Kind::Studio => "Octane Studio"@,
    }
}

/// The executable of a kind inside its install folder.
pub open spec fn exe_text(kind: Kind) -> Seq<char> {
    match kind {
        Kind::Player => "OctanePlayer.exe"@,
        Kind::Studio => "RobloxStudioBeta.exe"@,
    }
}

/// The folder under the install root that holds a kind's releases.
pub open spec fn folder_text(kind: Kind) -> Seq<char> {
    match kind {
        Kind::Player => "clients"@,
        Kind::Studio => "Studio"@,
    }
}

/// The name of the file that records the installed release of a kind.
pub open spec fn marker_text(kind: Kind) -> Seq<char> {
    match kind {
        Kind::Player => "INSTALLED-2021"@,
        Kind::Studio => "INSTALLED-studio-2021"@,
    }
}

/// The download suffix of a kind's bundle.
pub open spec fn bundle_suffix(kind: Kind) -> Seq<char> {
    match kind {
        Kind::Player => "client"@,
        Kind::Studio => "studio"@,
    }
}

/// The kind a launch link is for: the text before the link's first `:` must equal a kind's
/// scheme, ignoring ASCII case; the player's scheme is tried first.
pub open spec fn kind_of_url(url: Seq<char>) -> Option<Kind> {
    match split_once(url, ':') {
        None => None,
        Some((scheme, _)) => if eq_ignore_case(scheme, scheme_text(Kind::Player)) {
            Some(Kind::Player)
        } else if eq_ignore_case(scheme, scheme_text(Kind::Studio)) {
            Some(Kind::Studio)
        } else {
            None
        },
    }
}

/// A bare drive such as `C:`: an ASCII letter and a colon, nothing more.
pub open spec fn is_bare_drive(base: Seq<char>) -> bool {
    &&& base.len() == 2
    &&& base[1] == ':'
    &&& ('a' <= base[0] <= 'z' || 'A' <= base[0] <= 'Z')
}

/// A Windows path extended by a relative part: the part is appended after a `\`, unless the
/// path is empty, is a bare drive (`C:` joined with `x` is `C:x`) or already ends in a separator
/// (what `Path::join` gives on Windows for a relative part without a drive).
pub open spec fn join_path(base: Seq<char>, part: Seq<char>) -> Seq<char> {
    if base.len() == 0 {
        part
    } else if base.last() == '\\' || base.last() == '/' || is_bare_drive(base) {
        base + part
    } else {
        base + seq!['\\'] + part
    }
}

/// The install root under the user's local application-data folder.
pub open spec fn install_root_path(local: Seq<char>) -> Seq<char> {
    join_path(local, "Octane"@)
}

/// Where a kind's release lives under the install root.
pub open spec fn dir_path(kind: Kind, root: Seq<char>) -> Seq<char> {
    join_path(join_path(root, folder_text(kind)), "2021"@)
}

/// The launcher's state folder under the install root.
pub open spec fn state_dir_path(root: Seq<char>) -> Seq<char> {
    join_path(root, "state"@)
}

/// The file recording a kind's installed release.
pub open spec fn marker_path(kind: Kind, root: Seq<char>) -> Seq<char> {
    join_path(state_dir_path(root), marker_text(kind))
}

/// The installed launcher executable.
pub open spec fn launcher_exe_path(root: Seq<char>) -> Seq<char> {
    join_path(root, "OctanePlayerLauncher.exe"@)
}

/// The file recording the site-wide version last seen.
pub open spec fn global_version_path(root: Seq<char>) -> Seq<char> {
    join_path(state_dir_path(root), "GLOBAL-VERSION"@)
}

/// Where a kind's setup files are published.
pub open spec fn setup_url_text(kind: Kind) -> Seq<char> {
    match kind {
        Kind::Player => "https://octane.wtf"@ + "/setup/2021"@,
        Kind::Studio => "https://octane.wtf"@ + "/setup/studio/2021"@,
    }
}

/// Where a kind's current release number is published.
pub open spec fn version_url_text(kind: Kind) -> Seq<char> {
    setup_url_text(kind) + "/version.txt"@
}

/// Where the bundle of a kind's release `version` is published.
pub open spec fn bundle_url_text(kind: Kind, version: Seq<char>) -> Seq<char> {
    setup_url_text(kind) + "/"@ + version + "-"@ + bundle_suffix(kind) + ".zip"@
}

/// Why the install locations could not be worked out.
#[derive(Clone, Copy, PartialEq, Eq, Debug, Structural)]
pub enum ConfigError {
    /// The user has no local application-data folder.
    NoLocalAppData,
}

/// `a` followed by `b`.
pub fn concat(a: &str, b: &str) -> (r: String)
    ensures
        r@ == a@ + b@,
{
    let s = a.to_owned();
    s.concat(b)
}

/// `path` extended by the relative `part`, Windows style.
pub fn join(path: &str, part: &str) -> (r: String)
    ensures
        r@ == join_path(path@, part@),
{
    let cs = chars_of(path);
    if cs.len() == 0 {
        return part.to_owned();
    }
    let last = cs[cs.len() - 1];
    let bare_drive = cs.len() == 2 && last == ':' && (('a' <= cs[0] && cs[0] <= 'z') || ('A' <= cs[0]
        && cs[0] <= 'Z'));
    if last == '\\' || last == '/' || bare_drive {
        concat(path, part)
    } else {
        let with_sep = concat(path, "\\");
        proof {
            reveal_strlit("\\");
        }
        concat(with_sep.as_str(), part)
    }
}

/// The user's local application-data folder (`directories::BaseDirs::data_local_dir`), as text.
/// It depends on the user and the machine, so nothing is stated of it.
#[verifier::external_body]
fn local_data_dir() -> Option<String> {
    directories::BaseDirs::new().map(|dirs| dirs.data_local_dir().to_string_lossy().into_owned())
}

/// The install root for a given local application-data folder.
pub fn install_root_under(local: &str) -> (r: String)
    ensures
        r@ == install_root_path(local@),
{
    join(local, APP_NAME)
}

/// The install root: the `Octane` folder in the user's local application-data folder.
pub fn install_root() -> (r: Result<String, ConfigError>)
    ensures
        r matches Ok(p) ==> exists|local: Seq<char>| p@ == install_root_path(local),
        r matches Err(e) ==> e == ConfigError::NoLocalAppData,
{
    match local_data_dir() {
        Some(local) => Ok(install_root_under(local.as_str())),
        None => Err(ConfigError::NoLocalAppData),
    }
}

/// The launcher's state folder under a given install root.
pub fn state_dir_in(root: &str) -> (r: String)
    ensures
        r@ == state_dir_path(root@),
{
    join(root, "state")
}

/// The launcher's state folder.
pub fn state_dir() -> (r: Result<String, ConfigError>)
    ensures
        r matches Ok(p) ==> exists|local: Seq<char>| p@ == state_dir_path(install_root_path(local)),
        r matches Err(e) ==> e == ConfigError::NoLocalAppData,
{
    let root = install_root()?;
    Ok(state_dir_in(root.as_str()))
}

/// The installed launcher executable under a given install root.
pub fn launcher_exe_in(root: &str) -> (r: String)
    ensures
        r@ == launcher_exe_path(root@),
{
    join(root, LAUNCHER_EXE)
}

/// The installed launcher executable.
pub fn launcher_exe() -> (r: Result<String, ConfigError>)
    ensures
        r matches Ok(p) ==> exists|local: Seq<char>| p@ == launcher_exe_path(install_root_path(local)),
        r matches Err(e) ==> e == ConfigError::NoLocalAppData,
{
    let root = install_root()?;
    Ok(launcher_exe_in(root.as_str()))
}

/// The file recording the site-wide version, under a given install root.
pub fn global_version_file_in(root: &str) -> (r: String)
    ensures
        r@ == global_version_path(root@),
{
    let state = state_dir_in(root);
    join(state.as_str(), "GLOBAL-VERSION")
}

/// The file recording the site-wide version last seen.
pub fn global_version_file() -> (r: Result<String, ConfigError>)
    ensures
        r matches Ok(p) ==> exists|local: Seq<char>| p@ == global_version_path(install_root_path(local)),
        r matches Err(e) ==> e == ConfigError::NoLocalAppData,
{
    let root = install_root()?;
    Ok(global_version_file_in(root.as_str()))
}

/// Where the launcher executable is published.
pub fn launcher_url() -> (r: String)
    ensures
        r@ == "https://octane.wtf"@ + "/setup/launcher.exe"@,
{
    concat(BASE_URL, "/setup/launcher.exe")
}

/// Where the launcher's current version is published.
pub fn launcher_version_url() -> (r: String)
    ensures
        r@ == "https://octane.wtf"@ + "/setup/launcher/version.txt"@,
{
    concat(BASE_URL, "/setup/launcher/version.txt")
}

/// Where the site-wide version is published.
pub fn global_version_url() -> (r: String)
    ensures
        r@ == "https://octane.wtf"@ + "/version"@,
{
    concat(BASE_URL, "/version")
}

impl Kind {
    /// The kind a launch link is for, if any: the text before the first `:` must name a kind's
    /// scheme, ignoring ASCII case.
    pub fn from_url(url: &str) -> (r: Option<Kind>)
        ensures
            r == kind_of_url(url@),
    {
        let cs = chars_of(url);
        match split_once_chars(cs.as_slice(), ':') {
            None => None,
            Some((scheme, _)) => {
                let player = chars_of(Kind::Player.scheme());
                if chars_eq_ignore_case(scheme.as_slice(), player.as_slice()) {
                    return Some(Kind::Player);
                }
                let studio = chars_of(Kind::Studio.scheme());
                if chars_eq_ignore_case(scheme.as_slice(), studio.as_slice()) {
                    return Some(Kind::Studio);
                }
                None
            },
        }
    }

    /// The URL scheme of this kind.
    pub fn scheme(self) -> (r: &'static str)
        ensures
            r@ == scheme_text(self),
    {
        match self {
            Kind::Player => "octane-player",
            Kind::Studio => "octane-studio",
        }
    }

    /// The human-readable name of this kind.
    pub fn label(self) -> (r: &'static str)
        ensures
            r@ == label_text(self),
    {
        match self {
            Kind::Player => "Octane",
            Kind::Studio => "Octane Studio",
        }
    }

    /// The executable of this kind.
    pub fn exe(self) -> (r: &'static str)
        ensures
            r@ == exe_text(self),
    {
        match self {
            Kind::Player => "OctanePlayer.exe",
            Kind::Studio => "RobloxStudioBeta.exe",
        }
    }

    /// Where this kind's release lives under a given install root.
    pub fn dir_in(self, root: &str) -> (r: String)
        ensures
            r@ == dir_path(self, root@),
    {
        let folder = match self {
            Kind::Player => "clients",
            Kind::Studio => "Studio",
        };
        let base = join(root, folder);
        join(base.as_str(), CLIENT)
    }

    /// Where this kind's release lives.
    pub fn dir(self) -> (r: Result<String, ConfigError>)
        ensures
            r matches Ok(p) ==> exists|local: Seq<char>| p@ == dir_path(self, install_root_path(local)),
            r matches Err(e) ==> e == ConfigError::NoLocalAppData,
    {
        let root = install_root()?;
        Ok(self.dir_in(root.as_str()))
    }

    /// The file recording this kind's installed release, under a given install root.
    pub fn marker_file_in(self, root: &str) -> (r: String)
        ensures
            r@ == marker_path(self, root@),
    {
        let name = match self {
            Kind::Player => "INSTALLED-2021",
            Kind::Studio => "INSTALLED-studio-2021",
        };
        let state = state_dir_in(root);
        join(state.as_str(), name)
    }

    /// The file recording this kind's installed release.
    pub fn marker_file(self) -> (r: Result<String, ConfigError>)
        ensures
            r matches Ok(p) ==> exists|local: Seq<char>| p@ == marker_path(self, install_root_path(local)),
            r matches Err(e) ==> e == ConfigError::NoLocalAppData,
    {
        let root = install_root()?;
        Ok(self.marker_file_in(root.as_str()))
    }

    /// Where this kind's setup files are published.
    fn setup_url(self) -> (r: String)
        ensures
            r@ == setup_url_text(self),
    {
        match self {
            Kind::Player => concat(BASE_URL, "/setup/2021"),
            Kind::Studio => concat(BASE_URL, "/setup/studio/2021"),
        }
    }

    /// Where this kind's current release number is published.
    pub fn version_url(self) -> (r: String)
        ensures
            r@ == version_url_text(self),
    {
        let base = self.setup_url();
        concat(base.as_str(), "/version.txt")
    }

    /// Where the bundle of this kind's release `version` is published.
    pub fn bundle_url(self, version: &str) -> (r: String)
        ensures
            r@ == bundle_url_text(self, version@),
    {
        let suffix = match self {
            Kind::Player => "client",
            Kind::Studio => "studio",
        };
        let base = self.setup_url();
        let a = concat(base.as_str(), "/");
        let b = concat(a.as_str(), version);
        let c = concat(b.as_str(), "-");
        let d = concat(c.as_str(), suffix);
        concat(d.as_str(), ".zip")
    }
}

/// A link made of a kind's scheme, a `:` and anything else is a link for that kind.
pub proof fn lemma_scheme_link_kind(kind: Kind, rest: Seq<char>)
    ensures
        kind_of_url(scheme_text(kind) + seq![':'] + rest) == Some(kind),
{
    reveal_strlit("octane-player");
    reveal_strlit("octane-studio");
    let scheme = scheme_text(kind);
    let url = scheme + seq![':'] + rest;
    assert(scheme.len() == 13);
    assert forall|j: int| 0 <= j < 13 implies url[j] != ':' by {
        assert(url[j] == scheme[j]);
    }
    assert(first_at(url, ':', 13));
    crate::text::lemma_split_once_at(url, ':', 13);
    assert(url.take(13) =~= scheme);
    if kind == Kind::Studio {
        assert(ascii_lower(scheme[7]) != ascii_lower(scheme_text(Kind::Player)[7]));
    }
}

} // verus!
