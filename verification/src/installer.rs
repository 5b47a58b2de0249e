//! The installer's decisions: when the launcher is out of date and where its replacement and
//! the old copy go, what the URL-scheme registration writes, when the site-wide version resets
//! the player, and when a client must be (re)installed.
use vstd::prelude::*;

use crate::config::{
    concat, dir_path, exe_text, join, join_path, label_text, scheme_text, Kind,
};
use crate::decimal::{decimal, u32_text};
use crate::text::{starts_with, str_equal, str_starts_with, trim, trimmed};

verus! {

/// The environment variable that turns off the launcher's self-update.
pub const NO_SELF_UPDATE_ENV: &'static str = "OCTANE_NO_SELFUPDATE";

/// The name of the player executable before the client was renamed.
pub const LEGACY_PLAYER_EXE: &'static str = "RobloxPlayerBeta.exe";

/// The file name of the studio shortcut.
pub const STUDIO_SHORTCUT: &'static str = "Octane Studio.lnk";

/// The start-menu programs folder under the roaming application-data folder.
pub const START_MENU_PROGRAMS: &'static str = "Microsoft\\Windows\\Start Menu\\Programs";

/// Whether the launcher must be replaced: self-update is on and the published version (the
/// fetched text, trimmed) differs from this launcher's version.
pub fn launcher_outdated(self_update_disabled: bool, published: &str, current: &str) -> (r: bool)
    ensures
        r == (!self_update_disabled && trimmed(published@) != current@),
{
    if self_update_disabled {
        return false;
    }
    let version = trim(published);
    !str_equal(version.as_str(), current)
}

/// Text fetched from the web site, trimmed.
pub fn fetched_text(body: &str) -> (r: String)
    ensures
        r@ == trimmed(body@),
{
    trim(body)
}

/// Where the downloaded launcher is staged before it replaces the installed one.
pub fn staged_launcher_in(root: &str, pid: u32) -> (r: String)
    ensures
        r@ == join_path(root@, "bootstrapper.update-"@ + decimal(pid as nat) + ".exe"@),
{
    let id = u32_text(pid);
    let a = concat("bootstrapper.update-", id.as_str());
    let name = concat(a.as_str(), ".exe");
    join(root, name.as_str())
}

/// The usual place the replaced launcher is moved aside to.
pub fn retired_launcher_in(root: &str) -> (r: String)
    ensures
        r@ == join_path(root@, "bootstrapper.old.exe"@),
{
    join(root, "bootstrapper.old.exe")
}

/// Where the replaced launcher goes: the usual place, or a name carrying this process's id when
/// something is still in the usual place.
pub fn aside_launcher_in(root: &str, pid: u32, retired_exists: bool) -> (r: String)
    ensures
        r@ == if retired_exists {
            join_path(root@, "bootstrapper.old-"@ + decimal(pid as nat) + ".exe"@)
        } else {
            join_path(root@, "bootstrapper.old.exe"@)
        },
{
    if retired_exists {
        let id = u32_text(pid);
        let a = concat("bootstrapper.old-", id.as_str());
        let name = concat(a.as_str(), ".exe");
        join(root, name.as_str())
    } else {
        retired_launcher_in(root)
    }
}

/// Whether a file in the install root is an old launcher left from an update.
pub fn is_retired_launcher(file_name: &str) -> (r: bool)
    ensures
        r == starts_with(file_name@, "bootstrapper.old"@),
{
    str_starts_with(file_name, "bootstrapper.old")
}

/// Whether the first two bytes of a download are the `MZ` of a Windows executable.
pub fn is_executable_magic(magic: &[u8; 2]) -> (r: bool)
    ensures
        r == (magic@ == seq![0x4Du8, 0x5A]),
{
    let r = magic[0] == 0x4D && magic[1] == 0x5A;
    proof {
        if r {
            assert(magic@ =~= seq![0x4Du8, 0x5A]);
        } else if magic@ == seq![0x4Du8, 0x5A] {
            assert(magic@[0] == 0x4D && magic@[1] == 0x5A);
        }
    }
    r
}

/// Whether copying the launcher into place counts as a failure: only when the copy failed and
/// no launcher file is there either.
pub fn install_copy_failed(copied: bool, installed_present: bool) -> (r: bool)
    ensures
        r == (!copied && !installed_present),
{
    !copied && !installed_present
}

/// One value written to the registry.
#[derive(PartialEq, Eq, Debug)]
pub struct RegistryValue {
    /// The key under `HKEY_CURRENT_USER`.
    pub key: String,
    /// The value's name; empty for the key's default value.
    pub name: String,
    /// The text stored.
    pub data: String,
}

/// The key that registers a kind's URL scheme.
pub open spec fn scheme_key(kind: Kind) -> Seq<char> {
    "Software\\Classes\\"@ + scheme_text(kind)
}

/// The registry writes for one kind, in order: the scheme's description, its `URL Protocol`
/// marker, its icon (the launcher's first icon) and its open command (the launcher, given the
/// link).
pub open spec fn scheme_entries(kind: Kind, launcher: Seq<char>) -> Seq<(Seq<char>, Seq<char>, Seq<char>)> {
    let base = scheme_key(kind);
    seq![
        (base, ""@, "URL:"@ + label_text(kind) + " Protocol"@),
        (base, "URL Protocol"@, ""@),
        (base + "\\DefaultIcon"@, ""@, "\""@ + launcher + "\",0"@),
        (base + "\\shell\\open\\command"@, ""@, "\""@ + launcher + "\" \"%1\""@),
    ]
}

/// The registry writes that register both URL schemes for a launcher, player first.
pub open spec fn scheme_registration(launcher: Seq<char>) -> Seq<(Seq<char>, Seq<char>, Seq<char>)> {
    scheme_entries(Kind::Player, launcher) + scheme_entries(Kind::Studio, launcher)
}

/// The view of a registry value.
pub open spec fn registry_view(v: RegistryValue) -> (Seq<char>, Seq<char>, Seq<char>) {
    (v.key@, v.name@, v.data@)
}

/// Appends the registry writes for one kind.
fn push_scheme_entries(out: &mut Vec<RegistryValue>, kind: Kind, launcher: &str)
    ensures
        final(out)@.map_values(|v: RegistryValue| registry_view(v)) == old(out)@.map_values(
            |v: RegistryValue| registry_view(v),
        ) + scheme_entries(kind, launcher@),
{
    let base = concat("Software\\Classes\\", kind.scheme());
    let a = concat("URL:", kind.label());
    let description = concat(a.as_str(), " Protocol");
    let icon_key = concat(base.as_str(), "\\DefaultIcon");
    let b = concat("\"", launcher);
    let icon = concat(b.as_str(), "\",0");
    let command_key = concat(base.as_str(), "\\shell\\open\\command");
    let c = concat("\"", launcher);
    let command = concat(c.as_str(), "\" \"%1\"");
    let ghost before = out@.map_values(|v: RegistryValue| registry_view(v));
    out.push(RegistryValue { key: base.clone(), name: "".to_owned(), data: description });
    out.push(RegistryValue { key: base, name: "URL Protocol".to_owned(), data: "".to_owned() });
    out.push(RegistryValue { key: icon_key, name: "".to_owned(), data: icon });
    out.push(RegistryValue { key: command_key, name: "".to_owned(), data: command });
    assert(out@.map_values(|v: RegistryValue| registry_view(v)) =~= before + scheme_entries(kind, launcher@));
}

/// The registry writes that register the launcher for both URL schemes.
pub fn url_scheme_values(launcher: &str) -> (r: Vec<RegistryValue>)
    ensures
        r@.map_values(|v: RegistryValue| registry_view(v)) == scheme_registration(launcher@),
{
    let mut out: Vec<RegistryValue> = Vec::new();
    assert(out@.map_values(|v: RegistryValue| registry_view(v)) =~= Seq::empty());
    push_scheme_entries(&mut out, Kind::Player, launcher);
    push_scheme_entries(&mut out, Kind::Studio, launcher);
    assert(Seq::<(Seq<char>, Seq<char>, Seq<char>)>::empty() + scheme_entries(Kind::Player, launcher@)
        =~= scheme_entries(Kind::Player, launcher@));
    out
}

/// What the site-wide version asks of the launcher.
#[derive(Clone, Copy, PartialEq, Eq, Debug, Structural)]
pub enum GlobalVersionAction {
    /// The recorded version is the published one: nothing to do.
    UpToDate,
    /// Nothing was recorded yet: record the published version.
    Record,
    /// A different version was recorded: remove the player and its marker, then record.
    ResetAndRecord,
}

/// The site-wide version decision for the published version `live` (already trimmed) and the
/// recorded file's text (empty when it could not be read).
pub open spec fn global_version_decision(live: Seq<char>, known: Seq<char>) -> GlobalVersionAction {
    if trimmed(known) == live {
        GlobalVersionAction::UpToDate
    } else if known.len() > 0 {
        GlobalVersionAction::ResetAndRecord
    } else {
        GlobalVersionAction::Record
    }
}

/// Decides what the site-wide version asks for.
pub fn global_version_action(live: &str, known: &str) -> (r: GlobalVersionAction)
    ensures
        r == global_version_decision(live@, known@),
{
    let t = trim(known);
    if str_equal(t.as_str(), live) {
        return GlobalVersionAction::UpToDate;
    }
    if known.is_empty() {
        GlobalVersionAction::Record
    } else {
        GlobalVersionAction::ResetAndRecord
    }
}

/// The status shown while the player is reset for a new site-wide version.
pub const RESET_STATUS: &'static str = "Updating Octane to a new version...";

/// A client must be (re)installed unless its marker, trimmed, records the published version
/// and its executable is present.
pub open spec fn needs_install(version: Seq<char>, marker: Seq<char>, exe_present: bool) -> bool {
    !(trimmed(marker) == version && exe_present)
}

/// Whether a client must be (re)installed, given the published version (already trimmed), the
/// marker file's text (empty when it could not be read) and whether the executable is there.
pub fn install_needed(version: &str, marker: &str, exe_present: bool) -> (r: bool)
    ensures
        r == needs_install(version@, marker@, exe_present),
{
    let t = trim(marker);
    !(str_equal(t.as_str(), version) && exe_present)
}

impl Kind {
    /// This kind's executable under a given install root.
    pub fn exe_path_in(self, root: &str) -> (r: String)
        ensures
            r@ == join_path(dir_path(self, root@), exe_text(self)),
    {
        let dir = self.dir_in(root);
        join(dir.as_str(), self.exe())
    }

    /// Where this kind's bundle is downloaded to before extraction: the release folder's path
    /// with `.zip.partial` added (`Path::with_extension` on a folder name without a dot).
    pub fn partial_bundle_in(self, root: &str) -> (r: String)
        ensures
            r@ == dir_path(self, root@) + ".zip.partial"@,
    {
        let dir = self.dir_in(root);
        concat(dir.as_str(), ".zip.partial")
    }
}

/// The player executable's old name in the player's folder, removed after an install.
pub fn legacy_player_exe_in(root: &str) -> (r: String)
    ensures
        r@ == join_path(dir_path(Kind::Player, root@), "RobloxPlayerBeta.exe"@),
{
    let dir = Kind::Player.dir_in(root);
    join(dir.as_str(), LEGACY_PLAYER_EXE)
}

/// Where a studio shortcut goes in a folder.
pub fn shortcut_in(folder: &str) -> (r: String)
    ensures
        r@ == join_path(folder@, "Octane Studio.lnk"@),
{
    join(folder, STUDIO_SHORTCUT)
}

/// The start-menu programs folder under the roaming application-data folder.
pub fn start_menu_in(roaming: &str) -> (r: String)
    ensures
        r@ == join_path(roaming@, "Microsoft\\Windows\\Start Menu\\Programs"@),
{
    join(roaming, START_MENU_PROGRAMS)
}

/// Once a published version is recorded, the next check against the same publication finds the
/// launcher up to date.
pub proof fn lemma_recorded_version_current(published: Seq<char>)
    ensures
        global_version_decision(trimmed(published), trimmed(published)) == GlobalVersionAction::UpToDate,
{
    crate::text::lemma_trimmed_idempotent(published);
}

/// Once a client release is installed and its marker records the published version, the next
/// check against the same publication finds nothing to install.
pub proof fn lemma_installed_release_current(published: Seq<char>)
    ensures
        !needs_install(trimmed(published), trimmed(published), true),
{
    crate::text::lemma_trimmed_idempotent(published);
}

} // verus!
