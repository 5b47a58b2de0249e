use octane::config::{Kind, LAUNCHER_VERSION};
use octane::installer::{
    aside_launcher_in, fetched_text, global_version_action, install_copy_failed, install_needed,
    is_executable_magic, is_retired_launcher, launcher_outdated, legacy_player_exe_in,
    retired_launcher_in, shortcut_in, staged_launcher_in, start_menu_in, url_scheme_values,
    GlobalVersionAction, RegistryValue,
};

const ROOT: &str = "C:\\Users\\ada\\AppData\\Local\\Octane";

#[test]
fn launcher_update_follows_published_version() {
    assert!(!launcher_outdated(false, "1.2.0\n", "1.2.0"));
    assert!(launcher_outdated(false, "1.3.0", "1.2.0"));
    assert!(!launcher_outdated(true, "1.3.0", "1.2.0"));
    assert!(launcher_outdated(false, "", "1.2.0"));
    assert_eq!(fetched_text("  v7 \r\n"), "v7");
}

#[test]
fn launcher_replacement_names() {
    assert_eq!(
        staged_launcher_in(ROOT, 4242),
        format!("{ROOT}\\bootstrapper.update-4242.exe")
    );
    assert_eq!(retired_launcher_in(ROOT), format!("{ROOT}\\bootstrapper.old.exe"));
    assert_eq!(aside_launcher_in(ROOT, 17, false), format!("{ROOT}\\bootstrapper.old.exe"));
    assert_eq!(aside_launcher_in(ROOT, 17, true), format!("{ROOT}\\bootstrapper.old-17.exe"));
    assert_eq!(aside_launcher_in(ROOT, 0, true), format!("{ROOT}\\bootstrapper.old-0.exe"));
}

#[test]
fn retired_launchers_are_recognised() {
    assert!(is_retired_launcher("bootstrapper.old.exe"));
    assert!(is_retired_launcher("bootstrapper.old-17.exe"));
    assert!(!is_retired_launcher("bootstrapper.update-1.exe"));
    assert!(!is_retired_launcher("OctanePlayerLauncher.exe"));
    assert!(!is_retired_launcher("Bootstrapper.old.exe"));
}

#[test]
fn executable_magic() {
    assert!(is_executable_magic(b"MZ"));
    assert!(!is_executable_magic(b"PK"));
    assert!(!is_executable_magic(b"ZM"));
}

#[test]
fn copy_failure_needs_missing_file() {
    assert!(!install_copy_failed(true, false));
    assert!(!install_copy_failed(false, true));
    assert!(install_copy_failed(false, false));
    assert!(!install_copy_failed(true, true));
}

fn entry(key: &str, name: &str, data: &str) -> RegistryValue {
    RegistryValue { key: key.to_owned(), name: name.to_owned(), data: data.to_owned() }
}

#[test]
fn url_scheme_registration_writes() {
    let exe = "C:\\L\\OctanePlayerLauncher.exe";
    let values = url_scheme_values(exe);
    let expected = vec![
        entry("Software\\Classes\\octane-player", "", "URL:Octane Protocol"),
        entry("Software\\Classes\\octane-player", "URL Protocol", ""),
        entry(
            "Software\\Classes\\octane-player\\DefaultIcon",
            "",
            "\"C:\\L\\OctanePlayerLauncher.exe\",0",
        ),
        entry(
            "Software\\Classes\\octane-player\\shell\\open\\command",
            "",
            "\"C:\\L\\OctanePlayerLauncher.exe\" \"%1\"",
        ),
        entry("Software\\Classes\\octane-studio", "", "URL:Octane Studio Protocol"),
        entry("Software\\Classes\\octane-studio", "URL Protocol", ""),
        entry(
            "Software\\Classes\\octane-studio\\DefaultIcon",
            "",
            "\"C:\\L\\OctanePlayerLauncher.exe\",0",
        ),
        entry(
            "Software\\Classes\\octane-studio\\shell\\open\\command",
            "",
            "\"C:\\L\\OctanePlayerLauncher.exe\" \"%1\"",
        ),
    ];
    assert_eq!(values, expected);
}

#[test]
fn global_version_decisions() {
    assert_eq!(global_version_action("v5", "v5"), GlobalVersionAction::UpToDate);
    assert_eq!(global_version_action("v5", " v5\n"), GlobalVersionAction::UpToDate);
    assert_eq!(global_version_action("v5", ""), GlobalVersionAction::Record);
    assert_eq!(global_version_action("v5", "v4"), GlobalVersionAction::ResetAndRecord);
    assert_eq!(global_version_action("v5", "  "), GlobalVersionAction::ResetAndRecord);
    assert_eq!(global_version_action("", ""), GlobalVersionAction::UpToDate);
    assert_eq!(global_version_action("", "  "), GlobalVersionAction::UpToDate);
}

#[test]
fn recorded_version_is_current_next_time() {
    let live = fetched_text(" v9\n");
    assert_eq!(global_version_action(&live, &live), GlobalVersionAction::UpToDate);
}

#[test]
fn install_needed_decisions() {
    assert!(!install_needed("abc", "abc", true));
    assert!(!install_needed("abc", "abc\r\n", true));
    assert!(install_needed("abc", "abc", false));
    assert!(install_needed("abc", "abd", true));
    assert!(install_needed("abc", "", true));
}

#[test]
fn installed_release_is_current_next_time() {
    let version = fetched_text("release-1 \n");
    assert!(!install_needed(&version, &version, true));
}

#[test]
fn client_file_locations() {
    assert_eq!(
        Kind::Player.exe_path_in(ROOT),
        format!("{ROOT}\\clients\\2021\\OctanePlayer.exe")
    );
    assert_eq!(
        Kind::Studio.exe_path_in(ROOT),
        format!("{ROOT}\\Studio\\2021\\RobloxStudioBeta.exe")
    );
    assert_eq!(Kind::Player.partial_bundle_in(ROOT), format!("{ROOT}\\clients\\2021.zip.partial"));
    assert_eq!(Kind::Studio.partial_bundle_in(ROOT), format!("{ROOT}\\Studio\\2021.zip.partial"));
    assert_eq!(
        legacy_player_exe_in(ROOT),
        format!("{ROOT}\\clients\\2021\\RobloxPlayerBeta.exe")
    );
}

#[test]
fn shortcut_locations() {
    assert_eq!(shortcut_in("C:\\Users\\ada\\Desktop"), "C:\\Users\\ada\\Desktop\\Octane Studio.lnk");
    assert_eq!(
        start_menu_in("C:\\Users\\ada\\AppData\\Roaming"),
        "C:\\Users\\ada\\AppData\\Roaming\\Microsoft\\Windows\\Start Menu\\Programs"
    );
}

#[test]
fn same_major_version_is_current() {
    assert!(!launcher_outdated(false, &format!("{LAUNCHER_VERSION}\n"), LAUNCHER_VERSION));
    assert!(launcher_outdated(false, "1", LAUNCHER_VERSION));
}
