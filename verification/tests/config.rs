use octane::config::{
    global_version_file_in, global_version_url, install_root, install_root_under, join,
    launcher_exe_in, launcher_url, launcher_version_url, state_dir_in, ConfigError, Kind,
};

const ROOT: &str = "C:\\Users\\ada\\AppData\\Local\\Octane";

#[test]
fn kind_names() {
    assert_eq!(Kind::Player.scheme(), "octane-player");
    assert_eq!(Kind::Studio.scheme(), "octane-studio");
    assert_eq!(Kind::Player.label(), "Octane");
    assert_eq!(Kind::Studio.label(), "Octane Studio");
    assert_eq!(Kind::Player.exe(), "OctanePlayer.exe");
    assert_eq!(Kind::Studio.exe(), "RobloxStudioBeta.exe");
}

#[test]
fn from_url_reads_the_scheme() {
    assert_eq!(Kind::from_url("octane-player:1+gameinfo:abc"), Some(Kind::Player));
    assert_eq!(Kind::from_url("octane-studio:1+task:EditPlace"), Some(Kind::Studio));
    assert_eq!(Kind::from_url("OCTANE-Studio:"), Some(Kind::Studio));
    assert_eq!(Kind::from_url("Octane-Player:x:y"), Some(Kind::Player));
}

#[test]
fn from_url_rejects_other_text() {
    assert_eq!(Kind::from_url("octane-player"), None);
    assert_eq!(Kind::from_url("https://octane.wtf"), None);
    assert_eq!(Kind::from_url(""), None);
    assert_eq!(Kind::from_url(":octane-player"), None);
    assert_eq!(Kind::from_url("octane-players:1"), None);
    assert_eq!(Kind::from_url("--studio"), None);
}

#[test]
fn join_adds_one_separator() {
    assert_eq!(join("C:\\a", "b"), "C:\\a\\b");
    assert_eq!(join("C:\\a\\", "b"), "C:\\a\\b");
    assert_eq!(join("C:/a/", "b"), "C:/a/b");
    assert_eq!(join("", "b"), "b");
    assert_eq!(join("C:", "Octane"), "C:Octane");
    assert_eq!(join("c:", "b"), "c:b");
    assert_eq!(join("1:", "b"), "1:\\b");
    assert_eq!(join("C:x", "b"), "C:x\\b");
    assert_eq!(install_root_under("D:"), "D:Octane");
}

#[test]
fn install_locations() {
    assert_eq!(install_root_under("C:\\Users\\ada\\AppData\\Local"), ROOT);
    assert_eq!(Kind::Player.dir_in(ROOT), format!("{ROOT}\\clients\\2021"));
    assert_eq!(Kind::Studio.dir_in(ROOT), format!("{ROOT}\\Studio\\2021"));
    assert_eq!(state_dir_in(ROOT), format!("{ROOT}\\state"));
    assert_eq!(Kind::Player.marker_file_in(ROOT), format!("{ROOT}\\state\\INSTALLED-2021"));
    assert_eq!(Kind::Studio.marker_file_in(ROOT), format!("{ROOT}\\state\\INSTALLED-studio-2021"));
    assert_eq!(global_version_file_in(ROOT), format!("{ROOT}\\state\\GLOBAL-VERSION"));
    assert_eq!(launcher_exe_in(ROOT), format!("{ROOT}\\OctanePlayerLauncher.exe"));
}

#[test]
fn install_root_ends_in_app_folder() {
    match install_root() {
        Ok(root) => assert!(root.ends_with("Octane")),
        Err(e) => assert_eq!(e, ConfigError::NoLocalAppData),
    }
}

#[test]
fn download_addresses() {
    assert_eq!(Kind::Player.version_url(), "https://octane.wtf/setup/2021/version.txt");
    assert_eq!(Kind::Studio.version_url(), "https://octane.wtf/setup/studio/2021/version.txt");
    assert_eq!(Kind::Player.bundle_url("v42"), "https://octane.wtf/setup/2021/v42-client.zip");
    assert_eq!(Kind::Studio.bundle_url("7"), "https://octane.wtf/setup/studio/2021/7-studio.zip");
    assert_eq!(launcher_url(), "https://octane.wtf/setup/launcher.exe");
    assert_eq!(launcher_version_url(), "https://octane.wtf/setup/launcher/version.txt");
    assert_eq!(global_version_url(), "https://octane.wtf/version");
}

#[test]
fn scheme_link_names_its_kind() {
    for kind in [Kind::Player, Kind::Studio] {
        for rest in ["", "1+gameinfo:x", "::", "+"] {
            let link = format!("{}:{}", kind.scheme(), rest);
            assert_eq!(Kind::from_url(&link), Some(kind));
        }
    }
}
