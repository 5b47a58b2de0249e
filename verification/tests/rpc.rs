use octane::config::Kind;
use octane::rpc::{is_client_title, mode, studio_title, watch_target, watcher_args, Mode};

fn strings(items: &[&str]) -> Vec<String> {
    items.iter().map(|s| s.to_string()).collect()
}

#[test]
fn watcher_command_lines() {
    let args = strings(&["--app", "-t", "x y"]);
    assert_eq!(
        watcher_args(Kind::Player, "C:\\c\\OctanePlayer.exe", &args),
        strings(&["--rpc-play", "C:\\c\\OctanePlayer.exe", "--app", "-t", "x y"])
    );
    assert_eq!(
        watcher_args(Kind::Studio, "S.exe", &Vec::new()),
        strings(&["--rpc-studio", "S.exe"])
    );
}

#[test]
fn modes_from_command_line() {
    assert_eq!(mode(&strings(&["--rpc-play", "a.exe", "b"])), Mode::WatchPlayer(strings(&["a.exe", "b"])));
    assert_eq!(mode(&strings(&["--rpc-studio"])), Mode::WatchStudio(Vec::new()));
    assert_eq!(mode(&strings(&["--fps", "ignored"])), Mode::FpsTray);
    assert_eq!(mode(&strings(&[])), Mode::Launcher);
    assert_eq!(mode(&strings(&["octane-player:1+x"])), Mode::Launcher);
    assert_eq!(mode(&strings(&["x", "--fps"])), Mode::Launcher);
    assert_eq!(mode(&strings(&["--RPC-PLAY"])), Mode::Launcher);
}

#[test]
fn watcher_is_sorted_back_to_its_kind() {
    let args = strings(&["--a", "b"]);
    let line = watcher_args(Kind::Player, "p.exe", &args);
    assert_eq!(mode(&line), Mode::WatchPlayer(strings(&["p.exe", "--a", "b"])));
    let line = watcher_args(Kind::Studio, "s.exe", &args);
    assert_eq!(mode(&line), Mode::WatchStudio(strings(&["s.exe", "--a", "b"])));
}

#[test]
fn watch_target_splits_executable() {
    assert_eq!(
        watch_target(&strings(&["p.exe", "-a", "b"])),
        Some(("p.exe".to_string(), strings(&["-a", "b"])))
    );
    assert_eq!(watch_target(&strings(&["p.exe"])), Some(("p.exe".to_string(), Vec::new())));
    assert_eq!(watch_target(&Vec::new()), None);
}

#[test]
fn client_title() {
    assert!(is_client_title("Roblox"));
    assert!(!is_client_title("roblox"));
    assert!(!is_client_title("Roblox Studio"));
    assert!(!is_client_title(""));
}

#[test]
fn studio_titles_are_renamed() {
    assert_eq!(studio_title("Roblox Studio"), Some("Octane Studio".to_string()));
    assert_eq!(
        studio_title("Place1 - Roblox Studio"),
        Some("Place1 - Octane Studio".to_string())
    );
    assert_eq!(
        studio_title("Roblox Studio | Roblox Studio"),
        Some("Octane Studio | Octane Studio".to_string())
    );
    assert_eq!(studio_title("Octane Studio"), None);
    assert_eq!(studio_title("Roblox"), None);
    assert_eq!(studio_title(""), None);
}

#[test]
fn renamed_title_is_stable() {
    let once = studio_title("a Roblox Studio b").unwrap();
    assert_eq!(studio_title(&once), None);
}
