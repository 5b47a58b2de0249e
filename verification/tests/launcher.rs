use octane::config::Kind;
use octane::launcher::{
    image_under_root, install_root_lowercase, is_player_exe, launch_args, pipeline_next,
    starting_status, upgrading_status, Launch, LaunchError, PipelineEvent, PipelineStep,
};

fn strings(items: &[&str]) -> Vec<String> {
    items.iter().map(|s| s.to_string()).collect()
}

#[test]
fn parse_takes_the_first_link() {
    let args = strings(&["--studio", "octane-studio:1+gameinfo:a", "octane-player:1+gameinfo:b"]);
    let launch = Launch::parse(args.clone());
    assert_eq!(launch.kind, Kind::Studio);
    assert_eq!(launch.url.as_deref(), Some("octane-studio:1+gameinfo:a"));
    assert_eq!(launch.args(), &args);
}

#[test]
fn parse_link_overrides_studio_flag() {
    let launch = Launch::parse(strings(&["--studio", "OCTANE-PLAYER:1+gameinfo:b"]));
    assert_eq!(launch.kind, Kind::Player);
    assert_eq!(launch.url.as_deref(), Some("OCTANE-PLAYER:1+gameinfo:b"));
}

#[test]
fn parse_studio_flag_without_link() {
    let launch = Launch::parse(strings(&["x", "--studio"]));
    assert_eq!(launch.kind, Kind::Studio);
    assert_eq!(launch.url, None);
}

#[test]
fn parse_defaults_to_player() {
    let launch = Launch::parse(Vec::new());
    assert_eq!(launch.kind, Kind::Player);
    assert_eq!(launch.url, None);
    let launch = Launch::parse(strings(&["--Studio", "octane"]));
    assert_eq!(launch.kind, Kind::Player);
    assert_eq!(launch.url, None);
}

#[test]
fn player_launch_args() {
    let url = "octane-player:1+launchmode:play+gameinfo:TICKET+placelauncherurl:https%3A%2F%2Foctane.wtf%2Fgame%3Fid%3D5";
    let args = launch_args(Kind::Player, url).unwrap();
    assert_eq!(
        args,
        strings(&[
            "-a",
            "https://octane.wtf/Login/Negotiate.ashx",
            "-t",
            "TICKET",
            "-j",
            "https://octane.wtf/game?id=5",
        ])
    );
}

#[test]
fn studio_launch_args() {
    let url = "octane-studio:1+gameinfo:T+task:EditPlace+placeId:12+universeId:34";
    let args = launch_args(Kind::Studio, url).unwrap();
    assert_eq!(
        args,
        strings(&[
            "-url",
            "https://octane.wtf/Login/Negotiate.ashx",
            "-ticket",
            "T",
            "-task",
            "EditPlace",
            "-placeId",
            "12",
            "-universeId",
            "34",
        ])
    );
}

#[test]
fn last_parameter_wins_and_keys_are_exact() {
    let url = "octane-player:1+gameinfo:first+GameInfo:x+gameinfo:second+placelauncherurl:p";
    let args = launch_args(Kind::Player, url).unwrap();
    assert_eq!(args[3], "second");
    let url = "octane-player:1+gameinfo:a:b+placelauncherurl:";
    let args = launch_args(Kind::Player, url).unwrap();
    assert_eq!(args[3], "a:b");
    assert_eq!(args[5], "");
}

#[test]
fn missing_parameters_are_reported_in_order() {
    assert_eq!(
        launch_args(Kind::Player, "octane-player:1"),
        Err(LaunchError::MissingParam("gameinfo".to_string()))
    );
    assert_eq!(
        launch_args(Kind::Player, "octane-player:1+gameinfo:a+placelauncherurl"),
        Err(LaunchError::MissingParam("placelauncherurl".to_string()))
    );
    assert_eq!(
        launch_args(Kind::Studio, "gameinfo:a+placeId:1+universeId:2"),
        Err(LaunchError::MissingParam("task".to_string()))
    );
    assert_eq!(
        launch_args(Kind::Studio, "gameinfo:a+task:t+universeId:2"),
        Err(LaunchError::MissingParam("placeId".to_string()))
    );
    assert_eq!(
        launch_args(Kind::Studio, "gameinfo:a+task:t+placeId:2"),
        Err(LaunchError::MissingParam("universeId".to_string()))
    );
    assert_eq!(launch_args(Kind::Studio, ""), Err(LaunchError::MissingParam("gameinfo".to_string())));
}

#[test]
fn percent_decoding_of_values() {
    let url = "gameinfo:%41%2b%zz%4+placelauncherurl:caf%C3%A9%FF";
    let args = launch_args(Kind::Player, url).unwrap();
    assert_eq!(args[3], "A+%zz%4");
    assert_eq!(args[5], "caf\u{e9}\u{fffd}");
}

#[test]
fn root_lowercase_and_images() {
    if let Ok(root) = install_root_lowercase() {
        assert_eq!(root, root.to_ascii_lowercase());
        assert!(root.ends_with("octane"));
    }
    let root = "c:\\users\\ada\\appdata\\local\\octane";
    assert!(image_under_root("C:\\Users\\Ada\\AppData\\Local\\Octane\\clients\\2021\\OctanePlayer.exe", root));
    assert!(!image_under_root("C:\\Program Files\\Roblox\\RobloxPlayerBeta.exe", root));
    assert!(!image_under_root("C:\\Users", root));
    assert!(image_under_root("anything", ""));
}

#[test]
fn player_process_names() {
    assert!(is_player_exe("OctanePlayer.exe"));
    assert!(is_player_exe("octaneplayer.EXE"));
    assert!(!is_player_exe("RobloxPlayerBeta.exe"));
    assert!(!is_player_exe("OctanePlayer.exe "));
}

#[test]
fn status_texts() {
    assert_eq!(upgrading_status(Kind::Player), "Upgrading Octane...");
    assert_eq!(upgrading_status(Kind::Studio), "Upgrading Octane Studio...");
    assert_eq!(starting_status(Kind::Player), "Starting Octane...");
    assert_eq!(starting_status(Kind::Studio), "Starting Octane Studio...");
}

#[test]
fn pipeline_order() {
    for kind in [Kind::Player, Kind::Studio] {
        for link in [false, true] {
            let first = if link { PipelineStep::ReadLink } else { PipelineStep::CheckLauncher };
            assert_eq!(pipeline_next(kind, link, PipelineEvent::Begun), first);
            assert_eq!(pipeline_next(kind, link, PipelineEvent::LinkRead { valid: true }), PipelineStep::CheckLauncher);
            assert_eq!(pipeline_next(kind, link, PipelineEvent::LinkRead { valid: false }), PipelineStep::Fail);
            assert_eq!(pipeline_next(kind, link, PipelineEvent::LauncherChecked { outdated: true }), PipelineStep::UpdateLauncher);
            assert_eq!(pipeline_next(kind, link, PipelineEvent::LauncherChecked { outdated: false }), PipelineStep::Install);
            assert_eq!(pipeline_next(kind, link, PipelineEvent::LauncherUpdated), PipelineStep::Close);
            assert_eq!(pipeline_next(kind, link, PipelineEvent::Started), PipelineStep::Close);
        }
    }
    assert_eq!(pipeline_next(Kind::Player, false, PipelineEvent::Installed { fresh: true }), PipelineStep::ShowReady);
    assert_eq!(pipeline_next(Kind::Player, true, PipelineEvent::Installed { fresh: true }), PipelineStep::StartPlayer);
    assert_eq!(pipeline_next(Kind::Player, true, PipelineEvent::Installed { fresh: false }), PipelineStep::StartPlayer);
    assert_eq!(pipeline_next(Kind::Studio, false, PipelineEvent::Installed { fresh: true }), PipelineStep::CreateShortcuts);
    assert_eq!(pipeline_next(Kind::Studio, true, PipelineEvent::Installed { fresh: false }), PipelineStep::StartStudio);
    assert_eq!(pipeline_next(Kind::Studio, false, PipelineEvent::ShortcutsCreated), PipelineStep::StartStudio);
    assert_eq!(pipeline_next(Kind::Player, false, PipelineEvent::ShortcutsCreated), PipelineStep::ShowReady);
}

#[test]
fn launch_link_kind_matches_parse() {
    for args in [
        strings(&["a", "octane-studio:x"]),
        strings(&["OCTANE-PLAYER:", "octane-studio:x"]),
        strings(&["--studio"]),
    ] {
        let launch = Launch::parse(args);
        if let Some(url) = &launch.url {
            assert_eq!(Kind::from_url(url), Some(launch.kind));
        }
    }
}

#[test]
fn launch_getters() {
    let launch = Launch::parse(vec!["x".to_string(), "octane-studio:1+task:EditPlace".to_string()]);
    assert_eq!(launch.kind(), octane::config::Kind::Studio);
    assert_eq!(launch.url(), Some("octane-studio:1+task:EditPlace"));
    let plain = Launch::parse(vec!["--studio".to_string()]);
    assert_eq!(plain.kind(), octane::config::Kind::Studio);
    assert_eq!(plain.url(), None);
}
