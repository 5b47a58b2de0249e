use octane::fps::{
    checked_item, fps_text, menu_command, on_timer, option, saved_fps_from, state_file,
    state_file_in, tray_opens_menu, MenuCommand, MENU_BASE, MENU_EXIT, OPTION_COUNT, UNLIMITED,
};

const ROOT: &str = "C:\\Users\\ada\\AppData\\Local\\Octane";

#[test]
fn menu_offers_eight_rates() {
    let expected = [
        ("60", 60),
        ("75", 75),
        ("120", 120),
        ("144", 144),
        ("165", 165),
        ("240", 240),
        ("360", 360),
        ("Unlimited", 9999),
    ];
    assert_eq!(OPTION_COUNT, expected.len());
    for (i, want) in expected.iter().enumerate() {
        assert_eq!(option(i), *want);
    }
    assert_eq!(UNLIMITED, 9999);
}

#[test]
fn check_mark_follows_current_rate() {
    assert_eq!(checked_item(60), MENU_BASE);
    assert_eq!(checked_item(144), MENU_BASE + 3);
    assert_eq!(checked_item(9999), MENU_BASE + 7);
    assert_eq!(checked_item(100), MENU_BASE);
    assert_eq!(checked_item(-1), MENU_BASE);
}

#[test]
fn menu_commands_decode() {
    assert_eq!(menu_command(MENU_EXIT), MenuCommand::Exit);
    assert_eq!(menu_command(1000), MenuCommand::Choose(60));
    assert_eq!(menu_command(1005), MenuCommand::Choose(240));
    assert_eq!(menu_command(1007), MenuCommand::Choose(9999));
    assert_eq!(menu_command(1008), MenuCommand::Ignore);
    assert_eq!(menu_command(999), MenuCommand::Ignore);
    assert_eq!(menu_command(0), MenuCommand::Ignore);
    assert_eq!(menu_command(2001), MenuCommand::Ignore);
}

#[test]
fn saved_rate_reads_trimmed_number() {
    assert_eq!(saved_fps_from(Some("240")), 240);
    assert_eq!(saved_fps_from(Some(" 240\n")), 240);
    assert_eq!(saved_fps_from(Some("+75")), 75);
    assert_eq!(saved_fps_from(Some("-5")), -5);
}

#[test]
fn saved_rate_defaults_to_unlimited() {
    assert_eq!(saved_fps_from(None), UNLIMITED);
    assert_eq!(saved_fps_from(Some("")), UNLIMITED);
    assert_eq!(saved_fps_from(Some("abc")), UNLIMITED);
    assert_eq!(saved_fps_from(Some("12 34")), UNLIMITED);
    assert_eq!(saved_fps_from(Some("-")), UNLIMITED);
    assert_eq!(saved_fps_from(Some("9223372036854775808")), UNLIMITED);
    assert_eq!(saved_fps_from(Some("9223372036854775807")), i64::MAX);
    assert_eq!(saved_fps_from(Some("-9223372036854775808")), i64::MIN);
}

#[test]
fn saved_rate_reads_back() {
    for fps in [0, 60, 144, 9999, -1, i64::MAX, i64::MIN] {
        let text = fps_text(fps);
        assert_eq!(text, fps.to_string());
        assert_eq!(saved_fps_from(Some(text.as_str())), fps);
    }
}

#[test]
fn tray_state_file_location() {
    assert_eq!(state_file_in(ROOT), format!("{ROOT}\\state\\fps"));
    assert_eq!(state_file_in("C:\\x\\"), "C:\\x\\state\\fps");
    if let Ok(path) = state_file() {
        assert!(path.ends_with("Octane\\state\\fps"));
    }
}

#[test]
fn tray_closes_when_seen_client_goes() {
    let first = on_timer(false, false);
    assert!(!first.seen_client && !first.close);
    let seen = on_timer(true, first.seen_client);
    assert!(seen.seen_client && !seen.close);
    let still = on_timer(true, seen.seen_client);
    assert!(still.seen_client && !still.close);
    let gone = on_timer(false, still.seen_client);
    assert!(gone.close);
}

#[test]
fn checked_choice_gives_rate_back() {
    for i in 0..OPTION_COUNT {
        let (_, rate) = option(i);
        assert_eq!(menu_command(checked_item(rate)), MenuCommand::Choose(rate));
    }
}

#[test]
fn tray_menu_opens_on_button_up() {
    assert!(tray_opens_menu(0x0205));
    assert!(tray_opens_menu(0x0202));
    assert!(tray_opens_menu(0x7_0205));
    assert!(!tray_opens_menu(0x0200));
    assert!(!tray_opens_menu(0x0201));
    assert!(!tray_opens_menu(0x0204));
    assert!(!tray_opens_menu(0));
}

#[test]
fn tray_closes_only_once_a_seen_client_is_gone() {
    let results = [false, false, true, true, false, false];
    let mut seen = false;
    let mut closes = Vec::new();
    for applied in results {
        let outcome = on_timer(applied, seen);
        seen = outcome.seen_client;
        closes.push(outcome.close);
    }
    assert_eq!(closes, vec![false, false, false, false, true, true]);
}
