//! The frame-rate tray: the choices it offers, how a menu command maps to a choice, how the
//! chosen rate is saved and read back, and when the tray closes itself.
use vstd::prelude::*;

use crate::config::join;
use crate::config::join_path;
use crate::decimal::{i64_text, parse_i64, signed_decimal, lemma_parse_signed_decimal, lemma_decimal};
use crate::text::{trim, trimmed, lemma_trimmed_clean};

verus! {

/// The command-line flag that runs the tray instead of the launcher.
pub const FPS_FLAG: &'static str = "--fps";

/// The rate that stands for "unlimited".
pub const UNLIMITED: i64 = 9999;

/// The first menu command id; choice `i` has id `MENU_BASE + i`.
pub const MENU_BASE: u32 = 1000;

/// The menu command id of "Exit".
pub const MENU_EXIT: u32 = 2000;

/// How many rates the menu offers.
pub const OPTION_COUNT: usize = 8;

/// The rate of menu choice `i`.
pub open spec fn option_value(i: int) -> i64 {
    if i == 0 {
        60
    } else if i == 1 {
        75
    } else if i == 2 {
        120
    } else if i == 3 {
        144
    } else if i == 4 {
        165
    } else if i == 5 {
        240
    } else if i == 6 {
        360
    } else {
        9999
    }
}

/// The label of menu choice `i`.
pub open spec fn option_label(i: int) -> Seq<char> {
    if i == 0 {
        "60"@
    } else if i == 1 {
        "75"@
    } else if i == 2 {
        "120"@
    } else if i == 3 {
        "144"@
    } else if i == 4 {
        "165"@
    } else if i == 5 {
        "240"@
    } else if i == 6 {
        "360"@
    } else {
        "Unlimited"@
    }
}

/// Menu choice `index`: its label and its rate.
pub fn option(index: usize) -> (r: (&'static str, i64))
    requires
        index < OPTION_COUNT,
    ensures
        r.0@ == option_label(index as int),
        r.1 == option_value(index as int),
{
    if index == 0 {
        ("60", 60)
    } else if index == 1 {
        ("75", 75)
    } else if index == 2 {
        ("120", 120)
    } else if index == 3 {
        ("144", 144)
    } else if index == 4 {
        ("165", 165)
    } else if index == 5 {
        ("240", 240)
    } else if index == 6 {
        ("360", 360)
    } else {
        ("Unlimited", UNLIMITED)
    }
}

/// The menu item that carries the check mark for the current rate: the choice with that rate, or
/// the first choice when no choice has it.
pub open spec fn checked_item_for(current: i64) -> u32 {
    if exists|i: int| 0 <= i < 8 && option_value(i) == current {
        let i = choose|i: int| 0 <= i < 8 && option_value(i) == current;
        (1000 + i) as u32
    } else {
        1000
    }
}

/// The rates of the choices differ from each other.
pub proof fn lemma_options_distinct(i: int, j: int)
    requires
        0 <= i < 8,
        0 <= j < 8,
        option_value(i) == option_value(j),
    ensures
        i == j,
{
}

/// The id of the menu item to check for the current rate.
pub fn checked_item(current: i64) -> (r: u32)
    ensures
        r == checked_item_for(current),
{
    let mut checked: u32 = MENU_BASE;
    let mut index: usize = 0;
    while index < OPTION_COUNT
        invariant
            index <= 8,
            (exists|i: int| 0 <= i < index && option_value(i) == current) ==> checked == checked_item_for(current),
            !(exists|i: int| 0 <= i < index && option_value(i) == current) ==> checked == 1000,
        decreases 8 - index,
    {
        let (_, value) = option(index);
        if value == current {
            proof {
                let k = choose|k: int| 0 <= k < 8 && option_value(k) == current;
                lemma_options_distinct(k, index as int);
            }
            checked = MENU_BASE + index as u32;
        }
        index += 1;
    }
    checked
}

/// What a menu command asks for.
#[derive(Clone, Copy, PartialEq, Eq, Debug, Structural)]
pub enum MenuCommand {
    /// Close the tray.
    Exit,
    /// Save and apply this rate.
    Choose(i64),
    /// Not a command of this menu.
    Ignore,
}

/// The meaning of menu command `id`.
pub open spec fn command_of(id: u32) -> MenuCommand {
    if id == 2000 {
        MenuCommand::Exit
    } else if 1000 <= id < 1008 {
        MenuCommand::Choose(option_value(id - 1000))
    } else {
        MenuCommand::Ignore
    }
}

/// Decodes a menu command.
pub fn menu_command(id: u32) -> (r: MenuCommand)
    ensures
        r == command_of(id),
{
    if id == MENU_EXIT {
        return MenuCommand::Exit;
    }
    if id >= MENU_BASE && id - MENU_BASE < OPTION_COUNT as u32 {
        let (_, value) = option((id - MENU_BASE) as usize);
        return MenuCommand::Choose(value);
    }
    MenuCommand::Ignore
}

/// The rate saved in the tray's state file: the file's text, trimmed, read as an `i64`;
/// unlimited when the file could not be read or does not hold a number.
pub open spec fn saved_rate(content: Option<Seq<char>>) -> i64 {
    match content {
        Some(text) => match parse_i64(trimmed(text)) {
            Some(v) => v,
            None => 9999,
        },
        None => 9999,
    }
}

/// The rate a state file holds (`None` when it could not be read).
pub fn saved_fps_from(content: Option<&str>) -> (r: i64)
    ensures
        r == saved_rate(
            match content {
                Some(t) => Some(t@),
                None => None,
            },
        ),
{
    match content {
        Some(text) => {
            let t = trim(text);
            match crate::decimal::parse_i64_text(t.as_str()) {
                Some(v) => v,
                None => UNLIMITED,
            }
        },
        None => UNLIMITED,
    }
}

/// The text saved for a rate (`i64::to_string`).
pub fn fps_text(fps: i64) -> (r: String)
    ensures
        r@ == signed_decimal(fps as int),
{
    i64_text(fps)
}

/// The tray's state file under a given install root.
pub fn state_file_in(root: &str) -> (r: String)
    ensures
        r@ == join_path(join_path(root@, "state"@), "fps"@),
{
    let state = join(root, "state");
    join(state.as_str(), "fps")
}

/// The tray's state file.
pub fn state_file() -> (r: Result<String, crate::config::ConfigError>)
    ensures
        r matches Ok(p) ==> exists|local: Seq<char>| p@ == join_path(
            join_path(crate::config::install_root_path(local), "state"@),
            "fps"@,
        ),
        r matches Err(e) ==> e == crate::config::ConfigError::NoLocalAppData,
{
    let root = crate::config::install_root()?;
    Ok(state_file_in(root.as_str()))
}

/// A saved rate reads back as the rate that was saved.
pub proof fn lemma_saved_rate_roundtrip(fps: i64)
    ensures
        saved_rate(Some(signed_decimal(fps as int))) == fps,
{
    let s = signed_decimal(fps as int);
    if fps < 0 {
        lemma_decimal((-(fps as int)) as nat);
        let d = crate::decimal::decimal((-(fps as int)) as nat);
        assert(s[s.len() - 1] == d[d.len() - 1]);
        assert(crate::decimal::is_digit(d[d.len() - 1]));
    } else {
        lemma_decimal(fps as nat);
        assert(crate::decimal::is_digit(s[0]));
        assert(crate::decimal::is_digit(s[s.len() - 1]));
    }
    lemma_trimmed_clean(s);
    lemma_parse_signed_decimal(fps);
}

/// The notification of a left mouse button coming up (`WM_LBUTTONUP`).
pub const LEFT_BUTTON_UP: isize = 0x0202;

/// The notification of a right mouse button coming up (`WM_RBUTTONUP`).
pub const RIGHT_BUTTON_UP: isize = 0x0205;

/// Whether a tray-icon message opens the menu: the notification in the low word of its `lparam`
/// is a right or left mouse button coming up.
pub fn tray_opens_menu(lparam: isize) -> (r: bool)
    ensures
        r == ((lparam & 0xffff) == 0x0205 || (lparam & 0xffff) == 0x0202),
{
    let event = lparam & 0xffff;
    event == RIGHT_BUTTON_UP || event == LEFT_BUTTON_UP
}

/// What the tray does when its timer fires.
#[derive(Clone, Copy, PartialEq, Eq, Debug, Structural)]
pub struct TimerOutcome {
    /// Whether a client has been seen since the tray started.
    pub seen_client: bool,
    /// Whether the tray closes: the client it had seen is gone.
    pub close: bool,
}

/// One timer tick: whether a client has been seen once this tick's application `applied` (it
/// reached a client) is counted, and whether the tray closes (a client was seen and is gone).
pub open spec fn timer_step(applied: bool, seen: bool) -> (bool, bool) {
    (applied || seen, !applied && seen)
}

/// Whether a client has been seen after a run of ticks whose applications gave `results`.
pub open spec fn seen_over(results: Seq<bool>) -> bool
    decreases results.len(),
{
    if results.len() == 0 {
        false
    } else {
        timer_step(results.last(), seen_over(results.drop_last())).0
    }
}

/// The timer decision: applying the rate reached a client, or no client runs. Once a client was
/// seen, its disappearance closes the tray.
pub fn on_timer(applied: bool, seen_client: bool) -> (r: TimerOutcome)
    ensures
        r.seen_client == (applied || seen_client),
        r.close == (!applied && seen_client),
        (r.seen_client, r.close) == timer_step(applied, seen_client),
{
    if applied {
        TimerOutcome { seen_client: true, close: false }
    } else {
        TimerOutcome { seen_client, close: seen_client }
    }
}

/// After a run of ticks, a client has been seen exactly when some tick's application reached one.
pub proof fn lemma_seen_over(results: Seq<bool>)
    ensures
        seen_over(results) == (exists|j: int| 0 <= j < results.len() && results[j]),
    decreases results.len(),
{
    if results.len() > 0 {
        let before = results.drop_last();
        lemma_seen_over(before);
        if exists|j: int| 0 <= j < before.len() && before[j] {
            let j = choose|j: int| 0 <= j < before.len() && before[j];
            assert(results[j]);
        }
        if exists|j: int| 0 <= j < results.len() && results[j] {
            let j = choose|j: int| 0 <= j < results.len() && results[j];
            if j < before.len() {
                assert(before[j]);
            }
        }
    }
}

/// Over a run of timer ticks starting with no client seen, the tray closes at tick `k` exactly
/// when that tick's application found no client and an earlier tick's found one; so it never
/// closes before a client was seen.
pub proof fn lemma_tray_closes(results: Seq<bool>, k: int)
    requires
        0 <= k < results.len(),
    ensures
        seen_over(results.take(k)) == (exists|j: int| 0 <= j < k && results[j]),
        timer_step(results[k], seen_over(results.take(k))).1 == (!results[k] && exists|j: int|
            0 <= j < k && results[j]),
{
    let before = results.take(k);
    lemma_seen_over(before);
    if exists|j: int| 0 <= j < k && results[j] {
        let j = choose|j: int| 0 <= j < k && results[j];
        assert(before[j]);
    }
}

/// Checking the item of a rate and choosing it gives that rate back.
pub proof fn lemma_checked_choice(i: int)
    requires
        0 <= i < 8,
    ensures
        command_of(checked_item_for(option_value(i))) == MenuCommand::Choose(option_value(i)),
{
    let k = choose|k: int| 0 <= k < 8 && option_value(k) == option_value(i);
    lemma_options_distinct(k, i);
}

} // verus!
