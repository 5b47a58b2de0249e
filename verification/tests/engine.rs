use octane::engine::{Engine, EngineStep, Session, Tick, SEARCH_LEN};

fn attached(pid: u32, slot: u32) -> Engine {
    let mut engine = Engine::new();
    assert_eq!(engine.apply(Some(pid)), EngineStep::Open(pid));
    engine.attach(Some(Session::new(pid, slot)));
    engine
}

#[test]
fn engine_follows_the_client() {
    let mut engine = Engine::new();
    assert!(!engine.has_session());
    assert_eq!(engine.apply(None), EngineStep::NoClient);
    let mut engine2 = attached(5, 0x1000);
    assert!(engine2.has_session());
    assert_eq!(engine2.apply(Some(5)), EngineStep::Continue);
    assert!(engine2.has_session());
    assert_eq!(engine2.apply(Some(6)), EngineStep::Open(6));
    assert!(!engine2.has_session());
    engine2.attach(None);
    assert_eq!(engine2.apply(Some(6)), EngineStep::Open(6));
    engine.attach(Some(Session::new(7, 1)));
    assert_eq!(engine.apply(None), EngineStep::NoClient);
    assert!(!engine.has_session());
}

#[test]
fn engine_applies_the_rate() {
    let desired = (1.0f64 / 144.0).to_le_bytes();
    let default = (1.0f64 / 60.0).to_le_bytes();
    let mut engine = attached(5, 0x1000);
    assert_eq!(engine.start(), Tick::ReadScheduler(0x1000));
    assert_eq!(engine.on_scheduler(Some(0)), Tick::Done(true));
    assert_eq!(engine.on_scheduler(Some(0x2000)), Tick::Search(0x2100));
    let mut block = vec![0u8; SEARCH_LEN];
    block[0x10..0x18].copy_from_slice(&default);
    assert_eq!(engine.on_search(Some(&block)), Tick::ReadDelay(0x2110));
    assert_eq!(engine.on_delay(Some(&default), &desired), Tick::WriteDelay(0x2110));
    assert_eq!(engine.on_scheduler(Some(0x2000)), Tick::ReadDelay(0x2110));
    assert_eq!(engine.on_delay(Some(&desired), &desired), Tick::Done(true));
    assert_eq!(engine.on_scheduler(Some(0x3000)), Tick::Search(0x3100));
    assert_eq!(engine.on_search(None), Tick::Done(true));
    assert_eq!(engine.on_scheduler(Some(0x3000)), Tick::Search(0x3100));
    assert_eq!(engine.on_search(Some(&vec![0u8; SEARCH_LEN])), Tick::Done(true));
    assert_eq!(engine.on_scheduler(Some(0x3000)), Tick::Search(0x3100));
    let mut block = vec![0u8; SEARCH_LEN];
    block[0..8].copy_from_slice(&default);
    assert_eq!(engine.on_search(Some(&block)), Tick::ReadDelay(0x3100));
    assert_eq!(engine.on_delay(None, &desired), Tick::Done(true));
    assert_eq!(engine.on_scheduler(Some(0x3000)), Tick::Search(0x3100));
    assert_eq!(engine.on_scheduler(None), Tick::Done(false));
    assert!(!engine.has_session());
}

#[test]
fn session_state() {
    let mut s = Session::new(9, 0x44);
    assert_eq!(s.pid(), 9);
    assert_eq!(s.start(), Tick::ReadScheduler(0x44));
    assert_eq!(s.on_scheduler(Some(0xFFFF_FF80)), Tick::Search(0x80));
    assert_eq!(s.on_scheduler(None), Tick::Done(false));
}

#[test]
fn client_process_names() {
    assert!(octane::engine::is_client_exe("OctanePlayer.exe"));
    assert!(octane::engine::is_client_exe("octaneplayer.exe"));
    assert!(octane::engine::is_client_exe("RobloxPlayerBeta.EXE"));
    assert!(!octane::engine::is_client_exe("RobloxStudioBeta.exe"));
    assert!(!octane::engine::is_client_exe("octaneplayer"));
    assert!(!octane::engine::is_client_exe(""));
}

#[test]
fn cached_delay_belongs_to_current_scheduler() {
    let desired = (1.0f64 / 240.0).to_le_bytes();
    let default = (1.0f64 / 60.0).to_le_bytes();
    let mut engine = attached(3, 0x500);
    assert_eq!(engine.on_scheduler(Some(0x2000)), Tick::Search(0x2100));
    let mut block = vec![0u8; SEARCH_LEN];
    block[0x20..0x28].copy_from_slice(&default);
    assert_eq!(engine.on_search(Some(&block)), Tick::ReadDelay(0x2120));
    assert_eq!(engine.on_delay(Some(&default), &desired), Tick::WriteDelay(0x2120));
    // A different scheduler drops the delay found for the old one, and so does coming back.
    assert_eq!(engine.on_scheduler(Some(0x4000)), Tick::Search(0x4100));
    assert_eq!(engine.on_scheduler(Some(0x2000)), Tick::Search(0x2100));
    // A zero scheduler drops it as well.
    assert_eq!(engine.on_search(Some(&block)), Tick::ReadDelay(0x2120));
    assert_eq!(engine.on_scheduler(Some(0)), Tick::Done(true));
    assert_eq!(engine.on_scheduler(Some(0x2000)), Tick::Search(0x2100));
}
