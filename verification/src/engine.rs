//! The frame-rate engine as a state machine. The caller performs the process-memory reads and
//! writes each step asks for and hands back what came of them; the engine decides what follows.
use vstd::prelude::*;

use crate::scan::{frame_delay_in, only_delay_at, wrap32, lemma_wrap32_add, lemma_wrapping_add};
use crate::text::{lower_seq, str_equal, to_ascii_lowercase};

verus! {

/// Whether a process's executable name, lower-cased, is one of the client's names.
pub fn is_client_exe(name: &str) -> (r: bool)
    ensures
        r == (lower_seq(name@) == "octaneplayer.exe"@ || lower_seq(name@) == "robloxplayerbeta.exe"@),
{
    let lowered = to_ascii_lowercase(name);
    str_equal(lowered.as_str(), "octaneplayer.exe") || str_equal(lowered.as_str(), "robloxplayerbeta.exe")
}

/// How far past the scheduler the frame-delay search starts.
pub const SEARCH_OFFSET: u32 = 0x100;

/// How many bytes the frame-delay search reads.
pub const SEARCH_LEN: usize = 0x100;

/// `address` is one of the 4-byte-aligned places the search after `scheduler` can find.
pub open spec fn in_search_window(scheduler: u32, address: u32) -> bool {
    exists|o: int| 0 <= o <= 0xF8 && o % 4 == 0 && address == #[trigger] window_address(scheduler, o)
}

/// The address `o` bytes into the search window after `scheduler`.
pub open spec fn window_address(scheduler: u32, o: int) -> u32 {
    wrap32(scheduler + 0x100 + o)
}

/// What the engine knows of an attached client process.
pub struct SessionView {
    pub pid: u32,
    pub slot: u32,
    pub scheduler: u32,
    pub frame_delay: u32,
}

/// A known frame delay lies in the search window of the scheduler it was found for.
pub open spec fn delay_in_window(v: SessionView) -> bool {
    v.frame_delay == 0 || in_search_window(v.scheduler, v.frame_delay)
}

/// What reading the scheduler slot (`None` when the read failed) does to a session: its new state
/// and the next step. A failed read loses the session; a zero scheduler means the client runs no
/// game yet; a new scheduler forgets the frame delay; an unknown frame delay is searched for.
pub open spec fn after_scheduler(o: SessionView, value: Option<u32>) -> (SessionView, Tick) {
    match value {
        None => (o, Tick::Done(false)),
        Some(s) => if s == 0 {
            (SessionView { pid: o.pid, slot: o.slot, scheduler: o.scheduler, frame_delay: 0 }, Tick::Done(true))
        } else {
            let delay = if s == o.scheduler {
                o.frame_delay
            } else {
                0
            };
            (
                SessionView { pid: o.pid, slot: o.slot, scheduler: s, frame_delay: delay },
                if delay == 0 {
                    Tick::Search(wrap32(s + 0x100))
                } else {
                    Tick::ReadDelay(delay)
                },
            )
        },
    }
}

/// What the search block (`None` when the read failed) does to a session: when it holds exactly
/// one copy of the default delay, that place is the frame delay and is read next; otherwise the
/// round ends with the client still usable.
pub open spec fn after_search(o: SessionView, block: Option<Seq<u8>>) -> (SessionView, Tick) {
    match block {
        None => (o, Tick::Done(true)),
        Some(b) => if exists|k: int| only_delay_at(b, k) {
            let k = choose|k: int| only_delay_at(b, k);
            let address = wrap32(wrap32(o.scheduler + 0x100) + k);
            (
                SessionView { pid: o.pid, slot: o.slot, scheduler: o.scheduler, frame_delay: address },
                Tick::ReadDelay(address),
            )
        } else {
            (o, Tick::Done(true))
        },
    }
}

/// What reading the frame delay (`None` when the read failed) does to a session: a failed read
/// forgets the frame delay; a value other than `desired` is overwritten.
pub open spec fn after_delay(o: SessionView, current: Option<Seq<u8>>, desired: Seq<u8>) -> (SessionView, Tick) {
    match current {
        None => (SessionView { pid: o.pid, slot: o.slot, scheduler: o.scheduler, frame_delay: 0 }, Tick::Done(true)),
        Some(c) => (
            o,
            if c == desired {
                Tick::Done(true)
            } else {
                Tick::WriteDelay(o.frame_delay)
            },
        ),
    }
}

/// The bytes of a block that may not have been read.
pub open spec fn bytes_of(block: Option<&[u8]>) -> Option<Seq<u8>> {
    match block {
        Some(b) => Some(b@),
        None => None,
    }
}

/// A successful read of the frame delay keeps the address the session knows: when the value read
/// is the one wanted nothing is written, otherwise the wanted value is written there; and the
/// next round with the same scheduler reads that address again, so a rate chosen later is
/// written there too.
pub proof fn lemma_delay_read_keeps_address(v: SessionView, current: Seq<u8>, desired: Seq<u8>, later: Seq<u8>)
    requires
        v.scheduler != 0,
        v.frame_delay != 0,
    ensures
        ({
            let (kept, tick) = after_delay(v, Some(current), desired);
            let (again, next) = after_scheduler(kept, Some(v.scheduler));
            &&& kept.frame_delay == v.frame_delay
            &&& kept.scheduler == v.scheduler
            &&& tick == if current == desired {
                Tick::Done(true)
            } else {
                Tick::WriteDelay(v.frame_delay)
            }
            &&& next == Tick::ReadDelay(v.frame_delay)
            &&& later != current ==> after_delay(again, Some(current), later).1 == Tick::WriteDelay(v.frame_delay)
        }),
{
}

/// What the caller reports back to a session after doing what a step asked: the scheduler read,
/// the search block read, or the frame delay read (with the delay that is wanted).
pub enum Report {
    Scheduler(Option<u32>),
    Search(Option<Seq<u8>>),
    Delay(Option<Seq<u8>>, Seq<u8>),
}

/// A session's state once a report is taken in.
pub open spec fn after_report(v: SessionView, report: Report) -> SessionView {
    match report {
        Report::Scheduler(value) => after_scheduler(v, value).0,
        Report::Search(block) => after_search(v, block).0,
        Report::Delay(current, desired) => after_delay(v, current, desired).0,
    }
}

/// A session's state once a run of reports is taken in, in order.
pub open spec fn after_reports(v: SessionView, reports: Seq<Report>) -> SessionView
    decreases reports.len(),
{
    if reports.len() == 0 {
        v
    } else {
        after_report(after_reports(v, reports.drop_last()), reports.last())
    }
}

/// The frame delay known after `reports` was found by the search reported at `i`, in the window
/// of the scheduler that is current now, and the scheduler has not changed since that search.
pub open spec fn delay_found_at(v: SessionView, reports: Seq<Report>, i: int) -> bool {
    let now = after_reports(v, reports);
    &&& 0 <= i < reports.len()
    &&& reports[i] matches Report::Search(Some(b))
    &&& exists|k: int| only_delay_at(b, k) && now.frame_delay == wrap32(wrap32(now.scheduler + 0x100) + k)
    &&& forall|j: int| i <= j <= reports.len() ==> #[trigger] after_reports(v, reports.take(j)).scheduler == now.scheduler
}

/// Whatever a session is told, from a state with no frame delay known: any frame delay it knows
/// afterwards was found by a search of the current scheduler's window, never one made for an
/// earlier scheduler.
pub proof fn lemma_delay_for_current_scheduler(v: SessionView, reports: Seq<Report>)
    requires
        v.frame_delay == 0,
    ensures
        after_reports(v, reports).frame_delay == 0 || exists|i: int| delay_found_at(v, reports, i),
    decreases reports.len(),
{
    if reports.len() > 0 {
        let p = reports.drop_last();
        let n = reports.len() as int;
        let last = reports.last();
        let prev = after_reports(v, p);
        let now = after_reports(v, reports);
        lemma_delay_for_current_scheduler(v, p);
        assert(reports.take(n - 1) =~= p);
        assert(reports.take(n) =~= reports);
        if let Report::Search(Some(b)) = last {
            if exists|k: int| only_delay_at(b, k) {
                let k = choose|k: int| only_delay_at(b, k);
                assert(reports[n - 1] == last);
                assert forall|j: int| n - 1 <= j <= n implies #[trigger] after_reports(v, reports.take(j)).scheduler
                    == now.scheduler by {
                    if j == n - 1 {
                        assert(after_reports(v, reports.take(j)) == prev);
                    } else {
                        assert(after_reports(v, reports.take(j)) == now);
                    }
                }
                assert(delay_found_at(v, reports, n - 1));
                return;
            }
        }
        if now.frame_delay != 0 {
            assert(now.frame_delay == prev.frame_delay && now.scheduler == prev.scheduler);
            let i = choose|i: int| delay_found_at(v, p, i);
            assert(reports[i] == p[i]);
            assert forall|j: int| i <= j <= n implies #[trigger] after_reports(v, reports.take(j)).scheduler
                == now.scheduler by {
                if j < n {
                    assert(reports.take(j) =~= p.take(j));
                    assert(after_reports(v, p.take(j)).scheduler == prev.scheduler);
                } else {
                    assert(after_reports(v, reports.take(j)) == now);
                }
            }
            assert(delay_found_at(v, reports, i));
        }
    }
}

/// An attached client: the scheduler slot found in its code, the scheduler last seen there and
/// the address of its frame delay (0 while unknown).
pub struct Session {
    pid: u32,
    slot: u32,
    scheduler: u32,
    frame_delay: u32,
}

/// What the caller is to do next while a frame rate is applied.
#[derive(Clone, Copy, PartialEq, Eq, Debug, Structural)]
pub enum Tick {
    /// Read the `u32` at this address (the scheduler slot).
    ReadScheduler(u32),
    /// Read `SEARCH_LEN` bytes from this address (the frame-delay search).
    Search(u32),
    /// Read the 8 bytes of the frame delay at this address.
    ReadDelay(u32),
    /// Write the desired frame delay at this address; the application succeeded.
    WriteDelay(u32),
    /// Stop: `true` when the client is still usable, `false` when the session is lost.
    Done(bool),
}

impl Session {
    /// The session's state.
    pub closed spec fn view(self) -> SessionView {
        SessionView {
            pid: self.pid,
            slot: self.slot,
            scheduler: self.scheduler,
            frame_delay: self.frame_delay,
        }
    }

    /// A session for process `pid` whose scheduler lives at `slot`; nothing is known yet of the
    /// scheduler or the frame delay.
    pub fn new(pid: u32, slot: u32) -> (r: Session)
        ensures
            r.view() == (SessionView { pid, slot, scheduler: 0, frame_delay: 0 }),
            delay_in_window(r.view()),
    {
        Session { pid, slot, scheduler: 0, frame_delay: 0 }
    }

    /// The process this session is attached to.
    pub fn pid(&self) -> (r: u32)
        ensures
            r == self.view().pid,
    {
        self.pid
    }

    /// The first step of applying a frame rate: read the scheduler slot.
    pub fn start(&self) -> (r: Tick)
        ensures
            r == Tick::ReadScheduler(self.view().slot),
    {
        Tick::ReadScheduler(self.slot)
    }

    /// The scheduler slot was read (`None` when the read failed). A failed read loses the
    /// session; a zero scheduler means the client is not running a game yet; a new scheduler
    /// forgets the frame delay; an unknown frame delay is searched for.
    pub fn on_scheduler(&mut self, value: Option<u32>) -> (r: Tick)
        requires
            delay_in_window(old(self).view()),
        ensures
            delay_in_window(final(self).view()),
            (final(self).view(), r) == after_scheduler(old(self).view(), value),
    {
        match value {
            None => Tick::Done(false),
            Some(scheduler) => {
                if scheduler == 0 {
                    self.frame_delay = 0;
                    return Tick::Done(true);
                }
                if scheduler != self.scheduler {
                    self.frame_delay = 0;
                    self.scheduler = scheduler;
                }
                if self.frame_delay == 0 {
                    let search = scheduler.wrapping_add(SEARCH_OFFSET);
                    proof {
                        lemma_wrapping_add(scheduler, 0x100);
                    }
                    Tick::Search(search)
                } else {
                    Tick::ReadDelay(self.frame_delay)
                }
            },
        }
    }

    /// The search block after the scheduler was read (`None` when the read failed). When it
    /// holds exactly one copy of the default delay, that is the frame delay and it is read next;
    /// otherwise this round ends with the client still usable.
    pub fn on_search(&mut self, block: Option<&[u8]>) -> (r: Tick)
        requires
            delay_in_window(old(self).view()),
            old(self).view().scheduler != 0,
            old(self).view().frame_delay == 0,
            block matches Some(b) ==> b@.len() == SEARCH_LEN,
        ensures
            delay_in_window(final(self).view()),
            (final(self).view(), r) == after_search(old(self).view(), bytes_of(block)),
    {
        match block {
            None => Tick::Done(true),
            Some(data) => {
                let search = self.scheduler.wrapping_add(SEARCH_OFFSET);
                proof {
                    lemma_wrapping_add(self.scheduler, 0x100);
                }
                match frame_delay_in(search, data) {
                    Some(address) => {
                        proof {
                            let o = choose|o: int| only_delay_at(data@, o) && address == wrap32(search + o);
                            let c = choose|c: int| only_delay_at(data@, c);
                            assert(o == c);
                            assert(o + 8 <= 0x100);
                            lemma_wrap32_add(self.scheduler + 0x100, o);
                            assert(address == window_address(self.scheduler, o));
                            assert(in_search_window(self.scheduler, address));
                        }
                        self.frame_delay = address;
                        Tick::ReadDelay(address)
                    },
                    None => Tick::Done(true),
                }
            },
        }
    }

    /// The frame delay was read (`None` when the read failed). A failed read forgets the frame
    /// delay; a value other than `desired` is overwritten.
    pub fn on_delay(&mut self, current: Option<&[u8]>, desired: &[u8; 8]) -> (r: Tick)
        requires
            delay_in_window(old(self).view()),
        ensures
            delay_in_window(final(self).view()),
            (final(self).view(), r) == after_delay(old(self).view(), bytes_of(current), desired@),
    {
        match current {
            None => {
                self.frame_delay = 0;
                Tick::Done(true)
            },
            Some(bytes) => {
                if same_bytes(bytes, desired) {
                    Tick::Done(true)
                } else {
                    Tick::WriteDelay(self.frame_delay)
                }
            },
        }
    }
}

/// Whether `a` holds exactly the 8 bytes of `b`.
fn same_bytes(a: &[u8], b: &[u8; 8]) -> (r: bool)
    ensures
        r == (a@ == b@),
{
    if a.len() != 8 {
        return false;
    }
    let mut i: usize = 0;
    while i < 8
        invariant
            a@.len() == 8,
            b@.len() == 8,
            i <= 8,
            forall|k: int| 0 <= k < i ==> a@[k] == b@[k],
        decreases 8 - i,
    {
        if a[i] != b[i] {
            return false;
        }
        i += 1;
    }
    assert(a@ =~= b@);
    true
}

/// What `Engine::apply` asks of the caller once it knows which client is running.
#[derive(Clone, Copy, PartialEq, Eq, Debug, Structural)]
pub enum EngineStep {
    /// No client runs: any session is gone, and the frame rate was not applied.
    NoClient,
    /// A client runs that the engine is not attached to: open a session to this process and
    /// attach it, then continue with it.
    Open(u32),
    /// The attached session belongs to the running client: continue with it.
    Continue,
}

/// The frame-rate engine: at most one session, to the running client.
pub struct Engine {
    session: Option<Session>,
}

impl Engine {
    /// The process the engine is attached to, if any: the process of its session.
    pub open spec fn attached(self) -> Option<u32> {
        match self.session_view() {
            Some(v) => Some(v.pid),
            None => None,
        }
    }

    /// The attached session's state, if any.
    pub closed spec fn session_view(self) -> Option<SessionView> {
        match self.session {
            Some(s) => Some(s.view()),
            None => None,
        }
    }

    /// The attached session, if any, knows its frame delay only within the search window.
    pub open spec fn wf(self) -> bool {
        self.session_view() matches Some(v) ==> delay_in_window(v)
    }

    /// An engine attached to nothing.
    pub fn new() -> (r: Engine)
        ensures
            r.wf(),
            r.session_view() is None,
    {
        Engine { session: None }
    }

    /// Whether a session is attached.
    pub fn has_session(&self) -> (r: bool)
        ensures
            r == self.session_view() is Some,
    {
        self.session.is_some()
    }

    /// Drops the session, if any.
    pub fn close(&mut self)
        ensures
            final(self).wf(),
            final(self).session_view() is None,
    {
        self.session = None;
    }

    /// Starts applying a frame rate, given which client process runs (`None` when none does):
    /// without a client the session is dropped; a client other than the attached one drops the
    /// session and asks for a new one; the attached client is continued with.
    pub fn apply(&mut self, client: Option<u32>) -> (r: EngineStep)
        requires
            old(self).wf(),
        ensures
            final(self).wf(),
            match client {
                None => r == EngineStep::NoClient && final(self).session_view() is None,
                Some(pid) => if old(self).attached() == Some(pid) {
                    &&& r == EngineStep::Continue
                    &&& final(self).session_view() == old(self).session_view()
                    &&& final(self).attached() == Some(pid)
                } else {
                    r == EngineStep::Open(pid) && final(self).session_view() is None
                },
            },
    {
        match client {
            None => {
                self.session = None;
                EngineStep::NoClient
            },
            Some(pid) => {
                let same = match &self.session {
                    Some(session) => session.pid() == pid,
                    None => false,
                };
                if same {
                    EngineStep::Continue
                } else {
                    self.session = None;
                    EngineStep::Open(pid)
                }
            },
        }
    }

    /// Attaches the session that was opened (`None` when opening failed).
    pub fn attach(&mut self, session: Option<Session>)
        requires
            session matches Some(s) ==> delay_in_window(s.view()),
        ensures
            final(self).wf(),
            final(self).session_view() == match session {
                Some(s) => Some(s.view()),
                None => None,
            },
    {
        self.session = session;
    }

    /// The first step of applying a frame rate through the attached session.
    pub fn start(&self) -> (r: Tick)
        ensures
            r == match self.session_view() {
                Some(v) => Tick::ReadScheduler(v.slot),
                None => Tick::Done(true),
            },
    {
        match &self.session {
            Some(session) => session.start(),
            None => Tick::Done(true),
        }
    }

    /// Passes on the scheduler read; a lost session is dropped.
    pub fn on_scheduler(&mut self, value: Option<u32>) -> (r: Tick)
        requires
            old(self).wf(),
            old(self).session_view() is Some,
        ensures
            final(self).wf(),
            match value {
                None => r == Tick::Done(false) && final(self).session_view() is None,
                Some(_) => {
                    let (v, t) = after_scheduler(old(self).session_view()->0, value);
                    final(self).session_view() == Some(v) && r == t
                },
            },
    {
        let mut session = self.session.take().unwrap();
        let r = session.on_scheduler(value);
        if r != Tick::Done(false) {
            self.session = Some(session);
        }
        r
    }

    /// Passes on the search block read after a `Tick::Search`.
    pub fn on_search(&mut self, block: Option<&[u8]>) -> (r: Tick)
        requires
            old(self).wf(),
            old(self).session_view() matches Some(v) && v.scheduler != 0 && v.frame_delay == 0,
            block matches Some(b) ==> b@.len() == SEARCH_LEN,
        ensures
            final(self).wf(),
            ({
                let (v, t) = after_search(old(self).session_view()->0, bytes_of(block));
                final(self).session_view() == Some(v) && r == t
            }),
    {
        let mut session = self.session.take().unwrap();
        let r = session.on_search(block);
        self.session = Some(session);
        r
    }

    /// Passes on the frame-delay read after a `Tick::ReadDelay`.
    pub fn on_delay(&mut self, current: Option<&[u8]>, desired: &[u8; 8]) -> (r: Tick)
        requires
            old(self).wf(),
            old(self).session_view() is Some,
        ensures
            final(self).wf(),
            ({
                let (v, t) = after_delay(old(self).session_view()->0, bytes_of(current), desired@);
                final(self).session_view() == Some(v) && r == t
            }),
    {
        let mut session = self.session.take().unwrap();
        let r = session.on_delay(current, desired);
        self.session = Some(session);
        r
    }
}

} // verus!
