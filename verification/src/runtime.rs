//! The surface runtime: the requests it takes, an in-memory fake that records
//! what it is asked and tracks which surfaces run, and the decisions of the
//! daemon-socket proxy (what an input or a daemon frame does to a surface's
//! proxy). The socket transport itself is left to the application.

use vstd::prelude::*;
use vstd::string::StringExecFns;

use crate::entities::{SurfaceId, SurfaceKind};
use crate::error::{OrchestratorError, Result};
use crate::memory::{lemma_pos_of, lemma_pos_of_push, lemma_pos_of_remove, lemma_unique_push, lemma_unique_remove, pos_of, unique};
use crate::sort::{sort_positions_str, stably_sorted_str, views};
use crate::strmap::StringMap;
use crate::text::str_equal;

verus! {

/// Geometry a surface is spawned with; the renderer resizes on attach.
#[derive(Debug, Clone, Copy, PartialEq, Eq, Structural)]
pub struct Geometry {
    pub cols: u16,
    pub rows: u16,
}

/// A fully resolved launch command: an executable, its arguments and extra
/// environment. A spawn without one runs the login shell.
#[derive(Debug, Clone)]
pub struct ResolvedCommand {
    pub exe: String,
    pub args: Vec<String>,
    pub env: StringMap,
}

/// Everything the runtime needs to bring a surface's PTY to life.
#[derive(Debug, Clone)]
pub struct SpawnRequest {
    pub surface: SurfaceId,
    pub kind: SurfaceKind,
    pub command: Option<ResolvedCommand>,
    pub token: String,
    pub geometry: Geometry,
    pub cwd: String,
}

/// A recorded runtime interaction.
#[derive(Debug, Clone, PartialEq, Eq)]
pub enum RuntimeCall {
    Spawn(SurfaceId),
    Stop(SurfaceId),
    Close(SurfaceId),
    Input { surface: SurfaceId, bytes: Vec<u8> },
    Resize { surface: SurfaceId, cols: u16, rows: u16 },
    Attach(SurfaceId),
    Detach(SurfaceId),
    List,
}

/// One decoded output frame from a surface's PTY proxy.
#[derive(Debug, Clone, PartialEq, Eq)]
pub enum Output {
    Bytes(Vec<u8>),
    Status(String),
    Exit(String),
    Error(String),
}

/// A decoded frame addressed to a surface (by its plain id).
#[derive(Debug, Clone, PartialEq, Eq)]
pub struct SurfaceOutput {
    pub surface: String,
    pub output: Output,
}

/// What a recorded call says, by value.
pub enum CallView {
    Spawn(Seq<char>),
    Stop(Seq<char>),
    Close(Seq<char>),
    Input(Seq<char>, Seq<u8>),
    Resize(Seq<char>, u16, u16),
    Attach(Seq<char>),
    Detach(Seq<char>),
    List,
}

/// The value of a recorded call.
pub open spec fn call_view(c: RuntimeCall) -> CallView {
    match c {
        RuntimeCall::Spawn(s) => CallView::Spawn(s@),
        RuntimeCall::Stop(s) => CallView::Stop(s@),
        RuntimeCall::Close(s) => CallView::Close(s@),
        RuntimeCall::Input { surface, bytes } => CallView::Input(surface@, bytes@),
        RuntimeCall::Resize { surface, cols, rows } => CallView::Resize(surface@, cols, rows),
        RuntimeCall::Attach(s) => CallView::Attach(s@),
        RuntimeCall::Detach(s) => CallView::Detach(s@),
        RuntimeCall::List => CallView::List,
    }
}

/// The values of a list of recorded calls.
pub open spec fn call_views(v: Seq<RuntimeCall>) -> Seq<CallView> {
    v.map_values(|c: RuntimeCall| call_view(c))
}

/// A copy of a byte slice.
pub fn copy_bytes(b: &[u8]) -> (r: Vec<u8>)
    ensures
        r@ == b@,
{
    let mut r: Vec<u8> = Vec::new();
    let mut i: usize = 0;
    while i < b.len()
        invariant
            i <= b@.len(),
            r@ == b@.take(i as int),
        decreases b.len() - i,
    {
        r.push(b[i]);
        proof {
            assert(r@ =~= b@.take(i + 1));
        }
        i = i + 1;
    }
    proof {
        assert(b@.take(i as int) =~= b@);
    }
    r
}

impl RuntimeCall {
    /// A copy of this call.
    pub fn duplicate(&self) -> (r: RuntimeCall)
        ensures
            call_view(r) == call_view(*self),
    {
        match self {
            RuntimeCall::Spawn(s) => RuntimeCall::Spawn(s.duplicate()),
            RuntimeCall::Stop(s) => RuntimeCall::Stop(s.duplicate()),
            RuntimeCall::Close(s) => RuntimeCall::Close(s.duplicate()),
            RuntimeCall::Input { surface, bytes } => RuntimeCall::Input {
                surface: surface.duplicate(),
                bytes: copy_bytes(bytes.as_slice()),
            },
            RuntimeCall::Resize { surface, cols, rows } => RuntimeCall::Resize {
                surface: surface.duplicate(),
                cols: *cols,
                rows: *rows,
            },
            RuntimeCall::Attach(s) => RuntimeCall::Attach(s.duplicate()),
            RuntimeCall::Detach(s) => RuntimeCall::Detach(s.duplicate()),
            RuntimeCall::List => RuntimeCall::List,
        }
    }
}

/// The runtime error for a surface.
pub open spec fn is_surface_error(e: OrchestratorError, surface: Seq<char>, reason: Seq<char>) -> bool {
    e matches OrchestratorError::SurfaceRuntime { surface: s, reason: r } && s@ == surface && r@ == reason
}

/// The runtime error for `surface` with the given reason.
pub fn surface_err(surface: &SurfaceId, reason: &str) -> (e: OrchestratorError)
    ensures
        is_surface_error(e, surface@, reason@),
{
    OrchestratorError::SurfaceRuntime { surface: surface.as_str().to_owned(), reason: reason.to_owned() }
}

// ── the in-memory fake ───────────────────────────────────────────────────────

/// What a [`FakeRuntime`] holds: the surfaces it considers running, the calls
/// made against it in order, whether the next spawn fails, and the output
/// frames waiting to be received (oldest first).
pub struct FakeView {
    pub running: Seq<Seq<char>>,
    pub calls: Seq<CallView>,
    pub fail_spawn: bool,
    pub pending: Seq<SurfaceOutput>,
}

/// An in-memory runtime for tests: no socket, no daemon. `spawn` marks a
/// surface running, `stop` and `close` mark it not running, `list` reports the
/// running set; every call is recorded.
pub struct FakeRuntime {
    running: Vec<SurfaceId>,
    calls: Vec<RuntimeCall>,
    fail_spawn: bool,
    pending: Vec<SurfaceOutput>,
}

/// The ids of a list of surfaces.
pub open spec fn ids_of(v: Seq<SurfaceId>) -> Seq<Seq<char>> {
    v.map_values(|s: SurfaceId| s@)
}

impl View for FakeRuntime {
    type V = FakeView;

    closed spec fn view(&self) -> FakeView {
        FakeView {
            running: ids_of(self.running@),
            calls: call_views(self.calls@),
            fail_spawn: self.fail_spawn,
            pending: self.pending@,
        }
    }
}

/// `id` runs.
pub open spec fn runs(v: FakeView, id: Seq<char>) -> bool {
    pos_of(v.running, id) is Some
}

impl FakeRuntime {
    /// No surface is recorded twice as running.
    pub open spec fn wf(&self) -> bool {
        unique(self@.running)
    }

    /// A fake with nothing running and nothing recorded.
    pub fn new() -> (r: Self)
        ensures
            r.wf(),
            r@.running.len() == 0,
            r@.calls.len() == 0,
            !r@.fail_spawn,
            r@.pending.len() == 0,
    {
        let r = FakeRuntime { running: Vec::new(), calls: Vec::new(), fail_spawn: false, pending: Vec::new() };
        proof {
            assert(ids_of(r.running@) =~= Seq::<Seq<char>>::empty());
            assert(call_views(r.calls@) =~= Seq::<CallView>::empty());
        }
        r
    }

    fn find_running(&self, id: &SurfaceId) -> (r: Option<usize>)
        ensures
            match r {
                Some(i) => pos_of(self@.running, id@) == Some(i as int) && i < self.running@.len(),
                None => pos_of(self@.running, id@) is None,
            },
    {
        proof {
            lemma_pos_of(self@.running, id@);
        }
        let mut i: usize = 0;
        while i < self.running.len()
            invariant
                i <= self.running@.len(),
                ids_of(self.running@) == self@.running,
                forall|j: int| 0 <= j < i ==> self@.running[j] != id@,
                match pos_of(self@.running, id@) {
                    Some(p) => 0 <= p < self@.running.len() && self@.running[p] == id@ && forall|j: int|
                        0 <= j < p ==> self@.running[j] != id@,
                    None => forall|j: int| 0 <= j < self@.running.len() ==> self@.running[j] != id@,
                },
            decreases self.running.len() - i,
        {
            if self.running[i].same(id) {
                proof {
                    assert(self@.running[i as int] == id@);
                }
                return Some(i);
            }
            i = i + 1;
        }
        None
    }

    fn record(&mut self, call: RuntimeCall)
        ensures
            final(self)@ == (FakeView { calls: old(self)@.calls.push(call_view(call)), ..old(self)@ }),
    {
        self.calls.push(call);
        proof {
            assert(call_views(self.calls@) =~= call_views(old(self).calls@).push(call_view(call)));
        }
    }

    fn mark_running(&mut self, id: &SurfaceId)
        requires
            old(self).wf(),
        ensures
            final(self).wf(),
            runs(final(self)@, id@),
            forall|k: Seq<char>| k != id@ ==> runs(final(self)@, k) == runs(old(self)@, k),
            final(self)@ == (FakeView { running: final(self)@.running, ..old(self)@ }),
    {
        if self.find_running(id).is_none() {
            let ghost before = self@.running;
            self.running.push(id.duplicate());
            proof {
                assert(self@.running =~= before.push(id@));
                lemma_unique_push(before, id@);
                lemma_pos_of_push(before, id@, id@);
                assert forall|k: Seq<char>| k != id@ implies runs(self@, k) == runs(old(self)@, k) by {
                    lemma_pos_of_push(before, id@, k);
                }
            }
        }
    }

    fn mark_stopped(&mut self, id: &SurfaceId)
        requires
            old(self).wf(),
        ensures
            final(self).wf(),
            !runs(final(self)@, id@),
            forall|k: Seq<char>| k != id@ ==> runs(final(self)@, k) == runs(old(self)@, k),
            final(self)@ == (FakeView { running: final(self)@.running, ..old(self)@ }),
    {
        match self.find_running(id) {
            Some(i) => {
                let ghost before = self@.running;
                self.running.remove(i);
                proof {
                    lemma_pos_of(before, id@);
                    assert(self@.running =~= before.remove(i as int));
                    lemma_unique_remove(before, i as int);
                    lemma_pos_of(self@.running, id@);
                    if runs(self@, id@) {
                        let p = pos_of(self@.running, id@)->0;
                        let q = if p < i { p } else { p + 1 };
                        assert(before[q] == id@);
                    }
                    assert forall|k: Seq<char>| k != id@ implies runs(self@, k) == runs(old(self)@, k) by {
                        lemma_pos_of_remove(before, i as int, k);
                    }
                }
            },
            None => {},
        }
    }

    /// Make the next `spawn` fail.
    pub fn fail_next_spawn(&mut self)
        ensures
            final(self)@ == (FakeView { fail_spawn: true, ..old(self)@ }),
    {
        self.fail_spawn = true;
    }

    /// Mark a surface as already running (a daemon PTY with no spawn recorded).
    pub fn seed_running(&mut self, surface: SurfaceId)
        requires
            old(self).wf(),
        ensures
            final(self).wf(),
            runs(final(self)@, surface@),
            forall|k: Seq<char>| k != surface@ ==> runs(final(self)@, k) == runs(old(self)@, k),
            final(self)@ == (FakeView { running: final(self)@.running, ..old(self)@ }),
    {
        self.mark_running(&surface);
    }

    /// Whether a surface runs.
    pub fn is_running(&self, surface: &SurfaceId) -> (b: bool)
        ensures
            b == runs(self@, surface@),
    {
        self.find_running(surface).is_some()
    }

    /// The calls recorded so far, in call order.
    pub fn calls(&self) -> (r: Vec<RuntimeCall>)
        ensures
            call_views(r@) == self@.calls,
    {
        let mut r: Vec<RuntimeCall> = Vec::new();
        let mut i: usize = 0;
        while i < self.calls.len()
            invariant
                i <= self.calls@.len(),
                call_views(r@) == call_views(self.calls@).take(i as int),
            decreases self.calls.len() - i,
        {
            let ghost before = r@;
            let d = self.calls[i].duplicate();
            r.push(d);
            proof {
                assert(call_view(d) == call_view(self.calls@[i as int]));
                assert(r@ == before.push(d));
                assert(call_views(r@) =~= call_views(before).push(call_view(d)));
                assert(call_views(r@) =~= call_views(self.calls@).take(i + 1));
            }
            i = i + 1;
        }
        proof {
            assert(call_views(self.calls@).take(i as int) =~= call_views(self.calls@));
        }
        r
    }

    /// Spawn a surface: recorded; fails (and clears the failure flag) when a
    /// failure was asked for, else the surface runs.
    pub fn spawn(&mut self, request: SpawnRequest) -> (r: Result<()>)
        requires
            old(self).wf(),
        ensures
            final(self).wf(),
            final(self)@.calls == old(self)@.calls.push(CallView::Spawn(request.surface@)),
            !final(self)@.fail_spawn,
            final(self)@.pending == old(self)@.pending,
            old(self)@.fail_spawn ==> final(self)@.running == old(self)@.running && (r matches Err(e)
                && is_surface_error(e, request.surface@, "fake spawn failure"@)),
            !old(self)@.fail_spawn ==> r is Ok && runs(final(self)@, request.surface@) && forall|k: Seq<char>|
                k != request.surface@ ==> runs(final(self)@, k) == runs(old(self)@, k),
    {
        self.record(RuntimeCall::Spawn(request.surface.duplicate()));
        if self.fail_spawn {
            self.fail_spawn = false;
            return Err(surface_err(&request.surface, "fake spawn failure"));
        }
        self.mark_running(&request.surface);
        Ok(())
    }

    /// Stop a surface: recorded; it no longer runs.
    pub fn stop(&mut self, surface: &SurfaceId) -> (r: Result<()>)
        requires
            old(self).wf(),
        ensures
            r is Ok,
            final(self).wf(),
            final(self)@.calls == old(self)@.calls.push(CallView::Stop(surface@)),
            final(self)@.fail_spawn == old(self)@.fail_spawn,
            final(self)@.pending == old(self)@.pending,
            !runs(final(self)@, surface@),
            forall|k: Seq<char>| k != surface@ ==> runs(final(self)@, k) == runs(old(self)@, k),
    {
        self.record(RuntimeCall::Stop(surface.duplicate()));
        self.mark_stopped(surface);
        Ok(())
    }

    /// Close a surface: recorded; it no longer runs.
    pub fn close(&mut self, surface: &SurfaceId) -> (r: Result<()>)
        requires
            old(self).wf(),
        ensures
            r is Ok,
            final(self).wf(),
            final(self)@.calls == old(self)@.calls.push(CallView::Close(surface@)),
            final(self)@.fail_spawn == old(self)@.fail_spawn,
            final(self)@.pending == old(self)@.pending,
            !runs(final(self)@, surface@),
            forall|k: Seq<char>| k != surface@ ==> runs(final(self)@, k) == runs(old(self)@, k),
    {
        self.record(RuntimeCall::Close(surface.duplicate()));
        self.mark_stopped(surface);
        Ok(())
    }

    /// The running surfaces, ascending by id: recorded.
    pub fn list(&mut self) -> (r: Result<Vec<SurfaceId>>)
        requires
            old(self).wf(),
        ensures
            final(self).wf(),
            final(self)@ == (FakeView { calls: old(self)@.calls.push(CallView::List), ..old(self)@ }),
            match r {
                Ok(v) => {
                    &&& ids_of(v@).len() == old(self)@.running.len()
                    &&& forall|k: Seq<char>| runs(old(self)@, k) <==> ids_of(v@).contains(k)
                    &&& forall|i: int, j: int|
                        0 <= i < j < v@.len() ==> crate::text::str_lt(#[trigger] v@[i]@, #[trigger] v@[j]@)
                },
                Err(_) => false,
            },
    {
        self.record(RuntimeCall::List);
        let mut ids: Vec<String> = Vec::new();
        let mut i: usize = 0;
        while i < self.running.len()
            invariant
                i <= self.running@.len(),
                ids@.len() == i,
                views(ids@) == ids_of(self.running@).take(i as int),
            decreases self.running.len() - i,
        {
            ids.push(self.running[i].as_str().to_owned());
            proof {
                assert(views(ids@) =~= ids_of(self.running@).take(i + 1));
            }
            i = i + 1;
        }
        proof {
            assert(views(ids@) =~= ids_of(self.running@));
        }
        let perm = sort_positions_str(&ids);
        let mut out: Vec<SurfaceId> = Vec::new();
        let mut q: usize = 0;
        while q < perm.len()
            invariant
                stably_sorted_str(views(ids@), perm@),
                views(ids@) == ids_of(self.running@),
                q <= perm@.len(),
                out@.len() == q,
                forall|t: int| 0 <= t < q ==> (#[trigger] out@[t])@ == self@.running[perm@[t] as int],
            decreases perm.len() - q,
        {
            out.push(self.running[perm[q]].duplicate());
            q = q + 1;
        }
        proof {
            let rs = self@.running;
            assert forall|k: Seq<char>| runs(self@, k) <==> ids_of(out@).contains(k) by {
                lemma_pos_of(rs, k);
                if runs(self@, k) {
                    let f = pos_of(rs, k)->0;
                    assert(crate::sort::lists(perm@, f));
                    let t = choose|t: int| 0 <= t < perm@.len() && perm@[t] == f;
                    assert(ids_of(out@)[t] == k);
                }
                if ids_of(out@).contains(k) {
                    let t = choose|t: int| 0 <= t < ids_of(out@).len() && ids_of(out@)[t] == k;
                    assert(rs[perm@[t] as int] == k);
                }
            }
            assert forall|a: int, b: int| 0 <= a < b < out@.len() implies crate::text::str_lt(
                #[trigger] out@[a]@,
                #[trigger] out@[b]@,
            ) by {
                let fa = perm@[a] as int;
                let fb = perm@[b] as int;
                assert(crate::sort::str_before(views(ids@), fa, fb));
                if fa != fb {
                    assert(rs[fa] != rs[fb]);
                }
            }
        }
        Ok(out)
    }

    /// Send input bytes to a surface: recorded.
    pub fn input(&mut self, surface: &SurfaceId, bytes: &[u8]) -> (r: Result<()>)
        ensures
            r is Ok,
            final(self)@ == (FakeView {
                calls: old(self)@.calls.push(CallView::Input(surface@, bytes@)),
                ..old(self)@
            }),
    {
        self.record(RuntimeCall::Input { surface: surface.duplicate(), bytes: copy_bytes(bytes) });
        Ok(())
    }

    /// Resize a surface: recorded.
    pub fn resize(&mut self, surface: &SurfaceId, cols: u16, rows: u16) -> (r: Result<()>)
        ensures
            r is Ok,
            final(self)@ == (FakeView {
                calls: old(self)@.calls.push(CallView::Resize(surface@, cols, rows)),
                ..old(self)@
            }),
    {
        self.record(RuntimeCall::Resize { surface: surface.duplicate(), cols, rows });
        Ok(())
    }

    /// Attach to a surface: recorded.
    pub fn attach(&mut self, surface: &SurfaceId) -> (r: Result<()>)
        ensures
            r is Ok,
            final(self)@ == (FakeView { calls: old(self)@.calls.push(CallView::Attach(surface@)), ..old(self)@ }),
    {
        self.record(RuntimeCall::Attach(surface.duplicate()));
        Ok(())
    }

    /// Detach from a surface: recorded.
    pub fn detach(&mut self, surface: &SurfaceId) -> (r: Result<()>)
        ensures
            r is Ok,
            final(self)@ == (FakeView { calls: old(self)@.calls.push(CallView::Detach(surface@)), ..old(self)@ }),
    {
        self.record(RuntimeCall::Detach(surface.duplicate()));
        Ok(())
    }

    /// Queue an output frame for `recv`.
    pub fn enqueue_output(&mut self, surface: &str, output: Output)
        ensures
            final(self)@ == (FakeView {
                pending: old(self)@.pending.push(SurfaceOutput { surface: final(self)@.pending.last().surface, output }),
                ..old(self)@
            }),
            final(self)@.pending.last().surface@ == surface@,
    {
        self.pending.push(SurfaceOutput { surface: surface.to_owned(), output });
    }

    /// The oldest queued output frame, if any.
    pub fn recv(&mut self) -> (r: Option<SurfaceOutput>)
        ensures
            old(self)@.pending.len() == 0 ==> r is None && final(self)@ == old(self)@,
            old(self)@.pending.len() > 0 ==> r == Some(old(self)@.pending[0]) && final(self)@ == (FakeView {
                pending: old(self)@.pending.drop_first(),
                ..old(self)@
            }),
    {
        if self.pending.len() == 0 {
            return None;
        }
        let first = self.pending.remove(0);
        proof {
            assert(self.pending@ =~= old(self).pending@.drop_first());
        }
        Some(first)
    }
}

// ── the daemon proxy ─────────────────────────────────────────────────────────

/// The state of a surface's output proxy: attaching (input is queued until
/// the daemon acknowledges the spawn), live, or closed.
pub enum ProxyState {
    Attaching(Vec<Vec<u8>>),
    Live,
    Closed,
}

/// A frame the daemon sends about a surface.
pub enum DaemonFrame {
    SpawnAck,
    Data(Vec<u8>),
    Status(String),
    Exit(String),
    Error { code: String, message: String },
    ListAck,
    HelloAck,
    Other,
}

/// What the proxy does about one frame.
pub struct FrameEffect {
    /// Input queued while attaching, to send now, oldest first.
    pub flush: Vec<Vec<u8>>,
    /// What to hand the surface's event sink.
    pub event: Option<Output>,
    /// How many bytes to acknowledge to the daemon.
    pub ack: Option<usize>,
    /// Whether to keep reading frames.
    pub keep_reading: bool,
}

/// The byte values of a queue of chunks.
pub open spec fn chunks(q: Seq<Vec<u8>>) -> Seq<Seq<u8>> {
    q.map_values(|c: Vec<u8>| c@)
}

/// The state after a spawn acknowledgement: a closed proxy stays closed, any
/// other becomes live.
pub fn other_to_live(state: ProxyState) -> (r: ProxyState)
    ensures
        (state is Closed) ==> (r is Closed),
        !(state is Closed) ==> (r is Live),
{
    match state {
        ProxyState::Closed => ProxyState::Closed,
        _ => ProxyState::Live,
    }
}

/// Apply a daemon frame to a surface's proxy: a spawn acknowledgement makes
/// the proxy live and releases the input queued while attaching; data is
/// handed to the sink and acknowledged; status and errors are handed to the
/// sink; an exit is handed to the sink, closes the proxy and ends reading.
pub fn handle_frame(state: &mut ProxyState, frame: DaemonFrame) -> (e: FrameEffect)
    ensures
        match frame {
            DaemonFrame::SpawnAck => {
                &&& e.event is None
                &&& e.ack is None
                &&& e.keep_reading
                &&& match *old(state) {
                    ProxyState::Attaching(q) => (*final(state) is Live) && chunks(e.flush@) == chunks(q@),
                    ProxyState::Live => (*final(state) is Live) && e.flush@.len() == 0,
                    ProxyState::Closed => (*final(state) is Closed) && e.flush@.len() == 0,
                }
            },
            DaemonFrame::Data(b) => {
                &&& *final(state) == *old(state)
                &&& e.flush@.len() == 0
                &&& e.event == Some(Output::Bytes(b))
                &&& e.ack == Some(b@.len() as usize)
                &&& e.keep_reading
            },
            DaemonFrame::Status(st) => {
                &&& *final(state) == *old(state)
                &&& e.flush@.len() == 0
                &&& e.event == Some(Output::Status(st))
                &&& e.ack is None
                &&& e.keep_reading
            },
            DaemonFrame::Exit(q) => {
                &&& *final(state) is Closed
                &&& e.flush@.len() == 0
                &&& e.event == Some(Output::Exit(q))
                &&& e.ack is None
                &&& !e.keep_reading
            },
            DaemonFrame::Error { code, message } => {
                &&& *final(state) == *old(state)
                &&& e.flush@.len() == 0
                &&& e.event == Some(Output::Error(message))
                &&& e.ack is None
                &&& e.keep_reading
            },
            _ => {
                &&& *final(state) == *old(state)
                &&& e.flush@.len() == 0
                &&& e.event is None
                &&& e.ack is None
                &&& e.keep_reading
            },
        },
{
    match frame {
        DaemonFrame::SpawnAck => {
            let mut prev = ProxyState::Live;
            std::mem::swap(&mut prev, state);
            let queued = match prev {
                ProxyState::Attaching(queue) => queue,
                other => {
                    *state = other_to_live(other);
                    Vec::new()
                },
            };
            FrameEffect { flush: queued, event: None, ack: None, keep_reading: true }
        },
        DaemonFrame::Data(bytes) => {
            let n = bytes.len();
            FrameEffect { flush: Vec::new(), event: Some(Output::Bytes(bytes)), ack: Some(n), keep_reading: true }
        },
        DaemonFrame::Status(status) => {
            FrameEffect { flush: Vec::new(), event: Some(Output::Status(status)), ack: None, keep_reading: true }
        },
        DaemonFrame::Exit(qualifier) => {
            *state = ProxyState::Closed;
            FrameEffect { flush: Vec::new(), event: Some(Output::Exit(qualifier)), ack: None, keep_reading: false }
        },
        DaemonFrame::Error { code, message } => {
            FrameEffect { flush: Vec::new(), event: Some(Output::Error(message)), ack: None, keep_reading: true }
        },
        _ => FrameEffect { flush: Vec::new(), event: None, ack: None, keep_reading: true },
    }
}

/// Input for a surface's proxy: queued while attaching (`Ok(false)`), to be
/// sent now when live (`Ok(true)`), refused when closed.
pub fn proxy_input(state: &mut ProxyState, surface: &SurfaceId, bytes: &[u8]) -> (r: Result<bool>)
    ensures
        match *old(state) {
            ProxyState::Attaching(q) => r == Ok::<bool, OrchestratorError>(false) && (match *final(state) {
                ProxyState::Attaching(q2) => chunks(q2@) == chunks(q@).push(bytes@),
                _ => false,
            }),
            ProxyState::Live => r == Ok::<bool, OrchestratorError>(true) && *final(state) is Live,
            ProxyState::Closed => (*final(state) is Closed) && (r matches Err(e) && is_surface_error(
                e,
                surface@,
                "surface is closed"@,
            )),
        },
{
    match state {
        ProxyState::Attaching(queue) => {
            let ghost before = queue@;
            queue.push(copy_bytes(bytes));
            proof {
                assert(chunks(queue@) =~= chunks(before).push(bytes@));
            }
            Ok(false)
        },
        ProxyState::Live => Ok(true),
        ProxyState::Closed => Err(surface_err(surface, "surface is closed")),
    }
}

/// The checks before launching a surface: one proxy per surface, and only
/// terminals launch.
pub fn launch_check(has_proxy: bool, surface: &SurfaceId, kind: SurfaceKind) -> (r: Result<()>)
    ensures
        has_proxy ==> (r matches Err(e) && is_surface_error(e, surface@, "surface already has a proxy"@)),
        !has_proxy && kind != SurfaceKind::Terminal ==> (r matches Err(e) && is_surface_error(
            e,
            surface@,
            "unsupported surface kind for launch: "@ + "diff"@,
        )),
        !has_proxy && kind == SurfaceKind::Terminal ==> r is Ok,
{
    if has_proxy {
        return Err(surface_err(surface, "surface already has a proxy"));
    }
    if kind != SurfaceKind::Terminal {
        let mut reason = "unsupported surface kind for launch: ".to_owned();
        reason.append(kind.as_str());
        return Err(surface_err(surface, reason.as_str()));
    }
    Ok(())
}

/// The check on the daemon's first reply when attaching to a running
/// session: an error frame means the session cannot be resumed.
pub fn attach_reply_check(surface: &SurfaceId, first: &DaemonFrame) -> (r: Result<()>)
    ensures
        match *first {
            DaemonFrame::Error { code, message } => r matches Err(e) && is_surface_error(
                e,
                surface@,
                "session not resumable: "@ + code@ + " "@ + message@,
            ),
            _ => r is Ok,
        },
{
    match first {
        DaemonFrame::Error { code, message } => {
            let mut reason = "session not resumable: ".to_owned();
            reason.append(code.as_str());
            reason.append(" ");
            reason.append(message.as_str());
            Err(surface_err(surface, reason.as_str()))
        },
        _ => Ok(()),
    }
}

} // verus!
