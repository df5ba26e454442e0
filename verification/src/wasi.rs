//! In-process WASI guests: cooperative Ctrl+C and the Preview 1 module cache.
//! The host keeps one `InterruptState` and one `ModuleCache` for the process and
//! performs what these decide (epoch ticks, socket shutdown, module loads).
use vstd::prelude::*;

verus! {

/// Whether a Ctrl+C was requested, whether a guest runs, and whether its engine
/// is registered for epoch interruption.
#[derive(Debug, Clone, Copy, PartialEq, Eq, Structural)]
pub struct InterruptState {
    pub interrupted: bool,
    pub running: bool,
    pub engine_registered: bool,
}

impl InterruptState {
    /// No request, no guest, no engine.
    pub fn new() -> (r: Self)
        ensures
            r == (InterruptState { interrupted: false, running: false, engine_registered: false }),
    {
        InterruptState { interrupted: false, running: false, engine_registered: false }
    }
}

/// The exit code of a guest cancelled by Ctrl+C: 128 + SIGINT.
pub const INTERRUPTED_EXIT: i32 = 130;

/// The epoch ticks a request gives a registered engine, so that a guest already
/// past deadline 1 still traps.
pub const REQUEST_EPOCH_TICKS: u32 = 2;

pub fn is_set(state: &InterruptState) -> (r: bool)
    ensures
        r == state.interrupted,
{
    state.interrupted
}

pub fn is_running(state: &InterruptState) -> (r: bool)
    ensures
        r == state.running,
{
    state.running
}

/// The state after a Ctrl+C request.
pub open spec fn requested(s: InterruptState) -> InterruptState {
    InterruptState { interrupted: true, ..s }
}

/// The state once a session has begun.
pub open spec fn began() -> InterruptState {
    InterruptState { interrupted: false, running: true, engine_registered: true }
}

/// The state once a session has ended.
pub open spec fn ended(s: InterruptState) -> InterruptState {
    InterruptState { interrupted: s.interrupted, running: false, engine_registered: false }
}

/// What a run returns in state `s`.
pub open spec fn run_result<E>(s: InterruptState, result: Result<i32, E>) -> Result<i32, E> {
    if s.interrupted {
        Ok(INTERRUPTED_EXIT)
    } else {
        result
    }
}

/// Request Ctrl+C: the flag is set, and the epoch ticks the registered engine
/// (if any) must get are returned. The host then shuts the guest's sockets.
pub fn request(state: &mut InterruptState) -> (ticks: u32)
    ensures
        *final(state) == requested(*old(state)),
        ticks == if old(state).engine_registered {
            REQUEST_EPOCH_TICKS
        } else {
            0
        },
{
    state.interrupted = true;
    if state.engine_registered {
        REQUEST_EPOCH_TICKS
    } else {
        0
    }
}

/// A guest run with its engine registered for interruption.
pub struct RunSession {
    _private: (),
}

impl RunSession {
    /// Register the live engine: any earlier request is cleared and a guest runs.
    /// The host arms the store's epoch deadline trap.
    pub fn begin(state: &mut InterruptState) -> (r: Self)
        ensures
            *final(state) == began(),
    {
        state.interrupted = false;
        state.running = true;
        state.engine_registered = true;
        RunSession { _private: () }
    }

    /// End the run: no guest runs and no engine is registered; a request stays
    /// visible. The host shuts the guest's sockets.
    pub fn end(self, state: &mut InterruptState)
        ensures
            *final(state) == ended(*old(state)),
    {
        state.running = false;
        state.engine_registered = false;
    }
}

/// A run cancelled by Ctrl+C exits with 130, whatever it returned.
pub fn map_run_result<E>(state: &InterruptState, result: Result<i32, E>) -> (r: Result<i32, E>)
    ensures
        r == run_result(*state, result),
{
    if state.interrupted {
        return Ok(INTERRUPTED_EXIT);
    }
    result
}

/// Ctrl+C during a run makes the run's result 130, whatever the guest returned,
/// and the request is still seen once the session has ended.
pub proof fn lemma_request_cancels_run<E>(result: Result<i32, E>)
    ensures
        run_result(requested(began()), result) == Ok::<i32, E>(INTERRUPTED_EXIT),
        run_result(ended(requested(began())), result) == Ok::<i32, E>(INTERRUPTED_EXIT),
{
}

/// A new session forgets an earlier request: its result is the guest's own.
pub proof fn lemma_begin_clears_request<E>(s: InterruptState, result: Result<i32, E>)
    ensures
        run_result(began(), result) == result,
{
}

// ---------------------------------------------------------------------------
// The Preview 1 module cache
// ---------------------------------------------------------------------------

/// A compiled module and the file it came from: path, modification time (in
/// nanoseconds since the epoch) and length.
pub struct CachedModule<M> {
    pub path: String,
    pub modified: u128,
    pub len: u64,
    pub module: M,
}

/// The module an entry holds for the file `(path, modified, len)`, if it is that file's.
pub open spec fn cache_hit<M>(entry: Option<CachedModule<M>>, path: Seq<char>, modified: u128, len: u64) -> Option<M> {
    match entry {
        Some(c) => if c.path@ == path && c.modified == modified && c.len == len {
            Some(c.module)
        } else {
            None
        },
        None => None,
    }
}

/// The one module the shared engine keeps compiled.
pub struct ModuleCache<M> {
    pub entry: Option<CachedModule<M>>,
}

impl<M> ModuleCache<M> {
    pub fn new() -> (r: Self)
        ensures
            r.entry is None,
    {
        ModuleCache { entry: None }
    }

    /// The cached module, when the file is the one it came from.
    pub fn lookup(&self, path: &str, modified: u128, len: u64) -> (r: Option<&M>)
        ensures
            match cache_hit(self.entry, path@, modified, len) {
                Some(m) => r is Some && *r->Some_0 == m,
                None => r is None,
            },
    {
        match &self.entry {
            Some(c) => if crate::text::str_eq(c.path.as_str(), path) && c.modified == modified
                && c.len == len {
                Some(&c.module)
            } else {
                None
            },
            None => None,
        }
    }

    /// Keep `module` as the one compiled from this file.
    pub fn store(&mut self, path: String, modified: u128, len: u64, module: M)
        ensures
            final(self).entry == Some(CachedModule { path, modified, len, module }),
    {
        self.entry = Some(CachedModule { path, modified, len, module });
    }
}

/// Drop the cached module (benches and tests).
pub fn clear_module_cache_for_bench<M>(cache: &mut ModuleCache<M>)
    ensures
        final(cache).entry is None,
{
    cache.entry = None;
}

/// A module stored for a file is found again for that file and for no other,
/// and nothing is found once the cache is cleared.
pub proof fn lemma_store_then_lookup<M>(
    path: String,
    modified: u128,
    len: u64,
    module: M,
    other: Seq<char>,
    other_modified: u128,
    other_len: u64,
)
    ensures
        cache_hit(Some(CachedModule { path, modified, len, module }), path@, modified, len) == Some(
            module,
        ),
        (other != path@ || other_modified != modified || other_len != len) ==> cache_hit(
            Some(CachedModule { path, modified, len, module }),
            other,
            other_modified,
            other_len,
        ) is None,
        cache_hit(None::<CachedModule<M>>, other, other_modified, other_len) is None,
{
}

} // verus!
