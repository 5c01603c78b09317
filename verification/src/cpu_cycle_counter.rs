//! Attribution of CPU cycles to the execution states of each thread.
//!
//! A fixed table of per-thread slots holds the counters. Each thread keeps a
//! stack of context frames; whenever the state on top of the stack changes,
//! the cycles that passed since the frame was entered are charged to the
//! state that was active during them.

use vstd::prelude::*;
use vstd::wrapping::u64_specs;
use crate::text::{append_decimal, decimal};

verus! {

/// Number of slots in the thread registry.
pub const MAX_THREADS: usize = 4096;

/// Greatest number of frames on a thread's context stack.
pub const MAX_CONTEXT_DEPTH: usize = 32;

/// Life cycle of a registry slot.
#[derive(Clone, Copy, Debug, PartialEq, Eq, Structural)]
pub enum ThreadState {
    Uninitialized,
    Active,
    Terminated,
}

/// The counters of one registered thread.
#[derive(Clone, Copy, Debug, PartialEq, Eq, Structural)]
pub struct ThreadStats {
    pub thread_id: u64,
    pub state: ThreadState,
    pub start_tsc: u64,
    pub last_known_tsc: u64,
    /// Cycles spent in each of the four mutually exclusive states.
    pub normal_cycles: u64,
    pub unsafe_cycles: u64,
    pub external_safe_cycles: u64,
    pub external_unsafe_cycles: u64,
    /// Number of tagged regions entered and of external calls made.
    pub unsafe_blocks: u64,
    pub external_calls: u64,
}

impl ThreadStats {
    /// A slot that no thread owns: every counter zero.
    pub open spec fn empty() -> ThreadStats {
        ThreadStats {
            thread_id: 0,
            state: ThreadState::Uninitialized,
            start_tsc: 0,
            last_known_tsc: 0,
            normal_cycles: 0,
            unsafe_cycles: 0,
            external_safe_cycles: 0,
            external_unsafe_cycles: 0,
            unsafe_blocks: 0,
            external_calls: 0,
        }
    }

    /// Sum of the four per-state accumulators.
    pub open spec fn attributed(&self) -> int {
        self.normal_cycles + self.unsafe_cycles + self.external_safe_cycles
            + self.external_unsafe_cycles
    }

    /// The counters of a slot that no thread owns.
    pub fn new() -> (stats: Self)
        ensures
            stats == ThreadStats::empty(),
    {
        ThreadStats {
            thread_id: 0,
            state: ThreadState::Uninitialized,
            start_tsc: 0,
            last_known_tsc: 0,
            normal_cycles: 0,
            unsafe_cycles: 0,
            external_safe_cycles: 0,
            external_unsafe_cycles: 0,
            unsafe_blocks: 0,
            external_calls: 0,
        }
    }
}

/// What a registry holds, as plain values.
pub struct RegistryView {
    pub slots: Seq<ThreadStats>,
    pub high_water: int,
    pub report_written: bool,
}

/// The table of thread slots.
pub struct ThreadRegistry {
    threads: Vec<ThreadStats>,
    next_slot: usize,
    stats_written: bool,
}

/// Some slot below `limit` is terminated, and `i` is the first such slot.
pub open spec fn first_terminated(slots: Seq<ThreadStats>, limit: int, i: int) -> bool {
    &&& 0 <= i < limit
    &&& slots[i].state == ThreadState::Terminated
    &&& forall|j: int| 0 <= j < i ==> (#[trigger] slots[j]).state != ThreadState::Terminated
}

/// No slot below `limit` is terminated.
pub open spec fn none_terminated(slots: Seq<ThreadStats>, limit: int) -> bool {
    forall|j: int| 0 <= j < limit ==> (#[trigger] slots[j]).state != ThreadState::Terminated
}

/// A thread that asks for a slot gets slot `s`: the first terminated slot
/// below the high-water mark, or the slot at the mark where none is
/// terminated.
pub open spec fn claims(registry: RegistryView, s: int) -> bool {
    ||| first_terminated(registry.slots, registry.high_water, s)
    ||| {
        &&& none_terminated(registry.slots, registry.high_water)
        &&& s == registry.high_water
        &&& s < MAX_THREADS
    }
}

/// No slot is left for a thread that asks for one.
pub open spec fn exhausted(registry: RegistryView) -> bool {
    &&& none_terminated(registry.slots, registry.high_water)
    &&& registry.high_water == MAX_THREADS
}

impl View for ThreadRegistry {
    type V = RegistryView;

    open spec fn view(&self) -> RegistryView {
        RegistryView {
            slots: self.slots(),
            high_water: self.high_water(),
            report_written: self.report_written(),
        }
    }
}

impl ThreadRegistry {
    /// The slots, by index.
    pub closed spec fn slots(&self) -> Seq<ThreadStats> {
        self.threads@
    }

    /// Number of slots that have been handed out at least once.
    pub closed spec fn high_water(&self) -> int {
        self.next_slot as int
    }

    /// Whether the report has been claimed.
    pub closed spec fn report_written(&self) -> bool {
        self.stats_written
    }

    /// The table has its fixed size, and no slot at or above the high-water
    /// mark has ever been touched.
    pub open spec fn wf(&self) -> bool {
        &&& self.slots().len() == MAX_THREADS
        &&& 0 <= self.high_water() <= MAX_THREADS
        &&& forall|i: int|
            self.high_water() <= i < MAX_THREADS ==> #[trigger] self.slots()[i]
                == ThreadStats::empty()
    }

    /// A registry all of whose slots are free.
    pub fn new() -> (registry: Self)
        ensures
            registry.wf(),
            registry.high_water() == 0,
            !registry.report_written(),
    {
        let mut threads: Vec<ThreadStats> = Vec::new();
        let mut i: usize = 0;
        while i < MAX_THREADS
            invariant
                i <= MAX_THREADS,
                threads@.len() == i,
                forall|j: int| 0 <= j < i ==> #[trigger] threads@[j] == ThreadStats::empty(),
            decreases MAX_THREADS - i,
        {
            threads.push(ThreadStats::new());
            i += 1;
        }
        ThreadRegistry { threads, next_slot: 0, stats_written: false }
    }

    /// Claims a slot for a new thread: the first terminated slot below the
    /// high-water mark, reset to zero, or else the slot at the mark. `None`
    /// when neither exists; the registry is then left as it was.
    pub fn allocate_slot(&mut self) -> (slot: Option<usize>)
        requires
            old(self).wf(),
        ensures
            final(self).wf(),
            match slot {
                Some(i) => {
                    &&& claims(old(self)@, i as int)
                    &&& final(self)@ == (RegistryView {
                        slots: old(self).slots().update(i as int, ThreadStats::empty()),
                        high_water: if i < old(self).high_water() {
                            old(self).high_water()
                        } else {
                            i + 1
                        },
                        ..old(self)@
                    })
                },
                None => exhausted(old(self)@) && final(self)@ == old(self)@,
            },
    {
        let limit = self.next_slot;
        let mut i: usize = 0;
        while i < limit
            invariant
                i <= limit,
                limit == self.next_slot,
                *self == *old(self),
                self.wf(),
                none_terminated(self.slots(), i as int),
            decreases limit - i,
        {
            if self.threads[i].state == ThreadState::Terminated {
                self.threads.set(i, ThreadStats::new());
                return Some(i);
            }
            i += 1;
        }
        if self.next_slot < MAX_THREADS {
            let slot = self.next_slot;
            self.next_slot = slot + 1;
            assert(self.slots() =~= old(self).slots().update(slot as int, ThreadStats::empty()));
            Some(slot)
        } else {
            None
        }
    }
}

/// The four mutually exclusive states a thread can be in.
#[derive(Clone, Copy, Debug, PartialEq, Eq, Structural)]
pub enum ExecutionState {
    /// Ordinary code.
    Normal,
    /// Inside a tagged region, outside any external call.
    Unsafe,
    /// Inside an external call made from ordinary code.
    ExternalSafe,
    /// Inside an external call made from a tagged region.
    ExternalUnsafe,
}

/// One entry of a thread's context stack: the state that has been active
/// since `start_tsc`.
#[derive(Clone, Copy, Debug, PartialEq, Eq, Structural)]
pub struct ContextFrame {
    pub state: ExecutionState,
    pub start_tsc: u64,
}

/// Why a context operation was not carried out.
#[derive(Clone, Copy, Debug, PartialEq, Eq, Structural)]
pub enum ContextError {
    ThreadNotInitialized,
    InvalidStackDepth,
    StackOverflow,
    EmptyStack,
}

impl ContextError {
    /// The error in words.
    pub fn message(&self) -> (text: &'static str)
        ensures
            text@ == match *self {
                ContextError::ThreadNotInitialized => "Thread not initialized"@,
                ContextError::InvalidStackDepth => "Invalid stack depth"@,
                ContextError::StackOverflow => "Context stack overflow"@,
                ContextError::EmptyStack => "Cannot pop from empty context stack"@,
            },
    {
        match self {
            ContextError::ThreadNotInitialized => "Thread not initialized",
            ContextError::InvalidStackDepth => "Invalid stack depth",
            ContextError::StackOverflow => "Context stack overflow",
            ContextError::EmptyStack => "Cannot pop from empty context stack",
        }
    }
}

/// What a thread keeps for itself: the slot it owns, if any, and its stack
/// of context frames, innermost last.
pub struct ThreadContext {
    pub slot: Option<usize>,
    pub frames: Vec<ContextFrame>,
}

/// A thread's context as plain values.
pub struct ContextView {
    pub slot: Option<usize>,
    pub frames: Seq<ContextFrame>,
}

impl View for ThreadContext {
    type V = ContextView;

    open spec fn view(&self) -> ContextView {
        ContextView { slot: self.slot, frames: self.frames@ }
    }
}

impl ThreadContext {
    /// The context of a thread that has not registered.
    pub fn new() -> (ctx: Self)
        ensures
            ctx@.slot is None,
            ctx@.frames.len() == 0,
    {
        ThreadContext { slot: None, frames: Vec::new() }
    }
}

/// The counters of one thread together with its context stack: all that the
/// state machine of one thread reads and writes.
#[verifier::ext_equal]
pub struct Engine {
    pub stats: ThreadStats,
    pub frames: Seq<ContextFrame>,
}

/// `stats` after the cycles between the start of `frame` and `now` have been
/// added to the accumulator of the frame's state. Nothing is added for a
/// frame that starts at zero or does not lie in the past.
pub open spec fn charge(stats: ThreadStats, frame: ContextFrame, now: u64) -> ThreadStats {
    if frame.start_tsc > 0 && now > frame.start_tsc {
        let elapsed = (now - frame.start_tsc) as u64;
        match frame.state {
            ExecutionState::Normal => ThreadStats {
                normal_cycles: u64_specs::wrapping_add(stats.normal_cycles, elapsed),
                ..stats
            },
            ExecutionState::Unsafe => ThreadStats {
                unsafe_cycles: u64_specs::wrapping_add(stats.unsafe_cycles, elapsed),
                ..stats
            },
            ExecutionState::ExternalSafe => ThreadStats {
                external_safe_cycles: u64_specs::wrapping_add(stats.external_safe_cycles, elapsed),
                ..stats
            },
            ExecutionState::ExternalUnsafe => ThreadStats {
                external_unsafe_cycles: u64_specs::wrapping_add(
                    stats.external_unsafe_cycles,
                    elapsed,
                ),
                ..stats
            },
        }
    } else {
        stats
    }
}

/// The counters of a slot whose thread registered at `now`.
pub open spec fn started(thread_id: u64, now: u64) -> ThreadStats {
    ThreadStats {
        thread_id,
        state: ThreadState::Active,
        start_tsc: now,
        last_known_tsc: now,
        ..ThreadStats::empty()
    }
}

/// The state a thread is in once it enters a tagged region from `state`.
pub open spec fn tagged(state: ExecutionState) -> ExecutionState {
    match state {
        ExecutionState::Normal => ExecutionState::Unsafe,
        ExecutionState::ExternalSafe => ExecutionState::ExternalUnsafe,
        _ => state,
    }
}

/// The state a thread is in once it leaves a tagged region from `state`.
pub open spec fn untagged(state: ExecutionState) -> ExecutionState {
    match state {
        ExecutionState::Unsafe => ExecutionState::Normal,
        ExecutionState::ExternalUnsafe => ExecutionState::ExternalSafe,
        _ => state,
    }
}

/// The state of an external call that is made from `state`.
pub open spec fn external(state: ExecutionState) -> ExecutionState {
    match state {
        ExecutionState::Unsafe => ExecutionState::ExternalUnsafe,
        _ => ExecutionState::ExternalSafe,
    }
}

impl Engine {
    /// A thread right after it registered at `now`: one `Normal` frame.
    pub open spec fn begin(thread_id: u64, now: u64) -> Engine {
        Engine {
            stats: started(thread_id, now),
            frames: seq![ContextFrame { state: ExecutionState::Normal, start_tsc: now }],
        }
    }

    /// The state on top of the stack; `Normal` for an empty stack.
    pub open spec fn current(self) -> ExecutionState {
        if self.frames.len() > 0 {
            self.frames.last().state
        } else {
            ExecutionState::Normal
        }
    }

    /// The top frame is charged up to `now` and then restarts at `now` in
    /// `new_state`. Needs a frame.
    pub open spec fn transition(self, new_state: ExecutionState, now: u64) -> Engine {
        Engine {
            stats: charge(self.stats, self.frames.last(), now),
            frames: self.frames.update(
                self.frames.len() - 1,
                ContextFrame { state: new_state, start_tsc: now },
            ),
        }
    }

    /// The top frame, if there is one, is charged up to `now`, and a frame
    /// in `new_state` that starts at `now` is put on top of it.
    pub open spec fn push(self, new_state: ExecutionState, now: u64) -> Engine {
        Engine {
            stats: if self.frames.len() > 0 {
                charge(self.stats, self.frames.last(), now)
            } else {
                self.stats
            },
            frames: self.frames.push(ContextFrame { state: new_state, start_tsc: now }),
        }
    }

    /// The top frame is charged up to `now` and removed; the frame below it
    /// resumes at `now`. Needs two frames.
    pub open spec fn pop(self, now: u64) -> Engine {
        let below = self.frames[self.frames.len() - 2];
        Engine {
            stats: charge(self.stats, self.frames.last(), now),
            frames: self.frames.drop_last().update(
                self.frames.len() - 2,
                ContextFrame { state: below.state, start_tsc: now },
            ),
        }
    }

    /// The thread ends at `now`: what is left of the top frame is charged,
    /// and the slot is marked as terminated.
    pub open spec fn finish(self, now: u64) -> Engine {
        let charged = if self.frames.len() > 0 {
            charge(self.stats, self.frames.last(), now)
        } else {
            self.stats
        };
        Engine {
            stats: ThreadStats {
                last_known_tsc: now,
                state: ThreadState::Terminated,
                ..charged
            },
            frames: self.frames,
        }
    }

    /// A tagged region is entered at `now`: the top frame moves to the tagged
    /// form of its state, and the entry is counted. Nothing happens without
    /// a frame.
    pub open spec fn enter_tagged(self, now: u64) -> Engine {
        if self.frames.len() == 0 {
            self
        } else {
            let moved = self.transition(tagged(self.current()), now);
            Engine {
                stats: ThreadStats {
                    unsafe_blocks: u64_specs::wrapping_add(moved.stats.unsafe_blocks, 1),
                    ..moved.stats
                },
                frames: moved.frames,
            }
        }
    }

    /// A tagged region is left at `now`: the top frame moves to the untagged
    /// form of its state. Nothing happens without a frame.
    pub open spec fn exit_tagged(self, now: u64) -> Engine {
        if self.frames.len() == 0 {
            self
        } else {
            self.transition(untagged(self.current()), now)
        }
    }

    /// An external call begins at `now`: a frame for it goes on top of the
    /// stack, and the call is counted. Nothing happens on a full stack.
    pub open spec fn enter_external(self, now: u64) -> Engine {
        if self.frames.len() >= MAX_CONTEXT_DEPTH {
            self
        } else {
            let pushed = self.push(external(self.current()), now);
            Engine {
                stats: ThreadStats {
                    external_calls: u64_specs::wrapping_add(pushed.stats.external_calls, 1),
                    ..pushed.stats
                },
                frames: pushed.frames,
            }
        }
    }

    /// An external call returns at `now`: its frame leaves the stack.
    /// Nothing happens when only the first frame is left.
    pub open spec fn exit_external(self, now: u64) -> Engine {
        if self.frames.len() <= 1 {
            self
        } else {
            self.pop(now)
        }
    }
}

/// A registry and the context of one of the threads that use it: the stack
/// is within its bound, a thread without a slot has no frames, and the slot
/// of a thread that has one is a slot that the registry has handed out.
pub open spec fn attached(registry: &ThreadRegistry, ctx: &ThreadContext) -> bool {
    &&& registry.wf()
    &&& ctx@.frames.len() <= MAX_CONTEXT_DEPTH
    &&& match ctx@.slot {
        Some(s) => s < registry.high_water(),
        None => ctx@.frames.len() == 0,
    }
}

/// `s` is the slot of the thread once it is registered: the one it has, or
/// the one it is given.
pub open spec fn registers(registry: RegistryView, ctx: ContextView, s: int) -> bool {
    match ctx.slot {
        Some(t) => s == t,
        None => claims(registry, s),
    }
}

/// The state machine of the thread once it is registered in slot `s`: what
/// it has, or the beginning for a thread that registers at `now`.
pub open spec fn entry(
    registry: RegistryView,
    ctx: ContextView,
    s: int,
    thread_id: u64,
    now: u64,
) -> Engine {
    if ctx.slot is Some {
        Engine { stats: registry.slots[s], frames: ctx.frames }
    } else {
        Engine::begin(thread_id, now)
    }
}

/// `after` and `ctx` are `before` with the thread in slot `s` and its state
/// machine at `engine`; nothing else differs.
pub open spec fn installed(
    before: RegistryView,
    after: RegistryView,
    ctx: ContextView,
    s: int,
    engine: Engine,
) -> bool {
    &&& 0 <= s < MAX_THREADS
    &&& ctx.slot == Some(s as usize)
    &&& ctx.frames == engine.frames
    &&& after.slots == before.slots.update(s, engine.stats)
    &&& after.high_water == if s < before.high_water {
        before.high_water
    } else {
        s + 1
    }
    &&& after.report_written == before.report_written
}

impl ThreadRegistry {
    /// A copy of the counters in `slot`.
    pub fn get(&self, slot: usize) -> (stats: Option<ThreadStats>)
        requires
            self.wf(),
        ensures
            stats == if slot < MAX_THREADS {
                Some(self.slots()[slot as int])
            } else {
                None
            },
    {
        if slot < MAX_THREADS {
            Some(self.threads[slot])
        } else {
            None
        }
    }

    /// Number of slots that have been handed out at least once.
    pub fn next_slot(&self) -> (n: usize)
        ensures
            n == self.high_water(),
    {
        self.next_slot
    }

    /// Adds the cycles between the start of `frame` and `now` to the
    /// accumulator of the frame's state in `slot`.
    fn charge_slot(&mut self, slot: usize, frame: ContextFrame, now: u64)
        requires
            old(self).wf(),
            slot < old(self).high_water(),
        ensures
            final(self).wf(),
            final(self)@ == (RegistryView {
                slots: old(self).slots().update(
                    slot as int,
                    charge(old(self).slots()[slot as int], frame, now),
                ),
                ..old(self)@
            }),
    {
        if frame.start_tsc > 0 && now > frame.start_tsc {
            let elapsed = now - frame.start_tsc;
            let mut stats = self.threads[slot];
            match frame.state {
                ExecutionState::Normal => {
                    stats.normal_cycles = stats.normal_cycles.wrapping_add(elapsed);
                },
                ExecutionState::Unsafe => {
                    stats.unsafe_cycles = stats.unsafe_cycles.wrapping_add(elapsed);
                },
                ExecutionState::ExternalSafe => {
                    stats.external_safe_cycles = stats.external_safe_cycles.wrapping_add(elapsed);
                },
                ExecutionState::ExternalUnsafe => {
                    stats.external_unsafe_cycles = stats.external_unsafe_cycles.wrapping_add(
                        elapsed,
                    );
                },
            }
            self.threads.set(slot, stats);
        }
        assert(self.slots() =~= old(self).slots().update(
            slot as int,
            charge(old(self).slots()[slot as int], frame, now),
        ));
    }
}

/// Whether `ctx` is the context of a thread that uses `registry`.
pub fn is_attached(registry: &ThreadRegistry, ctx: &ThreadContext) -> (ok: bool)
    requires
        registry.wf(),
    ensures
        ok == attached(registry, ctx),
{
    ctx.frames.len() <= MAX_CONTEXT_DEPTH && match ctx.slot {
        Some(slot) => slot < registry.next_slot,
        None => ctx.frames.len() == 0,
    }
}

/// Registers the calling thread unless it is registered already, and gives
/// its slot. A thread that registers gets a slot whose counters are zero,
/// marked active, with `now` as its start, and a stack of one `Normal` frame
/// that starts at `now`. `None` when the registry has no slot left: nothing
/// changes then, and the thread stays untracked.
pub fn initialize_thread(
    registry: &mut ThreadRegistry,
    ctx: &mut ThreadContext,
    thread_id: u64,
    now: u64,
) -> (slot: Option<usize>)
    requires
        attached(old(registry), old(ctx)),
    ensures
        attached(final(registry), final(ctx)),
        match slot {
            Some(s) => {
                &&& registers(old(registry)@, old(ctx)@, s as int)
                &&& installed(
                    old(registry)@,
                    final(registry)@,
                    final(ctx)@,
                    s as int,
                    entry(old(registry)@, old(ctx)@, s as int, thread_id, now),
                )
            },
            None => {
                &&& old(ctx)@.slot is None
                &&& exhausted(old(registry)@)
                &&& final(registry)@ == old(registry)@
                &&& final(ctx)@ == old(ctx)@
            },
        },
{
    if let Some(slot) = ctx.slot {
        assert(registry.slots() =~= registry.slots().update(
            slot as int,
            registry.slots()[slot as int],
        ));
        return Some(slot);
    }
    match registry.allocate_slot() {
        Some(slot) => {
            let mut stats = registry.threads[slot];
            stats.thread_id = thread_id;
            stats.start_tsc = now;
            stats.last_known_tsc = now;
            stats.state = ThreadState::Active;
            registry.threads.set(slot, stats);
            let mut frames: Vec<ContextFrame> = Vec::new();
            frames.push(ContextFrame { state: ExecutionState::Normal, start_tsc: now });
            ctx.frames = frames;
            ctx.slot = Some(slot);
            assert(registry.slots() =~= old(registry).slots().update(
                slot as int,
                started(thread_id, now),
            ));
            assert(ctx@.frames =~= Engine::begin(thread_id, now).frames);
            Some(slot)
        },
        None => None,
    }
}

/// Moves the top frame of the calling thread to `new_state` at `now`, after
/// charging the cycles since the frame started to the state it was in. A
/// thread that is not registered is registered first.
///
/// Fails, and changes nothing, when the thread cannot be registered, or when
/// it is registered and has no frame.
pub fn transition_state(
    registry: &mut ThreadRegistry,
    ctx: &mut ThreadContext,
    new_state: ExecutionState,
    thread_id: u64,
    now: u64,
) -> (result: Result<(), ContextError>)
    requires
        attached(old(registry), old(ctx)),
    ensures
        attached(final(registry), final(ctx)),
        match result {
            Ok(()) => {
                &&& final(ctx)@.slot matches Some(s)
                &&& registers(old(registry)@, old(ctx)@, s as int)
                &&& entry(old(registry)@, old(ctx)@, s as int, thread_id, now).frames.len() > 0
                &&& installed(
                    old(registry)@,
                    final(registry)@,
                    final(ctx)@,
                    s as int,
                    entry(old(registry)@, old(ctx)@, s as int, thread_id, now).transition(
                        new_state,
                        now,
                    ),
                )
            },
            Err(e) => {
                &&& final(registry)@ == old(registry)@
                &&& final(ctx)@ == old(ctx)@
                &&& match e {
                    ContextError::ThreadNotInitialized => old(ctx)@.slot is None && exhausted(
                        old(registry)@,
                    ),
                    ContextError::InvalidStackDepth => old(ctx)@.slot is Some
                        && old(ctx)@.frames.len() == 0,
                    _ => false,
                }
            },
        },
{
    let slot = match ctx.slot {
        Some(slot) => slot,
        None => match initialize_thread(registry, ctx, thread_id, now) {
            Some(slot) => slot,
            None => {
                return Err(ContextError::ThreadNotInitialized);
            },
        },
    };
    let depth = ctx.frames.len();
    if depth == 0 || depth > MAX_CONTEXT_DEPTH {
        return Err(ContextError::InvalidStackDepth);
    }
    let ghost start = entry(old(registry)@, old(ctx)@, slot as int, thread_id, now);
    assert(start.frames == ctx@.frames && start.stats == registry.slots()[slot as int]);
    let frame = ctx.frames[depth - 1];
    registry.charge_slot(slot, frame, now);
    ctx.frames.set(depth - 1, ContextFrame { state: new_state, start_tsc: now });
    assert(ctx@.frames =~= start.transition(new_state, now).frames);
    assert(registry.slots() =~= old(registry).slots().update(
        slot as int,
        start.transition(new_state, now).stats,
    ));
    Ok(())
}

/// Puts a frame in `new_state` that starts at `now` on the stack of the
/// calling thread, after charging the cycles of the frame that it suspends.
/// A thread that is not registered is registered first.
///
/// Fails, and changes nothing, when the thread cannot be registered, or when
/// the stack is full: that level of nesting is then not tracked.
pub fn push_context(
    registry: &mut ThreadRegistry,
    ctx: &mut ThreadContext,
    new_state: ExecutionState,
    thread_id: u64,
    now: u64,
) -> (result: Result<(), ContextError>)
    requires
        attached(old(registry), old(ctx)),
    ensures
        attached(final(registry), final(ctx)),
        match result {
            Ok(()) => {
                &&& final(ctx)@.slot matches Some(s)
                &&& registers(old(registry)@, old(ctx)@, s as int)
                &&& entry(old(registry)@, old(ctx)@, s as int, thread_id, now).frames.len()
                    < MAX_CONTEXT_DEPTH
                &&& installed(
                    old(registry)@,
                    final(registry)@,
                    final(ctx)@,
                    s as int,
                    entry(old(registry)@, old(ctx)@, s as int, thread_id, now).push(
                        new_state,
                        now,
                    ),
                )
            },
            Err(e) => {
                &&& final(registry)@ == old(registry)@
                &&& final(ctx)@ == old(ctx)@
                &&& match e {
                    ContextError::ThreadNotInitialized => old(ctx)@.slot is None && exhausted(
                        old(registry)@,
                    ),
                    ContextError::StackOverflow => old(ctx)@.slot is Some
                        && old(ctx)@.frames.len() == MAX_CONTEXT_DEPTH,
                    _ => false,
                }
            },
        },
{
    let slot = match ctx.slot {
        Some(slot) => slot,
        None => match initialize_thread(registry, ctx, thread_id, now) {
            Some(slot) => slot,
            None => {
                return Err(ContextError::ThreadNotInitialized);
            },
        },
    };
    let depth = ctx.frames.len();
    if depth >= MAX_CONTEXT_DEPTH {
        return Err(ContextError::StackOverflow);
    }
    let ghost start = entry(old(registry)@, old(ctx)@, slot as int, thread_id, now);
    assert(start.frames == ctx@.frames && start.stats == registry.slots()[slot as int]);
    if depth > 0 {
        let frame = ctx.frames[depth - 1];
        registry.charge_slot(slot, frame, now);
    }
    ctx.frames.push(ContextFrame { state: new_state, start_tsc: now });
    assert(registry.slots() =~= old(registry).slots().update(
        slot as int,
        start.push(new_state, now).stats,
    ));
    Ok(())
}

/// Takes the top frame off the stack of the calling thread, after charging
/// its cycles up to `now`; the frame below it resumes at `now`.
///
/// Fails, and changes nothing, when the thread is not registered, or when
/// only the thread's first frame is left, which is never removed.
pub fn pop_context(registry: &mut ThreadRegistry, ctx: &mut ThreadContext, now: u64) -> (result:
    Result<(), ContextError>)
    requires
        attached(old(registry), old(ctx)),
    ensures
        attached(final(registry), final(ctx)),
        match result {
            Ok(()) => {
                &&& old(ctx)@.slot matches Some(s)
                &&& old(ctx)@.frames.len() > 1
                &&& installed(
                    old(registry)@,
                    final(registry)@,
                    final(ctx)@,
                    s as int,
                    (Engine { stats: old(registry).slots()[s as int], frames: old(ctx)@.frames })
                        .pop(now),
                )
            },
            Err(e) => {
                &&& final(registry)@ == old(registry)@
                &&& final(ctx)@ == old(ctx)@
                &&& match e {
                    ContextError::ThreadNotInitialized => old(ctx)@.slot is None,
                    ContextError::EmptyStack => old(ctx)@.slot is Some && old(ctx)@.frames.len()
                        <= 1,
                    _ => false,
                }
            },
        },
{
    let slot = match ctx.slot {
        Some(slot) => slot,
        None => {
            return Err(ContextError::ThreadNotInitialized);
        },
    };
    let depth = ctx.frames.len();
    if depth <= 1 {
        return Err(ContextError::EmptyStack);
    }
    let ghost start = Engine { stats: registry.slots()[slot as int], frames: ctx@.frames };
    let frame = ctx.frames[depth - 1];
    registry.charge_slot(slot, frame, now);
    ctx.frames.pop();
    let below = ctx.frames[depth - 2];
    ctx.frames.set(depth - 2, ContextFrame { state: below.state, start_tsc: now });
    assert(ctx@.frames =~= start.pop(now).frames);
    Ok(())
}

/// Ends the tracking of the calling thread at `now`: what is left of its top
/// frame is charged, `now` becomes the slot's last timestamp, and the slot is
/// marked as terminated, free for another thread to take. The thread's own
/// context is left as it is. Nothing happens for a thread without a slot.
pub fn thread_cleanup(registry: &mut ThreadRegistry, ctx: &ThreadContext, now: u64)
    requires
        attached(old(registry), ctx),
    ensures
        attached(final(registry), ctx),
        final(registry)@ == match ctx@.slot {
            Some(s) => RegistryView {
                slots: old(registry).slots().update(
                    s as int,
                    (Engine { stats: old(registry).slots()[s as int], frames: ctx@.frames })
                        .finish(now).stats,
                ),
                ..old(registry)@
            },
            None => old(registry)@,
        },
{
    if let Some(slot) = ctx.slot {
        if slot < MAX_THREADS {
            let depth = ctx.frames.len();
            if depth > 0 {
                let frame = ctx.frames[depth - 1];
                registry.charge_slot(slot, frame, now);
            }
            let mut stats = registry.threads[slot];
            stats.last_known_tsc = now;
            stats.state = ThreadState::Terminated;
            registry.threads.set(slot, stats);
            assert(registry.slots() =~= old(registry).slots().update(
                slot as int,
                (Engine { stats: old(registry).slots()[slot as int], frames: ctx@.frames }).finish(
                    now,
                ).stats,
            ));
        }
    }
}

/// Registers the calling thread at the start of the program. A thread for
/// which no slot is left stays without one, and nothing changes.
pub fn record_program_start(
    registry: &mut ThreadRegistry,
    ctx: &mut ThreadContext,
    thread_id: u64,
    now: u64,
)
    requires
        attached(old(registry), old(ctx)),
    ensures
        attached(final(registry), final(ctx)),
        if old(ctx)@.slot is None && exhausted(old(registry)@) {
            &&& final(registry)@ == old(registry)@
            &&& final(ctx)@ == old(ctx)@
        } else {
            &&& final(ctx)@.slot matches Some(s)
            &&& registers(old(registry)@, old(ctx)@, s as int)
            &&& installed(
                old(registry)@,
                final(registry)@,
                final(ctx)@,
                s as int,
                entry(old(registry)@, old(ctx)@, s as int, thread_id, now),
            )
        },
{
    let _ = initialize_thread(registry, ctx, thread_id, now);
}

/// The calling thread enters a tagged region at `now`. The thread is
/// registered first if need be; its top frame is charged and moves to the
/// tagged form of its state, and the entry is counted. Gives `now` back, or
/// zero for a thread that cannot be registered and stays untracked.
pub fn cpu_cycle_start_measurement(
    registry: &mut ThreadRegistry,
    ctx: &mut ThreadContext,
    thread_id: u64,
    now: u64,
) -> (timestamp: u64)
    requires
        attached(old(registry), old(ctx)),
    ensures
        attached(final(registry), final(ctx)),
        if old(ctx)@.slot is None && exhausted(old(registry)@) {
            &&& timestamp == 0
            &&& final(registry)@ == old(registry)@
            &&& final(ctx)@ == old(ctx)@
        } else {
            &&& timestamp == now
            &&& final(ctx)@.slot matches Some(s)
            &&& registers(old(registry)@, old(ctx)@, s as int)
            &&& installed(
                old(registry)@,
                final(registry)@,
                final(ctx)@,
                s as int,
                entry(old(registry)@, old(ctx)@, s as int, thread_id, now).enter_tagged(now),
            )
        },
{
    let slot = match ctx.slot {
        Some(slot) => slot,
        None => match initialize_thread(registry, ctx, thread_id, now) {
            Some(slot) => slot,
            None => {
                return 0;
            },
        },
    };
    let ghost start = entry(old(registry)@, old(ctx)@, slot as int, thread_id, now);
    assert(start.frames == ctx@.frames && start.stats == registry.slots()[slot as int]);
    let depth = ctx.frames.len();
    let current = if depth > 0 {
        ctx.frames[depth - 1].state
    } else {
        ExecutionState::Normal
    };
    let new_state = match current {
        ExecutionState::Normal => ExecutionState::Unsafe,
        ExecutionState::ExternalSafe => ExecutionState::ExternalUnsafe,
        _ => current,
    };
    match transition_state(registry, ctx, new_state, thread_id, now) {
        Ok(()) => {
            let mut stats = registry.threads[slot];
            stats.unsafe_blocks = stats.unsafe_blocks.wrapping_add(1);
            registry.threads.set(slot, stats);
        },
        Err(_) => {},
    }
    assert(registry.slots() =~= old(registry).slots().update(
        slot as int,
        start.enter_tagged(now).stats,
    ));
    now
}

/// The calling thread leaves a tagged region at `now`. The thread is
/// registered first if need be; its top frame is charged and moves to the
/// untagged form of its state. Nothing changes for a thread that cannot be
/// registered.
pub fn cpu_cycle_end_measurement(
    registry: &mut ThreadRegistry,
    ctx: &mut ThreadContext,
    thread_id: u64,
    now: u64,
)
    requires
        attached(old(registry), old(ctx)),
    ensures
        attached(final(registry), final(ctx)),
        if old(ctx)@.slot is None && exhausted(old(registry)@) {
            &&& final(registry)@ == old(registry)@
            &&& final(ctx)@ == old(ctx)@
        } else {
            &&& final(ctx)@.slot matches Some(s)
            &&& registers(old(registry)@, old(ctx)@, s as int)
            &&& installed(
                old(registry)@,
                final(registry)@,
                final(ctx)@,
                s as int,
                entry(old(registry)@, old(ctx)@, s as int, thread_id, now).exit_tagged(now),
            )
        },
{
    let depth = ctx.frames.len();
    let current = if depth > 0 {
        ctx.frames[depth - 1].state
    } else {
        ExecutionState::Normal
    };
    let new_state = match current {
        ExecutionState::Unsafe => ExecutionState::Normal,
        ExecutionState::ExternalUnsafe => ExecutionState::ExternalSafe,
        _ => current,
    };
    match transition_state(registry, ctx, new_state, thread_id, now) {
        Ok(()) => {},
        Err(_) => {
            if let Some(slot) = ctx.slot {
                assert(registry.slots() =~= registry.slots().update(
                    slot as int,
                    registry.slots()[slot as int],
                ));
            }
        },
    }
}

/// Whether the stack of a registered thread is full, so that the next call
/// into external code is not tracked: `external_call_start` then changes
/// nothing, and the caller has the overflow to report.
pub fn stack_is_full(ctx: &ThreadContext) -> (full: bool)
    ensures
        full == (ctx@.slot is Some && ctx@.frames.len() >= MAX_CONTEXT_DEPTH),
{
    ctx.slot.is_some() && ctx.frames.len() >= MAX_CONTEXT_DEPTH
}

/// The calling thread begins a call into external code at `now`. The thread
/// is registered first if need be; the frame it suspends is charged, a frame
/// for the call goes on top of the stack, and the call is counted. On a full
/// stack nothing changes: the call is not tracked. Gives `now` back, or zero
/// for a thread that cannot be registered.
pub fn external_call_start(
    registry: &mut ThreadRegistry,
    ctx: &mut ThreadContext,
    thread_id: u64,
    now: u64,
) -> (timestamp: u64)
    requires
        attached(old(registry), old(ctx)),
    ensures
        attached(final(registry), final(ctx)),
        if old(ctx)@.slot is None && exhausted(old(registry)@) {
            &&& timestamp == 0
            &&& final(registry)@ == old(registry)@
            &&& final(ctx)@ == old(ctx)@
        } else {
            &&& timestamp == now
            &&& final(ctx)@.slot matches Some(s)
            &&& registers(old(registry)@, old(ctx)@, s as int)
            &&& installed(
                old(registry)@,
                final(registry)@,
                final(ctx)@,
                s as int,
                entry(old(registry)@, old(ctx)@, s as int, thread_id, now).enter_external(now),
            )
        },
{
    let slot = match ctx.slot {
        Some(slot) => slot,
        None => match initialize_thread(registry, ctx, thread_id, now) {
            Some(slot) => slot,
            None => {
                return 0;
            },
        },
    };
    let ghost start = entry(old(registry)@, old(ctx)@, slot as int, thread_id, now);
    assert(start.frames == ctx@.frames && start.stats == registry.slots()[slot as int]);
    let depth = ctx.frames.len();
    let new_state = if depth > 0 {
        match ctx.frames[depth - 1].state {
            ExecutionState::Normal => ExecutionState::ExternalSafe,
            ExecutionState::Unsafe => ExecutionState::ExternalUnsafe,
            _ => ExecutionState::ExternalSafe,
        }
    } else {
        ExecutionState::ExternalSafe
    };
    match push_context(registry, ctx, new_state, thread_id, now) {
        Ok(()) => {
            let mut stats = registry.threads[slot];
            stats.external_calls = stats.external_calls.wrapping_add(1);
            registry.threads.set(slot, stats);
        },
        Err(_) => {},
    }
    assert(registry.slots() =~= old(registry).slots().update(
        slot as int,
        start.enter_external(now).stats,
    ));
    now
}

/// The calling thread returns from a call into external code at `now`: the
/// frame of the call is charged and leaves the stack, and the frame below it
/// resumes. Nothing changes for a thread without a slot, or when only the
/// thread's first frame is left.
pub fn external_call_end(registry: &mut ThreadRegistry, ctx: &mut ThreadContext, now: u64)
    requires
        attached(old(registry), old(ctx)),
    ensures
        attached(final(registry), final(ctx)),
        match old(ctx)@.slot {
            Some(s) => installed(
                old(registry)@,
                final(registry)@,
                final(ctx)@,
                s as int,
                (Engine { stats: old(registry).slots()[s as int], frames: old(ctx)@.frames })
                    .exit_external(now),
            ),
            None => {
                &&& final(registry)@ == old(registry)@
                &&& final(ctx)@ == old(ctx)@
            },
        },
{
    match pop_context(registry, ctx, now) {
        Ok(()) => {},
        Err(_) => {
            if let Some(slot) = ctx.slot {
                assert(registry.slots() =~= registry.slots().update(
                    slot as int,
                    registry.slots()[slot as int],
                ));
            }
        },
    }
}

/// What a registered thread does between its start and its end.
#[derive(Clone, Copy, Debug, PartialEq, Eq, Structural)]
pub enum ContextEvent {
    EnterTagged,
    ExitTagged,
    EnterExternal,
    ExitExternal,
}

/// An event and the reading of the cycle counter at which it happens.
pub struct TimedEvent {
    pub event: ContextEvent,
    pub at: u64,
}

impl Engine {
    /// The thread's counters account for every cycle between the thread's
    /// start and the start of its top frame.
    pub open spec fn balanced(self) -> bool {
        &&& self.frames.len() > 0
        &&& 0 < self.stats.start_tsc <= self.frames.last().start_tsc
        &&& self.stats.attributed() == self.frames.last().start_tsc - self.stats.start_tsc
    }

    /// The state machine after one event.
    pub open spec fn step(self, e: TimedEvent) -> Engine {
        match e.event {
            ContextEvent::EnterTagged => self.enter_tagged(e.at),
            ContextEvent::ExitTagged => self.exit_tagged(e.at),
            ContextEvent::EnterExternal => self.enter_external(e.at),
            ContextEvent::ExitExternal => self.exit_external(e.at),
        }
    }

    /// The state machine after a sequence of events, first to last.
    pub open spec fn replay(self, events: Seq<TimedEvent>) -> Engine
        decreases events.len(),
    {
        if events.len() == 0 {
            self
        } else {
            self.replay(events.drop_last()).step(events.last())
        }
    }
}

/// The readings of `events` do not decrease, and all lie between `from` and
/// `to`.
pub open spec fn in_order(from: u64, events: Seq<TimedEvent>, to: u64) -> bool {
    &&& from <= to
    &&& forall|i: int| 0 <= i < events.len() ==> from <= (#[trigger] events[i]).at <= to
    &&& forall|i: int, j: int|
        0 <= i <= j < events.len() ==> (#[trigger] events[i]).at <= (#[trigger] events[j]).at
}

/// Charging a frame that started at or before `now` adds exactly the cycles
/// between the two, as long as the thread's counters do not exceed the
/// cycles since its start.
proof fn lemma_charge_exact(stats: ThreadStats, frame: ContextFrame, now: u64)
    requires
        0 < stats.start_tsc <= frame.start_tsc <= now,
        stats.attributed() == frame.start_tsc - stats.start_tsc,
    ensures
        charge(stats, frame, now).attributed() == now - stats.start_tsc,
        charge(stats, frame, now).start_tsc == stats.start_tsc,
{
}

/// One event at a reading not before the start of the top frame keeps the
/// counters balanced, and the top frame then starts no later than the event.
pub proof fn lemma_step_keeps_balance(engine: Engine, e: TimedEvent)
    requires
        engine.balanced(),
        engine.frames.last().start_tsc <= e.at,
    ensures
        engine.step(e).balanced(),
        engine.step(e).stats.start_tsc == engine.stats.start_tsc,
        engine.frames.last().start_tsc <= engine.step(e).frames.last().start_tsc <= e.at,
{
    lemma_charge_exact(engine.stats, engine.frames.last(), e.at);
}

/// A sequence of events with readings in order keeps the counters balanced.
pub proof fn lemma_replay_keeps_balance(engine: Engine, events: Seq<TimedEvent>, to: u64)
    requires
        engine.balanced(),
        in_order(engine.frames.last().start_tsc, events, to),
    ensures
        engine.replay(events).balanced(),
        engine.replay(events).stats.start_tsc == engine.stats.start_tsc,
        engine.frames.last().start_tsc <= engine.replay(events).frames.last().start_tsc <= to,
    decreases events.len(),
{
    if events.len() > 0 {
        let before = events.drop_last();
        assert forall|i: int| 0 <= i < before.len() implies engine.frames.last().start_tsc <= (
        #[trigger] before[i]).at <= events.last().at by {
            assert(before[i] == events[i]);
        }
        assert forall|i: int, j: int| 0 <= i <= j < before.len() implies (#[trigger] before[i]).at
            <= (#[trigger] before[j]).at by {
            assert(before[i] == events[i] && before[j] == events[j]);
        }
        lemma_replay_keeps_balance(engine, before, events.last().at);
        lemma_step_keeps_balance(engine.replay(before), events.last());
    }
}

/// Whatever a thread does between its start and its end, as long as the
/// cycle counter starts above zero and never runs backwards, the four
/// per-state accumulators of its slot add up to the cycles between the two
/// readings, which the slot holds as its first and last timestamp.
pub proof fn lemma_cycles_fully_attributed(
    thread_id: u64,
    start: u64,
    events: Seq<TimedEvent>,
    end: u64,
)
    requires
        start > 0,
        in_order(start, events, end),
    ensures
        ({
            let stats = Engine::begin(thread_id, start).replay(events).finish(end).stats;
            &&& stats.start_tsc == start
            &&& stats.last_known_tsc == end
            &&& stats.attributed() == end - start
        }),
{
    let begun = Engine::begin(thread_id, start);
    lemma_replay_keeps_balance(begun, events, end);
    let run = begun.replay(events);
    lemma_charge_exact(run.stats, run.frames.last(), end);
}

/// A thread that takes over the slot of a thread that has ended starts from
/// zero: whatever the counters of the slot were, after the one thread's end
/// and the other's registration every accumulator and count of the slot is
/// zero.
pub proof fn lemma_reclaimed_slot_starts_from_zero(
    before: RegistryView,
    ended: RegistryView,
    after: RegistryView,
    leaving: ContextView,
    joining: ContextView,
    joined: ContextView,
    s: int,
    end: u64,
    thread_id: u64,
    now: u64,
)
    requires
        0 <= s < before.slots.len(),
        leaving.slot == Some(s as usize),
        ended.slots == before.slots.update(
            s,
            (Engine { stats: before.slots[s], frames: leaving.frames }).finish(end).stats,
        ),
        joining.slot is None,
        registers(ended, joining, s),
        installed(ended, after, joined, s, entry(ended, joining, s, thread_id, now)),
    ensures
        ended.slots[s].state == ThreadState::Terminated,
        after.slots[s] == started(thread_id, now),
        after.slots[s].attributed() == 0,
        after.slots[s].unsafe_blocks == 0,
        after.slots[s].external_calls == 0,
{
}

/// The cycles that a slot's thread has been seen to live for: up to `now` for
/// a thread that is still active, up to the slot's last timestamp otherwise.
/// Zero where the readings run backwards.
pub open spec fn observed(stats: ThreadStats, now: u64) -> u64 {
    let end = if stats.state == ThreadState::Active {
        now
    } else {
        stats.last_known_tsc
    };
    if end >= stats.start_tsc {
        (end - stats.start_tsc) as u64
    } else {
        0
    }
}

/// A slot goes into the totals if a thread has used it and its tagged cycles
/// do not exceed the cycles that the thread has been seen to live for.
pub open spec fn counted(stats: ThreadStats, now: u64) -> bool {
    &&& stats.state != ThreadState::Uninitialized
    &&& stats.unsafe_cycles <= observed(stats, now)
}

/// The totals over the counted slots among the first `n`: observed cycles,
/// then the four accumulators, then the two counts. Each sum wraps around at
/// the width of its counter.
pub open spec fn totals(slots: Seq<ThreadStats>, n: int, now: u64) -> (
    u64,
    u64,
    u64,
    u64,
    u64,
    u64,
    u64,
)
    decreases n,
{
    if n <= 0 {
        (0, 0, 0, 0, 0, 0, 0)
    } else {
        let rest = totals(slots, n - 1, now);
        let stats = slots[n - 1];
        if counted(stats, now) {
            (
                u64_specs::wrapping_add(rest.0, observed(stats, now)),
                u64_specs::wrapping_add(rest.1, stats.normal_cycles),
                u64_specs::wrapping_add(rest.2, stats.unsafe_cycles),
                u64_specs::wrapping_add(rest.3, stats.external_safe_cycles),
                u64_specs::wrapping_add(rest.4, stats.external_unsafe_cycles),
                u64_specs::wrapping_add(rest.5, stats.unsafe_blocks),
                u64_specs::wrapping_add(rest.6, stats.external_calls),
            )
        } else {
            rest
        }
    }
}

/// The figures of the cycle report.
#[derive(Clone, Copy, Debug, PartialEq, Eq, Structural)]
pub struct CycleReport {
    pub total_cycles: u64,
    pub unsafe_cycles: u64,
    pub external_cycles: u64,
    pub internal_cycles: u64,
}

/// The report over the slots below the high-water mark: the observed cycles
/// and the tagged cycles of the counted slots, their external cycles, and as
/// internal cycles what is left of the total without the external ones.
pub open spec fn report_of(registry: RegistryView, now: u64) -> CycleReport {
    let sums = totals(registry.slots, registry.high_water, now);
    let external = u64_specs::wrapping_add(sums.3, sums.4);
    CycleReport {
        total_cycles: sums.0,
        unsafe_cycles: sums.2,
        external_cycles: external,
        internal_cycles: if sums.0 >= external {
            (sums.0 - external) as u64
        } else {
            0
        },
    }
}

/// The text of a report: a heading, then one `key: value` line per figure.
pub open spec fn report_text(report: CycleReport) -> Seq<char> {
    "\n===== CPU Cycle Statistics =====\nTotal cycles: "@ + decimal(report.total_cycles as nat)
        + "\nUnsafe cycles: "@ + decimal(report.unsafe_cycles as nat) + "\nExternal cycles: "@
        + decimal(report.external_cycles as nat) + "\nInternal cycles: "@ + decimal(
        report.internal_cycles as nat,
    ) + "\n"@
}

impl CycleReport {
    /// The report as text.
    pub fn text(&self) -> (text: String)
        ensures
            text@ == report_text(*self),
    {
        let mut text = String::new();
        text.append("\n===== CPU Cycle Statistics =====\nTotal cycles: ");
        append_decimal(&mut text, self.total_cycles);
        text.append("\nUnsafe cycles: ");
        append_decimal(&mut text, self.unsafe_cycles);
        text.append("\nExternal cycles: ");
        append_decimal(&mut text, self.external_cycles);
        text.append("\nInternal cycles: ");
        append_decimal(&mut text, self.internal_cycles);
        text.append("\n");
        assert(text@ =~= report_text(*self));
        text
    }
}

/// Adds up the slots below the high-water mark as seen at `now`: the
/// observed cycles, the four accumulators and the two counts, in that order.
/// Slots that no thread has used are passed over, and so are slots whose
/// tagged cycles exceed their observed cycles.
pub fn calculate_total_stats(registry: &ThreadRegistry, now: u64) -> (sums: (
    u64,
    u64,
    u64,
    u64,
    u64,
    u64,
    u64,
))
    requires
        registry.wf(),
    ensures
        sums == totals(registry.slots(), registry.high_water(), now),
{
    let mut total: u64 = 0;
    let mut total_normal: u64 = 0;
    let mut total_unsafe: u64 = 0;
    let mut total_external_safe: u64 = 0;
    let mut total_external_unsafe: u64 = 0;
    let mut total_unsafe_blocks: u64 = 0;
    let mut total_external_calls: u64 = 0;
    let max_slot = registry.next_slot;
    let mut slot: usize = 0;
    while slot < max_slot
        invariant
            registry.wf(),
            slot <= max_slot == registry.high_water(),
            (
                total,
                total_normal,
                total_unsafe,
                total_external_safe,
                total_external_unsafe,
                total_unsafe_blocks,
                total_external_calls,
            ) == totals(registry.slots(), slot as int, now),
        decreases max_slot - slot,
    {
        let stats = registry.threads[slot];
        slot += 1;
        if stats.state == ThreadState::Uninitialized {
            continue ;
        }
        let end = if stats.state == ThreadState::Active {
            now
        } else {
            stats.last_known_tsc
        };
        let lifetime = end.saturating_sub(stats.start_tsc);
        if stats.unsafe_cycles > lifetime {
            continue ;
        }
        total = total.wrapping_add(lifetime);
        total_normal = total_normal.wrapping_add(stats.normal_cycles);
        total_unsafe = total_unsafe.wrapping_add(stats.unsafe_cycles);
        total_external_safe = total_external_safe.wrapping_add(stats.external_safe_cycles);
        total_external_unsafe = total_external_unsafe.wrapping_add(stats.external_unsafe_cycles);
        total_unsafe_blocks = total_unsafe_blocks.wrapping_add(stats.unsafe_blocks);
        total_external_calls = total_external_calls.wrapping_add(stats.external_calls);
    }
    (
        total,
        total_normal,
        total_unsafe,
        total_external_safe,
        total_external_unsafe,
        total_unsafe_blocks,
        total_external_calls,
    )
}

/// A thread has used the slot, and the slot is left out of the totals at
/// `now`: its tagged cycles exceed its observed cycles.
pub open spec fn inconsistent(stats: ThreadStats, now: u64) -> bool {
    stats.state != ThreadState::Uninitialized && !counted(stats, now)
}

/// The slots below the high-water mark that are left out of the totals at
/// `now` although a thread has used them, in ascending order.
pub fn inconsistent_slots(registry: &ThreadRegistry, now: u64) -> (slots: Vec<usize>)
    requires
        registry.wf(),
    ensures
        forall|i: usize|
            slots@.contains(i) <==> i < registry.high_water() && inconsistent(
                registry.slots()[i as int],
                now,
            ),
        forall|j: int, k: int| 0 <= j < k < slots@.len() ==> slots@[j] < slots@[k],
{
    let mut slots: Vec<usize> = Vec::new();
    let max_slot = registry.next_slot;
    let mut slot: usize = 0;
    while slot < max_slot
        invariant
            registry.wf(),
            slot <= max_slot == registry.high_water(),
            forall|i: usize|
                slots@.contains(i) <==> i < slot && inconsistent(registry.slots()[i as int], now),
            forall|j: int, k: int| 0 <= j < k < slots@.len() ==> slots@[j] < slots@[k],
        decreases max_slot - slot,
    {
        let stats = registry.threads[slot];
        let end = if stats.state == ThreadState::Active {
            now
        } else {
            stats.last_known_tsc
        };
        let lifetime = end.saturating_sub(stats.start_tsc);
        let ghost before = slots@;
        if stats.state != ThreadState::Uninitialized && stats.unsafe_cycles > lifetime {
            slots.push(slot);
            proof {
                assert(slots@.last() == slot);
                assert forall|i: usize| slots@.contains(i) <==> (before.contains(i) || i
                    == slot) by {
                    if before.contains(i) {
                        let j = choose|j: int| 0 <= j < before.len() && before[j] == i;
                        assert(slots@[j] == i);
                    }
                    if slots@.contains(i) && i != slot {
                        let j = choose|j: int| 0 <= j < slots@.len() && slots@[j] == i;
                        assert(before[j] == i);
                    }
                }
                assert forall|j: int, k: int| 0 <= j < k < slots@.len() implies slots@[j]
                    < slots@[k] by {
                    assert(before.contains(slots@[j]));
                    if k < before.len() {
                        assert(slots@[k] == before[k]);
                    }
                }
            }
        }
        proof {
            assert(stats == registry.slots()[slot as int]);
            assert(lifetime == observed(stats, now));
            assert forall|i: usize|
                slots@.contains(i) <==> i < slot + 1 && inconsistent(
                    registry.slots()[i as int],
                    now,
                ) by {
                assert(before.contains(i) <==> i < slot && inconsistent(
                    registry.slots()[i as int],
                    now,
                ));
                if inconsistent(stats, now) {
                    assert(slots@.contains(i) <==> (before.contains(i) || i == slot));
                } else {
                    assert(slots@ == before);
                }
            }
        }
        slot += 1;
    }
    slots
}

/// The figures of the cycle report as seen at `now`.
pub fn dump_stats(registry: &ThreadRegistry, now: u64) -> (report: CycleReport)
    requires
        registry.wf(),
    ensures
        report == report_of(registry@, now),
{
    let sums = calculate_total_stats(registry, now);
    let external_cycles = sums.3.wrapping_add(sums.4);
    CycleReport {
        total_cycles: sums.0,
        unsafe_cycles: sums.2,
        external_cycles,
        internal_cycles: sums.0.saturating_sub(external_cycles),
    }
}

/// Hands out the cycle report, once: the first call gives the report as seen
/// at `now`, every later call gives `None`. The slots are never changed.
pub fn print_cpu_cycle_stats(registry: &mut ThreadRegistry, now: u64) -> (report: Option<
    CycleReport,
>)
    requires
        old(registry).wf(),
    ensures
        final(registry).wf(),
        final(registry)@ == flushed(old(registry)@),
        report == if old(registry).report_written() {
            None
        } else {
            Some(report_of(old(registry)@, now))
        },
{
    if registry.stats_written {
        None
    } else {
        registry.stats_written = true;
        Some(dump_stats(registry, now))
    }
}

/// The registry after a call for the cycle report.
pub open spec fn flushed(registry: RegistryView) -> RegistryView {
    RegistryView { report_written: true, ..registry }
}

/// The number of reports that `calls` calls for the cycle report hand out,
/// one after the other, on a registry that starts as `registry`.
pub open spec fn reports_written(registry: RegistryView, calls: nat) -> nat
    decreases calls,
{
    if calls == 0 {
        0
    } else if registry.report_written {
        reports_written(flushed(registry), (calls - 1) as nat)
    } else {
        1 + reports_written(flushed(registry), (calls - 1) as nat)
    }
}

/// However often the cycle report is asked for, it is handed out once: by
/// the first call where none was handed out before, and by no call
/// otherwise.
pub proof fn lemma_report_written_once(registry: RegistryView, calls: nat)
    ensures
        reports_written(registry, calls) == if registry.report_written || calls == 0 {
            0nat
        } else {
            1nat
        },
    decreases calls,
{
    if calls > 0 {
        lemma_report_written_once(flushed(registry), (calls - 1) as nat);
    }
}

} // verus!
