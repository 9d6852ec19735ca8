//! Decision logic of the file-watch supervisor: debouncing, one-shot
//! suppression and the waiting / watching / stopped modes. The thread that
//! runs a supervisor feeds it inputs and performs the actions it returns.
use vstd::prelude::*;

verus! {

/// How long a pending change must sit unmodified before it fires.
pub const DEBOUNCE_MS: u64 = 1000;
/// Poll interval while waiting for the file to exist.
pub const POLL_MS: u64 = 1000;
/// Receive timeout of the native-event wait; also the stop latency.
pub const RECEIVE_TIMEOUT_MS: u64 = 100;
/// Backoff after a native-watch setup or receive error.
pub const ERROR_BACKOFF_MS: u64 = 5000;

/// The logical events reported to the host.
#[derive(Debug, Clone, Copy, PartialEq, Eq, Structural)]
pub enum ArchiveEventType {
    Reload,
    Created,
}

impl ArchiveEventType {
    /// The event's name on the host side.
    pub fn as_str(&self) -> (r: &'static str)
        ensures
            r@ == (match *self {
                ArchiveEventType::Reload => "reload"@,
                ArchiveEventType::Created => "archive-created"@,
            }),
    {
        match self {
            ArchiveEventType::Reload => "reload",
            ArchiveEventType::Created => "archive-created",
        }
    }
}

/// The host capability that receives logical events.
pub trait ArchiveEventEmitter {
    fn send_event(&self, event_type: ArchiveEventType, path: &str);
}

/// A raw change notification of the native watch.
#[derive(Debug, Clone, Copy, PartialEq, Eq, Structural)]
pub enum FsChange {
    Modify,
    Remove,
}

/// The coalesced change waiting for its debounce window to pass.
#[derive(Debug, Clone, Copy, PartialEq, Eq, Structural)]
pub struct PendingEvent {
    pub kind: FsChange,
    pub at_ms: u64,
}

#[derive(Debug, Clone, Copy, PartialEq, Eq, Structural)]
pub enum WatchMode {
    /// The path does not exist; it is polled.
    WaitingForFile,
    /// Native notifications are active.
    Watching,
    /// Terminal.
    Stopped,
}

/// What the supervisor's thread hands to the decision logic.
#[derive(Debug, Clone, Copy, PartialEq, Eq, Structural)]
pub enum WatchInput {
    /// A native modify or remove notification, at a time in milliseconds.
    Notify { kind: FsChange, now_ms: u64 },
    /// A receive timeout passed with no notification.
    Tick { now_ms: u64 },
    /// The poll found the path present.
    FileAppeared,
    /// Setting up or receiving from the native watch failed.
    WatchError,
    /// A stop was requested.
    StopRequested,
    /// The next fired event is to be swallowed.
    SuppressNext,
}

/// What the supervisor's thread must do next.
#[derive(Debug, Clone, Copy, PartialEq, Eq, Structural)]
pub enum WatchAction {
    Nothing,
    /// Report a `Reload` to the host.
    EmitReload,
    /// Drop the native watch and poll for the path.
    AwaitFile,
    /// Report a `Reload`, then drop the native watch and poll for the path.
    EmitReloadAndAwaitFile,
    /// Wait out the error backoff, then poll for the path.
    BackOff,
    /// Tear down and restart the watch (it first polls for the path).
    Restart,
    /// Start the native watch.
    StartWatching,
    /// Leave the loop.
    Exit,
}

/// The supervisor's decision state.
#[derive(Debug, Clone, Copy, PartialEq, Eq, Structural)]
pub struct WatchState {
    pub mode: WatchMode,
    pub pending: Option<PendingEvent>,
    pub suppress: bool,
}

/// Whether a pending change has sat unmodified for the debounce window.
pub open spec fn is_due(p: PendingEvent, now: u64) -> bool {
    now >= p.at_ms && now - p.at_ms >= DEBOUNCE_MS
}

/// One decision: the next state and the action, for every state and input.
pub open spec fn next(s: WatchState, input: WatchInput) -> (WatchState, WatchAction) {
    match s.mode {
        WatchMode::Stopped => (s, WatchAction::Exit),
        _ => match input {
            WatchInput::StopRequested => (WatchState { mode: WatchMode::Stopped, pending: None, ..s }, WatchAction::Exit),
            WatchInput::SuppressNext => (
                WatchState { mode: WatchMode::WaitingForFile, pending: None, suppress: true },
                WatchAction::Restart,
            ),
            WatchInput::WatchError => (WatchState { mode: WatchMode::WaitingForFile, pending: None, ..s }, WatchAction::BackOff),
            WatchInput::FileAppeared => if s.mode == WatchMode::WaitingForFile {
                (WatchState { mode: WatchMode::Watching, pending: None, ..s }, WatchAction::StartWatching)
            } else {
                (s, WatchAction::Nothing)
            },
            WatchInput::Notify { kind, now_ms } => if s.mode != WatchMode::Watching {
                (s, WatchAction::Nothing)
            } else if kind == FsChange::Modify && (s.pending matches Some(p) && p.kind == FsChange::Remove) {
                (s, WatchAction::Nothing)
            } else {
                (WatchState { pending: Some(PendingEvent { kind, at_ms: now_ms }), ..s }, WatchAction::Nothing)
            },
            WatchInput::Tick { now_ms } => if s.mode != WatchMode::Watching {
                (s, WatchAction::Nothing)
            } else {
                match s.pending {
                    Some(p) if is_due(p, now_ms) => {
                        let removed = p.kind == FsChange::Remove;
                        let mode = if removed { WatchMode::WaitingForFile } else { WatchMode::Watching };
                        let action = if s.suppress {
                            if removed { WatchAction::AwaitFile } else { WatchAction::Nothing }
                        } else {
                            if removed { WatchAction::EmitReloadAndAwaitFile } else { WatchAction::EmitReload }
                        };
                        (WatchState { mode, pending: None, suppress: false }, action)
                    },
                    _ => (s, WatchAction::Nothing),
                }
            },
        },
    }
}

/// Whether an action reports a `Reload`.
pub open spec fn emits_reload(a: WatchAction) -> bool {
    a == WatchAction::EmitReload || a == WatchAction::EmitReloadAndAwaitFile
}

/// The final state and the actions after feeding `inputs` in order.
pub open spec fn run(s: WatchState, inputs: Seq<WatchInput>) -> (WatchState, Seq<WatchAction>)
    decreases inputs.len(),
{
    if inputs.len() == 0 {
        (s, Seq::empty())
    } else {
        let before = run(s, inputs.drop_last());
        let after = next(before.0, inputs.last());
        (after.0, before.1.push(after.1))
    }
}

/// How many of the actions report a `Reload`.
pub open spec fn reloads(acts: Seq<WatchAction>) -> nat
    decreases acts.len(),
{
    if acts.len() == 0 {
        0
    } else {
        reloads(acts.drop_last()) + if emits_reload(acts.last()) { 1nat } else { 0nat }
    }
}

pub open spec fn modify_notifications(times: Seq<u64>) -> Seq<WatchInput> {
    times.map_values(|t: u64| WatchInput::Notify { kind: FsChange::Modify, now_ms: t })
}

pub open spec fn ticks(times: Seq<u64>) -> Seq<WatchInput> {
    times.map_values(|t: u64| WatchInput::Tick { now_ms: t })
}

proof fn lemma_run_append(s: WatchState, a: Seq<WatchInput>, b: Seq<WatchInput>)
    ensures
        run(s, a + b).0 == run(run(s, a).0, b).0,
        run(s, a + b).1 == run(s, a).1 + run(run(s, a).0, b).1,
    decreases b.len(),
{
    if b.len() == 0 {
        assert(a + b =~= a);
        assert(run(s, a).1 + Seq::<WatchAction>::empty() =~= run(s, a).1);
    } else {
        assert((a + b).drop_last() =~= a + b.drop_last());
        assert((a + b).last() == b.last());
        lemma_run_append(s, a, b.drop_last());
        let mid = run(s, a).0;
        assert(run(s, a).1 + run(mid, b).1 =~= (run(s, a).1 + run(mid, b.drop_last()).1).push(run(mid, b).1.last()));
    }
}

proof fn lemma_reloads_append(a: Seq<WatchAction>, b: Seq<WatchAction>)
    ensures
        reloads(a + b) == reloads(a) + reloads(b),
    decreases b.len(),
{
    if b.len() == 0 {
        assert(a + b =~= a);
    } else {
        assert((a + b).drop_last() =~= a + b.drop_last());
        lemma_reloads_append(a, b.drop_last());
    }
}

/// A burst of modify notifications leaves one pending modify, stamped with
/// the time of the last notification, and reports nothing.
proof fn lemma_burst_coalesces(s: WatchState, times: Seq<u64>)
    requires
        s.mode == WatchMode::Watching,
        !(s.pending matches Some(p) && p.kind == FsChange::Remove),
        times.len() > 0,
    ensures
        run(s, modify_notifications(times)).0 == (WatchState {
            pending: Some(PendingEvent { kind: FsChange::Modify, at_ms: times.last() }),
            ..s
        }),
        reloads(run(s, modify_notifications(times)).1) == 0,
        run(s, modify_notifications(times)).1.len() == times.len(),
    decreases times.len(),
{
    let ins = modify_notifications(times);
    if times.len() == 1 {
        assert(ins.drop_last() =~= Seq::<WatchInput>::empty());
        assert(run(s, Seq::<WatchInput>::empty()) == (s, Seq::<WatchAction>::empty()));
        assert(run(s, ins.drop_last()).1 =~= Seq::<WatchAction>::empty());
        assert(run(s, ins).1.drop_last() =~= Seq::<WatchAction>::empty());
        assert(reloads(Seq::<WatchAction>::empty()) == 0);
    } else {
        lemma_burst_coalesces(s, times.drop_last());
        assert(ins.drop_last() =~= modify_notifications(times.drop_last()));
        assert(run(s, ins).1.drop_last() =~= run(s, ins.drop_last()).1);
    }
    assert(run(s, ins).1.last() == WatchAction::Nothing);
}

/// With a modify pending from time `t`, a run of ticks reports exactly one
/// `Reload` if some tick comes a debounce window or more after `t`, none
/// otherwise; a tick that reports comes that late.
proof fn lemma_ticks_fire_once(s: WatchState, t: u64, times: Seq<u64>)
    requires
        s.mode == WatchMode::Watching,
        s.pending == Some(PendingEvent { kind: FsChange::Modify, at_ms: t }),
        !s.suppress,
    ensures
        reloads(run(s, ticks(times)).1) == (if exists|j: int| 0 <= j < times.len() && is_due(PendingEvent { kind: FsChange::Modify, at_ms: t }, #[trigger] times[j]) { 1nat } else { 0nat }),
        run(s, ticks(times)).1.len() == times.len(),
        forall|j: int| 0 <= j < times.len() && emits_reload(#[trigger] run(s, ticks(times)).1[j])
            ==> times[j] >= t + DEBOUNCE_MS,
        (exists|j: int| 0 <= j < times.len() && is_due(PendingEvent { kind: FsChange::Modify, at_ms: t }, #[trigger] times[j]))
            ==> run(s, ticks(times)).0 == (WatchState { pending: None, ..s }),
        !(exists|j: int| 0 <= j < times.len() && is_due(PendingEvent { kind: FsChange::Modify, at_ms: t }, #[trigger] times[j]))
            ==> run(s, ticks(times)).0 == s,
    decreases times.len(),
{
    let p = PendingEvent { kind: FsChange::Modify, at_ms: t };
    let ins = ticks(times);
    if times.len() > 0 {
        let prefix = times.drop_last();
        lemma_ticks_fire_once(s, t, prefix);
        assert(ins.drop_last() =~= ticks(prefix));
        let acts = run(s, ins).1;
        assert(acts.drop_last() =~= run(s, ticks(prefix)).1);
        assert forall|j: int| 0 <= j < times.len() - 1 implies #[trigger] times[j] == prefix[j] by {}
        if exists|j: int| 0 <= j < prefix.len() && is_due(p, #[trigger] prefix[j]) {
            let j = choose|j: int| 0 <= j < prefix.len() && is_due(p, #[trigger] prefix[j]);
            assert(is_due(p, times[j]));
        } else {
            if is_due(p, times.last()) {
                assert(is_due(p, times[times.len() - 1]));
            } else {
                assert forall|j: int| 0 <= j < times.len() implies !is_due(p, #[trigger] times[j]) by {
                    if j < times.len() - 1 {
                        assert(times[j] == prefix[j]);
                    }
                }
            }
        }
        assert forall|j: int| 0 <= j < times.len() && emits_reload(#[trigger] acts[j])
            implies times[j] >= t + DEBOUNCE_MS by {
            if j < times.len() - 1 {
                assert(acts[j] == run(s, ticks(prefix)).1[j]);
            }
        }
    }
}

/// Debounce: from a watching state with no remove pending, a burst of
/// modify notifications followed by receive timeouts
/// yields exactly one `Reload` once some timeout comes a debounce window or
/// more after the last notification (none before that), and that `Reload`
/// is never earlier than the window after the last notification.
pub proof fn lemma_debounce_burst(s: WatchState, burst: Seq<u64>, later: Seq<u64>)
    requires
        s.mode == WatchMode::Watching,
        !(s.pending matches Some(p) && p.kind == FsChange::Remove),
        !s.suppress,
        burst.len() > 0,
    ensures
        ({
            let acts = run(s, modify_notifications(burst) + ticks(later)).1;
            &&& reloads(acts) == (if exists|j: int| 0 <= j < later.len() && #[trigger] later[j] >= burst.last() + DEBOUNCE_MS { 1nat } else { 0nat })
            &&& forall|k: int| 0 <= k < acts.len() && emits_reload(#[trigger] acts[k])
                ==> k >= burst.len() && later[k - burst.len()] >= burst.last() + DEBOUNCE_MS
        }),
{
    let a = modify_notifications(burst);
    let b = ticks(later);
    lemma_burst_coalesces(s, burst);
    let mid = run(s, a).0;
    lemma_ticks_fire_once(mid, burst.last(), later);
    lemma_run_append(s, a, b);
    lemma_reloads_append(run(s, a).1, run(mid, b).1);
    let p = PendingEvent { kind: FsChange::Modify, at_ms: burst.last() };
    assert forall|j: int| 0 <= j < later.len() implies
        (is_due(p, #[trigger] later[j]) <==> later[j] >= burst.last() + DEBOUNCE_MS) by {}
    let acts = run(s, a + b).1;
    let first = run(s, a).1;
    let second = run(mid, b).1;
    assert forall|k: int| 0 <= k < acts.len() && emits_reload(#[trigger] acts[k])
        implies k >= burst.len() && later[k - burst.len()] >= burst.last() + DEBOUNCE_MS by {
        if k < burst.len() {
            assert(acts[k] == first[k]);
            assert(reloads(first) == 0);
            lemma_reload_at_counts(first, k);
        } else {
            assert(acts[k] == second[k - burst.len()]);
        }
    }
}

proof fn lemma_reload_at_counts(acts: Seq<WatchAction>, k: int)
    requires
        0 <= k < acts.len(),
        emits_reload(acts[k]),
    ensures
        reloads(acts) >= 1,
    decreases acts.len(),
{
    if k < acts.len() - 1 {
        assert(acts.drop_last()[k] == acts[k]);
        lemma_reload_at_counts(acts.drop_last(), k);
    }
}

/// Suppression: one `SuppressNext` swallows exactly the next fired event,
/// and the event after it is reported as usual.
pub proof fn lemma_suppress_next_once(s: WatchState, t1: u64, u1: u64, t2: u64, u2: u64)
    requires
        s.mode != WatchMode::Stopped,
        u1 >= t1 + DEBOUNCE_MS,
        u2 >= t2 + DEBOUNCE_MS,
    ensures
        ({
            let inputs = seq![
                WatchInput::SuppressNext,
                WatchInput::FileAppeared,
                WatchInput::Notify { kind: FsChange::Modify, now_ms: t1 },
                WatchInput::Tick { now_ms: u1 },
                WatchInput::Notify { kind: FsChange::Modify, now_ms: t2 },
                WatchInput::Tick { now_ms: u2 },
            ];
            let acts = run(s, inputs).1;
            &&& acts.len() == 6
            &&& acts[3] == WatchAction::Nothing
            &&& acts[5] == WatchAction::EmitReload
            &&& reloads(acts) == 1
            &&& !run(s, inputs).0.suppress
        }),
{
    let inputs = seq![
        WatchInput::SuppressNext,
        WatchInput::FileAppeared,
        WatchInput::Notify { kind: FsChange::Modify, now_ms: t1 },
        WatchInput::Tick { now_ms: u1 },
        WatchInput::Notify { kind: FsChange::Modify, now_ms: t2 },
        WatchInput::Tick { now_ms: u2 },
    ];
    assert(inputs.subrange(0, 0).len() == 0);
    let i1 = inputs.subrange(0, 1);
    let i2 = inputs.subrange(0, 2);
    let i3 = inputs.subrange(0, 3);
    let i4 = inputs.subrange(0, 4);
    let i5 = inputs.subrange(0, 5);
    assert(i1.drop_last() =~= Seq::<WatchInput>::empty());
    assert(i2.drop_last() =~= i1);
    assert(i3.drop_last() =~= i2);
    assert(i4.drop_last() =~= i3);
    assert(i5.drop_last() =~= i4);
    assert(inputs.drop_last() =~= i5);
    assert(run(s, Seq::<WatchInput>::empty()) == (s, Seq::<WatchAction>::empty()));
    assert(i1.last() == inputs[0]);
    assert(i2.last() == inputs[1]);
    assert(i3.last() == inputs[2]);
    assert(i4.last() == inputs[3]);
    assert(i5.last() == inputs[4]);
    assert(inputs.last() == inputs[5]);
    let r1 = run(s, i1);
    let r2 = run(s, i2);
    let r3 = run(s, i3);
    let r4 = run(s, i4);
    let r5 = run(s, i5);
    let r6 = run(s, inputs);
    assert(r1.1 =~= seq![WatchAction::Restart]);
    assert(r2.1 =~= seq![WatchAction::Restart, WatchAction::StartWatching]);
    assert(r3.1 =~= seq![WatchAction::Restart, WatchAction::StartWatching, WatchAction::Nothing]);
    assert(r4.1 =~= seq![WatchAction::Restart, WatchAction::StartWatching, WatchAction::Nothing, WatchAction::Nothing]);
    assert(r5.1 =~= seq![WatchAction::Restart, WatchAction::StartWatching, WatchAction::Nothing, WatchAction::Nothing, WatchAction::Nothing]);
    assert(r6.1 =~= seq![WatchAction::Restart, WatchAction::StartWatching, WatchAction::Nothing, WatchAction::Nothing, WatchAction::Nothing, WatchAction::EmitReload]);
    assert(r6.1.drop_last() =~= r5.1);
    assert(r5.1.drop_last() =~= r4.1);
    assert(r4.1.drop_last() =~= r3.1);
    assert(r3.1.drop_last() =~= r2.1);
    assert(r2.1.drop_last() =~= r1.1);
    assert(r1.1.drop_last() =~= Seq::<WatchAction>::empty());
    assert(reloads(Seq::<WatchAction>::empty()) == 0);
    assert(reloads(r1.1) == 0);
    assert(reloads(r2.1) == 0);
    assert(reloads(r3.1) == 0);
    assert(reloads(r4.1) == 0);
    assert(reloads(r5.1) == 0);
    assert(reloads(r6.1) == 1);
}

/// Suppression after a restart: a supervisor started afresh with the
/// suppression flag set (as a watcher thread restarted by `SuppressNext`
/// begins) swallows exactly the next fired event and reports the one after.
pub proof fn lemma_suppress_after_restart(t1: u64, u1: u64, t2: u64, u2: u64)
    requires
        u1 >= t1 + DEBOUNCE_MS,
        u2 >= t2 + DEBOUNCE_MS,
    ensures
        ({
            let s = WatchState { mode: WatchMode::WaitingForFile, pending: None, suppress: true };
            let inputs = seq![
                WatchInput::FileAppeared,
                WatchInput::Notify { kind: FsChange::Modify, now_ms: t1 },
                WatchInput::Tick { now_ms: u1 },
                WatchInput::Notify { kind: FsChange::Modify, now_ms: t2 },
                WatchInput::Tick { now_ms: u2 },
            ];
            let acts = run(s, inputs).1;
            &&& acts.len() == 5
            &&& acts[2] == WatchAction::Nothing
            &&& acts[4] == WatchAction::EmitReload
            &&& reloads(acts) == 1
            &&& !run(s, inputs).0.suppress
        }),
{
    let s = WatchState { mode: WatchMode::WaitingForFile, pending: None, suppress: true };
    let inputs = seq![
        WatchInput::FileAppeared,
        WatchInput::Notify { kind: FsChange::Modify, now_ms: t1 },
        WatchInput::Tick { now_ms: u1 },
        WatchInput::Notify { kind: FsChange::Modify, now_ms: t2 },
        WatchInput::Tick { now_ms: u2 },
    ];
    let i1 = inputs.subrange(0, 1);
    let i2 = inputs.subrange(0, 2);
    let i3 = inputs.subrange(0, 3);
    let i4 = inputs.subrange(0, 4);
    assert(i1.drop_last() =~= Seq::<WatchInput>::empty());
    assert(i2.drop_last() =~= i1);
    assert(i3.drop_last() =~= i2);
    assert(i4.drop_last() =~= i3);
    assert(inputs.drop_last() =~= i4);
    assert(run(s, Seq::<WatchInput>::empty()) == (s, Seq::<WatchAction>::empty()));
    assert(i1.last() == inputs[0]);
    assert(i2.last() == inputs[1]);
    assert(i3.last() == inputs[2]);
    assert(i4.last() == inputs[3]);
    assert(inputs.last() == inputs[4]);
    let r1 = run(s, i1);
    let r2 = run(s, i2);
    let r3 = run(s, i3);
    let r4 = run(s, i4);
    let r5 = run(s, inputs);
    assert(r1.1 =~= seq![WatchAction::StartWatching]);
    assert(r2.1 =~= seq![WatchAction::StartWatching, WatchAction::Nothing]);
    assert(r3.1 =~= seq![WatchAction::StartWatching, WatchAction::Nothing, WatchAction::Nothing]);
    assert(r4.1 =~= seq![WatchAction::StartWatching, WatchAction::Nothing, WatchAction::Nothing, WatchAction::Nothing]);
    assert(r5.1 =~= seq![WatchAction::StartWatching, WatchAction::Nothing, WatchAction::Nothing, WatchAction::Nothing, WatchAction::EmitReload]);
    assert(r5.1.drop_last() =~= r4.1);
    assert(r4.1.drop_last() =~= r3.1);
    assert(r3.1.drop_last() =~= r2.1);
    assert(r2.1.drop_last() =~= r1.1);
    assert(r1.1.drop_last() =~= Seq::<WatchAction>::empty());
    assert(reloads(Seq::<WatchAction>::empty()) == 0);
    assert(reloads(r1.1) == 0);
    assert(reloads(r2.1) == 0);
    assert(reloads(r3.1) == 0);
    assert(reloads(r4.1) == 0);
    assert(reloads(r5.1) == 1);
}

impl WatchState {
    /// A supervisor that has not yet seen its file.
    pub fn new() -> (r: WatchState)
        ensures
            r == (WatchState { mode: WatchMode::WaitingForFile, pending: None, suppress: false }),
    {
        WatchState { mode: WatchMode::WaitingForFile, pending: None, suppress: false }
    }

    /// Applies inputs in order and returns the actions, one per input.
    pub fn step_all(&mut self, inputs: &Vec<WatchInput>) -> (r: Vec<WatchAction>)
        ensures
            (*final(self), r@) == run(*old(self), inputs@),
    {
        let mut acts: Vec<WatchAction> = Vec::new();
        let mut i: usize = 0;
        assert(inputs@.subrange(0, 0) =~= Seq::<WatchInput>::empty());
        while i < inputs.len()
            invariant
                i <= inputs@.len(),
                (*self, acts@) == run(*old(self), inputs@.subrange(0, i as int)),
            decreases inputs@.len() - i,
        {
            assert(inputs@.subrange(0, i + 1).drop_last() =~= inputs@.subrange(0, i as int));
            assert(inputs@.subrange(0, i + 1).last() == inputs@[i as int]);
            let a = self.step(inputs[i]);
            acts.push(a);
            i = i + 1;
        }
        assert(inputs@.subrange(0, inputs@.len() as int) =~= inputs@);
        acts
    }

    /// Applies one input and returns the action to perform.
    pub fn step(&mut self, input: WatchInput) -> (r: WatchAction)
        ensures
            (*final(self), r) == next(*old(self), input),
    {
        match self.mode {
            WatchMode::Stopped => return WatchAction::Exit,
            _ => {},
        }
        match input {
            WatchInput::StopRequested => {
                self.mode = WatchMode::Stopped;
                self.pending = None;
                WatchAction::Exit
            },
            WatchInput::SuppressNext => {
                self.mode = WatchMode::WaitingForFile;
                self.pending = None;
                self.suppress = true;
                WatchAction::Restart
            },
            WatchInput::WatchError => {
                self.mode = WatchMode::WaitingForFile;
                self.pending = None;
                WatchAction::BackOff
            },
            WatchInput::FileAppeared => {
                if self.mode == WatchMode::WaitingForFile {
                    self.mode = WatchMode::Watching;
                    self.pending = None;
                    WatchAction::StartWatching
                } else {
                    WatchAction::Nothing
                }
            },
            WatchInput::Notify { kind, now_ms } => {
                if self.mode != WatchMode::Watching {
                    return WatchAction::Nothing;
                }
                let remove_pending = match self.pending {
                    Some(p) => p.kind == FsChange::Remove,
                    None => false,
                };
                if kind == FsChange::Modify && remove_pending {
                    return WatchAction::Nothing;
                }
                self.pending = Some(PendingEvent { kind, at_ms: now_ms });
                WatchAction::Nothing
            },
            WatchInput::Tick { now_ms } => {
                if self.mode != WatchMode::Watching {
                    return WatchAction::Nothing;
                }
                match self.pending {
                    Some(p) => {
                        if now_ms >= p.at_ms && now_ms - p.at_ms >= DEBOUNCE_MS {
                            let removed = p.kind == FsChange::Remove;
                            let action = if self.suppress {
                                if removed { WatchAction::AwaitFile } else { WatchAction::Nothing }
                            } else {
                                if removed { WatchAction::EmitReloadAndAwaitFile } else { WatchAction::EmitReload }
                            };
                            self.mode = if removed { WatchMode::WaitingForFile } else { WatchMode::Watching };
                            self.pending = None;
                            self.suppress = false;
                            action
                        } else {
                            WatchAction::Nothing
                        }
                    },
                    None => WatchAction::Nothing,
                }
            },
        }
    }
}

/// Creation-watch decision: whether a create notification concerns the
/// watched file, that is, whether one of the created entries' file names is
/// the watched file's name. A match ends the creation watch after one
/// `Created` report.
pub fn creation_matches(created_names: &Vec<String>, file_name: &str) -> (r: bool)
    ensures
        r == exists|i: int| 0 <= i < created_names@.len() && #[trigger] created_names@[i]@ == file_name@,
{
    let mut i: usize = 0;
    while i < created_names.len()
        invariant
            i <= created_names@.len(),
            forall|j: int| 0 <= j < i ==> #[trigger] created_names@[j]@ != file_name@,
        decreases created_names@.len() - i,
    {
        if crate::text::str_eq(created_names[i].as_str(), file_name) {
            return true;
        }
        i = i + 1;
    }
    false
}

} // verus!
