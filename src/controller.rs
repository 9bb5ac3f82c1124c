//! The refresh loop as a state machine: it reads what happened outside (an
//! event) and says what is to be done next (an action). The caller performs
//! the actions: it enters and leaves immersive mode, refreshes the metrics,
//! draws and waits for input.
use vstd::prelude::*;

verus! {

/// Nominal time between two ticks, in milliseconds.
pub const TICK_MS: u64 = 1000;

/// The key that ends the session.
pub const QUIT_KEY: char = 'q';

/// What went wrong in a session.
#[derive(Clone, Copy, Debug, PartialEq, Eq, Structural)]
pub enum Fault {
    /// The terminal could not enter immersive mode.
    Activation,
    /// The metrics provider failed to refresh.
    Refresh,
    /// A frame could not be drawn.
    Draw,
    /// Waiting for or reading input failed.
    Input,
    /// Leaving immersive mode failed in one of its steps.
    Restore,
}

/// Where the loop stands.
#[derive(Clone, Copy, Debug, PartialEq, Eq, Structural)]
pub enum Stage {
    /// Immersive mode has been asked for and not yet confirmed.
    Activating,
    /// A fresh sample has been asked for.
    Refreshing,
    /// A frame has been asked for.
    Drawing,
    /// Input is awaited until the tick's deadline.
    Waiting,
    /// Leaving immersive mode has been asked for.
    Restoring,
    /// The session is over.
    Finished,
}

/// What happened outside since the last action.
#[derive(Clone, Copy, Debug, PartialEq, Eq, Structural)]
pub enum Event {
    /// Immersive mode was entered.
    Entered,
    /// Immersive mode could not be entered.
    EnterFailed,
    /// The metrics provider refreshed its sample.
    Refreshed,
    /// The metrics provider failed.
    RefreshFailed,
    /// A frame was drawn; `now_ms` is the time after drawing.
    Drawn { now_ms: u64 },
    /// Drawing failed.
    DrawFailed,
    /// The wait ended at `now_ms`, with the character of a key pressed, if
    /// a key press came.
    Input { key: Option<char>, now_ms: u64 },
    /// Waiting for or reading input failed.
    InputFailed,
    /// Leaving immersive mode was attempted; `ok` tells whether every step of
    /// it succeeded.
    Restored { ok: bool },
}

/// What the caller is to do next.
#[derive(Clone, Copy, Debug, PartialEq, Eq, Structural)]
pub enum Action {
    /// Refresh CPU and memory counters.
    Refresh,
    /// Lay out and draw one frame.
    Draw,
    /// Wait for input at most `timeout_ms` milliseconds.
    Poll { timeout_ms: u64 },
    /// Leave immersive mode: disable raw mode, leave the alternate screen and
    /// show the cursor, attempting every step.
    Restore,
    /// End the process with this outcome.
    Exit { fault: Option<Fault> },
    /// The event does not fit the stage; nothing is to be done.
    Nothing,
}

/// The loop's state: its stage, the tick reference point and the fault that
/// ends the session, if one did.
#[derive(Clone, Copy, Debug, PartialEq, Eq, Structural)]
pub struct Controller {
    pub stage: Stage,
    pub last_tick_ms: u64,
    pub pending: Option<Fault>,
}

/// Milliseconds left until the next tick, floored at zero.
pub open spec fn remaining_ms(last_tick_ms: int, now_ms: int) -> int {
    let elapsed = if now_ms >= last_tick_ms { now_ms - last_tick_ms } else { 0 };
    if elapsed >= TICK_MS { 0 } else { TICK_MS - elapsed }
}

/// The tick reference after a wait that ended at `now_ms`: moved to `now_ms`
/// once a whole interval has passed, kept otherwise.
pub open spec fn next_tick_ref(last_tick_ms: int, now_ms: int) -> int {
    if now_ms >= last_tick_ms && now_ms - last_tick_ms >= TICK_MS { now_ms } else { last_tick_ms }
}

/// The session holds the terminal in immersive mode and has not yet asked to
/// leave it.
pub open spec fn holds_terminal(stage: Stage) -> bool {
    stage == Stage::Refreshing || stage == Stage::Drawing || stage == Stage::Waiting
}

/// The outcome of the session once leaving immersive mode was attempted: an
/// earlier fault is kept; otherwise a failed restoration is the fault.
pub open spec fn exit_outcome(pending: Option<Fault>, restored_ok: bool) -> Option<Fault> {
    match pending {
        Some(f) => Some(f),
        None => if restored_ok { None } else { Some(Fault::Restore) },
    }
}

/// Leaving a stage that holds the terminal: ask to restore it, with
/// `pending` as the session's fault.
pub open spec fn leave(c: Controller, pending: Option<Fault>) -> (Controller, Action) {
    (Controller { stage: Stage::Restoring, pending, ..c }, Action::Restore)
}

/// One transition of the loop: the next state and the action to perform.
pub open spec fn step_spec(c: Controller, e: Event) -> (Controller, Action) {
    let unchanged = (c, Action::Nothing);
    match c.stage {
        Stage::Activating => match e {
            Event::Entered => (Controller { stage: Stage::Refreshing, ..c }, Action::Refresh),
            Event::EnterFailed => (
                Controller { stage: Stage::Finished, pending: Some(Fault::Activation), ..c },
                Action::Exit { fault: Some(Fault::Activation) },
            ),
            _ => unchanged,
        },
        Stage::Refreshing => match e {
            Event::Refreshed => (Controller { stage: Stage::Drawing, ..c }, Action::Draw),
            Event::RefreshFailed => leave(c, Some(Fault::Refresh)),
            _ => unchanged,
        },
        Stage::Drawing => match e {
            Event::Drawn { now_ms } => (
                Controller { stage: Stage::Waiting, ..c },
                Action::Poll { timeout_ms: remaining_ms(c.last_tick_ms as int, now_ms as int) as u64 },
            ),
            Event::DrawFailed => leave(c, Some(Fault::Draw)),
            _ => unchanged,
        },
        Stage::Waiting => match e {
            Event::Input { key, now_ms } => if key == Some(QUIT_KEY) {
                leave(c, None)
            } else {
                (
                    Controller {
                        stage: Stage::Refreshing,
                        last_tick_ms: next_tick_ref(c.last_tick_ms as int, now_ms as int) as u64,
                        ..c
                    },
                    Action::Refresh,
                )
            },
            Event::InputFailed => leave(c, Some(Fault::Input)),
            _ => unchanged,
        },
        Stage::Restoring => match e {
            Event::Restored { ok } => {
                let fault = exit_outcome(c.pending, ok);
                (Controller { stage: Stage::Finished, pending: fault, ..c }, Action::Exit { fault })
            },
            _ => unchanged,
        },
        Stage::Finished => unchanged,
    }
}

/// The actions answered to `events`, one for each, starting from `c`.
pub open spec fn run(c: Controller, events: Seq<Event>) -> Seq<Action>
    decreases events.len(),
{
    if events.len() == 0 {
        Seq::empty()
    } else {
        let (next, a) = step_spec(c, events[0]);
        seq![a] + run(next, events.drop_first())
    }
}

/// How many times `acts` asks to leave immersive mode.
pub open spec fn count_restores(acts: Seq<Action>) -> nat
    decreases acts.len(),
{
    if acts.len() == 0 {
        0
    } else {
        (if acts[0] == Action::Restore { 1nat } else { 0nat }) + count_restores(acts.drop_first())
    }
}

/// The action ends the process.
pub open spec fn is_exit(a: Action) -> bool {
    a is Exit
}

/// The session may still have to leave immersive mode once.
pub open spec fn restore_owed(stage: Stage) -> bool {
    stage == Stage::Activating || holds_terminal(stage)
}

proof fn lemma_count_prepend(a: Action, t: Seq<Action>)
    ensures
        count_restores(seq![a] + t) == (if a == Action::Restore { 1nat } else { 0nat })
            + count_restores(t),
{
    assert((seq![a] + t).drop_first() =~= t);
}

/// From a finished session every event is answered with nothing to do.
proof fn lemma_finished_idle(c: Controller, events: Seq<Event>)
    requires
        c.stage == Stage::Finished,
    ensures
        forall|j: int| 0 <= j < run(c, events).len() ==> run(c, events)[j] == Action::Nothing,
        run(c, events).len() == events.len(),
    decreases events.len(),
{
    if events.len() > 0 {
        lemma_finished_idle(c, events.drop_first());
    }
}

/// The shape of every run, from any state: at most one restoration, and only
/// where one is owed; none from a stage that already asked for it; nothing to
/// do after an exit; and from a stage that holds the terminal, every exit
/// comes after exactly one restoration.
proof fn lemma_run_shape(c: Controller, events: Seq<Event>)
    ensures
        run(c, events).len() == events.len(),
        count_restores(run(c, events)) <= (if restore_owed(c.stage) { 1nat } else { 0nat }),
        forall|i: int, j: int|
            0 <= i < j < run(c, events).len() && is_exit(#[trigger] run(c, events)[i])
                ==> #[trigger] run(c, events)[j] == Action::Nothing,
        holds_terminal(c.stage) ==> forall|i: int|
            0 <= i < run(c, events).len() && is_exit(#[trigger] run(c, events)[i])
                ==> count_restores(run(c, events).take(i)) == 1,
        c.stage == Stage::Activating ==> forall|i: int|
            0 <= i < run(c, events).len() && is_exit(#[trigger] run(c, events)[i]) ==> (
            run(c, events)[i] == Action::Exit { fault: Some(Fault::Activation) }
                && count_restores(run(c, events)) == 0) || count_restores(run(c, events).take(i))
                == 1,
    decreases events.len(),
{
    if events.len() > 0 {
        let (next, a) = step_spec(c, events[0]);
        let rest = events.drop_first();
        let t = run(next, rest);
        let acts = run(c, events);
        lemma_run_shape(next, rest);
        assert(acts == seq![a] + t);
        lemma_count_prepend(a, t);
        if is_exit(a) {
            lemma_finished_idle(next, rest);
        }
        assert forall|i: int| 1 <= i <= acts.len() implies acts.take(i) =~= seq![a] + t.take(i - 1) by {}
        assert forall|i: int| 1 <= i <= acts.len() implies count_restores(acts.take(i)) == (if a
            == Action::Restore { 1nat } else { 0nat }) + count_restores(t.take(i - 1)) by {
            lemma_count_prepend(a, t.take(i - 1));
        }
        assert(acts.take(0) =~= Seq::<Action>::empty());
        assert forall|i: int, j: int|
            0 <= i < j < acts.len() && is_exit(#[trigger] acts[i]) implies #[trigger] acts[j] == Action::Nothing by {
            assert(acts[j] == t[j - 1]);
            if i > 0 {
                assert(acts[i] == t[i - 1]);
            }
        }
        if holds_terminal(c.stage) {
            assert forall|i: int| 0 <= i < acts.len() && is_exit(#[trigger] acts[i])
                implies count_restores(acts.take(i)) == 1 by {
                assert(i > 0);
                assert(acts[i] == t[i - 1]);
                if a == Action::Restore {
                    assert(next.stage == Stage::Restoring);
                    assert(count_restores(t) == 0);
                    lemma_count_take_le(t, i - 1);
                } else {
                    assert(holds_terminal(next.stage));
                }
            }
        }
        if c.stage == Stage::Activating {
            assert forall|i: int| 0 <= i < acts.len() && is_exit(#[trigger] acts[i])
                implies (acts[i] == Action::Exit { fault: Some(Fault::Activation) }
                && count_restores(acts) == 0) || count_restores(acts.take(i)) == 1 by {
                if i > 0 {
                    assert(acts[i] == t[i - 1]);
                    if a is Exit {
                    } else if a == Action::Refresh {
                        assert(holds_terminal(next.stage));
                    } else {
                        assert(next == c);
                    }
                }
            }
        }
    }
}

/// A prefix holds no more restorations than the whole.
proof fn lemma_count_take_le(s: Seq<Action>, n: int)
    requires
        0 <= n <= s.len(),
    ensures
        count_restores(s.take(n)) <= count_restores(s),
    decreases s.len(),
{
    if n > 0 {
        lemma_count_take_le(s.drop_first(), n - 1);
        assert(s.take(n).drop_first() =~= s.drop_first().take(n - 1));
    }
}

/// Whatever happens outside, a session asks to leave immersive mode at most
/// once; it never asks when immersive mode could not be entered; every other
/// exit comes after exactly one such request; and after an exit there is
/// nothing more to do.
pub proof fn lemma_restore_once(now_ms: u64, events: Seq<Event>)
    ensures
        ({
            let acts = run(Controller { stage: Stage::Activating, last_tick_ms: now_ms, pending: None }, events);
            &&& count_restores(acts) <= 1
            &&& forall|i: int| 0 <= i < acts.len() && #[trigger] acts[i] == (Action::Exit { fault: Some(Fault::Activation) })
                ==> count_restores(acts) == 0
            &&& forall|i: int| 0 <= i < acts.len() && is_exit(#[trigger] acts[i])
                && acts[i] != (Action::Exit { fault: Some(Fault::Activation) })
                ==> count_restores(acts.take(i)) == 1
            &&& forall|i: int, j: int| 0 <= i < j < acts.len() && is_exit(#[trigger] acts[i])
                ==> #[trigger] acts[j] == Action::Nothing
        }),
{
    let c = Controller { stage: Stage::Activating, last_tick_ms: now_ms, pending: None };
    lemma_run_shape(c, events);
    let acts = run(c, events);
    assert forall|i: int| 0 <= i < acts.len() && #[trigger] acts[i] == (Action::Exit { fault: Some(Fault::Activation) })
        implies count_restores(acts) == 0 by {
        assert(is_exit(acts[i]));
        if count_restores(acts.take(i)) == 1 {
            lemma_count_take_le(acts, i);
            lemma_activation_exit_first(c, events, i);
        }
    }
}

/// An exit for a failed activation comes only as the first action.
proof fn lemma_activation_exit_first(c: Controller, events: Seq<Event>, i: int)
    requires
        c.stage == Stage::Activating,
        c.pending == None::<Fault>,
        0 <= i < run(c, events).len(),
        run(c, events)[i] == (Action::Exit { fault: Some(Fault::Activation) }),
    ensures
        count_restores(run(c, events).take(i)) == 0,
    decreases events.len(),
{
    let (next, a) = step_spec(c, events[0]);
    let t = run(next, events.drop_first());
    let acts = run(c, events);
    assert(acts == seq![a] + t);
    if i == 0 {
        assert(acts.take(0) =~= Seq::<Action>::empty());
    } else {
        assert(acts[i] == t[i - 1]);
        assert(acts.take(i) =~= seq![a] + t.take(i - 1));
        lemma_count_prepend(a, t.take(i - 1));
        if next.stage == Stage::Activating {
            lemma_activation_exit_first(next, events.drop_first(), i - 1);
        } else {
            lemma_no_activation_exit(next, events.drop_first(), i - 1);
        }
    }
}

/// Past activation, no exit reports a failed activation.
proof fn lemma_no_activation_exit(c: Controller, events: Seq<Event>, i: int)
    requires
        c.stage != Stage::Activating,
        c.pending != Some(Fault::Activation) || c.stage == Stage::Finished,
        0 <= i < run(c, events).len(),
    ensures
        run(c, events)[i] != (Action::Exit { fault: Some(Fault::Activation) }),
    decreases events.len(),
{
    let (next, a) = step_spec(c, events[0]);
    let t = run(next, events.drop_first());
    assert(run(c, events) == seq![a] + t);
    if i > 0 {
        assert(run(c, events)[i] == t[i - 1]);
        lemma_no_activation_exit(next, events.drop_first(), i - 1);
    }
}

impl Controller {
    /// A session about to enter immersive mode, with its tick reference at
    /// `now_ms`.
    pub fn new(now_ms: u64) -> (r: Controller)
        ensures
            r == (Controller { stage: Stage::Activating, last_tick_ms: now_ms, pending: None }),
    {
        Controller { stage: Stage::Activating, last_tick_ms: now_ms, pending: None }
    }

    /// Milliseconds left until the next tick, counted from the tick reference.
    pub fn timeout_ms(&self, now_ms: u64) -> (r: u64)
        ensures
            r == remaining_ms(self.last_tick_ms as int, now_ms as int),
    {
        let elapsed: u64 = if now_ms >= self.last_tick_ms { now_ms - self.last_tick_ms } else { 0 };
        if elapsed >= TICK_MS {
            0
        } else {
            TICK_MS - elapsed
        }
    }

    /// Takes one event and says what to do next.
    pub fn step(&mut self, e: Event) -> (r: Action)
        ensures
            (*final(self), r) == step_spec(*old(self), e),
    {
        match self.stage {
            Stage::Activating => match e {
                Event::Entered => {
                    self.stage = Stage::Refreshing;
                    Action::Refresh
                },
                Event::EnterFailed => {
                    self.stage = Stage::Finished;
                    self.pending = Some(Fault::Activation);
                    Action::Exit { fault: Some(Fault::Activation) }
                },
                _ => Action::Nothing,
            },
            Stage::Refreshing => match e {
                Event::Refreshed => {
                    self.stage = Stage::Drawing;
                    Action::Draw
                },
                Event::RefreshFailed => self.leave(Some(Fault::Refresh)),
                _ => Action::Nothing,
            },
            Stage::Drawing => match e {
                Event::Drawn { now_ms } => {
                    self.stage = Stage::Waiting;
                    Action::Poll { timeout_ms: self.timeout_ms(now_ms) }
                },
                Event::DrawFailed => self.leave(Some(Fault::Draw)),
                _ => Action::Nothing,
            },
            Stage::Waiting => match e {
                Event::Input { key, now_ms } => {
                    if key == Some(QUIT_KEY) {
                        self.leave(None)
                    } else {
                        if now_ms >= self.last_tick_ms && now_ms - self.last_tick_ms >= TICK_MS {
                            self.last_tick_ms = now_ms;
                        }
                        self.stage = Stage::Refreshing;
                        Action::Refresh
                    }
                },
                Event::InputFailed => self.leave(Some(Fault::Input)),
                _ => Action::Nothing,
            },
            Stage::Restoring => match e {
                Event::Restored { ok } => {
                    let fault = match self.pending {
                        Some(f) => Some(f),
                        None => if ok { None } else { Some(Fault::Restore) },
                    };
                    self.stage = Stage::Finished;
                    self.pending = fault;
                    Action::Exit { fault }
                },
                _ => Action::Nothing,
            },
            Stage::Finished => Action::Nothing,
        }
    }

    fn leave(&mut self, pending: Option<Fault>) -> (r: Action)
        ensures
            (*final(self), r) == leave(*old(self), pending),
    {
        self.stage = Stage::Restoring;
        self.pending = pending;
        Action::Restore
    }
}

} // verus!
