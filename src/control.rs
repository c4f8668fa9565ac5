use vstd::prelude::*;

verus! {

/// What the polling loop does after one sample of the trigger input.
///
/// Carried out in this order: set the cancel signal, join the worker,
/// clear the cancel signal and launch a new worker, leave the loop.
#[derive(Debug, Clone, Copy, PartialEq, Eq, Structural)]
pub struct Dispatch {
    pub cancel: bool,
    pub join: bool,
    pub launch: bool,
    pub exit: bool,
}

pub open spec fn nothing() -> Dispatch {
    Dispatch { cancel: false, join: false, launch: false, exit: false }
}

/// The Hold strategy: a worker runs while the trigger is held.
#[derive(Debug, Clone, Copy, PartialEq, Eq, Structural)]
pub struct HoldController {
    /// Whether a worker handle is held (it may have finished).
    pub worker: bool,
}

/// The Toggle strategy: each press of the trigger starts or stops a worker
/// that repeats the tree until cancelled.
#[derive(Debug, Clone, Copy, PartialEq, Eq, Structural)]
pub struct ToggleController {
    pub running: bool,
    /// The previous sample of the trigger.
    pub was_active: bool,
    pub worker: bool,
}

/// One poll of the Hold strategy. `finished` says whether the held worker
/// has returned.
pub open spec fn hold_poll(
    s: HoldController,
    closed: bool,
    paused: bool,
    active: bool,
    finished: bool,
) -> (HoldController, Dispatch) {
    if closed {
        (HoldController { worker: false }, Dispatch { cancel: true, join: s.worker, launch: false, exit: true })
    } else if paused {
        (s, nothing())
    } else if active {
        if !s.worker || finished {
            (
                HoldController { worker: true },
                Dispatch { cancel: false, join: s.worker, launch: true, exit: false },
            )
        } else {
            (s, nothing())
        }
    } else {
        (HoldController { worker: false }, Dispatch { cancel: true, join: s.worker, launch: false, exit: false })
    }
}

/// Whether a sample is a rising edge of the trigger.
pub open spec fn rising(s: ToggleController, active: bool) -> bool {
    active && !s.was_active
}

/// One poll of the Toggle strategy.
pub open spec fn toggle_poll(
    s: ToggleController,
    closed: bool,
    paused: bool,
    active: bool,
    finished: bool,
) -> (ToggleController, Dispatch) {
    if closed {
        (
            ToggleController { running: false, was_active: s.was_active, worker: false },
            Dispatch { cancel: true, join: s.worker, launch: false, exit: true },
        )
    } else if paused {
        (s, nothing())
    } else {
        let running = if rising(s, active) {
            !s.running
        } else {
            s.running
        };
        if running {
            if !s.worker || finished {
                (
                    ToggleController { running, was_active: active, worker: true },
                    Dispatch { cancel: false, join: s.worker, launch: true, exit: false },
                )
            } else {
                (ToggleController { running, was_active: active, worker: true }, nothing())
            }
        } else {
            (
                ToggleController { running, was_active: active, worker: false },
                Dispatch { cancel: true, join: s.worker, launch: false, exit: false },
            )
        }
    }
}

impl HoldController {
    pub fn new() -> (c: HoldController)
        ensures
            c == (HoldController { worker: false }),
    {
        HoldController { worker: false }
    }

    /// Takes one sample of the trigger and says what to do (see [`hold_poll`]).
    pub fn poll(&mut self, closed: bool, paused: bool, active: bool, finished: bool) -> (d: Dispatch)
        ensures
            (*final(self), d) == hold_poll(*old(self), closed, paused, active, finished),
    {
        if closed {
            let join = self.worker;
            self.worker = false;
            Dispatch { cancel: true, join, launch: false, exit: true }
        } else if paused {
            Dispatch { cancel: false, join: false, launch: false, exit: false }
        } else if active {
            if !self.worker || finished {
                let join = self.worker;
                self.worker = true;
                Dispatch { cancel: false, join, launch: true, exit: false }
            } else {
                Dispatch { cancel: false, join: false, launch: false, exit: false }
            }
        } else {
            let join = self.worker;
            self.worker = false;
            Dispatch { cancel: true, join, launch: false, exit: false }
        }
    }
}

impl ToggleController {
    pub fn new() -> (c: ToggleController)
        ensures
            c == (ToggleController { running: false, was_active: false, worker: false }),
    {
        ToggleController { running: false, was_active: false, worker: false }
    }

    /// Takes one sample of the trigger and says what to do (see [`toggle_poll`]).
    pub fn poll(&mut self, closed: bool, paused: bool, active: bool, finished: bool) -> (d: Dispatch)
        ensures
            (*final(self), d) == toggle_poll(*old(self), closed, paused, active, finished),
    {
        if closed {
            let join = self.worker;
            self.running = false;
            self.worker = false;
            return Dispatch { cancel: true, join, launch: false, exit: true };
        }
        if paused {
            return Dispatch { cancel: false, join: false, launch: false, exit: false };
        }
        if active && !self.was_active {
            self.running = !self.running;
        }
        self.was_active = active;
        if self.running {
            if !self.worker || finished {
                let join = self.worker;
                self.worker = true;
                Dispatch { cancel: false, join, launch: true, exit: false }
            } else {
                Dispatch { cancel: false, join: false, launch: false, exit: false }
            }
        } else {
            let join = self.worker;
            self.worker = false;
            Dispatch { cancel: true, join, launch: false, exit: false }
        }
    }
}

/// Toggle: between polls that are neither closed nor paused, the running
/// state flips exactly on a rising edge of the trigger; a level, or a
/// falling edge, leaves it as it was.
pub proof fn lemma_only_rising_edges_flip(
    s: ToggleController,
    active: bool,
    finished: bool,
)
    ensures
        toggle_poll(s, false, false, active, finished).0.running == (s.running != rising(s, active)),
        toggle_poll(s, false, false, active, finished).0.was_active == active,
{
}

/// Hold: while the trigger stays held and the worker has not finished, no
/// poll launches another worker or cancels it; the first poll that finds
/// the trigger released sets the cancel signal and joins the worker.
pub proof fn lemma_hold_runs_one_worker(s: HoldController, finished: bool)
    requires
        s.worker,
    ensures
        hold_poll(s, false, false, true, false) == (s, nothing()),
        hold_poll(s, false, false, false, finished).1.cancel,
        hold_poll(s, false, false, false, finished).1.join,
        !hold_poll(s, false, false, false, finished).1.launch,
        !hold_poll(s, false, false, false, finished).0.worker,
{
}

/// Hold: a press with no worker launches exactly one.
pub proof fn lemma_hold_press_launches(s: HoldController, finished: bool)
    requires
        !s.worker,
    ensures
        hold_poll(s, false, false, true, finished).1.launch,
        !hold_poll(s, false, false, true, finished).1.cancel,
        hold_poll(s, false, false, true, finished).0.worker,
{
}

/// Toggle: from a stopped controller, the samples inactive, active,
/// inactive leave it stopped, then running, then still running: the
/// inactive sample after a press does not flip it back.
pub proof fn lemma_toggle_press_then_release(f1: bool, f2: bool, f3: bool)
    ensures
        ({
            let s0 = ToggleController { running: false, was_active: false, worker: false };
            let s1 = toggle_poll(s0, false, false, false, f1).0;
            let s2 = toggle_poll(s1, false, false, true, f2).0;
            let s3 = toggle_poll(s2, false, false, false, f3).0;
            &&& !s1.running
            &&& s2.running
            &&& s3.running
        }),
{
}

/// Hold: with no worker, three polls with the trigger held (the worker still
/// running) launch exactly one worker and never cancel it; the poll after
/// the release sets the cancel signal and joins the worker.
pub proof fn lemma_hold_three_polls_then_release(f: bool)
    ensures
        ({
            let (s1, d1) = hold_poll(HoldController { worker: false }, false, false, true, f);
            let (s2, d2) = hold_poll(s1, false, false, true, false);
            let (s3, d3) = hold_poll(s2, false, false, true, false);
            let (s4, d4) = hold_poll(s3, false, false, false, false);
            &&& d1.launch && !d2.launch && !d3.launch
            &&& !d1.cancel && !d2.cancel && !d3.cancel
            &&& d4.cancel && d4.join && !d4.launch
            &&& !s4.worker
        }),
{
}

} // verus!
