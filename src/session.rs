use vstd::prelude::*;

use crate::model::Elements;
use crate::timers::TimerRegistry;

verus! {

/// The mode setting that selects the Hold strategy.
pub const HOLD_MODE: u32 = 1;

/// The mode setting that selects the Toggle strategy.
pub const TOGGLE_MODE: u32 = 2;

/// Key hold time used until the configuration says otherwise, in milliseconds.
pub const DEFAULT_HOLD_MS: u64 = 100;

#[derive(Debug, Clone, Copy, PartialEq, Eq, Structural)]
pub enum Strategy {
    Hold,
    Toggle,
}

/// The input that drives a tree.
#[derive(Debug, Clone, Copy, PartialEq, Eq, Structural)]
pub enum Trigger {
    /// A keyboard key, by virtual key code.
    Key(u32),
    /// A mouse button, by virtual key code.
    Button(u32),
}

/// The hotkeys that pause and resume a session.
#[derive(Debug, Clone, Copy, PartialEq, Eq, Structural)]
pub enum HotKey {
    Pause,
    Resume,
}

/// A controller to start: which tree, watching which input, how.
#[derive(Debug, Clone, Copy, PartialEq, Eq, Structural)]
pub struct Launch {
    pub tree: usize,
    pub trigger: Trigger,
    pub strategy: Strategy,
}

/// The state of one session, shared by its controllers and workers.
pub struct SessionContext {
    /// [`HOLD_MODE`] or [`TOGGLE_MODE`]; any other value starts nothing.
    pub mode: u32,
    /// Hard stop: controllers leave their loops.
    pub closed: bool,
    /// Soft stop: controllers keep polling but dispatch nothing.
    pub paused: bool,
    /// The configured key hold time, in milliseconds.
    pub hold_on_time: u64,
    pub timers: TimerRegistry,
}

pub open spec fn strategy_of(mode: u32) -> Option<Strategy> {
    if mode == HOLD_MODE {
        Some(Strategy::Hold)
    } else if mode == TOGGLE_MODE {
        Some(Strategy::Toggle)
    } else {
        None
    }
}

/// Header codes 4 and 5 name the two side mouse buttons (virtual keys 5 and
/// 6); every other code is a keyboard key.
pub open spec fn trigger_of(code: u32) -> Trigger {
    if code == 4 {
        Trigger::Button(0x05)
    } else if code == 5 {
        Trigger::Button(0x06)
    } else {
        Trigger::Key(code)
    }
}

pub fn select_strategy(mode: u32) -> (r: Option<Strategy>)
    ensures
        r == strategy_of(mode),
{
    if mode == HOLD_MODE {
        Some(Strategy::Hold)
    } else if mode == TOGGLE_MODE {
        Some(Strategy::Toggle)
    } else {
        None
    }
}

pub fn trigger_for(code: u32) -> (r: Trigger)
    ensures
        r == trigger_of(code),
{
    if code == 4 {
        Trigger::Button(0x05)
    } else if code == 5 {
        Trigger::Button(0x06)
    } else {
        Trigger::Key(code)
    }
}

impl SessionContext {
    /// A session that has not started: closed, paused, in Hold mode.
    pub fn new() -> (c: SessionContext)
        ensures
            c.mode == HOLD_MODE,
            c.closed,
            c.paused,
            c.hold_on_time == DEFAULT_HOLD_MS,
            c.timers.wf(),
            c.timers@ == Map::<Seq<char>, u64>::empty(),
    {
        SessionContext {
            mode: HOLD_MODE,
            closed: true,
            paused: true,
            hold_on_time: DEFAULT_HOLD_MS,
            timers: TimerRegistry::new(),
        }
    }
}

/// Opens the session for a keyboard-triggered tree and picks its strategy.
pub fn keyboard_type(ctx: &mut SessionContext) -> (r: Option<Strategy>)
    ensures
        !final(ctx).closed,
        final(ctx).paused == old(ctx).paused,
        final(ctx).mode == old(ctx).mode,
        final(ctx).hold_on_time == old(ctx).hold_on_time,
        final(ctx).timers == old(ctx).timers,
        r == strategy_of(old(ctx).mode),
{
    ctx.closed = false;
    select_strategy(ctx.mode)
}

/// Opens the session for a mouse-triggered tree and picks its strategy.
pub fn mouse_type(ctx: &mut SessionContext) -> (r: Option<Strategy>)
    ensures
        !final(ctx).closed,
        final(ctx).paused == old(ctx).paused,
        final(ctx).mode == old(ctx).mode,
        final(ctx).hold_on_time == old(ctx).hold_on_time,
        final(ctx).timers == old(ctx).timers,
        r == strategy_of(old(ctx).mode),
{
    ctx.closed = false;
    select_strategy(ctx.mode)
}

/// `v` read as an unsigned 64-bit number (two's complement): a negative
/// value becomes `v + 2^64`, as `v as u64` does.
pub open spec fn wrap_to_u64(v: i64) -> u64 {
    if v >= 0 {
        v as u64
    } else {
        (v + 0x1_0000_0000_0000_0000int) as u64
    }
}

pub fn i64_bits(v: i64) -> (r: u64)
    ensures
        r == wrap_to_u64(v),
{
    if v >= 0 {
        v as u64
    } else {
        u64::MAX - ((-(v + 1)) as u64)
    }
}

/// Starts (`t`) or stops a session over `element`.
///
/// Starting takes the configured hold time, if any, read as an unsigned
/// number (see [`wrap_to_u64`]), clears the pause, opens the session if
/// there is any tree, and returns one launch per tree when the mode names a
/// strategy. Stopping
/// clears the timer registry, so cooldowns never leak into the next session.
pub fn start(
    ctx: &mut SessionContext,
    element: &Vec<Elements>,
    t: bool,
    configured_hold: Option<i64>,
) -> (launches: Vec<Launch>)
    requires
        old(ctx).timers.wf(),
    ensures
        final(ctx).timers.wf(),
        final(ctx).mode == old(ctx).mode,
        !t ==> {
            &&& launches@.len() == 0
            &&& final(ctx).timers@ == Map::<Seq<char>, u64>::empty()
            &&& final(ctx).closed == old(ctx).closed
            &&& final(ctx).paused == old(ctx).paused
            &&& final(ctx).hold_on_time == old(ctx).hold_on_time
        },
        t ==> {
            &&& final(ctx).timers == old(ctx).timers
            &&& !final(ctx).paused
            &&& final(ctx).closed == (old(ctx).closed && element@.len() == 0)
            &&& final(ctx).hold_on_time == match configured_hold {
                Some(v) => wrap_to_u64(v),
                None => old(ctx).hold_on_time,
            }
            &&& launches@.len() == if strategy_of(old(ctx).mode) is Some {
                element@.len()
            } else {
                0
            }
            &&& forall|k: int|
                0 <= k < launches@.len() ==> #[trigger] launches@[k] == (Launch {
                    tree: k as usize,
                    trigger: trigger_of(element@[k].header.elements_code),
                    strategy: strategy_of(old(ctx).mode)->0,
                })
        },
{
    let mut launches: Vec<Launch> = Vec::new();
    if !t {
        ctx.timers.clear();
        return launches;
    }
    match configured_hold {
        Some(v) => {
            ctx.hold_on_time = i64_bits(v);
        },
        None => {},
    }
    ctx.paused = false;
    let mut k: usize = 0;
    while k < element.len()
        invariant
            k <= element@.len(),
            ctx.timers == old(ctx).timers,
            ctx.mode == old(ctx).mode,
            !ctx.paused,
            ctx.closed == (old(ctx).closed && k == 0),
            ctx.hold_on_time == match configured_hold {
                Some(v) => wrap_to_u64(v),
                None => old(ctx).hold_on_time,
            },
            launches@.len() == if strategy_of(old(ctx).mode) is Some {
                k as int
            } else {
                0
            },
            forall|j: int|
                0 <= j < launches@.len() ==> #[trigger] launches@[j] == (Launch {
                    tree: j as usize,
                    trigger: trigger_of(element@[j].header.elements_code),
                    strategy: strategy_of(old(ctx).mode)->0,
                }),
        decreases element.len() - k,
    {
        let code = element[k].header.elements_code;
        let trigger = trigger_for(code);
        let strategy = match trigger {
            Trigger::Button(_) => mouse_type(ctx),
            Trigger::Key(_) => keyboard_type(ctx),
        };
        match strategy {
            Some(st) => {
                launches.push(Launch { tree: k, trigger, strategy: st });
            },
            None => {},
        }
        k = k + 1;
    }
    launches
}

/// Hard-stops the session: controllers leave their loops.
pub fn close(ctx: &mut SessionContext)
    ensures
        final(ctx).closed,
        final(ctx).paused,
        final(ctx).mode == old(ctx).mode,
        final(ctx).hold_on_time == old(ctx).hold_on_time,
        final(ctx).timers == old(ctx).timers,
{
    ctx.closed = true;
    ctx.paused = true;
}

/// Applies the first key held down, while the session is open: the pause
/// hotkey pauses it and the resume hotkey resumes it.
pub fn apply_hotkey(ctx: &mut SessionContext, key: Option<HotKey>)
    ensures
        final(ctx).paused == if old(ctx).closed {
            old(ctx).paused
        } else {
            match key {
                Some(HotKey::Pause) => true,
                Some(HotKey::Resume) => false,
                None => old(ctx).paused,
            }
        },
        final(ctx).closed == old(ctx).closed,
        final(ctx).mode == old(ctx).mode,
        final(ctx).hold_on_time == old(ctx).hold_on_time,
        final(ctx).timers == old(ctx).timers,
{
    if !ctx.closed {
        match key {
            Some(HotKey::Pause) => {
                ctx.paused = true;
            },
            Some(HotKey::Resume) => {
                ctx.paused = false;
            },
            None => {},
        }
    }
}

/// Sets the mode that the next start uses.
pub fn change_action_type(ctx: &mut SessionContext, t: u32)
    ensures
        final(ctx).mode == t,
        final(ctx).closed == old(ctx).closed,
        final(ctx).paused == old(ctx).paused,
        final(ctx).hold_on_time == old(ctx).hold_on_time,
        final(ctx).timers == old(ctx).timers,
{
    ctx.mode = t;
}

} // verus!
