use vstd::prelude::*;

verus! {

/// Holds longer than this, in milliseconds, are emulated with autorepeat.
pub const REPEAT_DELAY_MS: u32 = 500;

/// Interval between repeated key-down events, in milliseconds.
pub const REPEAT_INTERVAL_MS: u32 = 33;

/// One step of a key press.
#[derive(Debug, Clone, Copy, PartialEq, Eq, Structural)]
pub enum KeyStep {
    /// Inject a key-down event for this code.
    Down(u32),
    /// Inject a key-up event for this code.
    Up(u32),
    /// Wait this many milliseconds.
    Wait(u32),
}

/// Autorepeat for the `remaining` milliseconds of a long hold: while a full
/// interval remains, wait one interval and inject key-down again; then wait
/// out what is left.
pub open spec fn repeats(code: u32, remaining: nat) -> Seq<KeyStep>
    decreases remaining,
{
    if remaining >= REPEAT_INTERVAL_MS {
        seq![KeyStep::Wait(REPEAT_INTERVAL_MS), KeyStep::Down(code)] + repeats(
            code,
            (remaining - REPEAT_INTERVAL_MS) as nat,
        )
    } else {
        seq![KeyStep::Wait(remaining as u32)]
    }
}

/// A key press held for `hold_ms`: key-down, the hold (with autorepeat past
/// [`REPEAT_DELAY_MS`]), key-up.
pub open spec fn key_plan(code: u32, hold_ms: u32) -> Seq<KeyStep> {
    seq![KeyStep::Down(code)] + (if hold_ms > REPEAT_DELAY_MS {
        repeats(code, hold_ms as nat)
    } else {
        seq![KeyStep::Wait(hold_ms)]
    }) + seq![KeyStep::Up(code)]
}

/// The steps that press `code` for `hold_ms` milliseconds.
pub fn keystroke_plan(code: u32, hold_ms: u32) -> (steps: Vec<KeyStep>)
    ensures
        steps@ == key_plan(code, hold_ms),
{
    let mut steps: Vec<KeyStep> = Vec::new();
    steps.push(KeyStep::Down(code));
    if hold_ms > REPEAT_DELAY_MS {
        let mut remaining = hold_ms;
        while remaining >= REPEAT_INTERVAL_MS
            invariant
                steps@ + repeats(code, remaining as nat) == seq![KeyStep::Down(code)] + repeats(
                    code,
                    hold_ms as nat,
                ),
            decreases remaining,
        {
            let ghost before = steps@;
            steps.push(KeyStep::Wait(REPEAT_INTERVAL_MS));
            steps.push(KeyStep::Down(code));
            remaining = remaining - REPEAT_INTERVAL_MS;
            assert(steps@ + repeats(code, remaining as nat) =~= before + repeats(
                code,
                (remaining + REPEAT_INTERVAL_MS) as nat,
            ));
        }
        steps.push(KeyStep::Wait(remaining));
        assert(steps@ =~= seq![KeyStep::Down(code)] + repeats(code, hold_ms as nat));
    } else {
        steps.push(KeyStep::Wait(hold_ms));
    }
    steps.push(KeyStep::Up(code));
    assert(steps@ =~= key_plan(code, hold_ms));
    steps
}

} // verus!
