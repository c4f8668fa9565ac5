use ruby_macro::control::{Dispatch, HoldController, ToggleController};

#[test]
fn toggle_flips_only_on_rising_edges() {
    let mut c = ToggleController::new();
    let mut states = Vec::new();
    for active in [false, true, false] {
        c.poll(false, false, active, false);
        states.push(c.running);
    }
    assert_eq!(states, vec![false, true, true]);
}

#[test]
fn toggle_second_press_stops_worker() {
    let mut c = ToggleController::new();
    c.poll(false, false, false, false);
    let d = c.poll(false, false, true, false);
    assert!(d.launch && !d.cancel);
    c.poll(false, false, false, false);
    let d = c.poll(false, false, true, false);
    assert!(!c.running);
    assert_eq!(d, Dispatch { cancel: true, join: true, launch: false, exit: false });
}

#[test]
fn toggle_holding_key_does_not_flip_again() {
    let mut c = ToggleController::new();
    c.poll(false, false, true, false);
    let d = c.poll(false, false, true, false);
    assert!(c.running);
    assert_eq!(d, Dispatch { cancel: false, join: false, launch: false, exit: false });
}

#[test]
fn toggle_pause_and_close() {
    let mut c = ToggleController::new();
    c.poll(false, false, true, false);
    let before = c;
    let d = c.poll(false, true, false, false);
    assert_eq!(c, before);
    assert_eq!(d, Dispatch { cancel: false, join: false, launch: false, exit: false });
    let d = c.poll(true, false, false, false);
    assert_eq!(d, Dispatch { cancel: true, join: true, launch: false, exit: true });
    assert!(!c.running);
}

#[test]
fn hold_launches_once_then_cancels_on_release() {
    let mut c = HoldController::new();
    let mut launches = 0;
    for _ in 0..3 {
        let d = c.poll(false, false, true, false);
        if d.launch {
            launches += 1;
        }
        assert!(!d.cancel);
    }
    assert_eq!(launches, 1);
    let d = c.poll(false, false, false, false);
    assert!(d.cancel && d.join && !d.launch);
}

#[test]
fn hold_relaunches_a_finished_worker() {
    let mut c = HoldController::new();
    c.poll(false, false, true, false);
    let d = c.poll(false, false, true, true);
    assert_eq!(d, Dispatch { cancel: false, join: true, launch: true, exit: false });
}

#[test]
fn hold_close_joins_and_exits() {
    let mut c = HoldController::new();
    c.poll(false, false, true, false);
    let d = c.poll(true, false, true, false);
    assert_eq!(d, Dispatch { cancel: true, join: true, launch: false, exit: true });
    assert!(!c.worker);
}
