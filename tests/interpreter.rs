use ruby_macro::color::RGB;
use ruby_macro::interpret::{collect_children, Effect, Feedback, RunEnd, Walk};
use ruby_macro::keystroke::{keystroke_plan, KeyStep};
use ruby_macro::model::{Branch, Children, Color, Element, ElementEnum, Elements, Skill, TimeOrNama};
use ruby_macro::timers::TimerRegistry;
use ruby_macro::tree::ActionTree;

fn header() -> Element {
    Element { elements_key: "F".to_string(), elements_code: 70, key_up_delay: 0 }
}

fn key(code: u32, hold: u32) -> ElementEnum {
    ElementEnum::Element(Element { elements_key: "A".to_string(), elements_code: code, key_up_delay: hold })
}

fn color(coordinate: &str, rgb: &str) -> ElementEnum {
    ElementEnum::Color(Color { coordinate: coordinate.to_string(), rgb: rgb.to_string(), deviation: 0 })
}

fn gate(id: &str, t: u32, n: u32) -> ElementEnum {
    ElementEnum::TimeOrNama(TimeOrNama { id: id.to_string(), t, n, init: false })
}

fn skill(offset: Option<&str>, codes: Vec<u32>) -> ElementEnum {
    ElementEnum::Skill(Skill { skill_offset: offset.map(|s| s.to_string()), skill_type: 2, skill_code: codes })
}

fn node(element: ElementEnum, iyn: &str, children: Option<Vec<Children>>) -> Children {
    Children { element, iyn: iyn.to_string(), children }
}

fn tree(children: Vec<Children>) -> ActionTree {
    ActionTree::from_elements(Elements { header: header(), children: Some(children) })
}

struct Stub {
    inject_ok: bool,
    value: Option<u64>,
    color: Option<RGB>,
    now: u64,
    injected: Vec<KeyStep>,
    reads: usize,
    samples: Vec<(i32, i32)>,
    visited: usize,
}

impl Stub {
    fn new() -> Stub {
        Stub {
            inject_ok: true,
            value: None,
            color: None,
            now: 0,
            injected: Vec::new(),
            reads: 0,
            samples: Vec::new(),
            visited: 0,
        }
    }
}

fn drive(t: &ActionTree, timers: &mut TimerRegistry, stub: &mut Stub, cancelled: bool) -> RunEnd {
    let mut walk = Walk::start(t);
    let mut fb: Option<Feedback> = None;
    loop {
        let before = walk.pos;
        let e = walk.step(t, timers, true, stub.now, cancelled, fb.take());
        if walk.pos > before {
            stub.visited += 1;
        }
        match e {
            Effect::Proceed => {}
            Effect::Keystroke { code, hold_ms } => {
                stub.visited += 1;
                for s in keystroke_plan(code, hold_ms) {
                    if !matches!(s, KeyStep::Wait(_)) {
                        stub.injected.push(s);
                    }
                }
                fb = Some(Feedback::Injected(stub.inject_ok));
            }
            Effect::ReadSkill { .. } | Effect::ReadMana => {
                stub.visited += 1;
                stub.reads += 1;
                fb = Some(Feedback::Value(stub.value));
            }
            Effect::Sleep { .. } => {
                stub.visited += 1;
                fb = Some(Feedback::Slept(true));
            }
            Effect::SampleColor { x, y } => {
                stub.visited += 1;
                stub.samples.push((x, y));
                fb = Some(Feedback::Sampled(stub.color));
            }
            Effect::Finished(end) => return end,
        }
    }
}

#[test]
fn end_to_end_key_then_color() {
    let t = tree(vec![node(
        key(65, 30),
        "y",
        Some(vec![node(color("10,10", "255,0,0"), "y", None)]),
    )]);
    let mut timers = TimerRegistry::new();
    let mut stub = Stub::new();
    stub.color = Some(RGB::new(255, 0, 0));
    assert_eq!(drive(&t, &mut timers, &mut stub, false), RunEnd::Completed);
    assert_eq!(stub.injected, vec![KeyStep::Down(65), KeyStep::Up(65)]);
    assert_eq!(stub.samples, vec![(10, 10)]);
}

#[test]
fn cancelled_run_does_nothing() {
    let t = tree(vec![
        node(key(65, 30), "y", None),
        node(gate("m", 4, 0), "y", None),
        node(color("1,1", "0,0,0"), "n", None),
    ]);
    let mut timers = TimerRegistry::new();
    let mut stub = Stub::new();
    stub.now = 1000;
    assert_eq!(drive(&t, &mut timers, &mut stub, true), RunEnd::Cancelled);
    assert!(stub.injected.is_empty());
    assert!(stub.samples.is_empty());
    assert_eq!(stub.reads, 0);
    assert_eq!(timers.get(&"m".to_string()), None);
}

#[test]
fn non_numeric_offset_takes_no_branch_without_reading() {
    let t = tree(vec![node(
        skill(Some("abc"), vec![1]),
        "y",
        Some(vec![node(key(66, 0), "y", None), node(key(67, 0), "n", None)]),
    )]);
    let mut timers = TimerRegistry::new();
    let mut stub = Stub::new();
    stub.value = Some(1);
    assert_eq!(drive(&t, &mut timers, &mut stub, false), RunEnd::Completed);
    assert_eq!(stub.reads, 0);
    assert_eq!(stub.injected, vec![KeyStep::Down(67), KeyStep::Up(67)]);
}

#[test]
fn skill_value_in_match_set_takes_yes() {
    let t = tree(vec![node(
        skill(Some("12"), vec![5, 9]),
        "y",
        Some(vec![node(key(66, 0), "y", None), node(key(67, 0), "n", None)]),
    )]);
    let mut timers = TimerRegistry::new();
    let mut stub = Stub::new();
    stub.value = Some(9);
    assert_eq!(drive(&t, &mut timers, &mut stub, false), RunEnd::Completed);
    assert_eq!(stub.reads, 1);
    assert_eq!(stub.injected, vec![KeyStep::Down(66), KeyStep::Up(66)]);
}

#[test]
fn failed_read_takes_no() {
    let t = tree(vec![node(
        gate("mana", 3, 50),
        "y",
        Some(vec![node(key(66, 0), "y", None), node(key(67, 0), "n", None)]),
    )]);
    let mut timers = TimerRegistry::new();
    let mut stub = Stub::new();
    stub.value = None;
    assert_eq!(drive(&t, &mut timers, &mut stub, false), RunEnd::Completed);
    assert_eq!(stub.injected, vec![KeyStep::Down(67), KeyStep::Up(67)]);
    let mut stub = Stub::new();
    stub.value = Some(50);
    assert_eq!(drive(&t, &mut timers, &mut stub, false), RunEnd::Completed);
    assert_eq!(stub.injected, vec![KeyStep::Down(66), KeyStep::Up(66)]);
}

#[test]
fn injection_failure_aborts_run() {
    let t = tree(vec![
        node(key(65, 0), "y", Some(vec![node(key(66, 0), "y", None)])),
        node(color("1,1", "0,0,0"), "y", None),
    ]);
    let mut timers = TimerRegistry::new();
    let mut stub = Stub::new();
    stub.inject_ok = false;
    assert_eq!(drive(&t, &mut timers, &mut stub, false), RunEnd::Failed);
    assert!(stub.samples.is_empty());
}

#[test]
fn sampler_fault_takes_no() {
    let t = tree(vec![node(
        color("3,4", "1,2,3"),
        "y",
        Some(vec![node(key(66, 0), "y", None), node(key(67, 0), "n", None)]),
    )]);
    let mut timers = TimerRegistry::new();
    let mut stub = Stub::new();
    stub.color = None;
    assert_eq!(drive(&t, &mut timers, &mut stub, false), RunEnd::Completed);
    assert_eq!(stub.samples, vec![(3, 4)]);
    assert_eq!(stub.injected, vec![KeyStep::Down(67), KeyStep::Up(67)]);
}

#[test]
fn levels_run_breadth_first() {
    let t = tree(vec![
        node(key(1, 0), "y", Some(vec![node(key(3, 0), "y", None)])),
        node(key(2, 0), "y", None),
    ]);
    let mut timers = TimerRegistry::new();
    let mut stub = Stub::new();
    assert_eq!(drive(&t, &mut timers, &mut stub, false), RunEnd::Completed);
    let downs: Vec<u32> = stub
        .injected
        .iter()
        .filter_map(|s| match s {
            KeyStep::Down(c) => Some(*c),
            _ => None,
        })
        .collect();
    assert_eq!(downs, vec![1, 2, 3]);
}

#[test]
fn delay_cut_short_cancels_run() {
    let t = tree(vec![node(gate("d", 1, 1000), "y", Some(vec![node(key(66, 0), "y", None)]))]);
    let mut timers = TimerRegistry::new();
    let mut walk = Walk::start(&t);
    assert_eq!(walk.step(&t, &mut timers, true, 0, false, None), Effect::Sleep { ms: 1000 });
    let e = walk.step(&t, &mut timers, true, 0, true, Some(Feedback::Slept(false)));
    assert_eq!(e, Effect::Finished(RunEnd::Cancelled));
}

fn cooldown_after(elapsed: u64) -> (Effect, Option<u64>, Vec<usize>) {
    let t = tree(vec![
        node(gate("x", 4, 0), "y", None),
        node(gate("x", 2, 100), "y", Some(vec![node(key(66, 0), "y", None)])),
    ]);
    let mut timers = TimerRegistry::new();
    let mut walk = Walk::start(&t);
    assert_eq!(walk.step(&t, &mut timers, true, 1000, false, None), Effect::Proceed);
    let e = walk.step(&t, &mut timers, true, 1000 + elapsed, false, None);
    (e, timers.get(&"x".to_string()), walk.next.clone())
}

#[test]
fn cooldown_too_soon_is_no() {
    let (e, entry, next) = cooldown_after(50);
    assert_eq!(e, Effect::Proceed);
    assert_eq!(entry, Some(1000));
    assert!(next.is_empty());
}

#[test]
fn cooldown_inside_window_is_yes() {
    let (e, entry, next) = cooldown_after(150);
    assert_eq!(e, Effect::Proceed);
    assert_eq!(entry, Some(1150));
    assert_eq!(next.len(), 1);
}

#[test]
fn cooldown_past_window_is_no_and_expires() {
    let (e, entry, next) = cooldown_after(250);
    assert_eq!(e, Effect::Proceed);
    assert_eq!(entry, None);
    assert!(next.is_empty());
}

#[test]
fn cooldown_on_unknown_id_initialises_when_asked() {
    let mut with_init = TimeOrNama { id: "z".to_string(), t: 2, n: 100, init: true };
    let t = tree(vec![node(ElementEnum::TimeOrNama(with_init.clone()), "y", None)]);
    let mut timers = TimerRegistry::new();
    let mut walk = Walk::start(&t);
    walk.step(&t, &mut timers, true, 7, false, None);
    assert_eq!(timers.get(&"z".to_string()), Some(7));
    with_init.init = false;
    let t = tree(vec![node(ElementEnum::TimeOrNama(with_init), "y", None)]);
    let mut timers = TimerRegistry::new();
    let mut walk = Walk::start(&t);
    walk.step(&t, &mut timers, true, 7, false, None);
    assert_eq!(timers.get(&"z".to_string()), None);
}

#[test]
fn unlocked_registry_fails_checks_and_skips_marks() {
    let t = tree(vec![node(gate("x", 4, 0), "y", None)]);
    let mut timers = TimerRegistry::new();
    let mut walk = Walk::start(&t);
    assert_eq!(walk.step(&t, &mut timers, false, 5, false, None), Effect::Proceed);
    assert_eq!(timers.get(&"x".to_string()), None);
}

#[test]
fn registry_mark_remove_clear() {
    let mut timers = TimerRegistry::new();
    let a = "a".to_string();
    let b = "b".to_string();
    timers.mark(&a, 1);
    timers.mark(&b, 2);
    timers.mark(&a, 3);
    assert_eq!(timers.get(&a), Some(3));
    assert_eq!(timers.get(&b), Some(2));
    timers.remove(&a);
    assert_eq!(timers.get(&a), None);
    assert_eq!(timers.get(&b), Some(2));
    timers.clear();
    assert_eq!(timers.get(&b), None);
}

#[test]
fn registry_cooldown_exact() {
    let mut timers = TimerRegistry::new();
    let id = "k".to_string();
    timers.mark(&id, 0);
    assert!(!timers.check_cooldown(&id, 100, false, 100));
    assert!(timers.check_cooldown(&id, 100, false, 101));
    assert_eq!(timers.get(&id), Some(101));
    assert!(timers.check_cooldown(&id, 100, false, 301));
    assert!(!timers.check_cooldown(&id, 100, false, 502));
    assert_eq!(timers.get(&id), None);
}

#[test]
fn children_are_collected_by_label() {
    let t = tree(vec![node(
        key(1, 0),
        "y",
        Some(vec![
            node(key(2, 0), "n", None),
            node(key(3, 0), "y", None),
            node(key(4, 0), "maybe", None),
            node(key(5, 0), "n", None),
        ]),
    )]);
    let root = t.roots[0];
    let yes = collect_children(&t, root, Some(Branch::Yes));
    let no = collect_children(&t, root, Some(Branch::No));
    assert_eq!(yes.len(), 1);
    assert_eq!(no.len(), 2);
    assert!(collect_children(&t, root, None).is_empty());
    let code = |i: usize| match &t.nodes[i].element {
        ElementEnum::Element(e) => e.elements_code,
        _ => 0,
    };
    assert_eq!(code(yes[0]), 3);
    assert_eq!((code(no[0]), code(no[1])), (2, 5));
}

#[test]
fn tree_layout_puts_children_first() {
    let t = tree(vec![
        node(key(1, 0), "y", Some(vec![node(key(2, 0), "n", None)])),
        node(key(3, 0), "n", None),
    ]);
    assert_eq!(t.nodes.len(), 3);
    assert_eq!(t.roots.len(), 2);
    for (i, n) in t.nodes.iter().enumerate() {
        for c in &n.children {
            assert!(*c < i);
        }
    }
    assert_eq!(t.nodes[t.roots[1]].branch, Some(Branch::No));
    let empty = ActionTree::from_elements(Elements { header: header(), children: None });
    assert!(empty.roots.is_empty());
}

#[test]
fn keystroke_short_hold_is_one_pair() {
    assert_eq!(keystroke_plan(65, 30), vec![KeyStep::Down(65), KeyStep::Wait(30), KeyStep::Up(65)]);
    assert_eq!(keystroke_plan(65, 500), vec![KeyStep::Down(65), KeyStep::Wait(500), KeyStep::Up(65)]);
}

#[test]
fn keystroke_long_hold_repeats() {
    let plan = keystroke_plan(9, 600);
    let downs = plan.iter().filter(|s| matches!(s, KeyStep::Down(9))).count();
    let waited: u32 = plan
        .iter()
        .map(|s| match s {
            KeyStep::Wait(ms) => *ms,
            _ => 0,
        })
        .sum();
    assert_eq!(downs, 1 + 600 / 33);
    assert_eq!(waited, 600);
    assert_eq!(plan[plan.len() - 2], KeyStep::Wait(600 % 33));
    assert_eq!(plan[plan.len() - 1], KeyStep::Up(9));
}
