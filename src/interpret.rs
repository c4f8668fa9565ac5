use vstd::prelude::*;

use crate::color::{check_color_distance, within_tolerance, RGB};
use crate::model::{Branch, ElementEnum};
use crate::text::{offset_of, parse_coordinate, parse_offset, parse_rgb, point_of, rgb_of};
use crate::timers::{cooldown, TimerRegistry};
use crate::tree::{ActionNode, ActionTree};

verus! {

/// How a run of the interpreter ended.
#[derive(Debug, Clone, Copy, PartialEq, Eq, Structural)]
pub enum RunEnd {
    /// No node was left to evaluate.
    Completed,
    /// The cancel signal was seen, or a delay was cut short by it.
    Cancelled,
    /// Injecting a key press failed.
    Failed,
}

/// What the interpreter asks its caller to do next.
#[derive(Debug, Clone, Copy, PartialEq, Eq, Structural)]
pub enum Effect {
    /// Nothing outside; call `step` again.
    Proceed,
    /// Press `code` for `hold_ms` (see `keystroke_plan`); answer `Injected`.
    Keystroke { code: u32, hold_ms: u32 },
    /// Read the skill slot `offset` through the chain of `kind`; answer `Value`.
    ReadSkill { kind: u32, offset: usize },
    /// Read the resource value; answer `Value`.
    ReadMana,
    /// Sleep `ms`, watching the cancel signal every few milliseconds; answer
    /// `Slept(true)` if the whole delay passed.
    Sleep { ms: u32 },
    /// Sample the pixel at `(x, y)`; answer `Sampled`.
    SampleColor { x: i32, y: i32 },
    /// The run is over.
    Finished(RunEnd),
}

/// The caller's answer to an effect.
#[derive(Debug, Clone, Copy, PartialEq, Eq, Structural)]
pub enum Feedback {
    /// Whether every injection of a key press succeeded.
    Injected(bool),
    /// Whether a delay ran to its end without cancellation.
    Slept(bool),
    /// The value read, or `None` when the process could not be opened or a
    /// read failed.
    Value(Option<u64>),
    /// The sampled color, or `None` when the sampler faulted.
    Sampled(Option<RGB>),
}

/// Result of evaluating a node without outside help.
#[derive(Debug, Clone, Copy, PartialEq, Eq, Structural)]
pub enum Eval {
    /// The node needs this effect performed first.
    Needs(Effect),
    /// The node is decided: its children on this branch run next (none if `None`).
    Done(Option<Branch>),
}

/// Result of an effect's answer.
#[derive(Debug, Clone, Copy, PartialEq, Eq, Structural)]
pub enum Resume {
    Outcome(Option<Branch>),
    Abort(RunEnd),
}

/// Whether `v` is one of `codes`.
pub open spec fn code_matches(codes: Seq<u32>, v: u64) -> bool {
    exists|j: int| 0 <= j < codes.len() && codes[j] as u64 == v
}

pub open spec fn branch_if(b: bool) -> Branch {
    if b {
        Branch::Yes
    } else {
        Branch::No
    }
}

/// Evaluates node `e` as far as it can go without outside work, and the
/// timer registry after it. `held` says whether the registry could be
/// locked; without it cooldown checks fail and marks record nothing.
pub open spec fn evaluate(e: ElementEnum, m: Map<Seq<char>, u64>, held: bool, now: u64) -> (
    Eval,
    Map<Seq<char>, u64>,
) {
    match e {
        ElementEnum::Element(k) => (
            Eval::Needs(Effect::Keystroke { code: k.elements_code, hold_ms: k.key_up_delay }),
            m,
        ),
        ElementEnum::Skill(s) => match s.skill_offset {
            Some(o) => match offset_of(o@) {
                Some(off) => (Eval::Needs(Effect::ReadSkill { kind: s.skill_type, offset: off }), m),
                None => (Eval::Done(Some(Branch::No)), m),
            },
            None => (Eval::Done(Some(Branch::No)), m),
        },
        ElementEnum::TimeOrNama(t) => if t.t == 1 {
            (Eval::Needs(Effect::Sleep { ms: t.n }), m)
        } else if t.t == 2 {
            if held {
                let (yes, m2) = cooldown(m, t.id@, t.n as u64, t.init, now);
                (Eval::Done(Some(branch_if(yes))), m2)
            } else {
                (Eval::Done(Some(Branch::No)), m)
            }
        } else if t.t == 3 {
            (Eval::Needs(Effect::ReadMana), m)
        } else if t.t == 4 {
            (
                Eval::Done(Some(Branch::Yes)),
                if held {
                    m.insert(t.id@, now)
                } else {
                    m
                },
            )
        } else {
            (Eval::Done(None), m)
        },
        ElementEnum::Color(c) => match (point_of(c.coordinate@), rgb_of(c.rgb@)) {
            (Some(p), Some(_)) => (Eval::Needs(Effect::SampleColor { x: p.0, y: p.1 }), m),
            _ => (Eval::Done(Some(Branch::No)), m),
        },
    }
}

/// What the answer `fb` to node `e`'s effect decides.
pub open spec fn resume(e: ElementEnum, fb: Option<Feedback>) -> Resume {
    match e {
        ElementEnum::Element(_) => if fb == Some(Feedback::Injected(true)) {
            Resume::Outcome(Some(Branch::Yes))
        } else {
            Resume::Abort(RunEnd::Failed)
        },
        ElementEnum::Skill(s) => Resume::Outcome(
            Some(
                branch_if(
                    match fb {
                        Some(Feedback::Value(Some(v))) => code_matches(s.skill_code@, v),
                        _ => false,
                    },
                ),
            ),
        ),
        ElementEnum::TimeOrNama(t) => if t.t == 1 {
            if fb == Some(Feedback::Slept(true)) {
                Resume::Outcome(Some(Branch::Yes))
            } else {
                Resume::Abort(RunEnd::Cancelled)
            }
        } else {
            Resume::Outcome(
                Some(
                    branch_if(
                        match fb {
                            Some(Feedback::Value(Some(v))) => v <= t.n,
                            _ => false,
                        },
                    ),
                ),
            )
        },
        ElementEnum::Color(c) => Resume::Outcome(
            Some(
                branch_if(
                    match (fb, rgb_of(c.rgb@)) {
                        (Some(Feedback::Sampled(Some(col))), Some(target)) => within_tolerance(
                            col,
                            target,
                            c.deviation as int,
                        ),
                        _ => false,
                    },
                ),
            ),
        ),
    }
}

/// The children of `kids`, in order, that follow branch `b`.
pub open spec fn pick(nodes: Seq<ActionNode>, kids: Seq<usize>, b: Branch) -> Seq<usize>
    decreases kids.len(),
{
    if kids.len() == 0 {
        Seq::empty()
    } else {
        pick(nodes, kids.drop_last(), b) + if nodes[kids.last() as int].branch == Some(b) {
            seq![kids.last()]
        } else {
            Seq::empty()
        }
    }
}

/// The children of node `i` that an outcome selects.
pub open spec fn selected(nodes: Seq<ActionNode>, i: int, outcome: Option<Branch>) -> Seq<usize> {
    match outcome {
        Some(b) => pick(nodes, nodes[i].children@, b),
        None => Seq::empty(),
    }
}

/// The state of a run, as the contracts see it.
pub struct WalkView {
    pub level: Seq<usize>,
    pub pos: int,
    pub next: Seq<usize>,
    pub pending: bool,
    pub end: Option<RunEnd>,
}

/// A breadth-first run over an [`ActionTree`]: the level being evaluated,
/// the position in it, the children gathered for the next level, whether
/// the node at `pos` waits for an answer, and how the run ended.
pub struct Walk {
    pub level: Vec<usize>,
    pub pos: usize,
    pub next: Vec<usize>,
    pub pending: bool,
    pub end: Option<RunEnd>,
}

impl View for Walk {
    type V = WalkView;

    open spec fn view(&self) -> WalkView {
        WalkView {
            level: self.level@,
            pos: self.pos as int,
            next: self.next@,
            pending: self.pending,
            end: self.end,
        }
    }
}

/// The start of a run over the top-level nodes.
pub open spec fn start_view(roots: Seq<usize>) -> WalkView {
    WalkView { level: roots, pos: 0, next: Seq::empty(), pending: false, end: None }
}

/// Node `i` is decided with `outcome`: its selected children join the next
/// level and, unless the cancel signal is now seen, the run goes on.
pub open spec fn settle(
    w: WalkView,
    nodes: Seq<ActionNode>,
    i: int,
    outcome: Option<Branch>,
    cancelled: bool,
) -> (WalkView, Effect) {
    let w2 = WalkView {
        level: w.level,
        pos: w.pos + 1,
        next: w.next + selected(nodes, i, outcome),
        pending: false,
        end: if cancelled {
            Some(RunEnd::Cancelled)
        } else {
            None
        },
    };
    (
        w2,
        if cancelled {
            Effect::Finished(RunEnd::Cancelled)
        } else {
            Effect::Proceed
        },
    )
}

pub open spec fn ended(w: WalkView, r: RunEnd) -> WalkView {
    WalkView { level: w.level, pos: w.pos, next: w.next, pending: false, end: Some(r) }
}

/// One transition of a run: the state after it, the timer registry after
/// it, and the effect asked for.
pub open spec fn step_spec(
    w: WalkView,
    nodes: Seq<ActionNode>,
    m: Map<Seq<char>, u64>,
    held: bool,
    now: u64,
    cancelled: bool,
    fb: Option<Feedback>,
) -> (WalkView, Map<Seq<char>, u64>, Effect) {
    if w.end is Some {
        (w, m, Effect::Finished(w.end->0))
    } else if w.pending {
        let i = w.level[w.pos] as int;
        match resume(nodes[i].element, fb) {
            Resume::Abort(r) => (ended(w, r), m, Effect::Finished(r)),
            Resume::Outcome(o) => {
                let (w2, e) = settle(w, nodes, i, o, cancelled);
                (w2, m, e)
            },
        }
    } else if cancelled {
        (ended(w, RunEnd::Cancelled), m, Effect::Finished(RunEnd::Cancelled))
    } else if w.pos >= w.level.len() {
        if w.next.len() == 0 {
            (ended(w, RunEnd::Completed), m, Effect::Finished(RunEnd::Completed))
        } else {
            (
                WalkView { level: w.next, pos: 0, next: Seq::empty(), pending: false, end: None },
                m,
                Effect::Proceed,
            )
        }
    } else {
        let i = w.level[w.pos] as int;
        let (ev, m2) = evaluate(nodes[i].element, m, held, now);
        match ev {
            Eval::Needs(e) => (
                WalkView {
                    level: w.level,
                    pos: w.pos,
                    next: w.next,
                    pending: true,
                    end: None,
                },
                m2,
                e,
            ),
            Eval::Done(o) => {
                let (w2, e) = settle(w, nodes, i, o, false);
                (w2, m2, e)
            },
        }
    }
}

impl Walk {
    /// Indices stay inside the tree, and a pending node exists.
    pub open spec fn wf(&self, tree: &ActionTree) -> bool {
        &&& tree.wf()
        &&& self.pos <= self.level@.len()
        &&& (self.pending ==> self.pos < self.level@.len())
        &&& forall|k: int| 0 <= k < self.level@.len() ==> #[trigger] self.level@[k] < tree.nodes@.len()
        &&& forall|k: int| 0 <= k < self.next@.len() ==> #[trigger] self.next@[k] < tree.nodes@.len()
    }

    pub fn start(tree: &ActionTree) -> (w: Walk)
        requires
            tree.wf(),
        ensures
            w@ == start_view(tree.roots@),
            w.wf(tree),
    {
        let mut level: Vec<usize> = Vec::new();
        let mut k: usize = 0;
        while k < tree.roots.len()
            invariant
                k <= tree.roots@.len(),
                level@ == tree.roots@.take(k as int),
            decreases tree.roots.len() - k,
        {
            level.push(tree.roots[k]);
            k = k + 1;
            assert(level@ =~= tree.roots@.take(k as int));
        }
        assert(level@ =~= tree.roots@);
        Walk { level, pos: 0, next: Vec::new(), pending: false, end: None }
    }
}

/// The children of node `i` whose label matches the outcome, in order.
pub fn collect_children(tree: &ActionTree, i: usize, outcome: Option<Branch>) -> (r: Vec<usize>)
    requires
        tree.wf(),
        i < tree.nodes@.len(),
    ensures
        r@ == selected(tree.nodes@, i as int, outcome),
        forall|k: int| 0 <= k < r@.len() ==> #[trigger] r@[k] < tree.nodes@.len(),
{
    let mut r: Vec<usize> = Vec::new();
    let b = match outcome {
        Some(b) => b,
        None => {
            return r;
        },
    };
    let kids = &tree.nodes[i].children;
    let mut k: usize = 0;
    while k < kids.len()
        invariant
            tree.wf(),
            i < tree.nodes@.len(),
            *kids == tree.nodes@[i as int].children,
            k <= kids@.len(),
            r@ == pick(tree.nodes@, kids@.take(k as int), b),
            forall|t: int| 0 <= t < r@.len() ==> #[trigger] r@[t] < tree.nodes@.len(),
        decreases kids.len() - k,
    {
        let c = kids[k];
        assert(kids@.take(k + 1).drop_last() =~= kids@.take(k as int));
        assert(c < i);
        if tree.nodes[c].branch == Some(b) {
            r.push(c);
        }
        k = k + 1;
    }
    assert(kids@.take(kids@.len() as int) =~= kids@);
    r
}

fn code_in(codes: &Vec<u32>, v: u64) -> (b: bool)
    ensures
        b == code_matches(codes@, v),
{
    let mut k: usize = 0;
    while k < codes.len()
        invariant
            k <= codes@.len(),
            forall|j: int| 0 <= j < k ==> codes@[j] as u64 != v,
        decreases codes.len() - k,
    {
        if codes[k] as u64 == v {
            return true;
        }
        k = k + 1;
    }
    false
}

fn branch_when(b: bool) -> (r: Branch)
    ensures
        r == branch_if(b),
{
    if b {
        Branch::Yes
    } else {
        Branch::No
    }
}

/// Evaluates a node as far as it goes without outside work.
pub fn evaluate_node(node: &ActionNode, timers: &mut TimerRegistry, held: bool, now: u64) -> (r:
    Eval)
    requires
        old(timers).wf(),
    ensures
        final(timers).wf(),
        (r, final(timers)@) == evaluate(node.element, old(timers)@, held, now),
{
    match &node.element {
        ElementEnum::Element(k) => Eval::Needs(
            Effect::Keystroke { code: k.elements_code, hold_ms: k.key_up_delay },
        ),
        ElementEnum::Skill(s) => match &s.skill_offset {
            Some(o) => match parse_offset(o.as_str()) {
                Some(off) => Eval::Needs(Effect::ReadSkill { kind: s.skill_type, offset: off }),
                None => Eval::Done(Some(Branch::No)),
            },
            None => Eval::Done(Some(Branch::No)),
        },
        ElementEnum::TimeOrNama(t) => {
            if t.t == 1 {
                Eval::Needs(Effect::Sleep { ms: t.n })
            } else if t.t == 2 {
                if held {
                    let yes = timers.check_cooldown(&t.id, t.n, t.init, now);
                    Eval::Done(Some(branch_when(yes)))
                } else {
                    Eval::Done(Some(Branch::No))
                }
            } else if t.t == 3 {
                Eval::Needs(Effect::ReadMana)
            } else if t.t == 4 {
                if held {
                    timers.mark(&t.id, now);
                }
                Eval::Done(Some(Branch::Yes))
            } else {
                Eval::Done(None)
            }
        },
        ElementEnum::Color(c) => {
            let p = parse_coordinate(c.coordinate.as_str());
            let target = parse_rgb(c.rgb.as_str());
            match (p, target) {
                (Some(p), Some(_)) => Eval::Needs(Effect::SampleColor { x: p.0, y: p.1 }),
                _ => Eval::Done(Some(Branch::No)),
            }
        },
    }
}

/// Decides a node from the answer to its effect.
pub fn resume_node(node: &ActionNode, fb: Option<Feedback>) -> (r: Resume)
    ensures
        r == resume(node.element, fb),
{
    match &node.element {
        ElementEnum::Element(_) => {
            if fb == Some(Feedback::Injected(true)) {
                Resume::Outcome(Some(Branch::Yes))
            } else {
                Resume::Abort(RunEnd::Failed)
            }
        },
        ElementEnum::Skill(s) => {
            let hit = match fb {
                Some(Feedback::Value(Some(v))) => code_in(&s.skill_code, v),
                _ => false,
            };
            Resume::Outcome(Some(branch_when(hit)))
        },
        ElementEnum::TimeOrNama(t) => {
            if t.t == 1 {
                if fb == Some(Feedback::Slept(true)) {
                    Resume::Outcome(Some(Branch::Yes))
                } else {
                    Resume::Abort(RunEnd::Cancelled)
                }
            } else {
                let low = match fb {
                    Some(Feedback::Value(Some(v))) => v <= t.n as u64,
                    _ => false,
                };
                Resume::Outcome(Some(branch_when(low)))
            }
        },
        ElementEnum::Color(c) => {
            let hit = match fb {
                Some(Feedback::Sampled(Some(col))) => check_color_distance(
                    c.rgb.as_str(),
                    col,
                    c.deviation,
                ),
                _ => false,
            };
            Resume::Outcome(Some(branch_when(hit)))
        },
    }
}

impl Walk {
    fn settle_node(&mut self, tree: &ActionTree, i: usize, outcome: Option<Branch>, cancelled: bool) -> (e:
        Effect)
        requires
            old(self).wf(tree),
            old(self).pos < old(self).level@.len(),
            i < tree.nodes@.len(),
        ensures
            final(self).wf(tree),
            (final(self)@, e) == settle(old(self)@, tree.nodes@, i as int, outcome, cancelled),
    {
        let n = self.level.len();
        assert(self.pos < n);
        let p = self.pos + 1;
        let mut picked = collect_children(tree, i, outcome);
        self.next.append(&mut picked);
        self.pos = p;
        self.pending = false;
        if cancelled {
            self.end = Some(RunEnd::Cancelled);
            Effect::Finished(RunEnd::Cancelled)
        } else {
            self.end = None;
            Effect::Proceed
        }
    }

    /// Makes one transition of the run (see [`step_spec`]).
    ///
    /// `fb` answers the effect of the previous call when that effect was
    /// outside work; `cancelled` is the cancel signal as read now; `held`
    /// says whether the timer registry could be locked; `now` is the clock.
    pub fn step(
        &mut self,
        tree: &ActionTree,
        timers: &mut TimerRegistry,
        held: bool,
        now: u64,
        cancelled: bool,
        fb: Option<Feedback>,
    ) -> (e: Effect)
        requires
            old(self).wf(tree),
            old(timers).wf(),
        ensures
            final(self).wf(tree),
            final(timers).wf(),
            (final(self)@, final(timers)@, e) == step_spec(
                old(self)@,
                tree.nodes@,
                old(timers)@,
                held,
                now,
                cancelled,
                fb,
            ),
    {
        if let Some(r) = self.end {
            return Effect::Finished(r);
        }
        if self.pending {
            let i = self.level[self.pos];
            match resume_node(&tree.nodes[i], fb) {
                Resume::Abort(r) => {
                    self.pending = false;
                    self.end = Some(r);
                    Effect::Finished(r)
                },
                Resume::Outcome(o) => self.settle_node(tree, i, o, cancelled),
            }
        } else if cancelled {
            self.end = Some(RunEnd::Cancelled);
            Effect::Finished(RunEnd::Cancelled)
        } else if self.pos >= self.level.len() {
            if self.next.len() == 0 {
                self.end = Some(RunEnd::Completed);
                Effect::Finished(RunEnd::Completed)
            } else {
                let mut upcoming: Vec<usize> = Vec::new();
                std::mem::swap(&mut upcoming, &mut self.next);
                self.level = upcoming;
                self.pos = 0;
                Effect::Proceed
            }
        } else {
            let i = self.level[self.pos];
            match evaluate_node(&tree.nodes[i], timers, held, now) {
                Eval::Needs(e) => {
                    self.pending = true;
                    e
                },
                Eval::Done(o) => self.settle_node(tree, i, o, false),
            }
        }
    }
}

/// A run whose cancel signal is already set when it starts ends at its first
/// step: it asks for no key press, read, delay or sample, and leaves the
/// timer registry as it was. The same holds at every step between nodes.
pub proof fn lemma_cancelled_run_is_inert(
    w: WalkView,
    nodes: Seq<ActionNode>,
    m: Map<Seq<char>, u64>,
    held: bool,
    now: u64,
    fb: Option<Feedback>,
)
    requires
        w.end is None,
        !w.pending,
    ensures
        step_spec(w, nodes, m, held, now, true, fb) == (
            ended(w, RunEnd::Cancelled),
            m,
            Effect::Finished(RunEnd::Cancelled),
        ),
        step_spec(start_view(w.level), nodes, m, held, now, true, fb) == (
            ended(start_view(w.level), RunEnd::Cancelled),
            m,
            Effect::Finished(RunEnd::Cancelled),
        ),
{
}

/// A mark on `id` at `t0`, then a cooldown check on `id` with parameter
/// `param` after `e` more milliseconds: the check passes exactly when
/// `param < e <= 2 * param`, and past `2 * param` the entry is gone.
pub proof fn lemma_mark_then_cooldown(
    mark: crate::model::TimeOrNama,
    check: crate::model::TimeOrNama,
    m: Map<Seq<char>, u64>,
    t0: u64,
    e: u64,
)
    requires
        mark.t == 4,
        check.t == 2,
        mark.id@ == check.id@,
        t0 + e <= u64::MAX,
    ensures
        ({
            let (ev1, m1) = evaluate(ElementEnum::TimeOrNama(mark), m, true, t0);
            let (ev2, m2) = evaluate(ElementEnum::TimeOrNama(check), m1, true, (t0 + e) as u64);
            &&& ev1 == Eval::Done(Some(Branch::Yes))
            &&& ev2 == Eval::Done(Some(branch_if(check.n < e <= 2 * check.n)))
            &&& (check.n < e <= 2 * check.n ==> m2 == m1.insert(check.id@, (t0 + e) as u64))
            &&& (e > 2 * check.n ==> !m2.contains_key(check.id@))
            &&& (e <= check.n ==> m2 == m1)
        }),
{
}

/// A skill check whose offset is missing or not a number takes the "no"
/// branch at once and asks for no memory read.
pub proof fn lemma_unreadable_offset_reads_nothing(
    w: WalkView,
    nodes: Seq<ActionNode>,
    m: Map<Seq<char>, u64>,
    held: bool,
    now: u64,
    fb: Option<Feedback>,
)
    requires
        w.end is None,
        !w.pending,
        0 <= w.pos < w.level.len(),
        nodes[w.level[w.pos] as int].element matches ElementEnum::Skill(s) && (s.skill_offset is None
            || offset_of(s.skill_offset->0@) is None),
    ensures
        step_spec(w, nodes, m, held, now, false, fb) == (
            settle(w, nodes, w.level[w.pos] as int, Some(Branch::No), false).0,
            m,
            Effect::Proceed,
        ),
{
}

} // verus!
