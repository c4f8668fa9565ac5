use vstd::prelude::*;

use crate::model::{branch_of, label_of, Branch, Children, Element, ElementEnum, Elements};

verus! {

broadcast use vstd::std_specs::vec::axiom_vec_index_decreases;

/// One node of an [`ActionTree`]: its step, the branch it follows, and the
/// indices of its children in the tree's node table.
#[derive(Debug)]
pub struct ActionNode {
    pub element: ElementEnum,
    pub branch: Option<Branch>,
    pub children: Vec<usize>,
}

/// An action tree stored as a flat table. A node's children are named by
/// index and always stand before it, so the table holds no cycle.
#[derive(Debug)]
pub struct ActionTree {
    pub header: Element,
    pub nodes: Vec<ActionNode>,
    pub roots: Vec<usize>,
}

/// Every child index is smaller than its parent's.
pub open spec fn nodes_wf(nodes: Seq<ActionNode>) -> bool {
    forall|i: int, j: int|
        0 <= i < nodes.len() && 0 <= j < nodes[i].children@.len() ==> #[trigger] nodes[i].children@[j]
            < i
}

/// `i` names node `c` of a configured tree: same step, same branch, and
/// children that name `c`'s children, in order.
pub open spec fn represents(nodes: Seq<ActionNode>, i: int, c: Children) -> bool
    decreases c,
{
    &&& 0 <= i < nodes.len()
    &&& nodes[i].element == c.element
    &&& nodes[i].branch == label_of(c.iyn@)
    &&& match c.children {
        None => nodes[i].children@.len() == 0,
        Some(cs) => {
            &&& nodes[i].children@.len() == cs@.len()
            &&& forall|j: int|
                0 <= j < cs@.len() ==> represents(nodes, #[trigger] nodes[i].children@[j] as int, cs@[j])
        },
    }
}

impl ActionTree {
    pub open spec fn wf(&self) -> bool {
        &&& nodes_wf(self.nodes@)
        &&& forall|r: int| 0 <= r < self.roots@.len() ==> #[trigger] self.roots@[r] < self.nodes@.len()
    }
}

/// A subtree keeps its meaning when the table only grows: every node it
/// uses stands in the unchanged prefix.
proof fn lemma_represents_stable(a: Seq<ActionNode>, b: Seq<ActionNode>, i: int, c: Children)
    requires
        nodes_wf(a),
        represents(a, i, c),
        a.len() <= b.len(),
        b.subrange(0, a.len() as int) == a,
    ensures
        represents(b, i, c),
    decreases c,
{
    assert(b[i] == b.subrange(0, a.len() as int)[i]);
    match c.children {
        None => {},
        Some(cs) => {
            assert forall|j: int| 0 <= j < cs@.len() implies represents(
                b,
                #[trigger] b[i].children@[j] as int,
                cs@[j],
            ) by {
                assert(decreases_to!(c => c.children));
                assert(decreases_to!(c.children => c.children->0));
                assert(decreases_to!(cs => cs@));
                assert(decreases_to!(cs@ => cs@[j]));
                lemma_represents_stable(a, b, a[i].children@[j] as int, cs@[j]);
            }
        },
    }
}

fn reversed(v: Vec<usize>) -> (r: Vec<usize>)
    ensures
        r@ == v@.reverse(),
{
    let mut r: Vec<usize> = Vec::new();
    let mut i = v.len();
    while i > 0
        invariant
            i <= v@.len(),
            r@ == v@.subrange(i as int, v@.len() as int).reverse(),
        decreases i,
    {
        i = i - 1;
        r.push(v[i]);
        assert(r@ =~= v@.subrange(i as int, v@.len() as int).reverse());
    }
    assert(v@.subrange(0, v@.len() as int) =~= v@);
    r
}

/// Appends the nodes of `c` to the table, children first, and returns the
/// index of `c` itself.
fn push_subtree(c: Children, nodes: &mut Vec<ActionNode>) -> (idx: usize)
    requires
        nodes_wf(old(nodes)@),
    ensures
        nodes_wf(final(nodes)@),
        old(nodes)@.len() <= idx < final(nodes)@.len(),
        final(nodes)@.subrange(0, old(nodes)@.len() as int) == old(nodes)@,
        represents(final(nodes)@, idx as int, c),
    decreases c,
{
    let ghost c0 = c;
    let ghost start = nodes@.len();
    let Children { element, iyn, children } = c;
    let branch = branch_of(&iyn);
    let mut kids_rev: Vec<usize> = Vec::new();
    match children {
        Some(mut cs) => {
            let ghost all = cs@;
            let ghost cs0 = cs;
            while cs.len() > 0
                invariant
                    nodes_wf(nodes@),
                    start <= nodes@.len(),
                    nodes@.subrange(0, start as int) == old(nodes)@,
                    start == old(nodes)@.len(),
                    cs@ == all.take(cs@.len() as int),
                    cs@.len() <= all.len(),
                    c0 == c,
                    c0.children == Some(cs0),
                    all == cs0@,
                    kids_rev@.len() == all.len() - cs@.len(),
                    forall|k: int|
                        0 <= k < kids_rev@.len() ==> represents(
                            nodes@,
                            #[trigger] kids_rev@[k] as int,
                            all[all.len() - 1 - k],
                        ),
                decreases cs.len(),
            {
                let ghost n = cs@.len() - 1;
                let k = cs.pop().unwrap();
                let ghost before = nodes@;
                assert(decreases_to!(c0 => k)) by {
                    assert(k == all[n]);
                    assert(decreases_to!(c0 => c0.children));
                    assert(decreases_to!(c0.children => c0.children->0));
                    assert(decreases_to!(cs0 => cs0@));
                    assert(decreases_to!(cs0@ => cs0@[n]));
                };
                let ki = push_subtree(k, nodes);
                assert(nodes@.subrange(0, start as int) =~= before.subrange(0, start as int));
                proof {
                    assert forall|t: int| 0 <= t < kids_rev@.len() implies represents(
                        nodes@,
                        #[trigger] kids_rev@[t] as int,
                        all[all.len() - 1 - t],
                    ) by {
                        let r = kids_rev@[t] as int;
                        lemma_represents_stable(before, nodes@, r, all[all.len() - 1 - t]);
                    }
                }
                kids_rev.push(ki);
            }
        },
        None => {},
    }
    let kids = reversed(kids_rev);
    let idx = nodes.len();
    let ghost before = nodes@;
    nodes.push(ActionNode { element, branch, children: kids });
    assert(nodes@.subrange(0, start as int) =~= old(nodes)@);
    assert(nodes@.subrange(0, before.len() as int) =~= before);
    proof {
        assert(nodes@[idx as int].children@ == kids@);
        match c0.children {
            None => {},
            Some(cs0) => {
                assert forall|j: int| 0 <= j < cs0@.len() implies represents(
                    nodes@,
                    #[trigger] nodes@[idx as int].children@[j] as int,
                    cs0@[j],
                ) by {
                    let r = kids@[j] as int;
                    assert(kids@[j] == kids_rev@[kids_rev@.len() - 1 - j]);
                    lemma_represents_stable(before, nodes@, r, cs0@[j]);
                }
            },
        }
    }
    idx
}

impl ActionTree {
    /// Lays a configured tree out as a table. Each root index names the
    /// corresponding top-level node, in order (see [`represents`]).
    pub fn from_elements(e: Elements) -> (t: ActionTree)
        ensures
            t.wf(),
            t.header == e.header,
            match e.children {
                None => t.roots@.len() == 0,
                Some(cs) => {
                    &&& t.roots@.len() == cs@.len()
                    &&& forall|r: int|
                        0 <= r < cs@.len() ==> represents(t.nodes@, #[trigger] t.roots@[r] as int, cs@[r])
                },
            },
    {
        let ghost e0 = e;
        let Elements { header, children } = e;
        let mut nodes: Vec<ActionNode> = Vec::new();
        let mut roots_rev: Vec<usize> = Vec::new();
        match children {
            Some(mut cs) => {
                let ghost all = cs@;
                while cs.len() > 0
                    invariant
                        nodes_wf(nodes@),
                        cs@ == all.take(cs@.len() as int),
                        cs@.len() <= all.len(),
                        roots_rev@.len() == all.len() - cs@.len(),
                        forall|k: int|
                            0 <= k < roots_rev@.len() ==> represents(
                                nodes@,
                                #[trigger] roots_rev@[k] as int,
                                all[all.len() - 1 - k],
                            ),
                    decreases cs.len(),
                {
                    let k = cs.pop().unwrap();
                    let ghost before = nodes@;
                    let ki = push_subtree(k, &mut nodes);
                    proof {
                        assert forall|t: int| 0 <= t < roots_rev@.len() implies represents(
                            nodes@,
                            #[trigger] roots_rev@[t] as int,
                            all[all.len() - 1 - t],
                        ) by {
                            let r = roots_rev@[t] as int;
                            lemma_represents_stable(before, nodes@, r, all[all.len() - 1 - t]);
                        }
                    }
                    roots_rev.push(ki);
                }
            },
            None => {},
        }
        let roots = reversed(roots_rev);
        let t = ActionTree { header, nodes, roots };
        proof {
            match e0.children {
                None => {},
                Some(cs0) => {
                    assert forall|r: int| 0 <= r < cs0@.len() implies represents(
                        t.nodes@,
                        #[trigger] t.roots@[r] as int,
                        cs0@[r],
                    ) by {
                        assert(t.roots@[r] == roots_rev@[roots_rev@.len() - 1 - r]);
                    }
                },
            }
            assert forall|r: int| 0 <= r < t.roots@.len() implies #[trigger] t.roots@[r]
                < t.nodes@.len() by {
                assert(t.roots@[r] == roots_rev@[roots_rev@.len() - 1 - r]);
            }
        }
        t
    }
}

} // verus!
