use vstd::prelude::*;

use crate::text::chars_of;

verus! {

/// The key a node presses, or the trigger key of a tree's header.
#[derive(Debug, Clone)]
pub struct Element {
    pub elements_key: String,
    /// Virtual key code.
    pub elements_code: u32,
    /// How long the key is held down, in milliseconds.
    pub key_up_delay: u32,
}

/// Reads a value out of the target process and tests it against a set.
#[derive(Debug, Clone)]
pub struct Skill {
    /// Offset, in decimal, of the slot to read; parsed at each evaluation.
    pub skill_offset: Option<String>,
    /// Which pointer chain to follow: 2 for the quick-slot chain, anything
    /// else for the skill-plan chain.
    pub skill_type: u32,
    /// The values that count as a match.
    pub skill_code: Vec<u32>,
}

/// A time gate: 1 delay, 2 cooldown check, 3 resource threshold, 4 mark.
#[derive(Debug, Clone)]
pub struct TimeOrNama {
    /// Registry key of a cooldown check or a mark.
    pub id: String,
    pub t: u32,
    /// Milliseconds for a delay or a cooldown; the threshold for a resource.
    pub n: u32,
    /// Whether a cooldown check on an unknown id records the current time.
    pub init: bool,
}

/// Compares the color of one screen pixel with a target.
#[derive(Debug, Clone)]
pub struct Color {
    /// The pixel, written `x,y`.
    pub coordinate: String,
    /// The target, written `r,g,b`.
    pub rgb: String,
    /// Tolerance: the channel differences may sum to three times this.
    pub deviation: i32,
}

/// What one node of an action tree does.
#[derive(Debug, Clone)]
pub enum ElementEnum {
    Element(Element),
    Skill(Skill),
    TimeOrNama(TimeOrNama),
    Color(Color),
}

/// A node of an action tree as configured: its step, the branch of its
/// parent's outcome it follows (`"y"` or `"n"`), and its own children.
#[derive(Debug)]
pub struct Children {
    pub element: ElementEnum,
    pub iyn: String,
    pub children: Option<Vec<Children>>,
}

/// An action tree: the trigger key and the top-level nodes.
#[derive(Debug)]
pub struct Elements {
    pub header: Element,
    pub children: Option<Vec<Children>>,
}

/// The outcome of evaluating a node.
#[derive(Debug, Clone, Copy, PartialEq, Eq, Structural)]
pub enum Branch {
    Yes,
    No,
}

/// The branch that a label names: `"y"` or `"n"`; any other label names none,
/// and a node that carries it never runs.
pub open spec fn label_of(s: Seq<char>) -> Option<Branch> {
    if s == seq!['y'] {
        Some(Branch::Yes)
    } else if s == seq!['n'] {
        Some(Branch::No)
    } else {
        None
    }
}

pub fn branch_of(iyn: &String) -> (b: Option<Branch>)
    ensures
        b == label_of(iyn@),
{
    let v = chars_of(iyn.as_str());
    if v.len() == 1 && v[0] == 'y' {
        assert(v@ =~= seq!['y']);
        Some(Branch::Yes)
    } else if v.len() == 1 && v[0] == 'n' {
        assert(v@ =~= seq!['n']);
        Some(Branch::No)
    } else {
        proof {
            if v@.len() == 1 {
                assert(v@ != seq!['y'] ==> v@[0] != 'y');
            }
        }
        None
    }
}

} // verus!
