use vstd::prelude::*;

verus! {

/// Load address of the target process's image.
pub const IMAGE_BASE: usize = 0x0040_0000;

/// Offsets from the image base to the quick-slot (mouse buttons and F) skill
/// of slot `offset`.
pub open spec fn quick_slot_offsets(offset: usize) -> Seq<usize> {
    seq![0x00C9_12F0, 0x25C, offset]
}

/// Offsets from the image base to the skill planned in slot `offset`.
pub open spec fn skill_plan_offsets(offset: usize) -> Seq<usize> {
    seq![0x00C9_10E4, 0x2C, 0x0C, 0x0005_8B48, 0x0001_7A80, 0x28, offset, 0x10]
}

/// Offsets from the image base to the resource (mana) value.
pub open spec fn mana_offsets() -> Seq<usize> {
    seq![0x00C9_10E4, 0x2C, 0x0C, 0xA0]
}

/// The pointer chain that a skill check of kind `kind` reads: kind 2 reads a
/// quick slot, any other kind the skill plan.
pub open spec fn skill_offsets(kind: u32, offset: usize) -> Seq<usize> {
    if kind == 2 {
        quick_slot_offsets(offset)
    } else {
        skill_plan_offsets(offset)
    }
}

pub fn skill_chain(kind: u32, offset: usize) -> (r: Vec<usize>)
    ensures
        r@ == skill_offsets(kind, offset),
{
    let r = if kind == 2 {
        vec![0x00C9_12F0, 0x25C, offset]
    } else {
        vec![0x00C9_10E4, 0x2C, 0x0C, 0x0005_8B48, 0x0001_7A80, 0x28, offset, 0x10]
    };
    assert(r@ =~= skill_offsets(kind, offset));
    r
}

pub fn mana_chain() -> (r: Vec<usize>)
    ensures
        r@ == mana_offsets(),
{
    let r = vec![0x00C9_10E4, 0x2C, 0x0C, 0xA0];
    assert(r@ =~= mana_offsets());
    r
}

/// The address one step of a chain reads: `current + offset`. A chain stops
/// at a null pointer, and at an address past the end of the address space.
pub fn chain_address(current: usize, offset: usize) -> (r: Option<usize>)
    ensures
        r == (if current == 0 || current + offset > usize::MAX {
            None::<usize>
        } else {
            Some((current + offset) as usize)
        }),
{
    if current == 0 {
        None
    } else {
        current.checked_add(offset)
    }
}

/// What a pointer-chain read does next.
#[derive(Debug, Clone, Copy, PartialEq, Eq, Structural)]
pub enum ChainStep {
    /// Read four bytes at this address and [`ChainRead::feed`] the result.
    Read(usize),
    /// The chain is over: its value, or `None` if a step failed.
    Done(Option<u64>),
}

/// A pointer chain being followed: start at the image base, and for each
/// offset read the value at `current + offset`, which becomes `current`.
/// A null pointer, an address past the address space or a failed read ends
/// the chain with no value.
pub struct ChainRead {
    pub offsets: Vec<usize>,
    pub pos: usize,
    pub current: usize,
    pub failed: bool,
}

/// The step a chain in this state asks for.
pub open spec fn chain_next(offsets: Seq<usize>, pos: int, current: usize, failed: bool) -> ChainStep {
    if failed {
        ChainStep::Done(None)
    } else if pos >= offsets.len() {
        ChainStep::Done(Some(current as u64))
    } else if current == 0 || current + offsets[pos] > usize::MAX {
        ChainStep::Done(None)
    } else {
        ChainStep::Read((current + offsets[pos]) as usize)
    }
}

impl ChainRead {
    pub fn new(offsets: Vec<usize>) -> (c: ChainRead)
        ensures
            c.offsets@ == offsets@,
            c.pos == 0,
            c.current == IMAGE_BASE,
            !c.failed,
    {
        ChainRead { offsets, pos: 0, current: IMAGE_BASE, failed: false }
    }

    /// What to do next (see [`chain_next`]).
    pub fn next(&self) -> (r: ChainStep)
        ensures
            r == chain_next(self.offsets@, self.pos as int, self.current, self.failed),
    {
        if self.failed {
            return ChainStep::Done(None);
        }
        if self.pos >= self.offsets.len() {
            return ChainStep::Done(Some(self.current as u64));
        }
        match chain_address(self.current, self.offsets[self.pos]) {
            Some(a) => ChainStep::Read(a),
            None => ChainStep::Done(None),
        }
    }

    /// Takes the result of the read that [`ChainRead::next`] asked for: a
    /// value moves the chain one step on, a failure ends it. Once the chain is
    /// over, nothing changes.
    pub fn feed(&mut self, value: Option<u32>)
        ensures
            final(self).offsets == old(self).offsets,
            (old(self).failed || old(self).pos >= old(self).offsets@.len()) ==> *final(self)
                == *old(self),
            (!old(self).failed && old(self).pos < old(self).offsets@.len()) ==> match value {
                Some(v) => {
                    &&& final(self).pos == old(self).pos + 1
                    &&& final(self).current == v as usize
                    &&& !final(self).failed
                },
                None => {
                    &&& final(self).failed
                    &&& final(self).pos == old(self).pos
                    &&& final(self).current == old(self).current
                },
            },
    {
        if self.failed || self.pos >= self.offsets.len() {
            return;
        }
        match value {
            Some(v) => {
                self.current = v as usize;
                self.pos = self.pos + 1;
            },
            None => {
                self.failed = true;
            },
        }
    }
}

} // verus!
