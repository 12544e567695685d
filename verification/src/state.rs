//! A snapshot of what a machine needs to resume: its program counter and
//! its stack.

use vstd::prelude::*;
use vstd::std_specs::cmp::PartialEqSpecImpl;

verus! {

/// A copy of a machine's program counter and stack.
///
/// A snapshot holds nothing of the machine's memory, context or
/// breakpoints, and does not change when the machine runs on.
#[derive(Debug, Hash, Eq)]
pub struct DwarfVmState {
    pc: u64,
    stack: Vec<u64>,
}

/// What a [`DwarfVmState`] stands for.
pub struct StateView {
    pub pc: u64,
    pub stack: Seq<u64>,
}

impl View for DwarfVmState {
    type V = StateView;

    closed spec fn view(&self) -> StateView {
        StateView { pc: self.pc, stack: self.stack@ }
    }
}

impl DwarfVmState {
    /// A snapshot of the given program counter and stack.
    pub fn new(pc: u64, stack: Vec<u64>) -> (r: Self)
        ensures
            r@ == (StateView { pc, stack: stack@ }),
    {
        DwarfVmState { pc, stack }
    }

    /// The program counter that the snapshot holds.
    pub fn pc(&self) -> (r: u64)
        ensures
            r == self@.pc,
    {
        self.pc
    }

    /// The stack that the snapshot holds, bottom first.
    pub fn stack(&self) -> (r: &Vec<u64>)
        ensures
            r@ == self@.stack,
    {
        &self.stack
    }
}

impl Default for DwarfVmState {
    /// The snapshot of a machine at address 0 with an empty stack.
    fn default() -> (r: Self)
        ensures
            r@ == (StateView { pc: 0, stack: Seq::empty() }),
    {
        DwarfVmState { pc: 0, stack: Vec::new() }
    }
}

impl Clone for DwarfVmState {
    fn clone(&self) -> (r: Self)
        ensures
            r@ == self@,
    {
        DwarfVmState { pc: self.pc, stack: self.stack.clone() }
    }
}

impl PartialEqSpecImpl for DwarfVmState {
    open spec fn obeys_eq_spec() -> bool {
        true
    }

    open spec fn eq_spec(&self, other: &DwarfVmState) -> bool {
        self@ == other@
    }
}

impl PartialEq for DwarfVmState {
    /// Two snapshots are equal when they hold the same program counter and
    /// the same words on the stack.
    fn eq(&self, other: &DwarfVmState) -> (r: bool) {
        if self.pc != other.pc || self.stack.len() != other.stack.len() {
            assert(self@.stack.len() != other@.stack.len() ==> self@.stack != other@.stack);
            return false;
        }
        let mut i: usize = 0;
        while i < self.stack.len()
            invariant
                i <= self.stack@.len(),
                self.stack@.len() == other.stack@.len(),
                forall|j: int| 0 <= j < i ==> self.stack@[j] == other.stack@[j],
            decreases self.stack@.len() - i,
        {
            if self.stack[i] != other.stack[i] {
                return false;
            }
            i += 1;
        }
        assert(self@.stack =~= other@.stack);
        true
    }
}

} // verus!
