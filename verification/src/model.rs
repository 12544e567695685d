//! What a machine stands for, and what a step and a run may do to it.
//!
//! A step goes through four stages. The machine reads the bytes at the
//! program counter and has them decoded. If the address has a breakpoint,
//! its hook is called, with the machine and the decoded instruction in its
//! hands. The program counter then moves past the instruction, whatever the
//! hook said. Last, unless the hook asked for a halt, the instruction runs.
//!
//! What the decoder answers and what a hook does is theirs to say: the
//! relations here hold a step to the decoder's contract and to the hook's
//! own account of itself, and to nothing else.

use crate::error::DwarfVmError;
use crate::memory::Memory;
use crate::op::{DecodeFault, Decoder, Op};
use crate::semantics::outcome;
use crate::state::StateView;
use crate::vm::Breakpoint;
use crate::word::wrap;
use vstd::prelude::*;

verus! {

/// What a [`DwarfVm`] stands for.
#[verifier::ext_equal]
pub struct VmView<D, H> {
    /// The address of the next instruction.
    pub pc: u64,
    /// The operand stack; its last element is the top.
    pub stack: Seq<u64>,
    /// The address of the context, whose registers `Reg` reads.
    pub ctx: u64,
    /// The overlay and the base image.
    pub mem: Memory,
    /// The breakpoint table: the hook of each address that has one.
    pub hooks: Map<u64, H>,
    /// The decoder.
    pub decoder: D,
}

impl<D, H> VmView<D, H> {
    /// The machine with the program counter moved on by `sz` bytes, modulo
    /// 2^64.
    pub open spec fn advanced(self, sz: usize) -> Self {
        VmView { pc: wrap(self.pc + sz), ..self }
    }

    /// The machine after it ran `op`, and how that ended. A fault leaves
    /// the machine as it was.
    pub open spec fn executed(self, op: Op) -> (Self, Result<(), DwarfVmError>) {
        match outcome(op, self.pc, self.stack, self.ctx, self.mem) {
            Ok((pc, stack)) => (VmView { pc, stack, ..self }, Ok(())),
            Err(e) => (self, Err(e)),
        }
    }

    /// The machine at the end of a step in which `op`, `sz` bytes long,
    /// was decoded and the hook, if there was one, gave the verdict `halt`.
    /// The program counter moves past the instruction in either case; the
    /// instruction runs only without a halt.
    pub open spec fn completed(self, sz: usize, op: Op, halt: bool) -> (
        Self,
        Result<(), DwarfVmError>,
    ) {
        if halt {
            (self.advanced(sz), Err(DwarfVmError::Breakpoint))
        } else {
            self.advanced(sz).executed(op)
        }
    }

    /// The machine without the breakpoint of the address that the program
    /// counter holds.
    pub open spec fn disarmed(self) -> Self {
        VmView { hooks: self.hooks.remove(self.pc), ..self }
    }

    /// The machine with `hook` as the breakpoint of the address that the
    /// program counter holds.
    pub open spec fn rearmed(self, hook: H) -> Self {
        VmView { hooks: self.hooks.insert(self.pc, hook), ..self }
    }

    /// The snapshot of the machine.
    pub open spec fn captured(self) -> StateView {
        StateView { pc: self.pc, stack: self.stack }
    }

    /// The machine with the program counter and the stack of a snapshot.
    pub open spec fn restored(self, s: StateView) -> Self {
        VmView { pc: s.pc, stack: s.stack, ..self }
    }
}

/// What the machine makes of the decoder's answer.
pub open spec fn decoded(d: Result<(usize, Op), DecodeFault>) -> Result<(usize, Op), DwarfVmError> {
    match d {
        Ok(found) => Ok(found),
        Err(_) => Err(DwarfVmError::Decode),
    }
}

/// The number of steps that a run may take: the limit, or, without one, as
/// many as can be counted.
pub open spec fn step_bound(limit: Option<usize>) -> int {
    match limit {
        Some(n) => n as int,
        None => usize::MAX as int,
    }
}

/// Whether a hook does nothing but ask for a halt: whenever it is called,
/// it returns true and leaves the machine and the instruction as they
/// were.
pub open spec fn only_halts<'a, D, H: Breakpoint<'a, D>>(hook: H) -> bool {
    forall|given: VmView<D, H>, op: Op, after: H, left: VmView<D, H>, changed: Op, halt: bool|
        #[trigger] H::allows(hook, given, op, after, left, changed, halt) ==> halt && left == given
            && changed == op
}

impl<'a, D: Decoder, H: Breakpoint<'a, D>> VmView<D, H> {
    /// Whether `f` may be the result of fetching the next instruction:
    /// an `AddressFault` where no bytes can be read at the program
    /// counter, and otherwise what the decoder makes of the bytes there.
    pub open spec fn fetches(self, f: Result<(usize, Op), DwarfVmError>) -> bool {
        match self.mem.bytes_at(self.pc) {
            None => f == Err::<(usize, Op), DwarfVmError>(DwarfVmError::AddressFault),
            Some(bytes) => exists|b: &[u8], d: Result<(usize, Op), DecodeFault>|
                #[trigger] call_ensures(D::decode, (&self.decoder, b), d) && b@ == bytes && f
                    == decoded(d),
        }
    }

    /// Whether calling the breakpoint of the address that the program
    /// counter holds may take the machine from `self` to `post`, turn the
    /// instruction `op` into `changed`, and give the verdict `halt`.
    ///
    /// Without a breakpoint there nothing changes and nothing halts. With
    /// one, the hook is taken out of the table and called; when it
    /// returns, it is put back at the address that the program counter
    /// then holds.
    pub open spec fn hooks_to(self, op: Op, post: Self, changed: Op, halt: bool) -> bool {
        if self.hooks.contains_key(self.pc) {
            exists|after: H, left: Self| #[trigger]
                H::allows(self.hooks[self.pc], self.disarmed(), op, after, left, changed, halt)
                    && post == left.rearmed(after)
        } else {
            post == self && changed == op && !halt
        }
    }

    /// Whether a step may take the machine from `self` to `post` and end
    /// with `r`.
    ///
    /// Where no instruction can be fetched, the step ends with the fault
    /// and the machine is as it was. Otherwise the breakpoint of the
    /// address, if it has one, is called, and the step completes from
    /// where the hook left the machine, with the instruction and the
    /// verdict that the hook left.
    #[verifier::opaque]
    pub open spec fn steps_to(self, post: Self, r: Result<(), DwarfVmError>) -> bool {
        exists|f: Result<(usize, Op), DwarfVmError>| #[trigger]
            self.fetches(f) && match f {
                Err(e) => post == self && r == Err::<(), DwarfVmError>(e),
                Ok((sz, op)) => exists|mid: Self, changed: Op, halt: bool| #[trigger]
                    self.hooks_to(op, mid, changed, halt) && (post, r) == mid.completed(
                        sz,
                        changed,
                        halt,
                    ),
            }
    }

    /// Whether `trace` lists the states of a run that starts in `self`,
    /// each but the last followed by the state that a step without fault
    /// or halt led to.
    pub open spec fn leads(self, trace: Seq<Self>) -> bool {
        &&& trace.len() > 0
        &&& trace[0] == self
        &&& forall|i: int|
            #![trigger trace[i]]
            0 <= i < trace.len() - 1 ==> trace[i].steps_to(trace[i + 1], Ok(()))
    }

    /// Whether a run under `limit` may take the machine from `self` to
    /// `post` and end with `r`.
    ///
    /// A run is a series of steps that end without fault or halt, and
    /// then one of three things: the bound on the number of steps is
    /// reached, and the run returns that number; or a step ends in a halt,
    /// and the run returns the number of steps before it; or a step ends
    /// in a fault, and the run returns the fault.
    pub open spec fn runs_to(
        self,
        limit: Option<usize>,
        post: Self,
        r: Result<usize, DwarfVmError>,
    ) -> bool {
        exists|trace: Seq<Self>| #[trigger]
            self.leads(trace) && trace.len() - 1 <= step_bound(limit) && match r {
                Ok(n) => n == trace.len() - 1 && if n == step_bound(limit) {
                    post == trace.last()
                } else {
                    trace.last().steps_to(post, Err(DwarfVmError::Breakpoint))
                },
                Err(e) => e != DwarfVmError::Breakpoint && trace.len() - 1 < step_bound(limit)
                    && trace.last().steps_to(post, Err(e)),
            }
    }

    /// A step that ends with `Ok` ends with the one value that `Ok` has.
    pub proof fn lemma_step_ran(self, post: Self, r: Result<(), DwarfVmError>)
        requires
            self.steps_to(post, r),
            r is Ok,
        ensures
            self.steps_to(post, Ok(())),
    {
        reveal(VmView::steps_to);
        assert(r == Ok::<(), DwarfVmError>(()));
    }

    /// At an address without a breakpoint a step is a fetch and, if that
    /// gave an instruction, the completion of the step with it.
    pub proof fn lemma_step_without_hook(self, post: Self, r: Result<(), DwarfVmError>)
        requires
            self.steps_to(post, r),
            !self.hooks.contains_key(self.pc),
        ensures
            exists|f: Result<(usize, Op), DwarfVmError>| #[trigger]
                self.fetches(f) && match f {
                    Err(e) => post == self && r == Err::<(), DwarfVmError>(e),
                    Ok((sz, op)) => (post, r) == self.completed(sz, op, false),
                },
    {
        reveal(VmView::steps_to);
    }

    /// A run under a limit of zero steps ends at once, with nothing
    /// changed.
    pub proof fn lemma_run_of_no_steps(self, post: Self, r: Result<usize, DwarfVmError>)
        requires
            self.runs_to(Some(0), post, r),
        ensures
            post == self,
            r == Ok::<usize, DwarfVmError>(0),
    {
    }

    /// Only a breakpoint halts a step: a step that ends in `Breakpoint`
    /// began at an address that had one.
    pub proof fn lemma_halt_needs_hook(self, post: Self, r: Result<(), DwarfVmError>)
        requires
            self.steps_to(post, r),
            r == Err::<(), DwarfVmError>(DwarfVmError::Breakpoint),
        ensures
            self.hooks.contains_key(self.pc),
    {
        reveal(VmView::steps_to);
    }

    /// A hook that asks for a halt stops the step after the program
    /// counter has moved, and stays armed.
    ///
    /// Let the address that the program counter holds have a hook that
    /// does nothing but ask for a halt. Then a step there either fetches
    /// no instruction, and fails with that fault, or ends in `Breakpoint`.
    /// In that case the program counter has moved past the instruction
    /// that was fetched, the address still has a hook, and nothing else
    /// has changed: the instruction did not run.
    pub proof fn lemma_halting_hook(self, post: Self, r: Result<(), DwarfVmError>)
        requires
            self.steps_to(post, r),
            self.hooks.contains_key(self.pc),
            only_halts(self.hooks[self.pc]),
        ensures
            r is Err,
            r != Err::<(), DwarfVmError>(DwarfVmError::Breakpoint) ==> post == self && self.fetches(
                Err(r->Err_0),
            ),
            r == Err::<(), DwarfVmError>(DwarfVmError::Breakpoint) ==> exists|sz: usize, op: Op|
                #![trigger self.fetches(Ok((sz, op)))]
                {
                    &&& self.fetches(Ok((sz, op)))
                    &&& post.pc == wrap(self.pc + sz)
                    &&& post.hooks.contains_key(self.pc)
                    &&& post.hooks == self.hooks.insert(self.pc, post.hooks[self.pc])
                    &&& post.stack == self.stack
                    &&& post.ctx == self.ctx
                    &&& post.mem == self.mem
                    &&& post.decoder == self.decoder
                },
    {
        reveal(VmView::steps_to);
        let f = choose|f: Result<(usize, Op), DwarfVmError>| #[trigger]
            self.fetches(f) && match f {
                Err(e) => post == self && r == Err::<(), DwarfVmError>(e),
                Ok((sz, op)) => exists|mid: Self, changed: Op, halt: bool| #[trigger]
                    self.hooks_to(op, mid, changed, halt) && (post, r) == mid.completed(
                        sz,
                        changed,
                        halt,
                    ),
            };
        match f {
            Err(e) => {},
            Ok((sz, op)) => {
                let (mid, changed, halt) = choose|mid: Self, changed: Op, halt: bool| #[trigger]
                    self.hooks_to(op, mid, changed, halt) && (post, r) == mid.completed(
                        sz,
                        changed,
                        halt,
                    );
                let (after, left) = choose|after: H, left: Self| #[trigger]
                    H::allows(self.hooks[self.pc], self.disarmed(), op, after, left, changed, halt)
                        && mid == left.rearmed(after);
                assert(halt && left == self.disarmed());
                assert(mid.hooks =~= self.hooks.insert(self.pc, after));
                assert(self.fetches(Ok((sz, op))));
            },
        }
    }

    /// A run that ends before its bound was halted by a breakpoint: its
    /// last step began at an address that had one, and ended in
    /// `Breakpoint`.
    pub proof fn lemma_short_run_was_halted(self, limit: Option<usize>, post: Self, n: usize)
        requires
            self.runs_to(limit, post, Ok(n)),
            n < step_bound(limit),
        ensures
            exists|last: Self|
                last.hooks.contains_key(last.pc) && #[trigger] last.steps_to(
                    post,
                    Err(DwarfVmError::Breakpoint),
                ),
    {
        let trace = choose|trace: Seq<Self>| #[trigger]
            self.leads(trace) && trace.len() - 1 <= step_bound(limit) && n == trace.len() - 1
                && trace.last().steps_to(post, Err(DwarfVmError::Breakpoint));
        trace.last().lemma_halt_needs_hook(post, Err(DwarfVmError::Breakpoint));
    }

    /// Restoring a snapshot gives back the program counter and the stack
    /// that were captured, whatever the machine did in between, and leaves
    /// everything else as it is; and restoring a machine's own snapshot
    /// changes nothing.
    pub proof fn lemma_restore_captured(self, later: Self)
        ensures
            later.restored(self.captured()).captured() == self.captured(),
            later.restored(self.captured()) == (VmView {
                pc: self.pc,
                stack: self.stack,
                ..later
            }),
            self.restored(self.captured()) == self,
    {
    }
}

} // verus!
