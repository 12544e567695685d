//! The machine and its breakpoints.

use crate::error::DwarfVmError;
use crate::memory::{memory_of, patches, regions, Memory, Region};
use crate::model::{step_bound, VmView};
use crate::op::{Decoder, Op};
use crate::semantics::{
    at_depth, below, is_binary, is_branch, is_constant, is_load, is_shuffle, is_unary, is_width,
    load, outcome,
};
use crate::state::DwarfVmState;
use crate::text::{describe, vm_text};
use crate::word::{
    abs, displaced, extend_i16, extend_i32, extend_i64, extend_i8, minus, neg, not, plus, shl,
    shr, times, truth, wrap,
};
use std::collections::BTreeMap;
use vstd::prelude::*;

verus! {

broadcast use vstd::std_specs::btree::group_btree_axioms;

/// What is called when the machine reaches an address that has a
/// breakpoint.
///
/// The hook is handed the machine and the instruction that is about to
/// run, and may change both. While it runs, the breakpoint table holds no
/// entry for the hook itself; when it returns, the machine puts the hook
/// back, at the address that the program counter then holds. The hook
/// returns whether the machine is to halt in place of running the
/// instruction.
pub trait Breakpoint<'a, D>: Sized {
    /// The hook's own account of what a call of it may do: whether the
    /// hook may turn from `before` into `after`, the machine from `given`
    /// into `left` and the instruction from `op` into `changed`, with
    /// `halt` returned.
    ///
    /// The machine relies on nothing here. A hook that gives no account
    /// may do anything; one that gives an account lets the callers of
    /// `step` and `run` know what the step did.
    open spec fn allows(
        before: Self,
        given: VmView<D, Self>,
        op: Op,
        after: Self,
        left: VmView<D, Self>,
        changed: Op,
        halt: bool,
    ) -> bool {
        true
    }

    fn on_breakpoint(&mut self, vm: &mut DwarfVm<'a, D, Self>, op: &mut Op) -> (halt: bool)
        ensures
            Self::allows(*old(self), old(vm)@, *old(op), *final(self), final(vm)@, *final(op), halt),
    ;
}

/// The plain breakpoint: a hook that asks for a halt and touches nothing.
#[derive(Clone, Copy, Debug, PartialEq, Eq, Structural)]
pub struct Halt;

impl<'a, D> Breakpoint<'a, D> for Halt {
    open spec fn allows(
        before: Self,
        given: VmView<D, Self>,
        op: Op,
        after: Self,
        left: VmView<D, Self>,
        changed: Op,
        halt: bool,
    ) -> bool {
        halt && left == given && changed == op
    }

    fn on_breakpoint(&mut self, vm: &mut DwarfVm<'a, D, Self>, op: &mut Op) -> (halt: bool) {
        true
    }
}

/// A stack machine that runs decoded instructions against the memory of a
/// captured process.
pub struct DwarfVm<'a, D, H> {
    /// The address of the next instruction.
    pub pc: u64,
    /// The operand stack; its last element is the top.
    pub stack: Vec<u64>,
    ctx: u64,
    overlay: BTreeMap<u64, Vec<u8>>,
    breakpoints: BTreeMap<u64, H>,
    core: Vec<Region<'a>>,
    decoder: D,
}

impl<'a, D, H> View for DwarfVm<'a, D, H> {
    type V = VmView<D, H>;

    closed spec fn view(&self) -> VmView<D, H> {
        VmView {
            pc: self.pc,
            stack: self.stack@,
            ctx: self.ctx,
            mem: memory_of(self.overlay@, self.core@),
            hooks: self.breakpoints@,
            decoder: self.decoder,
        }
    }
}

impl<'a, D: Decoder, H: Breakpoint<'a, D>> DwarfVm<'a, D, H> {
    /// A machine that starts at `pc`, with an empty stack, no patches and
    /// no breakpoints, over the given base image.
    ///
    /// `ctx` is the address of the context, from which `Reg` fetches the
    /// registers.
    pub fn new(pc: u64, ctx: u64, core: Vec<Region<'a>>, decoder: D) -> (vm: Self)
        ensures
            vm@ == (VmView {
                pc,
                stack: Seq::empty(),
                ctx,
                mem: Memory { overlay: Map::empty(), base: regions(core@) },
                hooks: Map::<u64, H>::empty(),
                decoder,
            }),
    {
        let vm = DwarfVm {
            pc,
            stack: Vec::new(),
            ctx,
            overlay: BTreeMap::new(),
            breakpoints: BTreeMap::new(),
            core,
            decoder,
        };
        assert(patches(vm.overlay@) =~= Map::empty());
        vm
    }

    /// The address of the next instruction.
    pub fn pc(&self) -> (r: u64)
        ensures
            r == self@.pc,
    {
        self.pc
    }

    /// Moves the program counter to `pc`.
    pub fn set_pc(&mut self, pc: u64)
        ensures
            final(self)@ == (VmView { pc, ..old(self)@ }),
    {
        self.pc = pc;
    }

    /// Pushes a word.
    pub fn push(&mut self, v: u64)
        ensures
            final(self)@ == (VmView { stack: old(self)@.stack.push(v), ..old(self)@ }),
    {
        self.stack.push(v);
    }

    /// Pops the top of the stack.
    ///
    /// Fails with `StackUnderflow`, and changes nothing, where the stack
    /// is empty.
    pub fn pop(&mut self) -> (r: Result<u64, DwarfVmError>)
        ensures
            match r {
                Ok(v) => old(self)@.stack.len() > 0 && v == at_depth(old(self)@.stack, 0)
                    && final(self)@ == (VmView {
                    stack: below(old(self)@.stack, 1),
                    ..old(self)@
                }),
                Err(e) => e == DwarfVmError::StackUnderflow && old(self)@.stack.len() == 0
                    && final(self)@ == old(self)@,
            },
    {
        match self.stack.pop() {
            Some(v) => {
                assert(self.stack@ =~= below(old(self).stack@, 1));
                Ok(v)
            },
            None => Err(DwarfVmError::StackUnderflow),
        }
    }

    /// The word at depth `n` of the stack; depth 0 is the top.
    ///
    /// Fails with `IndexOutOfRange` where the stack holds `n` words or
    /// fewer.
    pub fn idx(&self, n: usize) -> (r: Result<u64, DwarfVmError>)
        ensures
            match r {
                Ok(v) => n < self@.stack.len() && v == at_depth(self@.stack, n as int),
                Err(e) => e == DwarfVmError::IndexOutOfRange && n >= self@.stack.len(),
            },
    {
        let len = self.stack.len();
        if n < len {
            Ok(self.stack[len - 1 - n])
        } else {
            Err(DwarfVmError::IndexOutOfRange)
        }
    }

    /// The bytes from `a` to the end of the patch or region that answers
    /// for `a`.
    ///
    /// Fails with `AddressFault` where no patch and no region answers for
    /// `a`, and where the region that answers has no bytes as far out as
    /// `a`.
    pub fn target_read(&self, a: u64) -> (r: Result<&[u8], DwarfVmError>)
        ensures
            match r {
                Ok(bytes) => self@.mem.bytes_at(a) == Some(bytes@),
                Err(e) => e == DwarfVmError::AddressFault && self@.mem.bytes_at(a) is None,
            },
    {
        crate::memory::bytes_at(&self.overlay, &self.core, a)
    }

    /// Reads the `width` bytes at `a` as a number, least significant byte
    /// first.
    ///
    /// Fails with `UnsupportedOperation` where `width` is not 1, 2, 4 or
    /// 8, and otherwise with `AddressFault` where fewer than `width` bytes
    /// can be read at `a`.
    pub fn read(&self, a: u64, width: u8) -> (r: Result<u64, DwarfVmError>)
        ensures
            match r {
                Ok(v) => is_width(width) && self@.mem.read(a, width as nat) == Some(v as nat),
                Err(e) => if is_width(width) {
                    e == DwarfVmError::AddressFault && self@.mem.read(a, width as nat) is None
                } else {
                    e == DwarfVmError::UnsupportedOperation
                },
            },
    {
        if width == 1 || width == 2 || width == 4 || width == 8 {
            crate::memory::read(&self.overlay, &self.core, a, width as usize)
        } else {
            Err(DwarfVmError::UnsupportedOperation)
        }
    }

    /// Reads the byte at `a`.
    ///
    /// Fails with `AddressFault` where no byte can be read at `a`.
    pub fn target_read_u8(&self, a: u64) -> (r: Result<u8, DwarfVmError>)
        ensures
            match r {
                Ok(v) => self@.mem.read(a, 1) == Some(v as nat),
                Err(e) => e == DwarfVmError::AddressFault && self@.mem.read(a, 1) is None,
            },
    {
        let v = crate::memory::read(&self.overlay, &self.core, a, 1)?;
        proof {
            let bytes = self@.mem.bytes_at(a)->Some_0.take(1);
            crate::memory::lemma_le_value_bound(bytes);
            reveal_with_fuel(crate::memory::span, 2);
        }
        Ok(v as u8)
    }

    /// Reads the two bytes at `a` as a number, least significant byte
    /// first.
    ///
    /// Fails with `AddressFault` where fewer than two bytes can be read at
    /// `a`.
    pub fn target_read_u16(&self, a: u64) -> (r: Result<u16, DwarfVmError>)
        ensures
            match r {
                Ok(v) => self@.mem.read(a, 2) == Some(v as nat),
                Err(e) => e == DwarfVmError::AddressFault && self@.mem.read(a, 2) is None,
            },
    {
        let v = crate::memory::read(&self.overlay, &self.core, a, 2)?;
        proof {
            let bytes = self@.mem.bytes_at(a)->Some_0.take(2);
            crate::memory::lemma_le_value_bound(bytes);
            reveal_with_fuel(crate::memory::span, 3);
        }
        Ok(v as u16)
    }

    /// Reads the four bytes at `a` as a number, least significant byte
    /// first.
    ///
    /// Fails with `AddressFault` where fewer than four bytes can be read
    /// at `a`.
    pub fn target_read_u32(&self, a: u64) -> (r: Result<u32, DwarfVmError>)
        ensures
            match r {
                Ok(v) => self@.mem.read(a, 4) == Some(v as nat),
                Err(e) => e == DwarfVmError::AddressFault && self@.mem.read(a, 4) is None,
            },
    {
        let v = crate::memory::read(&self.overlay, &self.core, a, 4)?;
        proof {
            let bytes = self@.mem.bytes_at(a)->Some_0.take(4);
            crate::memory::lemma_le_value_bound(bytes);
            reveal_with_fuel(crate::memory::span, 5);
        }
        Ok(v as u32)
    }

    /// Reads the eight bytes at `a` as a word, least significant byte
    /// first.
    ///
    /// Fails with `AddressFault` where fewer than eight bytes can be read
    /// at `a`.
    pub fn target_read_u64(&self, a: u64) -> (r: Result<u64, DwarfVmError>)
        ensures
            r == load(self@.mem, a, 8),
            r matches Ok(v) ==> self@.mem.read(a, 8) == Some(v as nat),
    {
        crate::memory::read(&self.overlay, &self.core, a, 8)
    }

    /// The word at depth `n` of the stack, for an instruction that is
    /// about to pop it.
    fn peek(&self, n: usize) -> (r: Result<u64, DwarfVmError>)
        ensures
            match r {
                Ok(v) => n < self@.stack.len() && v == at_depth(self@.stack, n as int),
                Err(e) => e == DwarfVmError::StackUnderflow && n >= self@.stack.len(),
            },
    {
        let len = self.stack.len();
        if n < len {
            Ok(self.stack[len - 1 - n])
        } else {
            Err(DwarfVmError::StackUnderflow)
        }
    }

    /// Takes `n` words off the stack and pushes `v`.
    fn replace(&mut self, n: usize, v: u64)
        requires
            n <= old(self)@.stack.len(),
        ensures
            final(self)@ == (VmView { stack: below(old(self)@.stack, n as int).push(v), ..old(self)@ }),
    {
        let len = self.stack.len();
        self.stack.truncate(len - n);
        self.stack.push(v);
    }

    /// Runs an instruction that pushes a constant.
    fn execute_constant(&mut self, op: &Op) -> (r: Result<(), DwarfVmError>)
        requires
            is_constant(*op),
        ensures
            (final(self)@, r) == old(self)@.executed(*op),
    {
        let v: u64 = match *op {
            Op::Const1u(v) => v as u64,
            Op::Const1s(v) => extend_i8(v),
            Op::Const2u(v) => v as u64,
            Op::Const2s(v) => extend_i16(v),
            Op::Const4u(v) => v as u64,
            Op::Const4s(v) => extend_i32(v),
            Op::Const8u(v) => v,
            Op::Const8s(v) => extend_i64(v),
            Op::Constu(v) => v,
            Op::Consts(v) => extend_i64(v),
            Op::Lit(v) => v as u64,
            _ => 0,
        };
        self.stack.push(v);
        Ok(())
    }

    /// Runs an instruction that rearranges the stack.
    fn execute_shuffle(&mut self, op: &Op) -> (r: Result<(), DwarfVmError>)
        requires
            is_shuffle(*op),
        ensures
            (final(self)@, r) == old(self)@.executed(*op),
    {
        match *op {
            Op::Dup => {
                let t = self.peek(0)?;
                self.stack.push(t);
            },
            Op::Drop => {
                let _ = self.peek(0)?;
                self.stack.pop();
                assert(self.stack@ =~= below(old(self).stack@, 1));
            },
            Op::Over => {
                let t = self.idx(1)?;
                self.stack.push(t);
            },
            Op::Pick(n) => {
                let t = self.idx(n as usize)?;
                self.stack.push(t);
            },
            Op::Swap => {
                let q = self.peek(1)?;
                let p = self.peek(0)?;
                self.replace(2, p);
                self.stack.push(q);
            },
            Op::Rot => {
                let z = self.peek(2)?;
                let y = self.peek(1)?;
                let x = self.peek(0)?;
                self.replace(3, x);
                self.stack.push(z);
                self.stack.push(y);
            },
            _ => {},
        }
        Ok(())
    }

    /// Runs an instruction that replaces the top of the stack by a word
    /// computed from it.
    fn execute_unary(&mut self, op: &Op) -> (r: Result<(), DwarfVmError>)
        requires
            is_unary(*op),
        ensures
            (final(self)@, r) == old(self)@.executed(*op),
    {
        let t = self.peek(0)?;
        let v: u64 = match *op {
            Op::Abs => abs(t),
            Op::Neg => neg(t),
            Op::Not => not(t),
            Op::PlusConst(v) => plus(t, v),
            _ => t,
        };
        self.replace(1, v);
        Ok(())
    }

    /// Runs an instruction that replaces the two topmost words by a word
    /// computed from them.
    fn execute_binary(&mut self, op: &Op) -> (r: Result<(), DwarfVmError>)
        requires
            is_binary(*op),
        ensures
            (final(self)@, r) == old(self)@.executed(*op),
    {
        let q = self.peek(1)?;
        let p = self.peek(0)?;
        let v: u64 = match *op {
            Op::And => q & p,
            Op::Or => q | p,
            Op::Xor => q ^ p,
            Op::Shl => shl(q, p),
            Op::Shr => shr(q, p),
            Op::Shra => shr(q, p),
            Op::Plus => plus(q, p),
            Op::Minus => minus(q, p),
            Op::Mul => times(q, p),
            Op::Div => {
                if p == 0 {
                    return Err(DwarfVmError::DivideByZero);
                }
                q / p
            },
            Op::Mod => {
                if p == 0 {
                    return Err(DwarfVmError::DivideByZero);
                }
                q % p
            },
            Op::Eq => truth(q == p),
            Op::Ge => truth(q >= p),
            Op::Gt => truth(q > p),
            Op::Le => truth(q <= p),
            Op::Lt => truth(q < p),
            Op::Ne => truth(q != p),
            _ => q,
        };
        self.replace(2, v);
        Ok(())
    }

    /// Runs an instruction that reads memory.
    fn execute_load(&mut self, op: &Op) -> (r: Result<(), DwarfVmError>)
        requires
            is_load(*op),
        ensures
            (final(self)@, r) == old(self)@.executed(*op),
    {
        match *op {
            Op::Addr(a) => {
                let v = self.target_read_u64(a)?;
                self.stack.push(v);
            },
            Op::Deref => {
                let t = self.peek(0)?;
                let v = self.target_read_u64(t)?;
                self.replace(1, v);
            },
            Op::Reg(r) => {
                let p = self.target_read_u64(plus(self.ctx, r as u64 * 8))?;
                let q = self.target_read_u64(p)?;
                self.stack.push(q);
            },
            Op::DerefSize(n) => {
                let t = self.peek(0)?;
                let v = self.read(t, n)?;
                self.replace(1, v);
            },
            _ => {},
        }
        Ok(())
    }

    /// Runs an instruction that moves the program counter.
    fn execute_branch(&mut self, op: &Op) -> (r: Result<(), DwarfVmError>)
        requires
            is_branch(*op),
        ensures
            (final(self)@, r) == old(self)@.executed(*op),
    {
        match *op {
            Op::Bra(off) => {
                let t = self.peek(0)?;
                self.stack.pop();
                assert(self.stack@ =~= below(old(self).stack@, 1));
                if t != 0 {
                    self.pc = displaced(self.pc, off);
                }
            },
            Op::Skip(off) => {
                self.pc = displaced(self.pc, off);
            },
            _ => {},
        }
        Ok(())
    }

    /// Runs one instruction.
    ///
    /// The program counter must already stand behind the instruction: the
    /// branches count from there. Where the instruction faults, the fault
    /// is returned and the machine is left as it was.
    pub fn execute(&mut self, op: &Op) -> (r: Result<(), DwarfVmError>)
        ensures
            (final(self)@, r) == old(self)@.executed(*op),
    {
        match *op {
            Op::Const1u(_)
            | Op::Const1s(_)
            | Op::Const2u(_)
            | Op::Const2s(_)
            | Op::Const4u(_)
            | Op::Const4s(_)
            | Op::Const8u(_)
            | Op::Const8s(_)
            | Op::Constu(_)
            | Op::Consts(_)
            | Op::Lit(_) => self.execute_constant(op),
            Op::Dup | Op::Drop | Op::Over | Op::Pick(_) | Op::Swap | Op::Rot => self.execute_shuffle(
                op,
            ),
            Op::Abs | Op::Neg | Op::Not | Op::PlusConst(_) => self.execute_unary(op),
            Op::And
            | Op::Or
            | Op::Xor
            | Op::Shl
            | Op::Shr
            | Op::Shra
            | Op::Plus
            | Op::Minus
            | Op::Mul
            | Op::Div
            | Op::Mod
            | Op::Eq
            | Op::Ge
            | Op::Gt
            | Op::Le
            | Op::Lt
            | Op::Ne => self.execute_binary(op),
            Op::Addr(_) | Op::Deref | Op::Reg(_) | Op::DerefSize(_) => self.execute_load(op),
            Op::Bra(_) | Op::Skip(_) => self.execute_branch(op),
            Op::BReg(_, _) | Op::RegX(_) | Op::BRegX(_, _) => Err(
                DwarfVmError::UnsupportedOperation,
            ),
            Op::Nop => Ok(()),
        }
    }

    /// Fetches the instruction at the program counter: reads the bytes
    /// there and has them decoded. Returns the number of bytes that the
    /// instruction takes up, and the instruction.
    ///
    /// Fails with `AddressFault` where no bytes can be read at the program
    /// counter, and with `Decode` where the decoder rejects the bytes.
    pub fn fetch(&self) -> (r: Result<(usize, Op), DwarfVmError>)
        ensures
            self@.fetches(r),
    {
        let bytes = self.target_read(self.pc)?;
        let d = self.decoder.decode(bytes);
        assert(call_ensures(D::decode, (&self@.decoder, bytes), d));
        match d {
            Ok(found) => Ok(found),
            Err(_) => Err(DwarfVmError::Decode),
        }
    }

    /// Calls the hook of the address that the program counter holds, if
    /// that address has one, and returns whether the hook asked for a
    /// halt.
    ///
    /// Without a hook nothing changes. With one, the hook is taken out of
    /// the breakpoint table and called with the machine and the
    /// instruction, both of which it may change; when it returns, it is
    /// put back into the table, at the address that the program counter
    /// then holds.
    pub fn check_breakpoint(&mut self, op: &mut Op) -> (halt: bool)
        ensures
            old(self)@.hooks_to(*old(op), final(self)@, *final(op), halt),
            old(self)@.hooks.contains_key(old(self)@.pc) ==> final(self)@.hooks.contains_key(
                final(self)@.pc,
            ),
    {
        let pc: u64 = self.pc;
        match self.breakpoints.remove(&pc) {
            Some(mut hook) => {
                assert(self@ == old(self)@.disarmed());
                let halt = hook.on_breakpoint(self, op);
                let ghost left = self@;
                let at: u64 = self.pc;
                self.breakpoints.insert(at, hook);
                assert(self@ == left.rearmed(hook));
                halt
            },
            None => {
                assert(self.breakpoints@ =~= old(self).breakpoints@);
                false
            },
        }
    }

    /// Completes a step: moves the program counter past the instruction,
    /// `sz` bytes long, and then, unless `halt` is set, runs it.
    ///
    /// Fails with `Breakpoint` where `halt` is set, and with the
    /// instruction's fault where it faults. The program counter has moved
    /// in either case.
    pub fn complete(&mut self, sz: usize, op: &Op, halt: bool) -> (r: Result<(), DwarfVmError>)
        ensures
            (final(self)@, r) == old(self)@.completed(sz, *op, halt),
    {
        self.pc = plus(self.pc, sz as u64);
        if halt {
            return Err(DwarfVmError::Breakpoint);
        }
        self.execute(op)
    }

    /// Runs the instruction at the program counter.
    ///
    /// Fails with `AddressFault` or `Decode`, and changes nothing, where
    /// no instruction can be fetched; with `Breakpoint` where a hook asked
    /// for a halt; and with the instruction's fault where it faults. In
    /// the last two cases the program counter has moved past the
    /// instruction.
    pub fn step(&mut self) -> (r: Result<(), DwarfVmError>)
        ensures
            old(self)@.steps_to(final(self)@, r),
    {
        let fetched = self.fetch();
        match fetched {
            Ok((sz, op)) => {
                let mut changed = op;
                let halt = self.check_breakpoint(&mut changed);
                let ghost mid = self@;
                let r = self.complete(sz, &changed, halt);
                proof {
                    reveal(VmView::steps_to);
                    assert(old(self)@.hooks_to(op, mid, changed, halt));
                    assert(old(self)@.fetches(fetched));
                }
                r
            },
            Err(e) => {
                proof {
                    reveal(VmView::steps_to);
                    assert(old(self)@.fetches(fetched));
                }
                Err(e)
            },
        }
    }

    /// Runs instructions until the limit is reached, a hook asks for a
    /// halt, or a step faults. Returns the number of instructions that
    /// ran.
    ///
    /// A halt ends the run without error; the instruction that was halted
    /// is not counted. Without a limit the run ends, at the latest, when
    /// the count has reached the largest number that it can hold.
    ///
    /// Fails with the fault of the step that faulted.
    pub fn run(&mut self, limit: Option<usize>) -> (r: Result<usize, DwarfVmError>)
        ensures
            old(self)@.runs_to(limit, final(self)@, r),
            r matches Err(e) ==> e.is_fault(),
    {
        let bound: usize = match limit {
            Some(n) => n,
            None => usize::MAX,
        };
        let mut ins: usize = 0;
        let ghost start = self@;
        let ghost mut trace: Seq<VmView<D, H>> = seq![self@];
        while ins < bound
            invariant
                start == old(self)@,
                bound == step_bound(limit),
                ins <= bound,
                start.leads(trace),
                trace.len() == ins + 1,
                trace.last() == self@,
            decreases bound - ins,
        {
            let ghost before = self@;
            let stepped = self.step();
            match stepped {
                Ok(()) => {
                    proof {
                        let longer = trace.push(self@);
                        assert forall|i: int| 0 <= i < longer.len() - 1 implies (#[trigger] longer[i]).steps_to(
                            longer[i + 1],
                            Ok(()),
                        ) by {
                            if i < trace.len() - 1 {
                                assert(longer[i + 1] == trace[i + 1]);
                            } else {
                                before.lemma_step_ran(self@, stepped);
                            }
                        }
                        trace = longer;
                    }
                    ins += 1;
                },
                Err(DwarfVmError::Breakpoint) => {
                    return Ok(ins);
                },
                Err(e) => {
                    return Err(e);
                },
            }
        }
        Ok(ins)
    }

    /// A snapshot of the program counter and the stack.
    pub fn state(&self) -> (r: DwarfVmState)
        ensures
            r@ == self@.captured(),
    {
        DwarfVmState::new(self.pc, self.stack.clone())
    }

    /// Puts the program counter and the stack of a snapshot back. The
    /// context, the memory and the breakpoints stay as they are.
    pub fn set_state(&mut self, state: &DwarfVmState)
        ensures
            final(self)@ == old(self)@.restored(state@),
    {
        self.pc = state.pc();
        self.stack = state.stack().clone();
    }

    /// The overlay: the patches, each under its start address.
    ///
    /// The caller may add, change and remove patches at will; reads see
    /// the overlay as the caller leaves it.
    pub fn overlay(&mut self) -> (r: &mut BTreeMap<u64, Vec<u8>>)
        ensures
            patches(r@) == old(self)@.mem.overlay,
            final(self)@ == (VmView {
                mem: Memory { overlay: patches(final(r)@), base: old(self)@.mem.base },
                ..old(self)@
            }),
    {
        &mut self.overlay
    }

    /// The breakpoint table: the hook of each address that has one.
    pub fn breakpoints(&mut self) -> (r: &mut BTreeMap<u64, H>)
        ensures
            r@ == old(self)@.hooks,
            final(self)@ == (VmView { hooks: final(r)@, ..old(self)@ }),
    {
        &mut self.breakpoints
    }

    /// Sets a breakpoint at `pc`. A hook that the address already had is
    /// replaced.
    pub fn set_breakpoint(&mut self, pc: u64, bkpt: H)
        ensures
            final(self)@ == (VmView { hooks: old(self)@.hooks.insert(pc, bkpt), ..old(self)@ }),
    {
        self.breakpoints.insert(pc, bkpt);
    }

    /// The topmost words of the stack, the top first: `n` of them, or all
    /// where the stack holds fewer.
    pub fn stack_top(&self, n: usize) -> (r: Vec<u64>)
        ensures
            r@.len() == if n <= self@.stack.len() {
                n as int
            } else {
                self@.stack.len() as int
            },
            forall|i: int| 0 <= i < r@.len() ==> r@[i] == at_depth(self@.stack, i),
    {
        let len = self.stack.len();
        let count: usize = if n <= len {
            n
        } else {
            len
        };
        let mut words: Vec<u64> = Vec::new();
        let mut i: usize = 0;
        while i < count
            invariant
                len == self.stack@.len(),
                i <= count <= len,
                words@.len() == i,
                forall|j: int| 0 <= j < i ==> words@[j] == at_depth(self.stack@, j),
            decreases count - i,
        {
            words.push(self.stack[len - 1 - i]);
            i += 1;
        }
        words
    }

    /// The machine as a line of text: its program counter and its stack,
    /// bottom first, both in hexadecimal.
    pub fn to_string(&self) -> (r: String)
        ensures
            r@ == vm_text(self@.pc, self@.stack),
    {
        describe(self.pc, &self.stack)
    }
}

} // verus!
