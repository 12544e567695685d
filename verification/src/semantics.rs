//! What each instruction does.
//!
//! The operand stack is a sequence of words whose last element is the top.
//! An instruction that pops takes the top first. In the binary
//! instructions `p` is the word popped first and `q` the one below it; the
//! result is `q OP p`.
//!
//! An instruction either runs to completion or faults. A fault leaves the
//! stack and the program counter as they were when the instruction began.

use crate::error::DwarfVmError;
use crate::memory::Memory;
use crate::op::Op;
use crate::word::{abs_word, flag, neg_word, shl_word, shr_word, wrap};
use vstd::prelude::*;

verus! {

/// The word at depth `n` of the stack; depth 0 is the top.
pub open spec fn at_depth(stack: Seq<u64>, n: int) -> u64 {
    stack[stack.len() - 1 - n]
}

/// The stack without its `n` topmost words.
pub open spec fn below(stack: Seq<u64>, n: int) -> Seq<u64> {
    stack.take(stack.len() - n)
}

/// The program counter and the stack that an instruction leaves behind, or
/// the fault that it ends in.
pub type Outcome = Result<(u64, Seq<u64>), DwarfVmError>;

/// Reads `width` bytes of memory as a word.
pub open spec fn load(mem: Memory, a: u64, width: nat) -> Result<u64, DwarfVmError> {
    match mem.read(a, width) {
        Some(v) => Ok(v as u64),
        None => Err(DwarfVmError::AddressFault),
    }
}

/// Pushes a word.
pub open spec fn pushed(pc: u64, stack: Seq<u64>, v: u64) -> Outcome {
    Ok((pc, stack.push(v)))
}

/// Pushes the word that was read, or passes the fault on.
pub open spec fn pushed_load(pc: u64, stack: Seq<u64>, v: Result<u64, DwarfVmError>) -> Outcome {
    match v {
        Ok(v) => Ok((pc, stack.push(v))),
        Err(e) => Err(e),
    }
}

/// Replaces the top `t` by `f(t)`.
pub open spec fn unary(pc: u64, stack: Seq<u64>, f: spec_fn(u64) -> u64) -> Outcome {
    if stack.len() < 1 {
        Err(DwarfVmError::StackUnderflow)
    } else {
        Ok((pc, below(stack, 1).push(f(at_depth(stack, 0)))))
    }
}

/// Replaces the two topmost words, `p` on top of `q`, by `f(q, p)`.
pub open spec fn binary(pc: u64, stack: Seq<u64>, f: spec_fn(u64, u64) -> u64) -> Outcome {
    if stack.len() < 2 {
        Err(DwarfVmError::StackUnderflow)
    } else {
        Ok((pc, below(stack, 2).push(f(at_depth(stack, 1), at_depth(stack, 0)))))
    }
}

/// Replaces the two topmost words, `p` on top of `q`, by the result of
/// dividing `q` by `p`: the quotient, or the remainder. Dividing by zero
/// is a fault.
pub open spec fn division(pc: u64, stack: Seq<u64>, f: spec_fn(u64, u64) -> u64) -> Outcome {
    if stack.len() < 2 {
        Err(DwarfVmError::StackUnderflow)
    } else if at_depth(stack, 0) == 0 {
        Err(DwarfVmError::DivideByZero)
    } else {
        Ok((pc, below(stack, 2).push(f(at_depth(stack, 1), at_depth(stack, 0)))))
    }
}

/// Pushes a copy of the word at depth `n`.
pub open spec fn picked(pc: u64, stack: Seq<u64>, n: int) -> Outcome {
    if stack.len() <= n {
        Err(DwarfVmError::IndexOutOfRange)
    } else {
        Ok((pc, stack.push(at_depth(stack, n))))
    }
}

/// Whether a read of that many bytes is one that the machine can make.
pub open spec fn is_width(n: u8) -> bool {
    n == 1 || n == 2 || n == 4 || n == 8
}

/// What running `op` does to the program counter and the stack.
///
/// `pc` is the address of the instruction that follows `op`: the machine
/// moves the program counter past an instruction before it runs it, and
/// the branches are relative to that address. `ctx` is the address of the
/// context, whose registers `Reg` reads.
pub open spec fn outcome(op: Op, pc: u64, stack: Seq<u64>, ctx: u64, mem: Memory) -> Outcome {
    match op {
        Op::Addr(a) => pushed_load(pc, stack, load(mem, a, 8)),
        Op::Deref => if stack.len() < 1 {
            Err(DwarfVmError::StackUnderflow)
        } else {
            pushed_load(pc, below(stack, 1), load(mem, at_depth(stack, 0), 8))
        },
        Op::Const1u(v) => pushed(pc, stack, v as u64),
        Op::Const1s(v) => pushed(pc, stack, wrap(v as int)),
        Op::Const2u(v) => pushed(pc, stack, v as u64),
        Op::Const2s(v) => pushed(pc, stack, wrap(v as int)),
        Op::Const4u(v) => pushed(pc, stack, v as u64),
        Op::Const4s(v) => pushed(pc, stack, wrap(v as int)),
        Op::Const8u(v) => pushed(pc, stack, v),
        Op::Const8s(v) => pushed(pc, stack, wrap(v as int)),
        Op::Constu(v) => pushed(pc, stack, v),
        Op::Consts(v) => pushed(pc, stack, wrap(v as int)),
        Op::Dup => if stack.len() < 1 {
            Err(DwarfVmError::StackUnderflow)
        } else {
            pushed(pc, stack, at_depth(stack, 0))
        },
        Op::Drop => if stack.len() < 1 {
            Err(DwarfVmError::StackUnderflow)
        } else {
            Ok((pc, below(stack, 1)))
        },
        Op::Over => picked(pc, stack, 1),
        Op::Pick(n) => picked(pc, stack, n as int),
        Op::Swap => if stack.len() < 2 {
            Err(DwarfVmError::StackUnderflow)
        } else {
            Ok((pc, below(stack, 2).push(at_depth(stack, 0)).push(at_depth(stack, 1))))
        },
        Op::Rot => if stack.len() < 3 {
            Err(DwarfVmError::StackUnderflow)
        } else {
            Ok(
                (
                    pc,
                    below(stack, 3).push(at_depth(stack, 0)).push(at_depth(stack, 2)).push(
                        at_depth(stack, 1),
                    ),
                ),
            )
        },
        Op::Abs => unary(pc, stack, |t: u64| abs_word(t)),
        Op::Neg => unary(pc, stack, |t: u64| neg_word(t)),
        Op::Not => unary(pc, stack, |t: u64| !t),
        Op::PlusConst(v) => unary(pc, stack, |t: u64| wrap(t + v)),
        Op::And => binary(pc, stack, |q: u64, p: u64| q & p),
        Op::Or => binary(pc, stack, |q: u64, p: u64| q | p),
        Op::Xor => binary(pc, stack, |q: u64, p: u64| q ^ p),
        Op::Shl => binary(pc, stack, |q: u64, p: u64| shl_word(q, p)),
        Op::Shr => binary(pc, stack, |q: u64, p: u64| shr_word(q, p)),
        Op::Shra => binary(pc, stack, |q: u64, p: u64| shr_word(q, p)),
        Op::Plus => binary(pc, stack, |q: u64, p: u64| wrap(q + p)),
        Op::Minus => binary(pc, stack, |q: u64, p: u64| wrap(q - p)),
        Op::Mul => binary(pc, stack, |q: u64, p: u64| wrap(q * p)),
        Op::Div => division(pc, stack, |q: u64, p: u64| q / p),
        Op::Mod => division(pc, stack, |q: u64, p: u64| q % p),
        Op::Eq => binary(pc, stack, |q: u64, p: u64| flag(q == p)),
        Op::Ge => binary(pc, stack, |q: u64, p: u64| flag(q >= p)),
        Op::Gt => binary(pc, stack, |q: u64, p: u64| flag(q > p)),
        Op::Le => binary(pc, stack, |q: u64, p: u64| flag(q <= p)),
        Op::Lt => binary(pc, stack, |q: u64, p: u64| flag(q < p)),
        Op::Ne => binary(pc, stack, |q: u64, p: u64| flag(q != p)),
        Op::Bra(off) => if stack.len() < 1 {
            Err(DwarfVmError::StackUnderflow)
        } else if at_depth(stack, 0) != 0 {
            Ok((wrap(pc + off), below(stack, 1)))
        } else {
            Ok((pc, below(stack, 1)))
        },
        Op::Skip(off) => Ok((wrap(pc + off), stack)),
        Op::Lit(v) => pushed(pc, stack, v as u64),
        Op::Reg(r) => match load(mem, wrap(ctx + r * 8), 8) {
            Ok(p) => pushed_load(pc, stack, load(mem, p, 8)),
            Err(e) => Err(e),
        },
        Op::BReg(_, _) => Err(DwarfVmError::UnsupportedOperation),
        Op::RegX(_) => Err(DwarfVmError::UnsupportedOperation),
        Op::BRegX(_, _) => Err(DwarfVmError::UnsupportedOperation),
        Op::DerefSize(n) => if stack.len() < 1 {
            Err(DwarfVmError::StackUnderflow)
        } else if !is_width(n) {
            Err(DwarfVmError::UnsupportedOperation)
        } else {
            pushed_load(pc, below(stack, 1), load(mem, at_depth(stack, 0), n as nat))
        },
        Op::Nop => Ok((pc, stack)),
    }
}

/// Whether the instruction pushes a constant.
pub open spec fn is_constant(op: Op) -> bool {
    op is Const1u || op is Const1s || op is Const2u || op is Const2s || op is Const4u
        || op is Const4s || op is Const8u || op is Const8s || op is Constu || op is Consts
        || op is Lit
}

/// Whether the instruction rearranges the stack.
pub open spec fn is_shuffle(op: Op) -> bool {
    op is Dup || op is Drop || op is Over || op is Pick || op is Swap || op is Rot
}

/// Whether the instruction replaces the top of the stack by a word computed
/// from it.
pub open spec fn is_unary(op: Op) -> bool {
    op is Abs || op is Neg || op is Not || op is PlusConst
}

/// Whether the instruction replaces the two topmost words by a word
/// computed from them.
pub open spec fn is_binary(op: Op) -> bool {
    op is And || op is Or || op is Xor || op is Shl || op is Shr || op is Shra || op is Plus
        || op is Minus || op is Mul || op is Div || op is Mod || is_comparison(op)
}

/// Whether the instruction reads memory.
pub open spec fn is_load(op: Op) -> bool {
    op is Addr || op is Deref || op is Reg || op is DerefSize
}

/// Whether the instruction moves the program counter.
pub open spec fn is_branch(op: Op) -> bool {
    op is Bra || op is Skip
}

/// Whether the instruction compares the two topmost words.
pub open spec fn is_comparison(op: Op) -> bool {
    op == Op::Eq || op == Op::Ge || op == Op::Gt || op == Op::Le || op == Op::Lt || op == Op::Ne
}

/// No instruction ends in a halt: only a breakpoint hook can ask for one.
pub proof fn lemma_outcome_is_no_halt(op: Op, pc: u64, stack: Seq<u64>, ctx: u64, mem: Memory)
    ensures
        outcome(op, pc, stack, ctx, mem) != Outcome::Err(DwarfVmError::Breakpoint),
{
}

/// A comparison pushes 1 or 0 and nothing else: where it runs, it takes
/// two words off the stack and leaves one, which is 1 or 0.
pub proof fn lemma_comparison_pushes_flag(
    op: Op,
    pc: u64,
    stack: Seq<u64>,
    ctx: u64,
    mem: Memory,
)
    requires
        is_comparison(op),
    ensures
        stack.len() < 2 ==> outcome(op, pc, stack, ctx, mem) == Outcome::Err(
            DwarfVmError::StackUnderflow,
        ),
        stack.len() >= 2 ==> ({
            &&& outcome(op, pc, stack, ctx, mem) matches Ok((pc2, after))
            &&& pc2 == pc
            &&& after.len() == stack.len() - 1
            &&& below(after, 1) == below(stack, 2)
            &&& (at_depth(after, 0) == 0 || at_depth(after, 0) == 1)
        }),
{
    if stack.len() >= 2 {
        let after = outcome(op, pc, stack, ctx, mem)->Ok_0.1;
        assert(below(after, 1) =~= below(stack, 2));
    }
}

/// `Dup` turns a stack with `x` on top of `rest` into one with `x` on top
/// of `x` on top of `rest`.
pub proof fn lemma_dup(pc: u64, rest: Seq<u64>, x: u64, ctx: u64, mem: Memory)
    ensures
        outcome(Op::Dup, pc, rest.push(x), ctx, mem) == Outcome::Ok((pc, rest.push(x).push(x))),
{
}

/// `Drop` turns a stack with `x` on top of `rest` into `rest`.
pub proof fn lemma_drop(pc: u64, rest: Seq<u64>, x: u64, ctx: u64, mem: Memory)
    ensures
        outcome(Op::Drop, pc, rest.push(x), ctx, mem) == Outcome::Ok((pc, rest)),
{
    assert(below(rest.push(x), 1) =~= rest);
}

/// `Swap` turns a stack with `x` on top of `y` into one with `y` on top of
/// `x`.
pub proof fn lemma_swap(pc: u64, rest: Seq<u64>, y: u64, x: u64, ctx: u64, mem: Memory)
    ensures
        outcome(Op::Swap, pc, rest.push(y).push(x), ctx, mem) == Outcome::Ok(
            (pc, rest.push(x).push(y)),
        ),
{
    assert(below(rest.push(y).push(x), 2) =~= rest);
}

/// `Rot` turns a stack with `x` on top of `y` on top of `z` into one with
/// `y` on top of `z` on top of `x`: the top goes third, and the two below
/// it move up.
///
/// Where the top and the third word are equal, that is also `y` on top of
/// `x` on top of `z`.
pub proof fn lemma_rot(pc: u64, rest: Seq<u64>, z: u64, y: u64, x: u64, ctx: u64, mem: Memory)
    ensures
        outcome(Op::Rot, pc, rest.push(z).push(y).push(x), ctx, mem) == Outcome::Ok(
            (pc, rest.push(x).push(z).push(y)),
        ),
        x == z ==> outcome(Op::Rot, pc, rest.push(z).push(y).push(x), ctx, mem) == Outcome::Ok(
            (pc, rest.push(z).push(x).push(y)),
        ),
{
    assert(below(rest.push(z).push(y).push(x), 3) =~= rest);
}

/// `Pick(n)` pushes a copy of the word at depth `n` and removes nothing:
/// the stack below the new top is the stack as it was.
pub proof fn lemma_pick(pc: u64, stack: Seq<u64>, n: u8, ctx: u64, mem: Memory)
    ensures
        n < stack.len() ==> ({
            &&& outcome(Op::Pick(n), pc, stack, ctx, mem) matches Ok((pc2, after))
            &&& pc2 == pc
            &&& below(after, 1) == stack
            &&& at_depth(after, 0) == at_depth(stack, n as int)
        }),
        n >= stack.len() ==> outcome(Op::Pick(n), pc, stack, ctx, mem) == Outcome::Err(
            DwarfVmError::IndexOutOfRange,
        ),
{
    if n < stack.len() {
        assert(below(stack.push(at_depth(stack, n as int)), 1) =~= stack);
    }
}

/// On a stack that is not empty, `Pick(0)` does what `Dup` does. (On an
/// empty stack both fault, `Dup` with an underflow and `Pick(0)` with an
/// index out of range.)
pub proof fn lemma_pick_top_is_dup(pc: u64, stack: Seq<u64>, ctx: u64, mem: Memory)
    requires
        stack.len() > 0,
    ensures
        outcome(Op::Pick(0), pc, stack, ctx, mem) == outcome(Op::Dup, pc, stack, ctx, mem),
{
}

/// `Over` does what `Pick(1)` does.
pub proof fn lemma_over_is_pick_second(pc: u64, stack: Seq<u64>, ctx: u64, mem: Memory)
    ensures
        outcome(Op::Over, pc, stack, ctx, mem) == outcome(Op::Pick(1), pc, stack, ctx, mem),
{
}

} // verus!
