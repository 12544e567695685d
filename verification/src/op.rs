//! The instruction set.

use vstd::prelude::*;

verus! {

/// One decoded instruction.
///
/// Immediate operands keep the width and the signedness they were encoded
/// with; the machine widens them to a 64-bit word when it runs the
/// instruction.
#[derive(Clone, Copy, Debug, PartialEq, Eq, Structural)]
pub enum Op {
    /// Push the word stored at a literal address.
    Addr(u64),
    /// Pop an address, push the word stored there.
    Deref,
    /// Push an unsigned one-byte constant.
    Const1u(u8),
    /// Push a signed one-byte constant.
    Const1s(i8),
    /// Push an unsigned two-byte constant.
    Const2u(u16),
    /// Push a signed two-byte constant.
    Const2s(i16),
    /// Push an unsigned four-byte constant.
    Const4u(u32),
    /// Push a signed four-byte constant.
    Const4s(i32),
    /// Push an unsigned eight-byte constant.
    Const8u(u64),
    /// Push a signed eight-byte constant.
    Const8s(i64),
    /// Push an unsigned constant of variable length.
    Constu(u64),
    /// Push a signed constant of variable length.
    Consts(i64),
    /// Push a copy of the top.
    Dup,
    /// Pop the top.
    Drop,
    /// Push a copy of the word below the top.
    Over,
    /// Push a copy of the word at the given depth; depth 0 is the top.
    Pick(u8),
    /// Exchange the two topmost words.
    Swap,
    /// Rotate the three topmost words: the top goes third, the two below
    /// it move up.
    Rot,
    /// Replace the top, read as a signed number, by its absolute value.
    Abs,
    /// Bitwise and.
    And,
    /// Unsigned division; dividing by zero is a fault.
    Div,
    /// Subtraction modulo 2^64.
    Minus,
    /// Unsigned remainder; dividing by zero is a fault.
    Mod,
    /// Multiplication modulo 2^64.
    Mul,
    /// Replace the top, read as a signed number, by its negation.
    Neg,
    /// Bitwise complement of the top.
    Not,
    /// Bitwise or.
    Or,
    /// Addition modulo 2^64.
    Plus,
    /// Add a constant to the top, modulo 2^64.
    PlusConst(u64),
    /// Shift left; the amount is taken modulo 64.
    Shl,
    /// Shift right, filling with zeros; the amount is taken modulo 64.
    Shr,
    /// Shift right. Words are unsigned, so this fills with zeros as `Shr`
    /// does.
    Shra,
    /// Bitwise exclusive or.
    Xor,
    /// Pop a word; if it is not zero, move the program counter by the
    /// offset.
    Bra(i16),
    /// Push 1 if the two topmost words are equal, else 0.
    Eq,
    /// Push 1 if the second word is at least the top, else 0.
    Ge,
    /// Push 1 if the second word is greater than the top, else 0.
    Gt,
    /// Push 1 if the second word is at most the top, else 0.
    Le,
    /// Push 1 if the second word is less than the top, else 0.
    Lt,
    /// Push 1 if the two topmost words differ, else 0.
    Ne,
    /// Move the program counter by the offset.
    Skip(i16),
    /// Push a small literal.
    Lit(u8),
    /// Push the word that a register of the context points to.
    Reg(u8),
    /// Not implemented.
    BReg(u8, i64),
    /// Not implemented.
    RegX(u64),
    /// Not implemented.
    BRegX(u64, i64),
    /// Pop an address, push the value of that many bytes stored there.
    DerefSize(u8),
    /// Do nothing.
    Nop,
}

/// The decoder's verdict on bytes that do not form an instruction.
#[derive(Clone, Copy, Debug, PartialEq, Eq, Structural)]
pub struct DecodeFault;

/// Turns the bytes at the program counter into an instruction.
///
/// The engine hands `decode` the bytes from the program counter to the end
/// of the region that holds it, and expects the number of bytes that the
/// instruction takes up together with the instruction. It relies on nothing
/// else: whatever `decode` returns, the engine's own contracts hold.
pub trait Decoder {
    fn decode(&self, bytes: &[u8]) -> (r: Result<(usize, Op), DecodeFault>);
}

} // verus!
