use vstd::prelude::*;

verus! {

/// The machine registers that generated code names.
#[derive(Clone, Copy, Debug, PartialEq, Eq, Structural)]
pub enum Reg {
    RAX,
    RBP,
    RBX,
    RDI,
    RSI,
    RSP,
    RCX,
    R12,
    R13,
    R14,
    R15,
}

/// An instruction operand.
#[derive(Debug)]
pub enum Val {
    Reg(Reg),
    Imm(i32),
    /// The memory word at the register's value plus a byte offset.
    RegOffset(Reg, i32),
    /// A symbolic operand, carried through to the text backend verbatim.
    Str(String),
}

/// The family a jump target belongs to; with its number it names one label.
#[derive(Clone, Copy, Debug, PartialEq, Eq, Hash, Structural)]
pub enum LabelKind {
    Add1Success,
    Sub1Success,
    IfElse,
    IfEnd,
    LoopStart,
}

/// One abstract machine instruction.
#[derive(Debug)]
pub enum Instr {
    IMov(Val, Val),
    IAdd(Val, Val),
    ISub(Val, Val),
    IMul(Val, Val),
    ICmp(Val, Val),
    ICMovE(Val, Val),
    ICMovL(Val, Val),
    ICMovLE(Val, Val),
    ICMovG(Val, Val),
    Jmp(LabelKind, i32),
    Je(LabelKind, i32),
    Jno(LabelKind, i32),
    Label(LabelKind, i32),
    CallSnekErr(),
    CallSnekPrint(),
    Pop(Val),
    Push(Val),
}

} // verus!
