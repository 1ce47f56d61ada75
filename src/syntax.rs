use vstd::prelude::*;

verus! {

/// The static type of an expression.
#[derive(Clone, Copy, Debug, PartialEq, Eq, Structural)]
pub enum Type {
    Int,
    Bool,
}

/// Unary operators.
#[derive(Clone, Copy, Debug, PartialEq, Eq, Structural)]
pub enum Op1 {
    Add1,
    Sub1,
    Print,
}

/// Binary operators.
#[derive(Clone, Copy, Debug, PartialEq, Eq, Structural)]
pub enum Op2 {
    Plus,
    Minus,
    Times,
    Equal,
    Less,
    LessEqual,
    Greater,
    GreaterEqual,
}

/// The expression tree handed over by the parser.
#[derive(Debug)]
pub enum Expr {
    Number(i32),
    Boolean(bool),
    Id(String),
    /// Sequential bindings: each initializer sees the names bound before it.
    Let(Vec<(String, Expr)>, Box<Expr>),
    UnOp(Op1, Box<Expr>),
    BinOp(Op2, Box<Expr>, Box<Expr>),
    If(Box<Expr>, Box<Expr>, Box<Expr>),
    /// Runs the body, then the condition; repeats while the condition is false.
    RepeatUntil(Box<Expr>, Box<Expr>),
    Assign(String, Box<Expr>),
    Block(Vec<Expr>),
}

/// Why compilation stopped. Compilation stops at the first error.
#[derive(Clone, Copy, Debug, PartialEq, Eq, Structural)]
pub enum CompileError {
    /// A name that is neither a local binding nor a constant.
    UnboundIdentifier,
    /// The same name bound twice in one `let`.
    DuplicateBinding,
    /// A reserved word used as a variable name.
    KeywordBinding,
    /// The two operands of a binary operator have different types.
    OperandMismatch,
    /// Arithmetic, an ordering comparison, or an increment applied to a Boolean.
    ExpectedInt,
    /// The two branches of a conditional have different types.
    BranchMismatch,
    /// The condition of a conditional or of a loop is not a Boolean.
    ConditionNotBool,
    /// A block with no expression in it.
    EmptyBlock,
    /// A stack offset that does not fit an instruction operand.
    FrameTooLarge,
    /// The label counter has no fresh value left.
    TooManyLabels,
}

} // verus!
