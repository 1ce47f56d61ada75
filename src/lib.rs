//! A compiler for a small expression language: a type checker, a code generator
//! that lowers expressions to abstract machine instructions, an assembly text
//! backend, an interpreter for the abstract machine, and the formatting logic of
//! the runtime that generated code calls.

pub mod syntax;
pub mod instr;
pub mod asm_text;
pub mod env;
pub mod typecheck;
pub mod compile;
pub mod labels;
pub mod machine;
pub mod semantics;
pub mod runtime;
