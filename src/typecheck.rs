use vstd::prelude::*;
use vstd::string::*;
use crate::env::{bind_type, copy_types, lookup_type, type_entries};
use crate::syntax::{CompileError, Expr, Op1, Op2, Type};

verus! {

/// The reserved words, which no binding may use as its name.
pub open spec fn is_keyword(s: Seq<char>) -> bool {
    ||| s == "set!"@
    ||| s == "let"@
    ||| s == "if"@
    ||| s == "block"@
    ||| s == "true"@
    ||| s == "false"@
    ||| s == "add1"@
    ||| s == "sub1"@
    ||| s == "print"@
    ||| s == "repeat-until"@
    ||| s == "+"@
    ||| s == "-"@
    ||| s == "*"@
    ||| s == "input"@
    ||| s == "null"@
}

/// The type of an expression under a context, or the first error found.
pub open spec fn type_of(e: Expr, ctx: Map<Seq<char>, Type>) -> Result<Type, CompileError>
    decreases e,
{
    match e {
        Expr::Number(_) => Ok(Type::Int),
        Expr::Boolean(_) => Ok(Type::Bool),
        Expr::Id(x) => if ctx.contains_key(x@) {
            Ok(ctx[x@])
        } else {
            Err(CompileError::UnboundIdentifier)
        },
        Expr::Let(bs, body) => match let_context(bs, 0, ctx) {
            Ok(inner) => type_of(*body, inner),
            Err(err) => Err(err),
        },
        Expr::UnOp(op, a) => match type_of(*a, ctx) {
            Err(err) => Err(err),
            Ok(t) => if op == Op1::Print || t == Type::Int {
                Ok(t)
            } else {
                Err(CompileError::ExpectedInt)
            },
        },
        Expr::BinOp(op, a, b) => match type_of(*a, ctx) {
            Err(err) => Err(err),
            Ok(ta) => match type_of(*b, ctx) {
                Err(err) => Err(err),
                Ok(tb) => binop_type(op, ta, tb),
            },
        },
        Expr::If(c, t, f) => match type_of(*c, ctx) {
            Err(err) => Err(err),
            Ok(tc) => match type_of(*t, ctx) {
                Err(err) => Err(err),
                Ok(tt) => match type_of(*f, ctx) {
                    Err(err) => Err(err),
                    Ok(tf) => if tc != Type::Bool {
                        Err(CompileError::ConditionNotBool)
                    } else if tt != tf {
                        Err(CompileError::BranchMismatch)
                    } else {
                        Ok(tt)
                    },
                },
            },
        },
        Expr::RepeatUntil(body, cond) => match type_of(*body, ctx) {
            Err(err) => Err(err),
            Ok(tb) => match type_of(*cond, ctx) {
                Err(err) => Err(err),
                Ok(tc) => if tc == Type::Bool {
                    Ok(tb)
                } else {
                    Err(CompileError::ConditionNotBool)
                },
            },
        },
        Expr::Assign(x, a) => if is_keyword(x@) {
            Err(CompileError::KeywordBinding)
        } else {
            type_of(*a, ctx)
        },
        Expr::Block(es) => if es.len() == 0 {
            Err(CompileError::EmptyBlock)
        } else {
            block_type(es, 0, ctx)
        },
    }
}

/// The type of a binary operation whose operands have types `ta` and `tb`.
pub open spec fn binop_type(op: Op2, ta: Type, tb: Type) -> Result<Type, CompileError> {
    if ta != tb {
        Err(CompileError::OperandMismatch)
    } else if op == Op2::Equal {
        Ok(Type::Bool)
    } else if ta != Type::Int {
        Err(CompileError::ExpectedInt)
    } else if op == Op2::Plus || op == Op2::Minus || op == Op2::Times {
        Ok(Type::Int)
    } else {
        Ok(Type::Bool)
    }
}

/// The context after the bindings from index `i` on, each initializer checked
/// in the context that the bindings before it built.
pub open spec fn let_context(bs: Vec<(String, Expr)>, i: int, ctx: Map<Seq<char>, Type>) -> Result<
    Map<Seq<char>, Type>,
    CompileError,
>
    decreases bs, bs.len() - i,
{
    if 0 <= i < bs.len() {
        if is_keyword(bs[i].0@) {
            Err(CompileError::KeywordBinding)
        } else {
            match type_of(bs[i].1, ctx) {
                Ok(t) => let_context(bs, i + 1, ctx.insert(bs[i].0@, t)),
                Err(err) => Err(err),
            }
        }
    } else {
        Ok(ctx)
    }
}

/// Checks the block's expressions from index `i` on; the type is the last one's.
pub open spec fn block_type(es: Vec<Expr>, i: int, ctx: Map<Seq<char>, Type>) -> Result<Type, CompileError>
    decreases es, es.len() - i,
{
    if 0 <= i < es.len() {
        match type_of(es[i], ctx) {
            Ok(t) => if i + 1 == es.len() {
                Ok(t)
            } else {
                block_type(es, i + 1, ctx)
            },
            Err(err) => Err(err),
        }
    } else {
        Err(CompileError::EmptyBlock)
    }
}

/// Whether the name is a reserved word.
pub fn is_keyword_name(s: &String) -> (r: bool)
    ensures
        r == is_keyword(s@),
{
    *s == String::from_str("set!") || *s == String::from_str("let")
        || *s == String::from_str("if") || *s == String::from_str("block") || *s
        == String::from_str("true") || *s == String::from_str("false") || *s == String::from_str(
        "add1",
    ) || *s == String::from_str("sub1") || *s == String::from_str("print") || *s
        == String::from_str("repeat-until") || *s == String::from_str("+") || *s
        == String::from_str("-") || *s == String::from_str("*") || *s == String::from_str("input")
        || *s == String::from_str("null")
}

fn binop_check(op: Op2, ta: Type, tb: Type) -> (r: Result<Type, CompileError>)
    ensures
        r == binop_type(op, ta, tb),
{
    if ta != tb {
        Err(CompileError::OperandMismatch)
    } else if op == Op2::Equal {
        Ok(Type::Bool)
    } else if ta != Type::Int {
        Err(CompileError::ExpectedInt)
    } else if op == Op2::Plus || op == Op2::Minus || op == Op2::Times {
        Ok(Type::Int)
    } else {
        Ok(Type::Bool)
    }
}

/// Type-checks an expression against a context of variable types.
pub fn typecheck(e: &Expr, ctx: &im::HashMap<String, Type>) -> (r: Result<Type, CompileError>)
    ensures
        r == type_of(*e, type_entries(*ctx)),
    decreases e,
{
    match e {
        Expr::Number(_) => Ok(Type::Int),
        Expr::Boolean(_) => Ok(Type::Bool),
        Expr::Id(x) => match lookup_type(ctx, x) {
            Some(t) => Ok(t),
            None => Err(CompileError::UnboundIdentifier),
        },
        Expr::Let(bs, body) => {
            let mut inner = copy_types(ctx);
            let ghost c0 = type_entries(*ctx);
            let mut i: usize = 0;
            while i < bs.len()
                invariant
                    i <= bs.len(),
                    c0 == type_entries(*ctx),
                    *e == Expr::Let(*bs, *body),
                    type_of(*e, c0) == (match let_context(*bs, i as int, type_entries(inner)) {
                        Ok(c) => type_of(**body, c),
                        Err(err) => Err(err),
                    }),
                decreases bs.len() - i,
            {
                proof {
                    vstd::std_specs::vec::axiom_vec_index_decreases(*bs, i as int);
                    assert(decreases_to!(*e => *bs));
                    assert(decreases_to!(bs[i as int] => bs[i as int].1));
                    assert(decreases_to!(*e => bs[i as int].1));
                }
                if is_keyword_name(&bs[i].0) {
                    return Err(CompileError::KeywordBinding);
                }
                let t = typecheck(&bs[i].1, &inner)?;
                inner = bind_type(&inner, bs[i].0.clone(), t);
                i = i + 1;
            }
            typecheck(body, &inner)
        },
        Expr::UnOp(op, a) => {
            let t = typecheck(a, ctx)?;
            if *op == Op1::Print || t == Type::Int {
                Ok(t)
            } else {
                Err(CompileError::ExpectedInt)
            }
        },
        Expr::BinOp(op, a, b) => {
            let ta = typecheck(a, ctx)?;
            let tb = typecheck(b, ctx)?;
            binop_check(*op, ta, tb)
        },
        Expr::If(c, t, f) => {
            let tc = typecheck(c, ctx)?;
            let tt = typecheck(t, ctx)?;
            let tf = typecheck(f, ctx)?;
            if tc != Type::Bool {
                Err(CompileError::ConditionNotBool)
            } else if tt != tf {
                Err(CompileError::BranchMismatch)
            } else {
                Ok(tt)
            }
        },
        Expr::RepeatUntil(body, cond) => {
            let tb = typecheck(body, ctx)?;
            let tc = typecheck(cond, ctx)?;
            if tc == Type::Bool {
                Ok(tb)
            } else {
                Err(CompileError::ConditionNotBool)
            }
        },
        Expr::Assign(x, a) => {
            if is_keyword_name(x) {
                Err(CompileError::KeywordBinding)
            } else {
                typecheck(a, ctx)
            }
        },
        Expr::Block(es) => {
            if es.len() == 0 {
                return Err(CompileError::EmptyBlock);
            }
            let mut i: usize = 0;
            loop
                invariant
                    i < es.len(),
                    type_of(*e, type_entries(*ctx)) == block_type(*es, i as int, type_entries(*ctx)),
                    *e == Expr::Block(*es),
                decreases es.len() - i,
            {
                proof {
                    vstd::std_specs::vec::axiom_vec_index_decreases(*es, i as int);
                    assert(decreases_to!(*e => *es));
                    assert(decreases_to!(*e => es[i as int]));
                }
                let t = typecheck(&es[i], ctx)?;
                if i + 1 == es.len() {
                    return Ok(t);
                }
                i = i + 1;
            }
        },
    }
}

/// The type named by the source text `int` or `bool`; `None` for any other text.
pub fn str_to_type(s: &String) -> (r: Option<Type>)
    ensures
        r == (if s@ == "int"@ {
            Some(Type::Int)
        } else if s@ == "bool"@ {
            Some(Type::Bool)
        } else {
            None
        }),
{
    if *s == String::from_str("int") {
        Some(Type::Int)
    } else if *s == String::from_str("bool") {
        Some(Type::Bool)
    } else {
        None
    }
}

/// The name of a type as the source language writes it.
pub fn _type_to_str(t: Type) -> (s: String)
    ensures
        s@ == (match t {
            Type::Bool => "bool"@,
            Type::Int => "int"@,
        }),
{
    match t {
        Type::Bool => String::from_str("bool"),
        Type::Int => String::from_str("int"),
    }
}

} // verus!
