use vstd::prelude::*;
use crate::env::{bind_int, bind_type, copy_ints, copy_types, empty_ints, int_entries, lookup_int, type_entries};
use crate::instr::{Instr, LabelKind, Reg, Val};
use crate::syntax::{CompileError, Expr, Op1, Op2, Type};
use crate::typecheck::{type_of, typecheck};

verus! {

/// Bytes in one machine word, the size of every stack slot.
pub const WORD: i32 = 8;

/// The frame invariant: the next free slot offset `sc` is a positive multiple of the
/// word size, and every bound slot is a multiple of it that lies before `sc`.
pub open spec fn valid_frame(binds: Map<Seq<char>, i32>, sc: int) -> bool {
    &&& 8 <= sc <= i32::MAX
    &&& sc % 8 == 0
    &&& forall|k: Seq<char>|
        #![trigger binds[k]]
        binds.contains_key(k) ==> 8 <= binds[k] < sc && binds[k] % 8 == 0
}

pub open spec fn rax() -> Val {
    Val::Reg(Reg::RAX)
}

pub open spec fn reg(r: Reg) -> Val {
    Val::Reg(r)
}

pub open spec fn imm(n: int) -> Val {
    Val::Imm(n as i32)
}

/// The operand that reads or writes the slot at `offset` below the frame base.
pub open spec fn slot(offset: i32) -> Val {
    Val::RegOffset(Reg::RBP, (-offset) as i32)
}

/// The compare-then-conditional-move idiom: the accumulator ends up holding `t`
/// when the condition selected by `cmov` holds after comparing it with RCX, else `f`.
pub open spec fn compare_tail(f: int, t: int, cmov: spec_fn(Val, Val) -> Instr) -> Seq<Instr> {
    seq![
        Instr::IMov(reg(Reg::R12), imm(f)),
        Instr::IMov(reg(Reg::R13), imm(t)),
        Instr::ICmp(rax(), reg(Reg::RCX)),
        Instr::IMov(rax(), reg(Reg::R12)),
        cmov(rax(), reg(Reg::R13)),
    ]
}

/// What follows once the left operand is in RAX and the right one in RCX.
/// Greater and greater-or-equal swap the two templates and test the complementary
/// condition of less-or-equal and less.
pub open spec fn binop_tail(op: Op2) -> Seq<Instr> {
    match op {
        Op2::Plus => seq![Instr::IAdd(rax(), reg(Reg::RCX))],
        Op2::Minus => seq![Instr::ISub(rax(), reg(Reg::RCX))],
        Op2::Times => seq![Instr::IMul(rax(), reg(Reg::RCX))],
        Op2::Equal => compare_tail(0, 1, |a, b| Instr::ICMovE(a, b)),
        Op2::Less => compare_tail(0, 1, |a, b| Instr::ICMovL(a, b)),
        Op2::LessEqual => compare_tail(0, 1, |a, b| Instr::ICMovLE(a, b)),
        Op2::Greater => compare_tail(1, 0, |a, b| Instr::ICMovLE(a, b)),
        Op2::GreaterEqual => compare_tail(1, 0, |a, b| Instr::ICMovL(a, b)),
    }
}

/// The overflow check after an increment or decrement: jump over the error call
/// to the success label numbered `n` unless the operation overflowed.
pub open spec fn overflow_check(k: LabelKind, n: int) -> Seq<Instr> {
    seq![
        Instr::Jno(k, n as i32),
        Instr::IMov(reg(Reg::RDI), imm(1)),
        Instr::CallSnekErr(),
        Instr::Label(k, n as i32),
    ]
}

/// Whether a call made with `sc` as the next free slot needs one word of padding
/// to keep the stack pointer 16-byte aligned.
pub open spec fn needs_pad(sc: int) -> bool {
    sc % 16 != 8
}

/// The call to the printer with the value in RAX and the tag of type `t`;
/// RAX is kept in RBX across the call and restored after it.
pub open spec fn print_call(t: Type, sc: int) -> Seq<Instr> {
    let tag: int = if t == Type::Int { 0 } else { 1 };
    let pad_on: Seq<Instr> = if needs_pad(sc) { seq![Instr::ISub(reg(Reg::RSP), imm(8))] } else { seq![] };
    let pad_off: Seq<Instr> = if needs_pad(sc) { seq![Instr::IAdd(reg(Reg::RSP), imm(8))] } else { seq![] };
    seq![
        Instr::IMov(reg(Reg::RDI), rax()),
        Instr::IMov(reg(Reg::RSI), imm(tag)),
        Instr::IMov(reg(Reg::RBX), rax()),
    ] + pad_on + seq![Instr::CallSnekPrint()] + pad_off + seq![Instr::IMov(rax(), reg(Reg::RBX))]
}

/// The environment of a `let` after some of its bindings: slots, types, next free
/// slot, and next label.
pub type Scope = (Map<Seq<char>, i32>, Map<Seq<char>, Type>, int, int);

/// The instructions for `e` and the next free label, given the slot of each local
/// binding, the type of each name, the next free slot offset `sc`, the constants,
/// and the first free label `l`; or the first error met.
pub open spec fn gen(
    e: Expr,
    binds: Map<Seq<char>, i32>,
    types: Map<Seq<char>, Type>,
    sc: int,
    consts: Map<Seq<char>, i32>,
    l: int,
) -> Result<(Seq<Instr>, int), CompileError>
    decreases e,
{
    match e {
        Expr::Number(n) => Ok((seq![Instr::IMov(rax(), imm(n as int))], l)),
        Expr::Boolean(b) => Ok((seq![Instr::IMov(rax(), imm(if b { 1 } else { 0 }))], l)),
        Expr::Id(x) => if binds.contains_key(x@) {
            Ok((seq![Instr::IMov(rax(), slot(binds[x@]))], l))
        } else if consts.contains_key(x@) {
            Ok((seq![Instr::IMov(rax(), imm(consts[x@] as int))], l))
        } else {
            Err(CompileError::UnboundIdentifier)
        },
        Expr::UnOp(op, a) => match op {
            Op1::Print => match type_of(*a, types) {
                Err(err) => Err(err),
                Ok(t) => match gen(*a, binds, types, sc, consts, l) {
                    Err(err) => Err(err),
                    Ok((c, l1)) => Ok((c + print_call(t, sc), l1)),
                },
            },
            _ => match gen(*a, binds, types, sc, consts, l) {
                Err(err) => Err(err),
                Ok((c, l1)) => if l1 >= i32::MAX {
                    Err(CompileError::TooManyLabels)
                } else if op == Op1::Add1 {
                    Ok((c + seq![Instr::IAdd(rax(), imm(1))] + overflow_check(LabelKind::Add1Success, l1), l1 + 1))
                } else {
                    Ok((c + seq![Instr::ISub(rax(), imm(1))] + overflow_check(LabelKind::Sub1Success, l1), l1 + 1))
                },
            },
        },
        Expr::BinOp(op, a, b) => match gen(*a, binds, types, sc, consts, l) {
            Err(err) => Err(err),
            Ok((ca, l1)) => if sc > i32::MAX - 8 {
                Err(CompileError::FrameTooLarge)
            } else {
                match gen(*b, binds, types, sc + 8, consts, l1) {
                    Err(err) => Err(err),
                    Ok((cb, l2)) => Ok((
                        ca + seq![Instr::Push(rax())] + cb + seq![
                            Instr::IMov(reg(Reg::RCX), rax()),
                            Instr::Pop(rax()),
                        ] + binop_tail(op),
                        l2,
                    )),
                }
            },
        },
        Expr::Let(bs, body) => match gen_bindings(bs, 0, (binds, types, sc, l), consts) {
            Err(err) => Err(err),
            Ok((c, s)) => match gen(*body, s.0, s.1, s.2, consts, s.3) {
                Err(err) => Err(err),
                Ok((cb, l2)) => Ok((c + cb + seq![Instr::IAdd(reg(Reg::RSP), imm(8 * bs.len()))], l2)),
            },
        },
        Expr::If(c, t, f) => if l >= i32::MAX {
            Err(CompileError::TooManyLabels)
        } else {
            match gen(*c, binds, types, sc, consts, l + 1) {
                Err(err) => Err(err),
                Ok((cc, l1)) => match gen(*t, binds, types, sc, consts, l1) {
                    Err(err) => Err(err),
                    Ok((ct, l2)) => match gen(*f, binds, types, sc, consts, l2) {
                        Err(err) => Err(err),
                        Ok((cf, l3)) => Ok((
                            cc + seq![
                                Instr::ICmp(rax(), imm(0)),
                                Instr::Je(LabelKind::IfElse, l as i32),
                            ] + ct + seq![
                                Instr::Jmp(LabelKind::IfEnd, l as i32),
                                Instr::Label(LabelKind::IfElse, l as i32),
                            ] + cf + seq![Instr::Label(LabelKind::IfEnd, l as i32)],
                            l3,
                        )),
                    },
                },
            }
        },
        Expr::RepeatUntil(body, cond) => if l >= i32::MAX {
            Err(CompileError::TooManyLabels)
        } else {
            match gen(*body, binds, types, sc, consts, l + 1) {
                Err(err) => Err(err),
                Ok((cb, l1)) => if sc > i32::MAX - 8 {
                    Err(CompileError::FrameTooLarge)
                } else {
                    match gen(*cond, binds, types, sc + 8, consts, l1) {
                        Err(err) => Err(err),
                        Ok((cc, l2)) => Ok((
                            seq![Instr::Label(LabelKind::LoopStart, l as i32)] + cb + seq![
                                Instr::Push(rax()),
                            ] + cc + seq![
                                Instr::ICmp(rax(), imm(0)),
                                Instr::Pop(rax()),
                                Instr::Je(LabelKind::LoopStart, l as i32),
                            ],
                            l2,
                        )),
                    }
                },
            }
        },
        Expr::Assign(x, a) => match gen(*a, binds, types, sc, consts, l) {
            Err(err) => Err(err),
            Ok((c, l1)) => if binds.contains_key(x@) {
                Ok((c + seq![Instr::IMov(slot(binds[x@]), rax())], l1))
            } else {
                Err(CompileError::UnboundIdentifier)
            },
        },
        Expr::Block(es) => if es.len() == 0 {
            Err(CompileError::EmptyBlock)
        } else {
            gen_block(es, 0, binds, types, sc, consts, l)
        },
    }
}

/// Whether the name of binding `i` was bound earlier in the same `let`.
pub open spec fn bound_before(bs: Vec<(String, Expr)>, i: int) -> bool {
    exists|j: int| 0 <= j < i && bs[j].0@ == bs[i].0@
}

/// The bindings of a `let` from index `i` on: each initializer compiled in the scope
/// of the bindings before it, then pushed into a fresh slot.
pub open spec fn gen_bindings(bs: Vec<(String, Expr)>, i: int, s: Scope, consts: Map<Seq<char>, i32>) -> Result<
    (Seq<Instr>, Scope),
    CompileError,
>
    decreases bs, bs.len() - i,
{
    if 0 <= i < bs.len() {
        if bound_before(bs, i) {
            Err(CompileError::DuplicateBinding)
        } else {
            match gen(bs[i].1, s.0, s.1, s.2, consts, s.3) {
                Err(err) => Err(err),
                Ok((c, l1)) => match type_of(bs[i].1, s.1) {
                    Err(err) => Err(err),
                    Ok(t) => if s.2 > i32::MAX - 8 {
                        Err(CompileError::FrameTooLarge)
                    } else {
                        let next: Scope = (
                            s.0.insert(bs[i].0@, s.2 as i32),
                            s.1.insert(bs[i].0@, t),
                            s.2 + 8,
                            l1,
                        );
                        match gen_bindings(bs, i + 1, next, consts) {
                            Err(err) => Err(err),
                            Ok((rest, last)) => Ok((c + seq![Instr::Push(rax())] + rest, last)),
                        }
                    },
                },
            }
        }
    } else {
        Ok((Seq::empty(), s))
    }
}

/// The expressions of a block from index `i` on, in order.
pub open spec fn gen_block(
    es: Vec<Expr>,
    i: int,
    binds: Map<Seq<char>, i32>,
    types: Map<Seq<char>, Type>,
    sc: int,
    consts: Map<Seq<char>, i32>,
    l: int,
) -> Result<(Seq<Instr>, int), CompileError>
    decreases es, es.len() - i,
{
    if 0 <= i < es.len() {
        match gen(es[i], binds, types, sc, consts, l) {
            Err(err) => Err(err),
            Ok((c, l1)) => match gen_block(es, i + 1, binds, types, sc, consts, l1) {
                Err(err) => Err(err),
                Ok((rest, l2)) => Ok((c + rest, l2)),
            },
        }
    } else {
        Ok((Seq::empty(), l))
    }
}

/// The rest of a `let` once `prefix` is emitted and `r` is what its remaining
/// bindings give: the body in the scope they build, then the release of all slots.
pub open spec fn let_rest(
    prefix: Seq<Instr>,
    r: Result<(Seq<Instr>, Scope), CompileError>,
    body: Expr,
    consts: Map<Seq<char>, i32>,
    n: int,
) -> Result<(Seq<Instr>, int), CompileError> {
    match r {
        Err(err) => Err(err),
        Ok((c, s)) => match gen(body, s.0, s.1, s.2, consts, s.3) {
            Err(err) => Err(err),
            Ok((cb, l2)) => Ok((prefix + c + cb + seq![Instr::IAdd(reg(Reg::RSP), imm(8 * n))], l2)),
        },
    }
}

pub open spec fn prepend<T>(c: Seq<Instr>, r: Result<(Seq<Instr>, T), CompileError>) -> Result<
    (Seq<Instr>, T),
    CompileError,
> {
    match r {
        Err(err) => Err(err),
        Ok((rest, x)) => Ok((c + rest, x)),
    }
}

proof fn lemma_let_rest_step(
    prefix: Seq<Instr>,
    c: Seq<Instr>,
    r: Result<(Seq<Instr>, Scope), CompileError>,
    body: Expr,
    consts: Map<Seq<char>, i32>,
    n: int,
)
    ensures
        let_rest(prefix, prepend(c, r), body, consts, n) == let_rest(prefix + c, r, body, consts, n),
{
    if let Ok((rest, s)) = r {
        if let Ok((cb, l2)) = gen(body, s.0, s.1, s.2, consts, s.3) {
            let tail = seq![Instr::IAdd(reg(Reg::RSP), imm(8 * n))];
            assert(prefix + (c + rest) + cb + tail =~= prefix + c + rest + cb + tail);
        }
    }
}

proof fn lemma_prepend_assoc(a: Seq<Instr>, b: Seq<Instr>, r: Result<(Seq<Instr>, int), CompileError>)
    ensures
        prepend(a, prepend(b, r)) == prepend(a + b, r),
{
    if let Ok((rest, x)) = r {
        assert(a + (b + rest) =~= a + b + rest);
    }
}

fn emit_compare(f: i32, t: i32, out: &mut Vec<Instr>)
    ensures
        final(out)@ == old(out)@ + seq![
            Instr::IMov(reg(Reg::R12), imm(f as int)),
            Instr::IMov(reg(Reg::R13), imm(t as int)),
            Instr::ICmp(rax(), reg(Reg::RCX)),
            Instr::IMov(rax(), reg(Reg::R12)),
        ],
{
    let ghost o = out@;
    out.push(Instr::IMov(Val::Reg(Reg::R12), Val::Imm(f)));
    out.push(Instr::IMov(Val::Reg(Reg::R13), Val::Imm(t)));
    out.push(Instr::ICmp(Val::Reg(Reg::RAX), Val::Reg(Reg::RCX)));
    out.push(Instr::IMov(Val::Reg(Reg::RAX), Val::Reg(Reg::R12)));
    assert(out@ =~= o + seq![
        Instr::IMov(reg(Reg::R12), imm(f as int)),
        Instr::IMov(reg(Reg::R13), imm(t as int)),
        Instr::ICmp(rax(), reg(Reg::RCX)),
        Instr::IMov(rax(), reg(Reg::R12)),
    ]);
}

fn emit_binop_tail(op: Op2, out: &mut Vec<Instr>)
    ensures
        final(out)@ == old(out)@ + binop_tail(op),
{
    let ghost o = out@;
    match op {
        Op2::Plus => out.push(Instr::IAdd(Val::Reg(Reg::RAX), Val::Reg(Reg::RCX))),
        Op2::Minus => out.push(Instr::ISub(Val::Reg(Reg::RAX), Val::Reg(Reg::RCX))),
        Op2::Times => out.push(Instr::IMul(Val::Reg(Reg::RAX), Val::Reg(Reg::RCX))),
        Op2::Equal => {
            emit_compare(0, 1, out);
            out.push(Instr::ICMovE(Val::Reg(Reg::RAX), Val::Reg(Reg::R13)));
        },
        Op2::Less => {
            emit_compare(0, 1, out);
            out.push(Instr::ICMovL(Val::Reg(Reg::RAX), Val::Reg(Reg::R13)));
        },
        Op2::LessEqual => {
            emit_compare(0, 1, out);
            out.push(Instr::ICMovLE(Val::Reg(Reg::RAX), Val::Reg(Reg::R13)));
        },
        Op2::Greater => {
            emit_compare(1, 0, out);
            out.push(Instr::ICMovLE(Val::Reg(Reg::RAX), Val::Reg(Reg::R13)));
        },
        Op2::GreaterEqual => {
            emit_compare(1, 0, out);
            out.push(Instr::ICMovL(Val::Reg(Reg::RAX), Val::Reg(Reg::R13)));
        },
    }
    assert(out@ =~= o + binop_tail(op));
}

fn emit_overflow_check(k: LabelKind, n: i32, out: &mut Vec<Instr>)
    ensures
        final(out)@ == old(out)@ + overflow_check(k, n as int),
{
    let ghost o = out@;
    out.push(Instr::Jno(k, n));
    out.push(Instr::IMov(Val::Reg(Reg::RDI), Val::Imm(1)));
    out.push(Instr::CallSnekErr());
    out.push(Instr::Label(k, n));
    assert(out@ =~= o + overflow_check(k, n as int));
}

fn emit_print_call(t: Type, sc: i32, out: &mut Vec<Instr>)
    requires
        0 <= sc,
    ensures
        final(out)@ == old(out)@ + print_call(t, sc as int),
{
    let ghost o = out@;
    let tag: i32 = if t == Type::Int { 0 } else { 1 };
    out.push(Instr::IMov(Val::Reg(Reg::RDI), Val::Reg(Reg::RAX)));
    out.push(Instr::IMov(Val::Reg(Reg::RSI), Val::Imm(tag)));
    out.push(Instr::IMov(Val::Reg(Reg::RBX), Val::Reg(Reg::RAX)));
    if sc % 16 != 8 {
        out.push(Instr::ISub(Val::Reg(Reg::RSP), Val::Imm(WORD)));
        out.push(Instr::CallSnekPrint());
        out.push(Instr::IAdd(Val::Reg(Reg::RSP), Val::Imm(WORD)));
        out.push(Instr::IMov(Val::Reg(Reg::RAX), Val::Reg(Reg::RBX)));
    } else {
        out.push(Instr::CallSnekPrint());
        out.push(Instr::IMov(Val::Reg(Reg::RAX), Val::Reg(Reg::RBX)));
    }
    assert(out@ =~= o + print_call(t, sc as int));
}

/// The instructions of `gen`, appended to `out`; the label counter advances as `gen` says.
fn compile_expr(
    e: &Expr,
    binds: &im::HashMap<String, i32>,
    types: &im::HashMap<String, Type>,
    sc: i32,
    consts: &im::HashMap<String, i32>,
    labels: &mut i32,
    out: &mut Vec<Instr>,
) -> (r: Result<(), CompileError>)
    requires
        valid_frame(int_entries(*binds), sc as int),
    ensures
        match gen(*e, int_entries(*binds), type_entries(*types), sc as int, int_entries(*consts), *old(labels) as int) {
            Ok((code, l2)) => r is Ok && final(out)@ == old(out)@ + code && *final(labels) == l2,
            Err(err) => r == Err::<(), CompileError>(err),
        },
    decreases e, 1nat,
{
    let ghost bm = int_entries(*binds);
    let ghost tm = type_entries(*types);
    let ghost cm = int_entries(*consts);
    let ghost o = out@;
    let ghost l0 = *labels as int;
    match e {
        Expr::Number(n) => {
            out.push(Instr::IMov(Val::Reg(Reg::RAX), Val::Imm(*n)));
            assert(out@ =~= o + seq![Instr::IMov(rax(), imm(*n as int))]);
            Ok(())
        },
        Expr::Boolean(b) => {
            out.push(Instr::IMov(Val::Reg(Reg::RAX), Val::Imm(bool_to_num(b))));
            assert(out@ =~= o + seq![Instr::IMov(rax(), imm(if *b { 1 } else { 0 }))]);
            Ok(())
        },
        Expr::Id(x) => {
            match lookup_int(binds, x) {
                Some(off) => {
                    out.push(Instr::IMov(Val::Reg(Reg::RAX), Val::RegOffset(Reg::RBP, -off)));
                    assert(out@ =~= o + seq![Instr::IMov(rax(), slot(bm[x@]))]);
                    Ok(())
                },
                None => match lookup_int(consts, x) {
                    Some(v) => {
                        out.push(Instr::IMov(Val::Reg(Reg::RAX), Val::Imm(v)));
                        assert(out@ =~= o + seq![Instr::IMov(rax(), imm(cm[x@] as int))]);
                        Ok(())
                    },
                    None => Err(CompileError::UnboundIdentifier),
                },
            }
        },
        Expr::UnOp(op, a) => {
            match op {
                Op1::Print => {
                    let t = typecheck(a, types)?;
                    compile_expr(a, binds, types, sc, consts, labels, out)?;
                    let ghost ca = gen(**a, bm, tm, sc as int, cm, l0)->Ok_0.0;
                    emit_print_call(t, sc, out);
                    assert(out@ =~= o + (ca + print_call(t, sc as int)));
                    Ok(())
                },
                _ => {
                    compile_expr(a, binds, types, sc, consts, labels, out)?;
                    let ghost ca = gen(**a, bm, tm, sc as int, cm, l0)->Ok_0.0;
                    if *labels == i32::MAX {
                        return Err(CompileError::TooManyLabels);
                    }
                    let n = *labels;
                    if *op == Op1::Add1 {
                        out.push(Instr::IAdd(Val::Reg(Reg::RAX), Val::Imm(1)));
                        emit_overflow_check(LabelKind::Add1Success, n, out);
                        assert(out@ =~= o + (ca + seq![Instr::IAdd(rax(), imm(1))] + overflow_check(LabelKind::Add1Success, n as int)));
                    } else {
                        out.push(Instr::ISub(Val::Reg(Reg::RAX), Val::Imm(1)));
                        emit_overflow_check(LabelKind::Sub1Success, n, out);
                        assert(out@ =~= o + (ca + seq![Instr::ISub(rax(), imm(1))] + overflow_check(LabelKind::Sub1Success, n as int)));
                    }
                    *labels = n + 1;
                    Ok(())
                },
            }
        },
        Expr::BinOp(op, a, b) => {
            compile_expr(a, binds, types, sc, consts, labels, out)?;
            let ghost ra = gen(**a, bm, tm, sc as int, cm, l0);
            if sc > i32::MAX - WORD {
                return Err(CompileError::FrameTooLarge);
            }
            out.push(Instr::Push(Val::Reg(Reg::RAX)));
            let ghost l1 = *labels as int;
            compile_expr(b, binds, types, sc + WORD, consts, labels, out)?;
            let ghost cb = gen(**b, bm, tm, sc + 8, cm, l1)->Ok_0.0;
            out.push(Instr::IMov(Val::Reg(Reg::RCX), Val::Reg(Reg::RAX)));
            out.push(Instr::Pop(Val::Reg(Reg::RAX)));
            emit_binop_tail(*op, out);
            assert(out@ =~= o + (ra->Ok_0.0 + seq![Instr::Push(rax())] + cb + seq![
                Instr::IMov(reg(Reg::RCX), rax()),
                Instr::Pop(rax()),
            ] + binop_tail(*op)));
            Ok(())
        },
        Expr::Let(bs, body) => compile_let(e, bs, body, binds, types, sc, consts, labels, out),
        Expr::If(c, t, f) => {
            if *labels == i32::MAX {
                return Err(CompileError::TooManyLabels);
            }
            let n = *labels;
            *labels = n + 1;
            compile_expr(c, binds, types, sc, consts, labels, out)?;
            let ghost cc = gen(**c, bm, tm, sc as int, cm, l0 + 1)->Ok_0.0;
            let ghost l1 = gen(**c, bm, tm, sc as int, cm, l0 + 1)->Ok_0.1;
            out.push(Instr::ICmp(Val::Reg(Reg::RAX), Val::Imm(0)));
            out.push(Instr::Je(LabelKind::IfElse, n));
            compile_expr(t, binds, types, sc, consts, labels, out)?;
            let ghost ct = gen(**t, bm, tm, sc as int, cm, l1)->Ok_0.0;
            let ghost l2 = gen(**t, bm, tm, sc as int, cm, l1)->Ok_0.1;
            out.push(Instr::Jmp(LabelKind::IfEnd, n));
            out.push(Instr::Label(LabelKind::IfElse, n));
            compile_expr(f, binds, types, sc, consts, labels, out)?;
            let ghost cf = gen(**f, bm, tm, sc as int, cm, l2)->Ok_0.0;
            out.push(Instr::Label(LabelKind::IfEnd, n));
            assert(out@ =~= o + (cc + seq![
                Instr::ICmp(rax(), imm(0)),
                Instr::Je(LabelKind::IfElse, n),
            ] + ct + seq![
                Instr::Jmp(LabelKind::IfEnd, n),
                Instr::Label(LabelKind::IfElse, n),
            ] + cf + seq![Instr::Label(LabelKind::IfEnd, n)]));
            Ok(())
        },
        Expr::RepeatUntil(body, cond) => {
            if *labels == i32::MAX {
                return Err(CompileError::TooManyLabels);
            }
            let n = *labels;
            *labels = n + 1;
            out.push(Instr::Label(LabelKind::LoopStart, n));
            compile_expr(body, binds, types, sc, consts, labels, out)?;
            let ghost cb = gen(**body, bm, tm, sc as int, cm, l0 + 1)->Ok_0.0;
            let ghost l1 = gen(**body, bm, tm, sc as int, cm, l0 + 1)->Ok_0.1;
            if sc > i32::MAX - WORD {
                return Err(CompileError::FrameTooLarge);
            }
            out.push(Instr::Push(Val::Reg(Reg::RAX)));
            compile_expr(cond, binds, types, sc + WORD, consts, labels, out)?;
            let ghost cc = gen(**cond, bm, tm, sc + 8, cm, l1)->Ok_0.0;
            out.push(Instr::ICmp(Val::Reg(Reg::RAX), Val::Imm(0)));
            out.push(Instr::Pop(Val::Reg(Reg::RAX)));
            out.push(Instr::Je(LabelKind::LoopStart, n));
            assert(out@ =~= o + (seq![Instr::Label(LabelKind::LoopStart, n)] + cb + seq![
                Instr::Push(rax()),
            ] + cc + seq![
                Instr::ICmp(rax(), imm(0)),
                Instr::Pop(rax()),
                Instr::Je(LabelKind::LoopStart, n),
            ]));
            Ok(())
        },
        Expr::Assign(x, a) => {
            compile_expr(a, binds, types, sc, consts, labels, out)?;
            let ghost ca = gen(**a, bm, tm, sc as int, cm, l0)->Ok_0.0;
            match lookup_int(binds, x) {
                Some(off) => {
                    out.push(Instr::IMov(Val::RegOffset(Reg::RBP, -off), Val::Reg(Reg::RAX)));
                    assert(out@ =~= o + (ca + seq![Instr::IMov(slot(bm[x@]), rax())]));
                    Ok(())
                },
                None => Err(CompileError::UnboundIdentifier),
            }
        },
        Expr::Block(es) => compile_block(e, es, binds, types, sc, consts, labels, out),
    }
}

#[verifier::loop_isolation(false)]
fn compile_let(
    e: &Expr,
    bs: &Vec<(String, Expr)>,
    body: &Box<Expr>,
    binds: &im::HashMap<String, i32>,
    types: &im::HashMap<String, Type>,
    sc: i32,
    consts: &im::HashMap<String, i32>,
    labels: &mut i32,
    out: &mut Vec<Instr>,
) -> (r: Result<(), CompileError>)
    requires
        valid_frame(int_entries(*binds), sc as int),
        *e == Expr::Let(*bs, *body),
    ensures
        match gen(*e, int_entries(*binds), type_entries(*types), sc as int, int_entries(*consts), *old(labels) as int) {
            Ok((code, l2)) => r is Ok && final(out)@ == old(out)@ + code && *final(labels) == l2,
            Err(err) => r == Err::<(), CompileError>(err),
        },
    decreases e, 0nat,
{
    let ghost bm = int_entries(*binds);
    let ghost tm = type_entries(*types);
    let ghost cm = int_entries(*consts);
    let ghost o = out@;
    let ghost l0 = *labels as int;
    let mut cur_b = copy_ints(binds);
    let mut cur_t = copy_types(types);
    let mut cur_sc = sc;
    let ghost prefix: Seq<Instr> = Seq::empty();
    proof {
        let r0 = gen_bindings(*bs, 0, (bm, tm, sc as int, l0), cm);
        if let Ok((c, s)) = r0 {
            if let Ok((cb, l2)) = gen(**body, s.0, s.1, s.2, cm, s.3) {
                let tail = seq![Instr::IAdd(reg(Reg::RSP), imm(8 * bs.len()))];
                assert(prefix + c + cb + tail =~= c + cb + tail);
            }
        }
    }
    let mut i: usize = 0;
    while i < bs.len()
        invariant
            i <= bs.len(),
            *e == Expr::Let(*bs, *body),
            bm == int_entries(*binds),
            tm == type_entries(*types),
            cm == int_entries(*consts),
            valid_frame(bm, sc as int),
            valid_frame(int_entries(cur_b), cur_sc as int),
            cur_sc as int == sc as int + 8 * i,
            out@ == o + prefix,
            gen(*e, bm, tm, sc as int, cm, l0) == let_rest(
                prefix,
                gen_bindings(*bs, i as int, (int_entries(cur_b), type_entries(cur_t), cur_sc as int, *labels as int), cm),
                **body,
                cm,
                bs.len() as int,
            ),
        decreases bs.len() - i,
    {
        let mut j: usize = 0;
        while j < i
            invariant
                j <= i < bs.len(),
                forall|k: int| 0 <= k < j ==> bs[k].0@ != bs[i as int].0@,
            decreases i - j,
        {
            if bs[j].0 == bs[i].0 {
                return Err(CompileError::DuplicateBinding);
            }
            j = j + 1;
        }
        assert(!bound_before(*bs, i as int));
        proof {
            vstd::std_specs::vec::axiom_vec_index_decreases(*bs, i as int);
            assert(decreases_to!(*e => *bs));
            assert(decreases_to!(bs[i as int] => bs[i as int].1));
            assert(decreases_to!(*e => bs[i as int].1));
        }
        let ghost s = (int_entries(cur_b), type_entries(cur_t), cur_sc as int, *labels as int);
        if let Err(err) = compile_expr(&bs[i].1, &cur_b, &cur_t, cur_sc, consts, labels, out) {
            assert(gen_bindings(*bs, i as int, s, cm) == Err::<(Seq<Instr>, Scope), CompileError>(err));
            return Err(err);
        }
        let ghost c = gen(bs[i as int].1, s.0, s.1, s.2, cm, s.3)->Ok_0.0;
        let t = match typecheck(&bs[i].1, &cur_t) {
            Ok(t) => t,
            Err(err) => {
                assert(gen_bindings(*bs, i as int, s, cm) == Err::<(Seq<Instr>, Scope), CompileError>(err));
                return Err(err);
            },
        };
        if cur_sc > i32::MAX - WORD {
            return Err(CompileError::FrameTooLarge);
        }
        cur_b = bind_int(&cur_b, bs[i].0.clone(), cur_sc);
        cur_t = bind_type(&cur_t, bs[i].0.clone(), t);
        cur_sc = cur_sc + WORD;
        out.push(Instr::Push(Val::Reg(Reg::RAX)));
        proof {
            let next: Scope = (int_entries(cur_b), type_entries(cur_t), cur_sc as int, *labels as int);
            let step = c + seq![Instr::Push(rax())];
            assert(gen_bindings(*bs, i as int, s, cm) == prepend(step, gen_bindings(*bs, i + 1, next, cm)));
            lemma_let_rest_step(prefix, step, gen_bindings(*bs, i + 1, next, cm), **body, cm, bs.len() as int);
            assert(out@ =~= o + (prefix + step));
            prefix = prefix + step;
        }
        i = i + 1;
    }
    let ghost s = (int_entries(cur_b), type_entries(cur_t), cur_sc as int, *labels as int);
    compile_expr(body, &cur_b, &cur_t, cur_sc, consts, labels, out)?;
    let ghost cb = gen(**body, s.0, s.1, s.2, cm, s.3)->Ok_0.0;
    out.push(Instr::IAdd(Val::Reg(Reg::RSP), Val::Imm(cur_sc - sc)));
    assert(out@ =~= o + (prefix + Seq::<Instr>::empty() + cb + seq![Instr::IAdd(reg(Reg::RSP), imm(8 * bs.len()))]));
    Ok(())
}

#[verifier::loop_isolation(false)]
fn compile_block(
    e: &Expr,
    es: &Vec<Expr>,
    binds: &im::HashMap<String, i32>,
    types: &im::HashMap<String, Type>,
    sc: i32,
    consts: &im::HashMap<String, i32>,
    labels: &mut i32,
    out: &mut Vec<Instr>,
) -> (r: Result<(), CompileError>)
    requires
        valid_frame(int_entries(*binds), sc as int),
        *e == Expr::Block(*es),
    ensures
        match gen(*e, int_entries(*binds), type_entries(*types), sc as int, int_entries(*consts), *old(labels) as int) {
            Ok((code, l2)) => r is Ok && final(out)@ == old(out)@ + code && *final(labels) == l2,
            Err(err) => r == Err::<(), CompileError>(err),
        },
    decreases e, 0nat,
{
    let ghost bm = int_entries(*binds);
    let ghost tm = type_entries(*types);
    let ghost cm = int_entries(*consts);
    let ghost o = out@;
    let ghost l0 = *labels as int;
    if es.len() == 0 {
        return Err(CompileError::EmptyBlock);
    }
    let ghost prefix: Seq<Instr> = Seq::empty();
    proof {
        if let Ok((c, x)) = gen_block(*es, 0, bm, tm, sc as int, cm, l0) {
            assert(prefix + c =~= c);
        }
    }
    let mut i: usize = 0;
    while i < es.len()
        invariant
            i <= es.len(),
            *e == Expr::Block(*es),
            bm == int_entries(*binds),
            tm == type_entries(*types),
            cm == int_entries(*consts),
            valid_frame(bm, sc as int),
            out@ == o + prefix,
            gen(*e, bm, tm, sc as int, cm, l0) == prepend(
                prefix,
                gen_block(*es, i as int, bm, tm, sc as int, cm, *labels as int),
            ),
        decreases es.len() - i,
    {
        proof {
            vstd::std_specs::vec::axiom_vec_index_decreases(*es, i as int);
            assert(decreases_to!(*e => *es));
            assert(decreases_to!(*e => es[i as int]));
        }
        let ghost li = *labels as int;
        if let Err(err) = compile_expr(&es[i], binds, types, sc, consts, labels, out) {
            assert(gen_block(*es, i as int, bm, tm, sc as int, cm, li) == Err::<(Seq<Instr>, int), CompileError>(err));
            return Err(err);
        }
        proof {
            let c = gen(es[i as int], bm, tm, sc as int, cm, li)->Ok_0.0;
            assert(gen_block(*es, i as int, bm, tm, sc as int, cm, li) == prepend(
                c,
                gen_block(*es, i + 1, bm, tm, sc as int, cm, *labels as int),
            ));
            lemma_prepend_assoc(prefix, c, gen_block(*es, i + 1, bm, tm, sc as int, cm, *labels as int));
            assert(out@ =~= o + (prefix + c));
            prefix = prefix + c;
        }
        i = i + 1;
    }
    assert(out@ =~= o + (prefix + Seq::<Instr>::empty()));
    Ok(())
}

/// The function around a compiled body of type `t`: set up the frame base, run the
/// body, hand its value and type tag to the printer (aligning the stack if the frame
/// needs it), leave the value in RAX, and restore the caller's frame base.
pub open spec fn with_frame(code: Seq<Instr>, t: Type) -> Seq<Instr> {
    seq![Instr::Push(reg(Reg::RBP)), Instr::IMov(reg(Reg::RBP), reg(Reg::RSP))] + code + print_call(t, 8)
        + seq![Instr::Pop(reg(Reg::RBP))]
}

/// What compiling a whole program gives: the type checker runs first, then the code
/// generator with no local bindings, the first slot at one word below the frame
/// base, and label numbering from zero.
pub open spec fn compile_result(
    e: Expr,
    types: Map<Seq<char>, Type>,
    consts: Map<Seq<char>, i32>,
) -> Result<Seq<Instr>, CompileError> {
    match type_of(e, types) {
        Err(err) => Err(err),
        Ok(t) => match gen(e, Map::empty(), types, 8, consts, 0) {
            Err(err) => Err(err),
            Ok((code, _)) => Ok(with_frame(code, t)),
        },
    }
}

/// Type-checks `e` against `variable_types`, then compiles it with the given local
/// slots, variable types, next free slot and constants, drawing label numbers from
/// `label_counter`. Nothing is emitted for an expression that does not type-check.
pub fn compile_to_instrs(
    e: &Expr,
    stack_bindings: im::HashMap<String, i32>,
    variable_types: &im::HashMap<String, Type>,
    stack_counter: i32,
    defined_vars: &im::HashMap<String, i32>,
    label_counter: &mut i32,
) -> (r: Result<Vec<Instr>, CompileError>)
    requires
        valid_frame(int_entries(stack_bindings), stack_counter as int),
    ensures
        match type_of(*e, type_entries(*variable_types)) {
            Err(err) => r is Err && r->Err_0 == err && *final(label_counter) == *old(label_counter),
            Ok(_) => match gen(
                *e,
                int_entries(stack_bindings),
                type_entries(*variable_types),
                stack_counter as int,
                int_entries(*defined_vars),
                *old(label_counter) as int,
            ) {
                Ok((code, l2)) => r is Ok && r->Ok_0@ == code && *final(label_counter) == l2,
                Err(err) => r is Err && r->Err_0 == err,
            },
        },
{
    typecheck(e, variable_types)?;
    let mut out: Vec<Instr> = Vec::new();
    match compile_expr(e, &stack_bindings, variable_types, stack_counter, defined_vars, label_counter, &mut out) {
        Ok(()) => {
            assert(out@ =~= Seq::<Instr>::empty() + out@);
            Ok(out)
        },
        Err(err) => Err(err),
    }
}

/// Type-checks `e`, then compiles it as the body of a function, with a fresh label
/// counter. `variable_types` gives the type of each name that `e` may use freely,
/// `constants` the value of each constant.
pub fn compile_program(
    e: &Expr,
    variable_types: &im::HashMap<String, Type>,
    constants: &im::HashMap<String, i32>,
) -> (r: Result<Vec<Instr>, CompileError>)
    ensures
        match compile_result(*e, type_entries(*variable_types), int_entries(*constants)) {
            Ok(code) => r is Ok && r->Ok_0@ == code,
            Err(err) => r is Err && r->Err_0 == err,
        },
{
    let t = typecheck(e, variable_types)?;
    let mut labels: i32 = 0;
    let mut out: Vec<Instr> = Vec::new();
    out.push(Instr::Push(Val::Reg(Reg::RBP)));
    out.push(Instr::IMov(Val::Reg(Reg::RBP), Val::Reg(Reg::RSP)));
    let ghost prologue = out@;
    let none = empty_ints();
    assert(int_entries(none) =~= Map::<Seq<char>, i32>::empty());
    compile_expr(e, &none, variable_types, WORD, constants, &mut labels, &mut out)?;
    let ghost body = out@;
    emit_print_call(t, WORD, &mut out);
    out.push(Instr::Pop(Val::Reg(Reg::RBP)));
    proof {
        let code = gen(*e, Map::empty(), type_entries(*variable_types), 8, int_entries(*constants), 0)->Ok_0.0;
        assert(out@ =~= with_frame(code, t));
    }
    Ok(out)
}

/// The numeric encoding of a Boolean: 1 for true, 0 for false.
pub fn bool_to_num(b: &bool) -> (r: i32)
    ensures
        r == (if *b { 1i32 } else { 0i32 }),
{
    match b {
        true => 1,
        false => 0,
    }
}

} // verus!
