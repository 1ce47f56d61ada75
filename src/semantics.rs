//! Laws about what generated code does when the abstract machine runs it.

use vstd::prelude::*;
use crate::compile::{binop_tail, compile_result, gen, imm, overflow_check, print_call, rax, with_frame};
use crate::instr::{Instr, LabelKind, Reg, Val};
use crate::machine::{find_label, initial_state, run, step, Fault, State};
use crate::syntax::{CompileError, Expr, Op2, Type};
use crate::typecheck::type_of;
use crate::labels::{labels_distinct, labels_fresh_and_unique};
use crate::syntax::Op1;

verus! {

/// The value a closed program leaves in the accumulator when it finishes within
/// `fuel` steps; `None` when it does not compile, faults, or runs longer.
pub open spec fn program_value(e: Expr, fuel: nat) -> Option<i64> {
    match compile_result(e, Map::empty(), Map::empty()) {
        Err(_) => None,
        Ok(code) => match run(code, initial_state(), fuel) {
            Ok(s) => Some(s.regs.rax),
            Err(_) => None,
        },
    }
}

/// The expression `(op a b)` on two literals.
pub open spec fn compare(op: Op2, a: i32, b: i32) -> Expr {
    Expr::BinOp(op, Box::new(Expr::Number(a)), Box::new(Expr::Number(b)))
}

/// The conditional move that an ordering comparison ends with.
pub open spec fn cmov_for(op: Op2) -> Instr {
    if op == Op2::Greater || op == Op2::LessEqual {
        Instr::ICMovLE(Val::Reg(Reg::RAX), Val::Reg(Reg::R13))
    } else {
        Instr::ICMovL(Val::Reg(Reg::RAX), Val::Reg(Reg::R13))
    }
}

/// The whole program that `(op a b)` compiles to, for an ordering comparison.
pub open spec fn compare_program(a: i32, b: i32, f: i32, t: i32, cm: Instr) -> Seq<Instr> {
    seq![
        Instr::Push(Val::Reg(Reg::RBP)),
        Instr::IMov(Val::Reg(Reg::RBP), Val::Reg(Reg::RSP)),
        Instr::IMov(Val::Reg(Reg::RAX), Val::Imm(a)),
        Instr::Push(Val::Reg(Reg::RAX)),
        Instr::IMov(Val::Reg(Reg::RAX), Val::Imm(b)),
        Instr::IMov(Val::Reg(Reg::RCX), Val::Reg(Reg::RAX)),
        Instr::Pop(Val::Reg(Reg::RAX)),
        Instr::IMov(Val::Reg(Reg::R12), Val::Imm(f)),
        Instr::IMov(Val::Reg(Reg::R13), Val::Imm(t)),
        Instr::ICmp(Val::Reg(Reg::RAX), Val::Reg(Reg::RCX)),
        Instr::IMov(Val::Reg(Reg::RAX), Val::Reg(Reg::R12)),
        cm,
        Instr::IMov(Val::Reg(Reg::RDI), Val::Reg(Reg::RAX)),
        Instr::IMov(Val::Reg(Reg::RSI), Val::Imm(1)),
        Instr::IMov(Val::Reg(Reg::RBX), Val::Reg(Reg::RAX)),
        Instr::CallSnekPrint(),
        Instr::IMov(Val::Reg(Reg::RAX), Val::Reg(Reg::RBX)),
        Instr::Pop(Val::Reg(Reg::RBP)),
    ]
}

proof fn lemma_compare_code(op: Op2, a: i32, b: i32)
    requires
        op == Op2::Greater || op == Op2::LessEqual || op == Op2::GreaterEqual || op == Op2::Less,
    ensures
        compile_result(compare(op, a, b), Map::empty(), Map::empty()) == Ok::<Seq<Instr>, CompileError>(
            compare_program(
                a,
                b,
                if op == Op2::Greater || op == Op2::GreaterEqual { 1 } else { 0 },
                if op == Op2::Greater || op == Op2::GreaterEqual { 0 } else { 1 },
                cmov_for(op),
            ),
        ),
{
    let e = compare(op, a, b);
    let m = Map::<Seq<char>, i32>::empty();
    let tm = Map::<Seq<char>, Type>::empty();
    assert(type_of(Expr::Number(a), tm) == Ok::<Type, CompileError>(Type::Int));
    assert(type_of(Expr::Number(b), tm) == Ok::<Type, CompileError>(Type::Int));
    assert(type_of(e, tm) == Ok::<Type, CompileError>(Type::Bool));
    let ca = seq![Instr::IMov(Val::Reg(Reg::RAX), Val::Imm(a))];
    let cb = seq![Instr::IMov(Val::Reg(Reg::RAX), Val::Imm(b))];
    assert(gen(Expr::Number(a), m, tm, 8, m, 0) == Ok::<(Seq<Instr>, int), CompileError>((ca, 0)));
    assert(gen(Expr::Number(b), m, tm, 16, m, 0) == Ok::<(Seq<Instr>, int), CompileError>((cb, 0)));
    let code = ca + seq![Instr::Push(Val::Reg(Reg::RAX))] + cb + seq![
        Instr::IMov(Val::Reg(Reg::RCX), Val::Reg(Reg::RAX)),
        Instr::Pop(Val::Reg(Reg::RAX)),
    ] + binop_tail(op);
    assert(gen(e, m, tm, 8, m, 0) == Ok::<(Seq<Instr>, int), CompileError>((code, 0)));
    let f: i32 = if op == Op2::Greater || op == Op2::GreaterEqual { 1 } else { 0 };
    let t: i32 = if op == Op2::Greater || op == Op2::GreaterEqual { 0 } else { 1 };
    assert(binop_tail(op) =~= seq![
        Instr::IMov(Val::Reg(Reg::R12), Val::Imm(f)),
        Instr::IMov(Val::Reg(Reg::R13), Val::Imm(t)),
        Instr::ICmp(Val::Reg(Reg::RAX), Val::Reg(Reg::RCX)),
        Instr::IMov(Val::Reg(Reg::RAX), Val::Reg(Reg::R12)),
        cmov_for(op),
    ]);
    assert(print_call(Type::Bool, 8) =~= seq![
        Instr::IMov(Val::Reg(Reg::RDI), Val::Reg(Reg::RAX)),
        Instr::IMov(Val::Reg(Reg::RSI), Val::Imm(1)),
        Instr::IMov(Val::Reg(Reg::RBX), Val::Reg(Reg::RAX)),
        Instr::CallSnekPrint(),
        Instr::IMov(Val::Reg(Reg::RAX), Val::Reg(Reg::RBX)),
    ]);
    assert(with_frame(code, Type::Bool) =~= compare_program(a, b, f, t, cmov_for(op)));
}

proof fn lemma_run_step(prog: Seq<Instr>, s: State, fuel: nat)
    requires
        0 <= s.pc < prog.len(),
        fuel > 0,
        step(prog, s) is Ok,
    ensures
        run(prog, s, fuel) == run(prog, step(prog, s)->Ok_0, (fuel - 1) as nat),
{
}

/// The state after `n` successful steps.
pub open spec fn after(prog: Seq<Instr>, s: State, n: nat) -> State
    decreases n,
{
    if n == 0 {
        s
    } else {
        after(prog, step(prog, s)->Ok_0, (n - 1) as nat)
    }
}

#[verifier::rlimit(50)]
proof fn lemma_compare_prefix(a: i32, b: i32, f: i32, t: i32, cm: Instr)
    ensures
        ({
            let p = compare_program(a, b, f, t, cm);
            let s7 = after(p, initial_state(), 7);
            &&& run(p, initial_state(), 20) == run(p, s7, 13)
            &&& s7.pc == 7
            &&& s7.regs.rax == a as i64
            &&& s7.regs.rcx == b as i64
            &&& s7.regs.rsp == 32752
            &&& s7.stack.len() == 4096
        }),
{
    reveal(step);
    let p = compare_program(a, b, f, t, cm);
    let s0 = initial_state();
    let s1 = step(p, s0)->Ok_0;
    lemma_run_step(p, s0, 20);
    let s2 = step(p, s1)->Ok_0;
    lemma_run_step(p, s1, 19);
    let s3 = step(p, s2)->Ok_0;
    lemma_run_step(p, s2, 18);
    assert(s3.regs.rsp == 32752 && s3.regs.rax == a && s3.pc == 3);
    let s4 = step(p, s3)->Ok_0;
    lemma_run_step(p, s3, 17);
    assert(s4.stack[4093] == a as i64 && s4.regs.rsp == 32744);
    let s5 = step(p, s4)->Ok_0;
    lemma_run_step(p, s4, 16);
    let s6 = step(p, s5)->Ok_0;
    lemma_run_step(p, s5, 15);
    lemma_run_step(p, s6, 14);
    assert(after(p, s0, 7) == step(p, s6)->Ok_0) by {
        reveal_with_fuel(after, 8);
    }
}

#[verifier::rlimit(50)]
proof fn lemma_compare_tail(a: i32, b: i32, f: i32, t: i32, cm: Instr, s7: State)
    requires
        cm == Instr::ICMovLE(Val::Reg(Reg::RAX), Val::Reg(Reg::R13)) || cm == Instr::ICMovL(
            Val::Reg(Reg::RAX),
            Val::Reg(Reg::R13),
        ),
        s7.pc == 7,
        s7.regs.rax == a as i64,
        s7.regs.rcx == b as i64,
        s7.regs.rsp == 32752,
        s7.stack.len() == 4096,
    ensures
        ({
            let p = compare_program(a, b, f, t, cm);
            let s12 = after(p, s7, 5);
            &&& run(p, s7, 13) == run(p, s12, 8)
            &&& s12.pc == 12
            &&& s12.regs.rsp == 32752
            &&& s12.stack.len() == 4096
            &&& s12.regs.rax == (if (if cm is ICMovLE { a <= b } else { a < b }) { t } else { f }) as i64
        }),
{
    reveal(step);
    let p = compare_program(a, b, f, t, cm);
    let s8 = step(p, s7)->Ok_0;
    lemma_run_step(p, s7, 13);
    let s9 = step(p, s8)->Ok_0;
    lemma_run_step(p, s8, 12);
    let s10 = step(p, s9)->Ok_0;
    lemma_run_step(p, s9, 11);
    assert(s10.flags.zf == (a == b) && s10.flags.lt == (a < b) && s10.pc == 10);
    let s11 = step(p, s10)->Ok_0;
    lemma_run_step(p, s10, 10);
    lemma_run_step(p, s11, 9);
    assert(after(p, s7, 5) == step(p, s11)->Ok_0) by {
        reveal_with_fuel(after, 6);
    }
}

#[verifier::rlimit(50)]
proof fn lemma_print_tail(a: i32, b: i32, f: i32, t: i32, cm: Instr, s12: State)
    requires
        s12.pc == 12,
        s12.regs.rsp == 32752,
        s12.stack.len() == 4096,
    ensures
        run(compare_program(a, b, f, t, cm), s12, 8) matches Ok(s) && s.regs.rax == s12.regs.rax,
{
    reveal(step);
    let p = compare_program(a, b, f, t, cm);
    let s13 = step(p, s12)->Ok_0;
    lemma_run_step(p, s12, 8);
    let s14 = step(p, s13)->Ok_0;
    lemma_run_step(p, s13, 7);
    let s15 = step(p, s14)->Ok_0;
    lemma_run_step(p, s14, 6);
    assert(s15.regs.rbx == s12.regs.rax && s15.pc == 15);
    let s16 = step(p, s15)->Ok_0;
    lemma_run_step(p, s15, 5);
    assert(s16.regs.rbx == s12.regs.rax && s16.pc == 16);
    let s17 = step(p, s16)->Ok_0;
    lemma_run_step(p, s16, 4);
    let s18 = step(p, s17)->Ok_0;
    lemma_run_step(p, s17, 3);
    assert(s18.pc == 18 && s18.regs.rax == s12.regs.rax);
}

proof fn lemma_compare_value(op: Op2, a: i32, b: i32)
    requires
        op == Op2::Greater || op == Op2::LessEqual || op == Op2::GreaterEqual || op == Op2::Less,
    ensures
        program_value(compare(op, a, b), 20) == Some((if (match op {
            Op2::Greater => a > b,
            Op2::LessEqual => a <= b,
            Op2::GreaterEqual => a >= b,
            _ => a < b,
        }) { 1i64 } else { 0i64 })),
{
    lemma_compare_code(op, a, b);
    let f: i32 = if op == Op2::Greater || op == Op2::GreaterEqual { 1 } else { 0 };
    let t: i32 = if op == Op2::Greater || op == Op2::GreaterEqual { 0 } else { 1 };
    lemma_compare_prefix(a, b, f, t, cmov_for(op));
    let p = compare_program(a, b, f, t, cmov_for(op));
    let s7 = after(p, initial_state(), 7);
    lemma_compare_tail(a, b, f, t, cmov_for(op), s7);
    lemma_print_tail(a, b, f, t, cmov_for(op), after(p, s7, 5));
}

/// Comparison inversion: for all integers `a` and `b`, the compiled `(> a b)` evaluates to
/// 1 exactly when `(<= a b)` evaluates to 0, and `(>= a b)` to 1 exactly when `(< a b)`
/// evaluates to 0; each gives 1 when its relation holds and 0 otherwise.
pub proof fn comparison_inversion(a: i32, b: i32)
    ensures
        program_value(compare(Op2::Greater, a, b), 20) == Some((if a > b { 1i64 } else { 0i64 })),
        program_value(compare(Op2::LessEqual, a, b), 20) == Some((if a <= b { 1i64 } else { 0i64 })),
        program_value(compare(Op2::GreaterEqual, a, b), 20) == Some((if a >= b { 1i64 } else { 0i64 })),
        program_value(compare(Op2::Less, a, b), 20) == Some((if a < b { 1i64 } else { 0i64 })),
        program_value(compare(Op2::Greater, a, b), 20)->Some_0 == 1 - program_value(
            compare(Op2::LessEqual, a, b),
            20,
        )->Some_0,
        program_value(compare(Op2::GreaterEqual, a, b), 20)->Some_0 == 1 - program_value(
            compare(Op2::Less, a, b),
            20,
        )->Some_0,
{
    lemma_compare_value(Op2::Greater, a, b);
    lemma_compare_value(Op2::LessEqual, a, b);
    lemma_compare_value(Op2::GreaterEqual, a, b);
    lemma_compare_value(Op2::Less, a, b);
}

/// The overflow check on the machine. At an increment (`inc`) or decrement of the
/// accumulator followed by its overflow check on label `n`, with that label defined
/// right after the check: when the operation overflows (the accumulator holds the
/// largest integer for an increment, the smallest for a decrement) the run ends
/// with the error reporter called with code 1; otherwise, after the operation and
/// the jump, control is at the label with the accumulator moved by one and nothing
/// else changed but the flags.
pub proof fn overflow_check_law(prog: Seq<Instr>, s: State, inc: bool, n: i32, fuel: nat)
    requires
        0 <= s.pc,
        s.pc + 5 <= prog.len(),
        prog.subrange(s.pc, s.pc + 5) == seq![
            if inc { Instr::IAdd(rax(), imm(1)) } else { Instr::ISub(rax(), imm(1)) },
        ] + overflow_check(if inc { LabelKind::Add1Success } else { LabelKind::Sub1Success }, n as int),
        find_label(prog, if inc { LabelKind::Add1Success } else { LabelKind::Sub1Success }, n, 0) == Some(
            s.pc + 4,
        ),
        fuel >= 4,
    ensures
        ({
            let overflows = if inc { s.regs.rax == i64::MAX } else { s.regs.rax == i64::MIN };
            let s2 = after(prog, s, 2);
            &&& overflows ==> run(prog, s, fuel) == Err::<State, Fault>(Fault::RuntimeError(1))
            &&& !overflows ==> {
                &&& run(prog, s, fuel) == run(prog, s2, (fuel - 2) as nat)
                &&& s2.pc == s.pc + 4
                &&& s2.regs.rax == s.regs.rax + (if inc { 1int } else { -1int })
                &&& s2.regs == (crate::machine::Registers { rax: s2.regs.rax, ..s.regs })
                &&& s2.stack == s.stack
                &&& s2.printed == s.printed
            }
        }),
{
    reveal(step);
    let k = if inc { LabelKind::Add1Success } else { LabelKind::Sub1Success };
    let p = s.pc;
    assert(prog[p] == prog.subrange(p, p + 5)[0]);
    assert(prog[p + 1] == prog.subrange(p, p + 5)[1]);
    assert(prog[p + 2] == prog.subrange(p, p + 5)[2]);
    assert(prog[p + 3] == prog.subrange(p, p + 5)[3]);
    let s1 = step(prog, s)->Ok_0;
    lemma_run_step(prog, s, fuel);
    assert(s1.pc == p + 1);
    let overflows = if inc { s.regs.rax == i64::MAX } else { s.regs.rax == i64::MIN };
    assert(s1.flags.of == overflows);
    lemma_run_step(prog, s1, (fuel - 1) as nat);
    let s2 = step(prog, s1)->Ok_0;
    assert(after(prog, s, 2) == s2) by {
        reveal_with_fuel(after, 3);
    }
    if overflows {
        assert(s2.pc == p + 2);
        lemma_run_step(prog, s2, (fuel - 2) as nat);
        let s3 = step(prog, s2)->Ok_0;
        assert(s3.regs.rdi == 1 && s3.pc == p + 3);
        assert(step(prog, s3) == Err::<State, Fault>(Fault::RuntimeError(1)));
        reveal_with_fuel(run, 2);
    }
}

proof fn lemma_find_label(prog: Seq<Instr>, k: LabelKind, n: i32, j: int, q: int)
    requires
        0 <= j <= q < prog.len(),
        prog[q] == Instr::Label(k, n),
        forall|i: int| j <= i < q ==> prog[i] != Instr::Label(k, n),
    ensures
        find_label(prog, k, n, j) == Some(q),
    decreases q - j,
{
    if j < q {
        lemma_find_label(prog, k, n, j + 1, q);
    }
}

/// Overflow of an increment, for any operand: take the code of `(add1 e0)`, compiled
/// in any environment from any representable label value, placed anywhere in a
/// program that defines no label twice. A run that reaches the end of `e0`'s code
/// with the largest integer in the accumulator ends with the error reporter called
/// with code 1: the success label, later printer calls and the epilogue are never
/// reached, so no value comes out.
pub proof fn increment_overflow_law(
    e0: Expr,
    binds: Map<Seq<char>, i32>,
    types: Map<Seq<char>, Type>,
    sc: int,
    consts: Map<Seq<char>, i32>,
    l: int,
    prog: Seq<Instr>,
    at: int,
    s: State,
    fuel: nat,
)
    requires
        i32::MIN <= l <= i32::MAX,
        gen(Expr::UnOp(Op1::Add1, Box::new(e0)), binds, types, sc, consts, l) is Ok,
        0 <= at,
        at + gen(Expr::UnOp(Op1::Add1, Box::new(e0)), binds, types, sc, consts, l)->Ok_0.0.len() <= prog.len(),
        prog.subrange(at, at + gen(Expr::UnOp(Op1::Add1, Box::new(e0)), binds, types, sc, consts, l)->Ok_0.0.len())
            == gen(Expr::UnOp(Op1::Add1, Box::new(e0)), binds, types, sc, consts, l)->Ok_0.0,
        labels_distinct(prog),
        s.pc == at + gen(e0, binds, types, sc, consts, l)->Ok_0.0.len(),
        s.regs.rax == i64::MAX,
        fuel >= 4,
    ensures
        run(prog, s, fuel) == Err::<State, Fault>(Fault::RuntimeError(1)),
{
    let e = Expr::UnOp(Op1::Add1, Box::new(e0));
    let c = gen(e, binds, types, sc, consts, l)->Ok_0.0;
    let (c0, n0) = gen(e0, binds, types, sc, consts, l)->Ok_0;
    labels_fresh_and_unique(e0, binds, types, sc, consts, l);
    let k = LabelKind::Add1Success;
    let tail = seq![Instr::IAdd(rax(), imm(1))] + overflow_check(k, n0);
    assert(c == c0 + tail);
    let p = s.pc;
    assert forall|i: int| 0 <= i < 5 implies prog[p + i] == tail[i] by {
        assert(prog[p + i] == prog.subrange(at, at + c.len())[c0.len() + i]);
        assert(c[c0.len() + i] == tail[i]);
    }
    assert(prog.subrange(p, p + 5) =~= tail);
    let ni = n0 as i32;
    assert(tail[4] == overflow_check(k, n0)[3]);
    assert(tail[4] == Instr::Label(k, ni));
    assert(prog[p + 4] == tail[4]);
    assert forall|i: int| 0 <= i < p + 4 implies prog[i] != Instr::Label(k, ni) by {
        if prog[i] is Label {
            assert(prog[i] != prog[p + 4]);
        }
    }
    lemma_find_label(prog, k, ni, 0, p + 4);
    overflow_check_law(prog, s, true, ni, fuel);
}

} // verus!
