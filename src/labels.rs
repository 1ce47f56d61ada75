//! Laws about label numbering in generated code.

use vstd::prelude::*;
use crate::compile::{binop_tail, gen, gen_block, gen_bindings, overflow_check, print_call, Scope, rax, reg, imm, slot};
use crate::instr::{Instr, LabelKind, Reg};
use crate::syntax::{CompileError, Expr, Op1, Op2, Type};
use crate::typecheck::type_of;

verus! {

/// Every label that the code defines has a number in `[lo, hi)`.
pub open spec fn labels_within(code: Seq<Instr>, lo: int, hi: int) -> bool {
    forall|i: int| 0 <= i < code.len() && (#[trigger] code[i]) is Label ==> lo <= code[i]->Label_1 < hi
}

/// No label is defined twice.
pub open spec fn labels_distinct(code: Seq<Instr>) -> bool {
    forall|i: int, j: int|
        0 <= i < j < code.len() && (#[trigger] code[i]) is Label ==> code[i] != #[trigger] code[j]
}

/// What the code generator guarantees of labels when it succeeds from label `l`:
/// the counter only moves forward, stays representable, and every label defined in
/// the code is defined once, with a number the counter handed out during the call.
pub open spec fn fresh_labels(r: Result<(Seq<Instr>, int), CompileError>, l: int) -> bool {
    r matches Ok((c, n)) ==> l <= n <= i32::MAX && labels_within(c, l, n) && labels_distinct(c)
}

proof fn lemma_join(a: Seq<Instr>, b: Seq<Instr>, lo: int, mid: int, hi: int)
    requires
        lo <= mid <= hi,
        labels_within(a, lo, mid),
        labels_within(b, mid, hi),
        labels_distinct(a),
        labels_distinct(b),
    ensures
        labels_within(a + b, lo, hi),
        labels_distinct(a + b),
{
    let c = a + b;
    assert forall|i: int| 0 <= i < c.len() && (#[trigger] c[i]) is Label implies lo <= c[i]->Label_1 < hi by {
        if i >= a.len() {
            assert(c[i] == b[i - a.len()]);
        } else {
            assert(c[i] == a[i]);
        }
    }
    assert forall|i: int, j: int| 0 <= i < j < c.len() && (#[trigger] c[i]) is Label implies c[i] != #[trigger] c[j] by {
        if j < a.len() {
            assert(c[i] == a[i]);
            assert(c[j] == a[j]);
        } else if i >= a.len() {
            assert(c[i] == b[i - a.len()]);
            assert(c[j] == b[j - a.len()]);
        } else {
            assert(c[i] == a[i]);
            assert(c[j] == b[j - a.len()]);
            if c[j] is Label {
                assert(mid <= c[j]->Label_1);
            }
        }
    }
}

proof fn lemma_no_labels(a: Seq<Instr>, lo: int, hi: int)
    requires
        forall|i: int| 0 <= i < a.len() ==> !((#[trigger] a[i]) is Label),
    ensures
        labels_within(a, lo, hi),
        labels_distinct(a),
{
}

proof fn lemma_gen_labels(
    e: Expr,
    binds: Map<Seq<char>, i32>,
    types: Map<Seq<char>, Type>,
    sc: int,
    consts: Map<Seq<char>, i32>,
    l: int,
)
    requires
        i32::MIN <= l <= i32::MAX,
    ensures
        fresh_labels(gen(e, binds, types, sc, consts, l), l),
    decreases e, 1nat,
{
    match e {
        Expr::UnOp(..) => lemma_labels_unop(e, binds, types, sc, consts, l),
        Expr::BinOp(..) => lemma_labels_binop(e, binds, types, sc, consts, l),
        Expr::Let(..) => lemma_labels_let(e, binds, types, sc, consts, l),
        Expr::If(..) => lemma_labels_if(e, binds, types, sc, consts, l),
        Expr::RepeatUntil(..) => lemma_labels_repeat(e, binds, types, sc, consts, l),
        Expr::Assign(x, a) => {
            lemma_gen_labels(*a, binds, types, sc, consts, l);
            if let Ok((c, n)) = gen(*a, binds, types, sc, consts, l) {
                if binds.contains_key(x@) {
                    let st = seq![Instr::IMov(slot(binds[x@]), rax())];
                    lemma_no_labels(st, n, n);
                    lemma_join(c, st, l, n, n);
                }
            }
        },
        Expr::Block(es) => {
            if es.len() > 0 {
                lemma_labels_block(es, 0, binds, types, sc, consts, l);
            }
        },
        _ => {
            if let Ok((c, n)) = gen(e, binds, types, sc, consts, l) {
                assert(c.len() == 1 && !(c[0] is Label) && n == l);
                lemma_no_labels(c, l, n);
            }
        },
    }
}

proof fn lemma_labels_unop(
    e: Expr,
    binds: Map<Seq<char>, i32>,
    types: Map<Seq<char>, Type>,
    sc: int,
    consts: Map<Seq<char>, i32>,
    l: int,
)
    requires
        i32::MIN <= l <= i32::MAX,
        e is UnOp,
    ensures
        fresh_labels(gen(e, binds, types, sc, consts, l), l),
    decreases e, 0nat,
{
    if let Expr::UnOp(op, a) = e {
        lemma_gen_labels(*a, binds, types, sc, consts, l);
        if let Ok((c, n)) = gen(*a, binds, types, sc, consts, l) {
            if op == Op1::Print {
                if let Ok(t) = type_of(*a, types) {
                    lemma_no_labels(print_call(t, sc), n, n);
                    lemma_join(c, print_call(t, sc), l, n, n);
                }
            } else if n < i32::MAX {
                let k = if op == Op1::Add1 { LabelKind::Add1Success } else { LabelKind::Sub1Success };
                let x = if op == Op1::Add1 { Instr::IAdd(rax(), imm(1)) } else { Instr::ISub(rax(), imm(1)) };
                let tail = seq![x] + overflow_check(k, n);
                assert(labels_within(tail, n, n + 1));
                assert(labels_distinct(tail));
                lemma_join(c, tail, l, n, n + 1);
                assert(c + seq![x] + overflow_check(k, n) =~= c + tail);
            }
        }
    }
}

proof fn lemma_labels_binop(
    e: Expr,
    binds: Map<Seq<char>, i32>,
    types: Map<Seq<char>, Type>,
    sc: int,
    consts: Map<Seq<char>, i32>,
    l: int,
)
    requires
        i32::MIN <= l <= i32::MAX,
        e is BinOp,
    ensures
        fresh_labels(gen(e, binds, types, sc, consts, l), l),
    decreases e, 0nat,
{
    if let Expr::BinOp(op, a, b) = e {
        lemma_gen_labels(*a, binds, types, sc, consts, l);
        if let Ok((ca, n1)) = gen(*a, binds, types, sc, consts, l) {
            lemma_gen_labels(*b, binds, types, sc + 8, consts, n1);
            if let Ok((cb, n2)) = gen(*b, binds, types, sc + 8, consts, n1) {
                let p = seq![Instr::Push(rax())];
                let mid = seq![Instr::IMov(reg(Reg::RCX), rax()), Instr::Pop(rax())] + binop_tail(op);
                lemma_no_labels(p, n1, n1);
                assert forall|i: int| 0 <= i < mid.len() implies !((#[trigger] mid[i]) is Label) by {
                    assert(mid[i] == (seq![Instr::IMov(reg(Reg::RCX), rax()), Instr::Pop(rax())] + binop_tail(op))[i]);
                }
                lemma_no_labels(mid, n2, n2);
                lemma_join(ca, p, l, n1, n1);
                lemma_join(ca + p, cb, l, n1, n2);
                lemma_join(ca + p + cb, mid, l, n2, n2);
                assert(ca + seq![Instr::Push(rax())] + cb + seq![Instr::IMov(reg(Reg::RCX), rax()), Instr::Pop(rax())]
                    + binop_tail(op) =~= ca + p + cb + mid);
            }
        }
    }
}

proof fn lemma_labels_let(
    e: Expr,
    binds: Map<Seq<char>, i32>,
    types: Map<Seq<char>, Type>,
    sc: int,
    consts: Map<Seq<char>, i32>,
    l: int,
)
    requires
        i32::MIN <= l <= i32::MAX,
        e is Let,
    ensures
        fresh_labels(gen(e, binds, types, sc, consts, l), l),
    decreases e, 0nat,
{
    if let Expr::Let(bs, body) = e {
        lemma_labels_bindings(bs, 0, (binds, types, sc, l), consts);
        if let Ok((c, s)) = gen_bindings(bs, 0, (binds, types, sc, l), consts) {
            lemma_gen_labels(*body, s.0, s.1, s.2, consts, s.3);
            if let Ok((cb, n)) = gen(*body, s.0, s.1, s.2, consts, s.3) {
                let tail = seq![Instr::IAdd(reg(Reg::RSP), imm(8 * bs.len()))];
                lemma_no_labels(tail, n, n);
                lemma_join(c, cb, l, s.3, n);
                lemma_join(c + cb, tail, l, n, n);
            }
        }
    }
}

proof fn lemma_labels_if(
    e: Expr,
    binds: Map<Seq<char>, i32>,
    types: Map<Seq<char>, Type>,
    sc: int,
    consts: Map<Seq<char>, i32>,
    l: int,
)
    requires
        i32::MIN <= l <= i32::MAX,
        e is If,
    ensures
        fresh_labels(gen(e, binds, types, sc, consts, l), l),
    decreases e, 0nat,
{
    if let Expr::If(c, t, f) = e {
        if l < i32::MAX {
            lemma_gen_labels(*c, binds, types, sc, consts, l + 1);
            if let Ok((cc, n1)) = gen(*c, binds, types, sc, consts, l + 1) {
                lemma_gen_labels(*t, binds, types, sc, consts, n1);
                if let Ok((ct, n2)) = gen(*t, binds, types, sc, consts, n1) {
                    lemma_gen_labels(*f, binds, types, sc, consts, n2);
                    if let Ok((cf, n3)) = gen(*f, binds, types, sc, consts, n2) {
                        let p = seq![Instr::ICmp(rax(), imm(0)), Instr::Je(LabelKind::IfElse, l as i32)];
                        let q = seq![Instr::Jmp(LabelKind::IfEnd, l as i32), Instr::Label(LabelKind::IfElse, l as i32)];
                        let r = seq![Instr::Label(LabelKind::IfEnd, l as i32)];
                        lemma_no_labels(p, l + 1, l + 1);
                        assert(labels_within(q, l, l + 1));
                        assert(labels_within(r, l, l + 1));
                        lemma_join(cc, p, l + 1, n1, n1);
                        lemma_join(cc + p, ct, l + 1, n1, n2);
                        lemma_join(cc + p + ct, cf, l + 1, n2, n3);
                        let body = cc + p + ct + cf;
                        let full = cc + p + ct + q + cf + r;
                        assert forall|i: int| 0 <= i < full.len() && (#[trigger] full[i]) is Label implies l
                            <= full[i]->Label_1 < n3 by {
                            if i < (cc + p + ct).len() {
                                assert(full[i] == body[i]);
                            } else if i < (cc + p + ct + q).len() {
                            } else if i < (cc + p + ct + q + cf).len() {
                                assert(full[i] == body[i - 2]);
                            }
                        }
                        assert forall|i: int, j: int|
                            0 <= i < j < full.len() && (#[trigger] full[i]) is Label implies full[i]
                            != #[trigger] full[j] by {
                            let a = (cc + p + ct).len();
                            let b = a + 2 + cf.len();
                            let ix = if i < a { i } else if i < a + 2 { -1 } else if i < b { i - 2 } else { -1 };
                            let jx = if j < a { j } else if j < a + 2 { -1 } else if j < b { j - 2 } else { -1 };
                            if ix >= 0 {
                                assert(full[i] == body[ix]);
                            }
                            if jx >= 0 {
                                assert(full[j] == body[jx]);
                            }
                        }
                        assert(labels_within(full, l, n3));
                    }
                }
            }
        }
    }
}

proof fn lemma_labels_repeat(
    e: Expr,
    binds: Map<Seq<char>, i32>,
    types: Map<Seq<char>, Type>,
    sc: int,
    consts: Map<Seq<char>, i32>,
    l: int,
)
    requires
        i32::MIN <= l <= i32::MAX,
        e is RepeatUntil,
    ensures
        fresh_labels(gen(e, binds, types, sc, consts, l), l),
    decreases e, 0nat,
{
    if let Expr::RepeatUntil(body, cond) = e {
        if l < i32::MAX {
            lemma_gen_labels(*body, binds, types, sc, consts, l + 1);
            if let Ok((cb, n1)) = gen(*body, binds, types, sc, consts, l + 1) {
                lemma_gen_labels(*cond, binds, types, sc + 8, consts, n1);
                if let Ok((cc, n2)) = gen(*cond, binds, types, sc + 8, consts, n1) {
                    let p = seq![Instr::Label(LabelKind::LoopStart, l as i32)];
                    let q = seq![Instr::Push(rax())];
                    let r = seq![Instr::ICmp(rax(), imm(0)), Instr::Pop(rax()), Instr::Je(LabelKind::LoopStart, l as i32)];
                    assert(labels_within(p, l, l + 1));
                    assert(labels_distinct(p));
                    lemma_no_labels(q, n1, n1);
                    lemma_no_labels(r, n2, n2);
                    lemma_join(p, cb, l, l + 1, n1);
                    lemma_join(p + cb, q, l, n1, n1);
                    lemma_join(p + cb + q, cc, l, n1, n2);
                    lemma_join(p + cb + q + cc, r, l, n2, n2);
                }
            }
        }
    }
}

proof fn lemma_labels_bindings(bs: Vec<(String, Expr)>, i: int, s: Scope, consts: Map<Seq<char>, i32>)
    requires
        i32::MIN <= s.3 <= i32::MAX,
    ensures
        gen_bindings(bs, i, s, consts) matches Ok((c, t)) ==> s.3 <= t.3 <= i32::MAX && labels_within(c, s.3, t.3)
            && labels_distinct(c),
    decreases bs, bs.len() - i,
{
    if 0 <= i < bs.len() {
        lemma_gen_labels(bs[i].1, s.0, s.1, s.2, consts, s.3);
        if let Ok((c, n)) = gen(bs[i].1, s.0, s.1, s.2, consts, s.3) {
            if let Ok(t) = type_of(bs[i].1, s.1) {
                let next: Scope = (s.0.insert(bs[i].0@, s.2 as i32), s.1.insert(bs[i].0@, t), s.2 + 8, n);
                lemma_labels_bindings(bs, i + 1, next, consts);
                if let Ok((rest, last)) = gen_bindings(bs, i + 1, next, consts) {
                    let p = seq![Instr::Push(rax())];
                    lemma_no_labels(p, n, n);
                    lemma_join(c, p, s.3, n, n);
                    lemma_join(c + p, rest, s.3, n, last.3);
                }
            }
        }
    } else {
        lemma_no_labels(Seq::<Instr>::empty(), s.3, s.3);
    }
}

proof fn lemma_labels_block(
    es: Vec<Expr>,
    i: int,
    binds: Map<Seq<char>, i32>,
    types: Map<Seq<char>, Type>,
    sc: int,
    consts: Map<Seq<char>, i32>,
    l: int,
)
    requires
        i32::MIN <= l <= i32::MAX,
    ensures
        fresh_labels(gen_block(es, i, binds, types, sc, consts, l), l),
    decreases es, es.len() - i,
{
    if 0 <= i < es.len() {
        lemma_gen_labels(es[i], binds, types, sc, consts, l);
        if let Ok((c, n)) = gen(es[i], binds, types, sc, consts, l) {
            lemma_labels_block(es, i + 1, binds, types, sc, consts, n);
            if let Ok((rest, m)) = gen_block(es, i + 1, binds, types, sc, consts, n) {
                lemma_join(c, rest, l, n, m);
                assert(gen_block(es, i, binds, types, sc, consts, l) == Ok::<(Seq<Instr>, int), CompileError>((c + rest, m)));
            }
        }
    } else {
        lemma_no_labels(Seq::<Instr>::empty(), l, l);
    }
}

/// Label uniqueness: when compilation from label counter value `l` succeeds, the
/// counter ends at a value `n` with `l <= n`, every label the code defines has a
/// number in `[l, n)`, and no label is defined twice, whether its constructs are
/// nested or side by side. Compilations that start where the previous one ended
/// therefore never define the same label.
pub proof fn labels_fresh_and_unique(
    e: Expr,
    binds: Map<Seq<char>, i32>,
    types: Map<Seq<char>, Type>,
    sc: int,
    consts: Map<Seq<char>, i32>,
    l: int,
)
    requires
        i32::MIN <= l <= i32::MAX,
    ensures
        fresh_labels(gen(e, binds, types, sc, consts, l), l),
{
    lemma_gen_labels(e, binds, types, sc, consts, l);
}

/// An instruction with its label number, if it has one, moved by `d`.
pub open spec fn shift_label(i: Instr, d: int) -> Instr {
    match i {
        Instr::Jmp(k, n) => Instr::Jmp(k, (n + d) as i32),
        Instr::Je(k, n) => Instr::Je(k, (n + d) as i32),
        Instr::Jno(k, n) => Instr::Jno(k, (n + d) as i32),
        Instr::Label(k, n) => Instr::Label(k, (n + d) as i32),
        _ => i,
    }
}

/// The instructions with every label number moved by `d`.
pub open spec fn relabel(code: Seq<Instr>, d: int) -> Seq<Instr> {
    code.map_values(|i: Instr| shift_label(i, d))
}

proof fn lemma_relabel_add(a: Seq<Instr>, b: Seq<Instr>, d: int)
    ensures
        relabel(a + b, d) == relabel(a, d) + relabel(b, d),
{
    assert(relabel(a + b, d) =~= relabel(a, d) + relabel(b, d));
}

proof fn lemma_relabel_fixed(op: Op2, t: Type, sc: int, d: int)
    ensures
        relabel(binop_tail(op), d) == binop_tail(op),
        relabel(print_call(t, sc), d) == print_call(t, sc),
{
    assert(relabel(binop_tail(op), d) =~= binop_tail(op));
    assert(relabel(print_call(t, sc), d) =~= print_call(t, sc));
}

proof fn lemma_gen_relabel(
    e: Expr,
    binds: Map<Seq<char>, i32>,
    types: Map<Seq<char>, Type>,
    sc: int,
    consts: Map<Seq<char>, i32>,
    l1: int,
    l2: int,
)
    requires
        i32::MIN <= l1 <= i32::MAX,
        i32::MIN <= l2 <= i32::MAX,
        gen(e, binds, types, sc, consts, l1) is Ok,
        gen(e, binds, types, sc, consts, l2) is Ok,
    ensures
        gen(e, binds, types, sc, consts, l2)->Ok_0.0 == relabel(gen(e, binds, types, sc, consts, l1)->Ok_0.0, l2 - l1),
        gen(e, binds, types, sc, consts, l2)->Ok_0.1 - l2 == gen(e, binds, types, sc, consts, l1)->Ok_0.1 - l1,
        l1 <= gen(e, binds, types, sc, consts, l1)->Ok_0.1 <= i32::MAX,
        l2 <= gen(e, binds, types, sc, consts, l2)->Ok_0.1 <= i32::MAX,
    decreases e, 1nat,
{
    let d = l2 - l1;
    match e {
        Expr::Number(_) => {
            let c = gen(e, binds, types, sc, consts, l1)->Ok_0.0;
            assert(relabel(c, d) =~= c);
        },
        Expr::Boolean(_) => {
            let c = gen(e, binds, types, sc, consts, l1)->Ok_0.0;
            assert(relabel(c, d) =~= c);
        },
        Expr::Id(_) => {
            let c = gen(e, binds, types, sc, consts, l1)->Ok_0.0;
            assert(relabel(c, d) =~= c);
        },
        Expr::UnOp(..) => lemma_relabel_unop(e, binds, types, sc, consts, l1, l2),
        Expr::BinOp(..) => lemma_relabel_binop(e, binds, types, sc, consts, l1, l2),
        Expr::Let(..) => lemma_relabel_let(e, binds, types, sc, consts, l1, l2),
        Expr::If(..) => lemma_relabel_if(e, binds, types, sc, consts, l1, l2),
        Expr::RepeatUntil(..) => lemma_relabel_repeatuntil(e, binds, types, sc, consts, l1, l2),
        Expr::Assign(..) => lemma_relabel_assign(e, binds, types, sc, consts, l1, l2),
        Expr::Block(es) => {
            lemma_block_relabel(es, 0, binds, types, sc, consts, l1, l2);
        },
    }
}

proof fn lemma_relabel_unop(
    e: Expr,
    binds: Map<Seq<char>, i32>,
    types: Map<Seq<char>, Type>,
    sc: int,
    consts: Map<Seq<char>, i32>,
    l1: int,
    l2: int,
)
    requires
        e is UnOp,
        i32::MIN <= l1 <= i32::MAX,
        i32::MIN <= l2 <= i32::MAX,
        gen(e, binds, types, sc, consts, l1) is Ok,
        gen(e, binds, types, sc, consts, l2) is Ok,
    ensures
        gen(e, binds, types, sc, consts, l2)->Ok_0.0 == relabel(gen(e, binds, types, sc, consts, l1)->Ok_0.0, l2 - l1),
        gen(e, binds, types, sc, consts, l2)->Ok_0.1 - l2 == gen(e, binds, types, sc, consts, l1)->Ok_0.1 - l1,
        l1 <= gen(e, binds, types, sc, consts, l1)->Ok_0.1 <= i32::MAX,
        l2 <= gen(e, binds, types, sc, consts, l2)->Ok_0.1 <= i32::MAX,
    decreases e, 0nat,
{
    let d = l2 - l1;
    match e {
        Expr::UnOp(op, a) => {
            lemma_gen_relabel(*a, binds, types, sc, consts, l1, l2);
            let (c1, n1) = gen(*a, binds, types, sc, consts, l1)->Ok_0;
            let (c2, n2) = gen(*a, binds, types, sc, consts, l2)->Ok_0;
            match op {
                Op1::Print => {
                    let t = type_of(*a, types)->Ok_0;
                    lemma_relabel_fixed(Op2::Plus, t, sc, d);
                    lemma_relabel_add(c1, print_call(t, sc), d);
                },
                _ => {
                    let k = if op == Op1::Add1 { LabelKind::Add1Success } else { LabelKind::Sub1Success };
                    let x = if op == Op1::Add1 { Instr::IAdd(rax(), imm(1)) } else { Instr::ISub(rax(), imm(1)) };
                    assert(relabel(seq![x] + overflow_check(k, n1), d) =~= seq![x] + overflow_check(k, n2));
                    lemma_relabel_add(c1, seq![x] + overflow_check(k, n1), d);
                    assert(c1 + seq![x] + overflow_check(k, n1) =~= c1 + (seq![x] + overflow_check(k, n1)));
                    assert(c2 + seq![x] + overflow_check(k, n2) =~= c2 + (seq![x] + overflow_check(k, n2)));
                },
            }
        },
        _ => {},
    }
}

proof fn lemma_relabel_binop(
    e: Expr,
    binds: Map<Seq<char>, i32>,
    types: Map<Seq<char>, Type>,
    sc: int,
    consts: Map<Seq<char>, i32>,
    l1: int,
    l2: int,
)
    requires
        e is BinOp,
        i32::MIN <= l1 <= i32::MAX,
        i32::MIN <= l2 <= i32::MAX,
        gen(e, binds, types, sc, consts, l1) is Ok,
        gen(e, binds, types, sc, consts, l2) is Ok,
    ensures
        gen(e, binds, types, sc, consts, l2)->Ok_0.0 == relabel(gen(e, binds, types, sc, consts, l1)->Ok_0.0, l2 - l1),
        gen(e, binds, types, sc, consts, l2)->Ok_0.1 - l2 == gen(e, binds, types, sc, consts, l1)->Ok_0.1 - l1,
        l1 <= gen(e, binds, types, sc, consts, l1)->Ok_0.1 <= i32::MAX,
        l2 <= gen(e, binds, types, sc, consts, l2)->Ok_0.1 <= i32::MAX,
    decreases e, 0nat,
{
    let d = l2 - l1;
    match e {
        Expr::BinOp(op, a, b) => {
            lemma_gen_relabel(*a, binds, types, sc, consts, l1, l2);
            let (ca1, n1) = gen(*a, binds, types, sc, consts, l1)->Ok_0;
            let (ca2, n2) = gen(*a, binds, types, sc, consts, l2)->Ok_0;
            lemma_gen_relabel(*b, binds, types, sc + 8, consts, n1, n2);
            let cb1 = gen(*b, binds, types, sc + 8, consts, n1)->Ok_0.0;
            lemma_relabel_fixed(op, Type::Int, sc, d);
            let mid = seq![Instr::IMov(reg(Reg::RCX), rax()), Instr::Pop(rax())];
            assert(relabel(ca1 + seq![Instr::Push(rax())] + cb1 + mid + binop_tail(op), d) =~= relabel(ca1, d)
                + seq![Instr::Push(rax())] + relabel(cb1, d) + mid + relabel(binop_tail(op), d));
        },
        _ => {},
    }
}

proof fn lemma_relabel_let(
    e: Expr,
    binds: Map<Seq<char>, i32>,
    types: Map<Seq<char>, Type>,
    sc: int,
    consts: Map<Seq<char>, i32>,
    l1: int,
    l2: int,
)
    requires
        e is Let,
        i32::MIN <= l1 <= i32::MAX,
        i32::MIN <= l2 <= i32::MAX,
        gen(e, binds, types, sc, consts, l1) is Ok,
        gen(e, binds, types, sc, consts, l2) is Ok,
    ensures
        gen(e, binds, types, sc, consts, l2)->Ok_0.0 == relabel(gen(e, binds, types, sc, consts, l1)->Ok_0.0, l2 - l1),
        gen(e, binds, types, sc, consts, l2)->Ok_0.1 - l2 == gen(e, binds, types, sc, consts, l1)->Ok_0.1 - l1,
        l1 <= gen(e, binds, types, sc, consts, l1)->Ok_0.1 <= i32::MAX,
        l2 <= gen(e, binds, types, sc, consts, l2)->Ok_0.1 <= i32::MAX,
    decreases e, 0nat,
{
    let d = l2 - l1;
    match e {
        Expr::Let(bs, body) => {
            lemma_bindings_relabel(bs, 0, (binds, types, sc, l1), (binds, types, sc, l2), consts);
            let (c1, s1) = gen_bindings(bs, 0, (binds, types, sc, l1), consts)->Ok_0;
            let (c2, s2) = gen_bindings(bs, 0, (binds, types, sc, l2), consts)->Ok_0;
            lemma_gen_relabel(*body, s1.0, s1.1, s1.2, consts, s1.3, s2.3);
            let cb1 = gen(*body, s1.0, s1.1, s1.2, consts, s1.3)->Ok_0.0;
            let tail = seq![Instr::IAdd(reg(Reg::RSP), imm(8 * bs.len()))];
            assert(relabel(c1 + cb1 + tail, d) =~= relabel(c1, d) + relabel(cb1, d) + tail);
        },
        _ => {},
    }
}

proof fn lemma_relabel_if(
    e: Expr,
    binds: Map<Seq<char>, i32>,
    types: Map<Seq<char>, Type>,
    sc: int,
    consts: Map<Seq<char>, i32>,
    l1: int,
    l2: int,
)
    requires
        e is If,
        i32::MIN <= l1 <= i32::MAX,
        i32::MIN <= l2 <= i32::MAX,
        gen(e, binds, types, sc, consts, l1) is Ok,
        gen(e, binds, types, sc, consts, l2) is Ok,
    ensures
        gen(e, binds, types, sc, consts, l2)->Ok_0.0 == relabel(gen(e, binds, types, sc, consts, l1)->Ok_0.0, l2 - l1),
        gen(e, binds, types, sc, consts, l2)->Ok_0.1 - l2 == gen(e, binds, types, sc, consts, l1)->Ok_0.1 - l1,
        l1 <= gen(e, binds, types, sc, consts, l1)->Ok_0.1 <= i32::MAX,
        l2 <= gen(e, binds, types, sc, consts, l2)->Ok_0.1 <= i32::MAX,
    decreases e, 0nat,
{
    let d = l2 - l1;
    match e {
        Expr::If(c, t, f) => {
            lemma_gen_relabel(*c, binds, types, sc, consts, l1 + 1, l2 + 1);
            let (cc1, n1) = gen(*c, binds, types, sc, consts, l1 + 1)->Ok_0;
            let (cc2, n2) = gen(*c, binds, types, sc, consts, l2 + 1)->Ok_0;
            lemma_gen_relabel(*t, binds, types, sc, consts, n1, n2);
            let (ct1, m1) = gen(*t, binds, types, sc, consts, n1)->Ok_0;
            let (ct2, m2) = gen(*t, binds, types, sc, consts, n2)->Ok_0;
            lemma_gen_relabel(*f, binds, types, sc, consts, m1, m2);
            let cf1 = gen(*f, binds, types, sc, consts, m1)->Ok_0.0;
            let head1 = seq![Instr::ICmp(rax(), imm(0)), Instr::Je(LabelKind::IfElse, l1 as i32)];
            let q1 = seq![Instr::Jmp(LabelKind::IfEnd, l1 as i32), Instr::Label(LabelKind::IfElse, l1 as i32)];
            let r1 = seq![Instr::Label(LabelKind::IfEnd, l1 as i32)];
            let head2 = seq![Instr::ICmp(rax(), imm(0)), Instr::Je(LabelKind::IfElse, l2 as i32)];
            let q2 = seq![Instr::Jmp(LabelKind::IfEnd, l2 as i32), Instr::Label(LabelKind::IfElse, l2 as i32)];
            let r2 = seq![Instr::Label(LabelKind::IfEnd, l2 as i32)];
            assert(relabel(head1, d) =~= head2);
            assert(relabel(q1, d) =~= q2);
            assert(relabel(r1, d) =~= r2);
            assert(relabel(cc1 + head1 + ct1 + q1 + cf1 + r1, d) =~= relabel(cc1, d) + relabel(head1, d) + relabel(ct1, d)
                + relabel(q1, d) + relabel(cf1, d) + relabel(r1, d));
        },
        _ => {},
    }
}

proof fn lemma_relabel_repeatuntil(
    e: Expr,
    binds: Map<Seq<char>, i32>,
    types: Map<Seq<char>, Type>,
    sc: int,
    consts: Map<Seq<char>, i32>,
    l1: int,
    l2: int,
)
    requires
        e is RepeatUntil,
        i32::MIN <= l1 <= i32::MAX,
        i32::MIN <= l2 <= i32::MAX,
        gen(e, binds, types, sc, consts, l1) is Ok,
        gen(e, binds, types, sc, consts, l2) is Ok,
    ensures
        gen(e, binds, types, sc, consts, l2)->Ok_0.0 == relabel(gen(e, binds, types, sc, consts, l1)->Ok_0.0, l2 - l1),
        gen(e, binds, types, sc, consts, l2)->Ok_0.1 - l2 == gen(e, binds, types, sc, consts, l1)->Ok_0.1 - l1,
        l1 <= gen(e, binds, types, sc, consts, l1)->Ok_0.1 <= i32::MAX,
        l2 <= gen(e, binds, types, sc, consts, l2)->Ok_0.1 <= i32::MAX,
    decreases e, 0nat,
{
    let d = l2 - l1;
    match e {
        Expr::RepeatUntil(body, cond) => {
            lemma_gen_relabel(*body, binds, types, sc, consts, l1 + 1, l2 + 1);
            let (cb1, n1) = gen(*body, binds, types, sc, consts, l1 + 1)->Ok_0;
            let (cb2, n2) = gen(*body, binds, types, sc, consts, l2 + 1)->Ok_0;
            lemma_gen_relabel(*cond, binds, types, sc + 8, consts, n1, n2);
            let cc1 = gen(*cond, binds, types, sc + 8, consts, n1)->Ok_0.0;
            let head1 = seq![Instr::Label(LabelKind::LoopStart, l1 as i32)];
            let head2 = seq![Instr::Label(LabelKind::LoopStart, l2 as i32)];
            let q = seq![Instr::Push(rax())];
            let r1 = seq![Instr::ICmp(rax(), imm(0)), Instr::Pop(rax()), Instr::Je(LabelKind::LoopStart, l1 as i32)];
            let r2 = seq![Instr::ICmp(rax(), imm(0)), Instr::Pop(rax()), Instr::Je(LabelKind::LoopStart, l2 as i32)];
            assert(relabel(head1, d) =~= head2);
            assert(relabel(q, d) =~= q);
            assert(relabel(r1, d) =~= r2);
            assert(relabel(head1 + cb1 + q + cc1 + r1, d) =~= relabel(head1, d) + relabel(cb1, d) + relabel(q, d)
                + relabel(cc1, d) + relabel(r1, d));
        },
        _ => {},
    }
}

proof fn lemma_relabel_assign(
    e: Expr,
    binds: Map<Seq<char>, i32>,
    types: Map<Seq<char>, Type>,
    sc: int,
    consts: Map<Seq<char>, i32>,
    l1: int,
    l2: int,
)
    requires
        e is Assign,
        i32::MIN <= l1 <= i32::MAX,
        i32::MIN <= l2 <= i32::MAX,
        gen(e, binds, types, sc, consts, l1) is Ok,
        gen(e, binds, types, sc, consts, l2) is Ok,
    ensures
        gen(e, binds, types, sc, consts, l2)->Ok_0.0 == relabel(gen(e, binds, types, sc, consts, l1)->Ok_0.0, l2 - l1),
        gen(e, binds, types, sc, consts, l2)->Ok_0.1 - l2 == gen(e, binds, types, sc, consts, l1)->Ok_0.1 - l1,
        l1 <= gen(e, binds, types, sc, consts, l1)->Ok_0.1 <= i32::MAX,
        l2 <= gen(e, binds, types, sc, consts, l2)->Ok_0.1 <= i32::MAX,
    decreases e, 0nat,
{
    let d = l2 - l1;
    match e {
        Expr::Assign(x, a) => {
            lemma_gen_relabel(*a, binds, types, sc, consts, l1, l2);
            let c1 = gen(*a, binds, types, sc, consts, l1)->Ok_0.0;
            let st = seq![Instr::IMov(slot(binds[x@]), rax())];
            assert(relabel(c1 + st, d) =~= relabel(c1, d) + st);
        },
        _ => {},
    }
}

proof fn lemma_bindings_relabel(bs: Vec<(String, Expr)>, i: int, s1: Scope, s2: Scope, consts: Map<Seq<char>, i32>)
    requires
        s1.0 == s2.0 && s1.1 == s2.1 && s1.2 == s2.2,
        i32::MIN <= s1.3 <= i32::MAX,
        i32::MIN <= s2.3 <= i32::MAX,
        gen_bindings(bs, i, s1, consts) is Ok,
        gen_bindings(bs, i, s2, consts) is Ok,
    ensures
        ({
            let (c1, t1) = gen_bindings(bs, i, s1, consts)->Ok_0;
            let (c2, t2) = gen_bindings(bs, i, s2, consts)->Ok_0;
            &&& c2 == relabel(c1, s2.3 - s1.3)
            &&& t1.0 == t2.0 && t1.1 == t2.1 && t1.2 == t2.2
            &&& t2.3 - s2.3 == t1.3 - s1.3
            &&& s1.3 <= t1.3 <= i32::MAX
            &&& s2.3 <= t2.3 <= i32::MAX
        }),
    decreases bs, bs.len() - i,
{
    let d = s2.3 - s1.3;
    if 0 <= i < bs.len() {
        lemma_gen_relabel(bs[i].1, s1.0, s1.1, s1.2, consts, s1.3, s2.3);
        let (c1, n1) = gen(bs[i].1, s1.0, s1.1, s1.2, consts, s1.3)->Ok_0;
        let (c2, n2) = gen(bs[i].1, s2.0, s2.1, s2.2, consts, s2.3)->Ok_0;
        let t = type_of(bs[i].1, s1.1)->Ok_0;
        let next1: Scope = (s1.0.insert(bs[i].0@, s1.2 as i32), s1.1.insert(bs[i].0@, t), s1.2 + 8, n1);
        let next2: Scope = (s2.0.insert(bs[i].0@, s2.2 as i32), s2.1.insert(bs[i].0@, t), s2.2 + 8, n2);
        lemma_bindings_relabel(bs, i + 1, next1, next2, consts);
        let rest1 = gen_bindings(bs, i + 1, next1, consts)->Ok_0.0;
        assert(relabel(c1 + seq![Instr::Push(rax())] + rest1, d) =~= relabel(c1, d) + seq![Instr::Push(rax())]
            + relabel(rest1, d));
    } else {
        assert(relabel(Seq::<Instr>::empty(), d) =~= Seq::<Instr>::empty());
    }
}

proof fn lemma_block_relabel(
    es: Vec<Expr>,
    i: int,
    binds: Map<Seq<char>, i32>,
    types: Map<Seq<char>, Type>,
    sc: int,
    consts: Map<Seq<char>, i32>,
    l1: int,
    l2: int,
)
    requires
        i32::MIN <= l1 <= i32::MAX,
        i32::MIN <= l2 <= i32::MAX,
        gen_block(es, i, binds, types, sc, consts, l1) is Ok,
        gen_block(es, i, binds, types, sc, consts, l2) is Ok,
    ensures
        l1 <= gen_block(es, i, binds, types, sc, consts, l1)->Ok_0.1 <= i32::MAX,
        l2 <= gen_block(es, i, binds, types, sc, consts, l2)->Ok_0.1 <= i32::MAX,
        gen_block(es, i, binds, types, sc, consts, l2)->Ok_0.0 == relabel(
            gen_block(es, i, binds, types, sc, consts, l1)->Ok_0.0,
            l2 - l1,
        ),
        gen_block(es, i, binds, types, sc, consts, l2)->Ok_0.1 - l2 == gen_block(es, i, binds, types, sc, consts, l1)->Ok_0.1
            - l1,
    decreases es, es.len() - i,
{
    let d = l2 - l1;
    if 0 <= i < es.len() {
        lemma_gen_relabel(es[i], binds, types, sc, consts, l1, l2);
        let (c1, n1) = gen(es[i], binds, types, sc, consts, l1)->Ok_0;
        let (c2, n2) = gen(es[i], binds, types, sc, consts, l2)->Ok_0;
        lemma_block_relabel(es, i + 1, binds, types, sc, consts, n1, n2);
        let rest1 = gen_block(es, i + 1, binds, types, sc, consts, n1)->Ok_0.0;
        lemma_relabel_add(c1, rest1, d);
    } else {
        assert(relabel(Seq::<Instr>::empty(), d) =~= Seq::<Instr>::empty());
    }
}

/// Determinism up to label numbering: compiling one expression in one environment
/// from two starting values of the label counter gives the same instructions once
/// every label number of the first result is moved by the difference of the starting
/// values, and both compilations use the same number of labels. With equal starting
/// values the results are identical.
pub proof fn compile_deterministic_up_to_labels(
    e: Expr,
    binds: Map<Seq<char>, i32>,
    types: Map<Seq<char>, Type>,
    sc: int,
    consts: Map<Seq<char>, i32>,
    l1: int,
    l2: int,
)
    requires
        i32::MIN <= l1 <= i32::MAX,
        i32::MIN <= l2 <= i32::MAX,
        gen(e, binds, types, sc, consts, l1) is Ok,
        gen(e, binds, types, sc, consts, l2) is Ok,
    ensures
        gen(e, binds, types, sc, consts, l2)->Ok_0.0 == relabel(gen(e, binds, types, sc, consts, l1)->Ok_0.0, l2 - l1),
        gen(e, binds, types, sc, consts, l2)->Ok_0.1 - l2 == gen(e, binds, types, sc, consts, l1)->Ok_0.1 - l1,
        l1 == l2 ==> gen(e, binds, types, sc, consts, l1) == gen(e, binds, types, sc, consts, l2),
{
    lemma_gen_relabel(e, binds, types, sc, consts, l1, l2);
}

} // verus!
