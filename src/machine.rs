use vstd::prelude::*;
use crate::instr::{Instr, LabelKind, Reg, Val};

verus! {

/// Words of stack memory the machine starts with.
pub const STACK_WORDS: usize = 4096;

/// The contents of every register.
#[derive(Clone, Copy, Debug, PartialEq, Eq, Structural)]
pub struct Registers {
    pub rax: i64,
    pub rbp: i64,
    pub rbx: i64,
    pub rdi: i64,
    pub rsi: i64,
    pub rsp: i64,
    pub rcx: i64,
    pub r12: i64,
    pub r13: i64,
    pub r14: i64,
    pub r15: i64,
}

/// The condition flags after the last compare or arithmetic instruction: equal
/// (or a zero result), signed less-than (or a negative exact result), overflow.
#[derive(Clone, Copy, Debug, PartialEq, Eq, Structural)]
pub struct Flags {
    pub zf: bool,
    pub lt: bool,
    pub of: bool,
}

/// Why execution stopped early.
#[derive(Clone, Copy, Debug, PartialEq, Eq, Structural)]
pub enum Fault {
    /// The program called the error reporter with this code.
    RuntimeError(i64),
    /// An operand combination the machine does not have.
    BadOperand,
    /// A memory access outside the stack or not on a word boundary.
    BadAddress,
    /// A call to the printer made with the stack pointer not 16-byte aligned.
    /// The error reporter never returns, and its calls are not checked.
    MisalignedCall,
    /// A jump to a label the program does not define.
    UnknownLabel,
    /// The step budget ran out.
    OutOfSteps,
}

/// The machine state as a mathematical value. Byte address `a` of the stack is
/// word `a / 8` of `stack`.
pub struct State {
    pub regs: Registers,
    pub flags: Flags,
    pub pc: int,
    pub stack: Seq<i64>,
    pub printed: Seq<(i64, i64)>,
}

pub open spec fn get_reg(r: Registers, x: Reg) -> i64 {
    match x {
        Reg::RAX => r.rax,
        Reg::RBP => r.rbp,
        Reg::RBX => r.rbx,
        Reg::RDI => r.rdi,
        Reg::RSI => r.rsi,
        Reg::RSP => r.rsp,
        Reg::RCX => r.rcx,
        Reg::R12 => r.r12,
        Reg::R13 => r.r13,
        Reg::R14 => r.r14,
        Reg::R15 => r.r15,
    }
}

pub open spec fn set_reg(r: Registers, x: Reg, v: i64) -> Registers {
    match x {
        Reg::RAX => Registers { rax: v, ..r },
        Reg::RBP => Registers { rbp: v, ..r },
        Reg::RBX => Registers { rbx: v, ..r },
        Reg::RDI => Registers { rdi: v, ..r },
        Reg::RSI => Registers { rsi: v, ..r },
        Reg::RSP => Registers { rsp: v, ..r },
        Reg::RCX => Registers { rcx: v, ..r },
        Reg::R12 => Registers { r12: v, ..r },
        Reg::R13 => Registers { r13: v, ..r },
        Reg::R14 => Registers { r14: v, ..r },
        Reg::R15 => Registers { r15: v, ..r },
    }
}

pub open spec fn is_mem(v: Val) -> bool {
    v is RegOffset
}

pub open spec fn in_i64(x: int) -> bool {
    i64::MIN <= x <= i64::MAX
}

/// The word index of a byte address, when it is a word boundary inside the stack.
pub open spec fn word_index(len: int, addr: int) -> Option<int> {
    if 0 <= addr && addr % 8 == 0 && addr / 8 < len {
        Some(addr / 8)
    } else {
        None
    }
}

pub open spec fn read(s: State, v: Val) -> Result<i64, Fault> {
    match v {
        Val::Reg(r) => Ok(get_reg(s.regs, r)),
        Val::Imm(n) => Ok(n as i64),
        Val::RegOffset(r, off) => match word_index(s.stack.len() as int, get_reg(s.regs, r) + off) {
            Some(k) => Ok(s.stack[k]),
            None => Err(Fault::BadAddress),
        },
        Val::Str(_) => Err(Fault::BadOperand),
    }
}

pub open spec fn write(s: State, v: Val, x: i64) -> Result<State, Fault> {
    match v {
        Val::Reg(r) => Ok(State { regs: set_reg(s.regs, r, x), ..s }),
        Val::RegOffset(r, off) => match word_index(s.stack.len() as int, get_reg(s.regs, r) + off) {
            Some(k) => Ok(State { stack: s.stack.update(k, x), ..s }),
            None => Err(Fault::BadAddress),
        },
        _ => Err(Fault::BadOperand),
    }
}

/// The flags that an arithmetic result `exact`, wrapped to `wrapped`, leaves.
pub open spec fn arith_flags(exact: int, wrapped: i64) -> Flags {
    Flags { zf: wrapped == 0, lt: exact < 0, of: !in_i64(exact) }
}

pub enum ArithOp {
    Add,
    Sub,
    Mul,
}

pub open spec fn exact(op: ArithOp, a: i64, b: i64) -> int {
    match op {
        ArithOp::Add => a + b,
        ArithOp::Sub => a - b,
        ArithOp::Mul => a * b,
    }
}

pub open spec fn wrapped(op: ArithOp, a: i64, b: i64) -> i64 {
    match op {
        ArithOp::Add => a.wrapping_add(b),
        ArithOp::Sub => a.wrapping_sub(b),
        ArithOp::Mul => a.wrapping_mul(b),
    }
}

/// `dst := dst op src`, with the flags of the exact result; a multiply needs a
/// register destination, and at most one operand is in memory.
pub open spec fn arith(s: State, op: ArithOp, dst: Val, src: Val) -> Result<State, Fault> {
    if (is_mem(dst) && is_mem(src)) || (op is Mul && !(dst is Reg)) {
        Err(Fault::BadOperand)
    } else {
        match read(s, dst) {
            Err(f) => Err(f),
            Ok(a) => match read(s, src) {
                Err(f) => Err(f),
                Ok(b) => match write(s, dst, wrapped(op, a, b)) {
                    Err(f) => Err(f),
                    Ok(s2) => Ok(State {
                        flags: arith_flags(exact(op, a, b), wrapped(op, a, b)),
                        pc: s.pc + 1,
                        ..s2
                    }),
                },
            },
        }
    }
}

pub enum Cond {
    E,
    L,
    LE,
    G,
}

pub open spec fn holds(c: Cond, f: Flags) -> bool {
    match c {
        Cond::E => f.zf,
        Cond::L => f.lt,
        Cond::LE => f.zf || f.lt,
        Cond::G => !f.zf && !f.lt,
    }
}

/// A conditional move into a register.
pub open spec fn cmov(s: State, c: Cond, dst: Val, src: Val) -> Result<State, Fault> {
    if !(dst is Reg) {
        Err(Fault::BadOperand)
    } else {
        match read(s, src) {
            Err(f) => Err(f),
            Ok(v) => if holds(c, s.flags) {
                match write(s, dst, v) {
                    Err(f) => Err(f),
                    Ok(s2) => Ok(State { pc: s.pc + 1, ..s2 }),
                }
            } else {
                Ok(State { pc: s.pc + 1, ..s })
            },
        }
    }
}

/// The first index at or after `j` where the program defines the label.
pub open spec fn find_label(prog: Seq<Instr>, k: LabelKind, n: i32, j: int) -> Option<int>
    decreases prog.len() - j,
{
    if 0 <= j < prog.len() {
        if prog[j] == Instr::Label(k, n) {
            Some(j)
        } else {
            find_label(prog, k, n, j + 1)
        }
    } else {
        None
    }
}

pub open spec fn jump(prog: Seq<Instr>, s: State, k: LabelKind, n: i32, taken: bool) -> Result<State, Fault> {
    if taken {
        match find_label(prog, k, n, 0) {
            Some(j) => Ok(State { pc: j, ..s }),
            None => Err(Fault::UnknownLabel),
        }
    } else {
        Ok(State { pc: s.pc + 1, ..s })
    }
}

pub open spec fn aligned(s: State) -> bool {
    s.regs.rsp % 16 == 0
}

/// One instruction's effect.
#[verifier::opaque]
pub open spec fn step(prog: Seq<Instr>, s: State) -> Result<State, Fault>
    recommends
        0 <= s.pc < prog.len(),
{
    match prog[s.pc] {
        Instr::IMov(dst, src) => if is_mem(dst) && is_mem(src) {
            Err(Fault::BadOperand)
        } else {
            match read(s, src) {
                Err(f) => Err(f),
                Ok(v) => match write(s, dst, v) {
                    Err(f) => Err(f),
                    Ok(s2) => Ok(State { pc: s.pc + 1, ..s2 }),
                },
            }
        },
        Instr::IAdd(dst, src) => arith(s, ArithOp::Add, dst, src),
        Instr::ISub(dst, src) => arith(s, ArithOp::Sub, dst, src),
        Instr::IMul(dst, src) => arith(s, ArithOp::Mul, dst, src),
        Instr::ICmp(a, b) => if is_mem(a) && is_mem(b) {
            Err(Fault::BadOperand)
        } else {
            match read(s, a) {
                Err(f) => Err(f),
                Ok(x) => match read(s, b) {
                    Err(f) => Err(f),
                    Ok(y) => Ok(State {
                        flags: Flags { zf: x == y, lt: x < y, of: !in_i64(x - y) },
                        pc: s.pc + 1,
                        ..s
                    }),
                },
            }
        },
        Instr::ICMovE(dst, src) => cmov(s, Cond::E, dst, src),
        Instr::ICMovL(dst, src) => cmov(s, Cond::L, dst, src),
        Instr::ICMovLE(dst, src) => cmov(s, Cond::LE, dst, src),
        Instr::ICMovG(dst, src) => cmov(s, Cond::G, dst, src),
        Instr::Jmp(k, n) => jump(prog, s, k, n, true),
        Instr::Je(k, n) => jump(prog, s, k, n, s.flags.zf),
        Instr::Jno(k, n) => jump(prog, s, k, n, !s.flags.of),
        Instr::Label(_, _) => Ok(State { pc: s.pc + 1, ..s }),
        Instr::CallSnekErr() => Err(Fault::RuntimeError(s.regs.rdi)),
        Instr::CallSnekPrint() => if aligned(s) {
            Ok(State {
                regs: Registers { rax: 0, rcx: 0, rdi: 0, rsi: 0, ..s.regs },
                printed: s.printed.push((s.regs.rdi, s.regs.rsi)),
                pc: s.pc + 1,
                ..s
            })
        } else {
            Err(Fault::MisalignedCall)
        },
        Instr::Push(v) => match read(s, v) {
            Err(f) => Err(f),
            Ok(x) => match word_index(s.stack.len() as int, s.regs.rsp - 8) {
                None => Err(Fault::BadAddress),
                Some(k) => Ok(State {
                    regs: Registers { rsp: (s.regs.rsp - 8) as i64, ..s.regs },
                    stack: s.stack.update(k, x),
                    pc: s.pc + 1,
                    ..s
                }),
            },
        },
        Instr::Pop(v) => match v {
            Val::Reg(r) => match word_index(s.stack.len() as int, s.regs.rsp as int) {
                None => Err(Fault::BadAddress),
                Some(k) => Ok(State {
                    regs: set_reg(Registers { rsp: (s.regs.rsp + 8) as i64, ..s.regs }, r, s.stack[k]),
                    pc: s.pc + 1,
                    ..s
                }),
            },
            _ => Err(Fault::BadOperand),
        },
    }
}

/// Runs for at most `fuel` steps; finishes when control leaves the end of the program.
pub open spec fn run(prog: Seq<Instr>, s: State, fuel: nat) -> Result<State, Fault>
    decreases fuel,
{
    if !(0 <= s.pc < prog.len()) {
        Ok(s)
    } else if fuel == 0 {
        Err(Fault::OutOfSteps)
    } else {
        match step(prog, s) {
            Err(f) => Err(f),
            Ok(s2) => run(prog, s2, (fuel - 1) as nat),
        }
    }
}

/// The state on entry: a zeroed stack of `STACK_WORDS` words whose top word holds the
/// return address, so the stack pointer is 8 bytes off 16-byte alignment, as after a call.
pub open spec fn initial_state() -> State {
    State {
        regs: Registers {
            rax: 0,
            rbp: 0,
            rbx: 0,
            rdi: 0,
            rsi: 0,
            rsp: (8 * STACK_WORDS - 8) as i64,
            rcx: 0,
            r12: 0,
            r13: 0,
            r14: 0,
            r15: 0,
        },
        flags: Flags { zf: false, lt: false, of: false },
        pc: 0,
        stack: Seq::new(STACK_WORDS as nat, |i: int| 0i64),
        printed: Seq::empty(),
    }
}

/// An executing machine; `state` is its value as a `State`.
pub struct Machine {
    pub regs: Registers,
    pub flags: Flags,
    pub pc: usize,
    pub stack: Vec<i64>,
    pub printed: Vec<(i64, i64)>,
}

impl Machine {
    pub open spec fn state(&self) -> State {
        State {
            regs: self.regs,
            flags: self.flags,
            pc: self.pc as int,
            stack: self.stack@,
            printed: self.printed@,
        }
    }
}

/// What a finished run gives: the accumulator, and every printer call's value and tag in order.
pub struct Outcome {
    pub value: i64,
    pub printed: Vec<(i64, i64)>,
}

fn get_register(r: &Registers, x: Reg) -> (v: i64)
    ensures
        v == get_reg(*r, x),
{
    match x {
        Reg::RAX => r.rax,
        Reg::RBP => r.rbp,
        Reg::RBX => r.rbx,
        Reg::RDI => r.rdi,
        Reg::RSI => r.rsi,
        Reg::RSP => r.rsp,
        Reg::RCX => r.rcx,
        Reg::R12 => r.r12,
        Reg::R13 => r.r13,
        Reg::R14 => r.r14,
        Reg::R15 => r.r15,
    }
}

fn set_register(r: &mut Registers, x: Reg, v: i64)
    ensures
        *final(r) == set_reg(*old(r), x, v),
{
    match x {
        Reg::RAX => r.rax = v,
        Reg::RBP => r.rbp = v,
        Reg::RBX => r.rbx = v,
        Reg::RDI => r.rdi = v,
        Reg::RSI => r.rsi = v,
        Reg::RSP => r.rsp = v,
        Reg::RCX => r.rcx = v,
        Reg::R12 => r.r12 = v,
        Reg::R13 => r.r13 = v,
        Reg::R14 => r.r14 = v,
        Reg::R15 => r.r15 = v,
    }
}

fn word_at(len: usize, base: i64, off: i64) -> (r: Option<usize>)
    ensures
        match word_index(len as int, base + off) {
            Some(k) => r == Some(k as usize),
            None => r is None,
        },
{
    let addr: i128 = base as i128 + off as i128;
    if 0 <= addr && addr % 8 == 0 && addr / 8 < len as i128 {
        Some((addr / 8) as usize)
    } else {
        None
    }
}

fn read_val(m: &Machine, v: &Val) -> (r: Result<i64, Fault>)
    ensures
        r == read(m.state(), *v),
{
    match v {
        Val::Reg(x) => Ok(get_register(&m.regs, *x)),
        Val::Imm(n) => Ok(*n as i64),
        Val::RegOffset(x, off) => match word_at(m.stack.len(), get_register(&m.regs, *x), *off as i64) {
            Some(k) => Ok(m.stack[k]),
            None => Err(Fault::BadAddress),
        },
        Val::Str(_) => Err(Fault::BadOperand),
    }
}

fn write_val(m: &mut Machine, v: &Val, x: i64) -> (r: Result<(), Fault>)
    ensures
        match write(old(m).state(), *v, x) {
            Ok(s2) => r is Ok && final(m).state() == s2,
            Err(f) => r == Err::<(), Fault>(f),
        },
{
    match v {
        Val::Reg(d) => {
            set_register(&mut m.regs, *d, x);
            Ok(())
        },
        Val::RegOffset(d, off) => match word_at(m.stack.len(), get_register(&m.regs, *d), *off as i64) {
            Some(k) => {
                m.stack.set(k, x);
                Ok(())
            },
            None => Err(Fault::BadAddress),
        },
        _ => Err(Fault::BadOperand),
    }
}

fn is_mem_val(v: &Val) -> (b: bool)
    ensures
        b == is_mem(*v),
{
    match v {
        Val::RegOffset(_, _) => true,
        _ => false,
    }
}

fn is_reg_val(v: &Val) -> (b: bool)
    ensures
        b == (*v is Reg),
{
    match v {
        Val::Reg(_) => true,
        _ => false,
    }
}

fn exec_arith(m: &mut Machine, op: ArithOp, dst: &Val, src: &Val) -> (r: Result<(), Fault>)
    requires
        old(m).pc < usize::MAX,
    ensures
        match arith(old(m).state(), op, *dst, *src) {
            Ok(s2) => r is Ok && final(m).state() == s2,
            Err(f) => r == Err::<(), Fault>(f),
        },
{
    let is_mul = match op {
        ArithOp::Mul => true,
        _ => false,
    };
    if (is_mem_val(dst) && is_mem_val(src)) || (is_mul && !is_reg_val(dst)) {
        return Err(Fault::BadOperand);
    }
    let a = read_val(m, dst)?;
    let b = read_val(m, src)?;
    assert(-0x4000_0000_0000_0000_0000_0000_0000_0000 <= a as int * b as int
        <= 0x4000_0000_0000_0000_0000_0000_0000_0000) by (nonlinear_arith)
        requires
            i64::MIN <= a <= i64::MAX,
            i64::MIN <= b <= i64::MAX,
    ;
    let (x, w): (i128, i64) = match op {
        ArithOp::Add => (a as i128 + b as i128, a.wrapping_add(b)),
        ArithOp::Sub => (a as i128 - b as i128, a.wrapping_sub(b)),
        ArithOp::Mul => (a as i128 * b as i128, a.wrapping_mul(b)),
    };
    write_val(m, dst, w)?;
    m.flags = Flags { zf: w == 0, lt: x < 0, of: x < i64::MIN as i128 || x > i64::MAX as i128 };
    m.pc = m.pc + 1;
    Ok(())
}

fn exec_cmov(m: &mut Machine, c: Cond, dst: &Val, src: &Val) -> (r: Result<(), Fault>)
    requires
        old(m).pc < usize::MAX,
    ensures
        match cmov(old(m).state(), c, *dst, *src) {
            Ok(s2) => r is Ok && final(m).state() == s2,
            Err(f) => r == Err::<(), Fault>(f),
        },
{
    if !is_reg_val(dst) {
        return Err(Fault::BadOperand);
    }
    let v = read_val(m, src)?;
    let f = m.flags;
    let taken = match c {
        Cond::E => f.zf,
        Cond::L => f.lt,
        Cond::LE => f.zf || f.lt,
        Cond::G => !f.zf && !f.lt,
    };
    if taken {
        write_val(m, dst, v)?;
    }
    m.pc = m.pc + 1;
    Ok(())
}

fn find_label_index(prog: &Vec<Instr>, k: LabelKind, n: i32) -> (r: Option<usize>)
    ensures
        match find_label(prog@, k, n, 0) {
            Some(j) => 0 <= j < prog.len() && r == Some(j as usize),
            None => r is None,
        },
{
    let mut j: usize = 0;
    while j < prog.len()
        invariant
            j <= prog.len(),
            find_label(prog@, k, n, 0) == find_label(prog@, k, n, j as int),
        decreases prog.len() - j,
    {
        match &prog[j] {
            Instr::Label(k2, n2) => {
                if *k2 == k && *n2 == n {
                    return Some(j);
                }
            },
            _ => {},
        }
        j = j + 1;
    }
    None
}

fn exec_jump(prog: &Vec<Instr>, m: &mut Machine, k: LabelKind, n: i32, taken: bool) -> (r: Result<(), Fault>)
    requires
        old(m).pc < usize::MAX,
    ensures
        match jump(prog@, old(m).state(), k, n, taken) {
            Ok(s2) => r is Ok && final(m).state() == s2,
            Err(f) => r == Err::<(), Fault>(f),
        },
{
    if taken {
        match find_label_index(prog, k, n) {
            Some(j) => {
                m.pc = j;
                Ok(())
            },
            None => Err(Fault::UnknownLabel),
        }
    } else {
        m.pc = m.pc + 1;
        Ok(())
    }
}

fn exec_mov(m: &mut Machine, dst: &Val, src: &Val) -> (r: Result<(), Fault>)
    requires
        old(m).pc < usize::MAX,
    ensures
        match (if is_mem(*dst) && is_mem(*src) {
            Err(Fault::BadOperand)
        } else {
            match read(old(m).state(), *src) {
                Err(f) => Err(f),
                Ok(v) => match write(old(m).state(), *dst, v) {
                    Err(f) => Err(f),
                    Ok(s2) => Ok(State { pc: old(m).state().pc + 1, ..s2 }),
                },
            }
        }) {
            Ok(s2) => r is Ok && final(m).state() == s2,
            Err(f) => r == Err::<(), Fault>(f),
        },
{
    if is_mem_val(dst) && is_mem_val(src) {
        return Err(Fault::BadOperand);
    }
    let v = read_val(m, src)?;
    write_val(m, dst, v)?;
    m.pc = m.pc + 1;
    Ok(())
}

fn exec_cmp(m: &mut Machine, a: &Val, b: &Val) -> (r: Result<(), Fault>)
    requires
        old(m).pc < usize::MAX,
    ensures
        match (if is_mem(*a) && is_mem(*b) {
            Err(Fault::BadOperand)
        } else {
            match read(old(m).state(), *a) {
                Err(f) => Err(f),
                Ok(x) => match read(old(m).state(), *b) {
                    Err(f) => Err(f),
                    Ok(y) => Ok(State {
                        flags: Flags { zf: x == y, lt: x < y, of: !in_i64(x - y) },
                        pc: old(m).state().pc + 1,
                        ..old(m).state()
                    }),
                },
            }
        }) {
            Ok(s2) => r is Ok && final(m).state() == s2,
            Err(f) => r == Err::<(), Fault>(f),
        },
{
    if is_mem_val(a) && is_mem_val(b) {
        return Err(Fault::BadOperand);
    }
    let x = read_val(m, a)?;
    let y = read_val(m, b)?;
    let d: i128 = x as i128 - y as i128;
    m.flags = Flags { zf: x == y, lt: x < y, of: d < i64::MIN as i128 || d > i64::MAX as i128 };
    m.pc = m.pc + 1;
    Ok(())
}

fn exec_push(m: &mut Machine, v: &Val) -> (r: Result<(), Fault>)
    requires
        old(m).pc < usize::MAX,
    ensures
        match (match read(old(m).state(), *v) {
            Err(f) => Err(f),
            Ok(x) => match word_index(old(m).stack@.len() as int, old(m).regs.rsp - 8) {
                None => Err(Fault::BadAddress),
                Some(k) => Ok(State {
                    regs: Registers { rsp: (old(m).regs.rsp - 8) as i64, ..old(m).regs },
                    stack: old(m).stack@.update(k, x),
                    pc: old(m).state().pc + 1,
                    ..old(m).state()
                }),
            },
        }) {
            Ok(s2) => r is Ok && final(m).state() == s2,
            Err(f) => r == Err::<(), Fault>(f),
        },
{
    let x = read_val(m, v)?;
    match word_at(m.stack.len(), m.regs.rsp, -8) {
        None => Err(Fault::BadAddress),
        Some(k) => {
            m.regs.rsp = m.regs.rsp - 8;
            m.stack.set(k, x);
            m.pc = m.pc + 1;
            Ok(())
        },
    }
}

fn exec_pop(m: &mut Machine, v: &Val) -> (r: Result<(), Fault>)
    requires
        old(m).pc < usize::MAX,
        old(m).stack.len() == STACK_WORDS,
    ensures
        match (match *v {
            Val::Reg(r) => match word_index(old(m).stack@.len() as int, old(m).regs.rsp as int) {
                None => Err(Fault::BadAddress),
                Some(k) => Ok(State {
                    regs: set_reg(Registers { rsp: (old(m).regs.rsp + 8) as i64, ..old(m).regs }, r, old(m).stack@[k]),
                    pc: old(m).state().pc + 1,
                    ..old(m).state()
                }),
            },
            _ => Err(Fault::BadOperand),
        }) {
            Ok(s2) => r is Ok && final(m).state() == s2,
            Err(f) => r == Err::<(), Fault>(f),
        },
{
    match v {
        Val::Reg(d) => match word_at(m.stack.len(), m.regs.rsp, 0) {
            None => Err(Fault::BadAddress),
            Some(k) => {
                let x = m.stack[k];
                m.regs.rsp = m.regs.rsp + 8;
                set_register(&mut m.regs, *d, x);
                m.pc = m.pc + 1;
                Ok(())
            },
        },
        _ => Err(Fault::BadOperand),
    }
}

/// Executes the instruction at the program counter.
pub fn step_machine(prog: &Vec<Instr>, m: &mut Machine) -> (r: Result<(), Fault>)
    requires
        old(m).pc < prog.len(),
        old(m).stack.len() == STACK_WORDS,
    ensures
        match step(prog@, old(m).state()) {
            Ok(s2) => r is Ok && final(m).state() == s2,
            Err(f) => r == Err::<(), Fault>(f),
        },
        r is Ok ==> final(m).stack.len() == STACK_WORDS,
{
    reveal(step);
    let ghost s = m.state();
    match &prog[m.pc] {
        Instr::IMov(dst, src) => exec_mov(m, dst, src),
        Instr::IAdd(dst, src) => exec_arith(m, ArithOp::Add, dst, src),
        Instr::ISub(dst, src) => exec_arith(m, ArithOp::Sub, dst, src),
        Instr::IMul(dst, src) => exec_arith(m, ArithOp::Mul, dst, src),
        Instr::ICmp(a, b) => exec_cmp(m, a, b),
        Instr::ICMovE(dst, src) => exec_cmov(m, Cond::E, dst, src),
        Instr::ICMovL(dst, src) => exec_cmov(m, Cond::L, dst, src),
        Instr::ICMovLE(dst, src) => exec_cmov(m, Cond::LE, dst, src),
        Instr::ICMovG(dst, src) => exec_cmov(m, Cond::G, dst, src),
        Instr::Jmp(k, n) => exec_jump(prog, m, *k, *n, true),
        Instr::Je(k, n) => {
            let taken = m.flags.zf;
            exec_jump(prog, m, *k, *n, taken)
        },
        Instr::Jno(k, n) => {
            let taken = !m.flags.of;
            exec_jump(prog, m, *k, *n, taken)
        },
        Instr::Label(_, _) => {
            m.pc = m.pc + 1;
            Ok(())
        },
        Instr::CallSnekErr() => Err(Fault::RuntimeError(m.regs.rdi)),
        Instr::CallSnekPrint() => {
            if m.regs.rsp % 16 == 0 {
                m.printed.push((m.regs.rdi, m.regs.rsi));
                m.regs.rax = 0;
                m.regs.rcx = 0;
                m.regs.rdi = 0;
                m.regs.rsi = 0;
                m.pc = m.pc + 1;
                Ok(())
            } else {
                Err(Fault::MisalignedCall)
            }
        },
        Instr::Push(v) => exec_push(m, v),
        Instr::Pop(v) => exec_pop(m, v),
    }
}

/// Runs the program from `initial_state` for at most `max_steps` instructions.
pub fn execute(prog: &Vec<Instr>, max_steps: u64) -> (r: Result<Outcome, Fault>)
    ensures
        match run(prog@, initial_state(), max_steps as nat) {
            Ok(s) => r is Ok && r->Ok_0.value == s.regs.rax && r->Ok_0.printed@ == s.printed,
            Err(f) => r is Err && r->Err_0 == f,
        },
{
    let mut m = Machine {
        regs: Registers {
            rax: 0,
            rbp: 0,
            rbx: 0,
            rdi: 0,
            rsi: 0,
            rsp: (8 * STACK_WORDS - 8) as i64,
            rcx: 0,
            r12: 0,
            r13: 0,
            r14: 0,
            r15: 0,
        },
        flags: Flags { zf: false, lt: false, of: false },
        pc: 0,
        stack: vec![0i64; STACK_WORDS],
        printed: Vec::new(),
    };
    assert(m.stack@ =~= Seq::new(STACK_WORDS as nat, |i: int| 0i64));
    assert(m.printed@ =~= Seq::<(i64, i64)>::empty());
    assert(m.state() == initial_state());
    let mut fuel = max_steps;
    while m.pc < prog.len()
        invariant
            run(prog@, initial_state(), max_steps as nat) == run(prog@, m.state(), fuel as nat),
            m.stack.len() == STACK_WORDS,
        decreases fuel,
    {
        if fuel == 0 {
            return Err(Fault::OutOfSteps);
        }
        step_machine(prog, &mut m)?;
        fuel = fuel - 1;
    }
    Ok(Outcome { value: m.regs.rax, printed: m.printed })
}

} // verus!
