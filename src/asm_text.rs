use vstd::prelude::*;
use vstd::string::*;
use crate::instr::{Instr, LabelKind, Reg, Val};

verus! {

pub open spec fn digit_char(d: int) -> char {
    if 0 <= d <= 9 { ((d + 48) as u8) as char } else { '?' }
}

/// Decimal digits of a natural number, most significant first, no leading zeros.
pub open spec fn nat_digits(n: nat) -> Seq<char>
    decreases n,
{
    if n < 10 {
        seq![digit_char(n as int)]
    } else {
        nat_digits(n / 10).push(digit_char(n as int % 10))
    }
}

/// Decimal text of an integer, with a leading '-' when negative.
pub open spec fn decimal(n: int) -> Seq<char> {
    if n < 0 { seq!['-'] + nat_digits((-n) as nat) } else { nat_digits(n as nat) }
}

/// Relies on the standard `Display` of `i64` (through `to_string`): the decimal
/// text of the value, '-' first for negatives.
#[verifier::external_body]
pub(crate) fn decimal_text(n: i64) -> (r: String)
    ensures
        r@ == decimal(n as int),
{
    n.to_string()
}

pub open spec fn reg_text(r: Reg) -> Seq<char> {
    match r {
        Reg::RAX => "rax"@,
        Reg::RBP => "rbp"@,
        Reg::RBX => "rbx"@,
        Reg::RDI => "rdi"@,
        Reg::RSI => "rsi"@,
        Reg::RSP => "rsp"@,
        Reg::RCX => "rcx"@,
        Reg::R12 => "r12"@,
        Reg::R13 => "r13"@,
        Reg::R14 => "r14"@,
        Reg::R15 => "r15"@,
    }
}

pub open spec fn val_text(v: Val) -> Seq<char> {
    match v {
        Val::Reg(r) => reg_text(r),
        Val::Imm(n) => decimal(n as int),
        Val::RegOffset(r, off) => "["@ + reg_text(r) + " + "@ + decimal(off as int) + "]"@,
        Val::Str(s) => s@,
    }
}

pub open spec fn label_text(k: LabelKind) -> Seq<char> {
    match k {
        LabelKind::Add1Success => "unopAdd1Success"@,
        LabelKind::Sub1Success => "unopSub1Success"@,
        LabelKind::IfElse => "ifElse"@,
        LabelKind::IfEnd => "ifEnd"@,
        LabelKind::LoopStart => "loopStart"@,
    }
}

pub open spec fn two_operand_text(mnemonic: Seq<char>, a: Val, b: Val) -> Seq<char> {
    mnemonic + " "@ + val_text(a) + ", "@ + val_text(b) + "\n"@
}

pub open spec fn jump_text(mnemonic: Seq<char>, k: LabelKind, n: i32) -> Seq<char> {
    mnemonic + " "@ + label_text(k) + decimal(n as int) + "\n"@
}

/// The assembly line of one instruction, newline included.
pub open spec fn instr_text(i: Instr) -> Seq<char> {
    match i {
        Instr::IMov(a, b) => two_operand_text("mov"@, a, b),
        Instr::IAdd(a, b) => two_operand_text("add"@, a, b),
        Instr::ISub(a, b) => two_operand_text("sub"@, a, b),
        Instr::IMul(a, b) => two_operand_text("imul"@, a, b),
        Instr::ICmp(a, b) => two_operand_text("cmp"@, a, b),
        Instr::ICMovE(a, b) => two_operand_text("cmove"@, a, b),
        Instr::ICMovL(a, b) => two_operand_text("cmovl"@, a, b),
        Instr::ICMovLE(a, b) => two_operand_text("cmovle"@, a, b),
        Instr::ICMovG(a, b) => two_operand_text("cmovg"@, a, b),
        Instr::Jmp(k, n) => jump_text("jmp"@, k, n),
        Instr::Je(k, n) => jump_text("je"@, k, n),
        Instr::Jno(k, n) => jump_text("jno"@, k, n),
        Instr::Label(k, n) => label_text(k) + decimal(n as int) + ":\n"@,
        Instr::CallSnekErr() => "call snek_error\n"@,
        Instr::CallSnekPrint() => "call snek_print\n"@,
        Instr::Pop(a) => "pop "@ + val_text(a) + "\n"@,
        Instr::Push(a) => "push "@ + val_text(a) + "\n"@,
    }
}

/// The text of a whole program: its instructions' lines in order.
pub open spec fn program_text(prog: Seq<Instr>) -> Seq<char>
    decreases prog.len(),
{
    if prog.len() == 0 {
        Seq::empty()
    } else {
        program_text(prog.drop_last()) + instr_text(prog.last())
    }
}

fn reg_to_str(r: &Reg) -> (s: String)
    ensures
        s@ == reg_text(*r),
{
    match r {
        Reg::RAX => String::from_str("rax"),
        Reg::RBP => String::from_str("rbp"),
        Reg::RBX => String::from_str("rbx"),
        Reg::RDI => String::from_str("rdi"),
        Reg::RSI => String::from_str("rsi"),
        Reg::RSP => String::from_str("rsp"),
        Reg::RCX => String::from_str("rcx"),
        Reg::R12 => String::from_str("r12"),
        Reg::R13 => String::from_str("r13"),
        Reg::R14 => String::from_str("r14"),
        Reg::R15 => String::from_str("r15"),
    }
}

/// The assembly text of an operand.
pub fn val_to_str(v: &Val) -> (s: String)
    ensures
        s@ == val_text(*v),
{
    match v {
        Val::Imm(i) => decimal_text(*i as i64),
        Val::Str(s) => s.clone(),
        Val::Reg(r) => reg_to_str(r),
        Val::RegOffset(r, i) => {
            let mut s = String::from_str("[");
            s.append(reg_to_str(r).as_str());
            s.append(" + ");
            s.append(decimal_text(*i as i64).as_str());
            s.append("]");
            s
        },
    }
}

fn label_to_str(k: &LabelKind, n: i32) -> (s: String)
    ensures
        s@ == label_text(*k) + decimal(n as int),
{
    let mut s = match k {
        LabelKind::Add1Success => String::from_str("unopAdd1Success"),
        LabelKind::Sub1Success => String::from_str("unopSub1Success"),
        LabelKind::IfElse => String::from_str("ifElse"),
        LabelKind::IfEnd => String::from_str("ifEnd"),
        LabelKind::LoopStart => String::from_str("loopStart"),
    };
    s.append(decimal_text(n as i64).as_str());
    s
}

fn two_operand_to_str(mnemonic: &str, a: &Val, b: &Val) -> (s: String)
    ensures
        s@ == two_operand_text(mnemonic@, *a, *b),
{
    let mut s = String::from_str(mnemonic);
    s.append(" ");
    s.append(val_to_str(a).as_str());
    s.append(", ");
    s.append(val_to_str(b).as_str());
    s.append("\n");
    s
}

fn jump_to_str(mnemonic: &str, k: &LabelKind, n: i32) -> (s: String)
    ensures
        s@ == jump_text(mnemonic@, *k, n),
{
    let mut s = String::from_str(mnemonic);
    s.append(" ");
    s.append(label_to_str(k, n).as_str());
    s.append("\n");
    s
}

/// The assembly line of one instruction.
pub fn instr_to_str(i: &Instr) -> (s: String)
    ensures
        s@ == instr_text(*i),
{
    match i {
        Instr::IMov(a, b) => two_operand_to_str("mov", a, b),
        Instr::IAdd(a, b) => two_operand_to_str("add", a, b),
        Instr::ISub(a, b) => two_operand_to_str("sub", a, b),
        Instr::IMul(a, b) => two_operand_to_str("imul", a, b),
        Instr::ICmp(a, b) => two_operand_to_str("cmp", a, b),
        Instr::ICMovE(a, b) => two_operand_to_str("cmove", a, b),
        Instr::ICMovL(a, b) => two_operand_to_str("cmovl", a, b),
        Instr::ICMovLE(a, b) => two_operand_to_str("cmovle", a, b),
        Instr::ICMovG(a, b) => two_operand_to_str("cmovg", a, b),
        Instr::Jmp(k, n) => jump_to_str("jmp", k, *n),
        Instr::Je(k, n) => jump_to_str("je", k, *n),
        Instr::Jno(k, n) => jump_to_str("jno", k, *n),
        Instr::Label(k, n) => {
            let mut s = label_to_str(k, *n);
            s.append(":\n");
            s
        },
        Instr::CallSnekErr() => String::from_str("call snek_error\n"),
        Instr::CallSnekPrint() => String::from_str("call snek_print\n"),
        Instr::Pop(a) => {
            let mut s = String::from_str("pop ");
            s.append(val_to_str(a).as_str());
            s.append("\n");
            s
        },
        Instr::Push(a) => {
            let mut s = String::from_str("push ");
            s.append(val_to_str(a).as_str());
            s.append("\n");
            s
        },
    }
}

/// Renders a whole instruction list as assembly text, one line per instruction.
pub fn instrs_to_str(cmds: &Vec<Instr>) -> (s: String)
    ensures
        s@ == program_text(cmds@),
{
    let mut s = String::new();
    let mut i: usize = 0;
    while i < cmds.len()
        invariant
            i <= cmds.len(),
            s@ == program_text(cmds@.subrange(0, i as int)),
        decreases cmds.len() - i,
    {
        s.append(instr_to_str(&cmds[i]).as_str());
        proof {
            let next = cmds@.subrange(0, i + 1);
            assert(next.drop_last() == cmds@.subrange(0, i as int));
        }
        i = i + 1;
    }
    assert(cmds@.subrange(0, cmds.len() as int) == cmds@);
    s
}

} // verus!
