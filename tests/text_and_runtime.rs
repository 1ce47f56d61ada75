use snake_interpreter::asm_text::{instr_to_str, val_to_str};
use snake_interpreter::compile::bool_to_num;
use snake_interpreter::instr::{Instr, LabelKind, Reg, Val};
use snake_interpreter::machine::{execute, Fault};
use snake_interpreter::runtime::{error_message, parse_input, snek_print_text, PrinterState};
use snake_interpreter::syntax::Type;
use snake_interpreter::typecheck::{_type_to_str, str_to_type};

#[test]
fn operand_text() {
    assert_eq!(val_to_str(&Val::Reg(Reg::R12)), "r12");
    assert_eq!(val_to_str(&Val::Imm(-42)), "-42");
    assert_eq!(val_to_str(&Val::RegOffset(Reg::RBP, -16)), "[rbp + -16]");
    assert_eq!(val_to_str(&Val::Str("our_code".to_string())), "our_code");
}

#[test]
fn instruction_text() {
    assert_eq!(instr_to_str(&Instr::IMov(Val::Reg(Reg::RAX), Val::Imm(5))), "mov rax, 5\n");
    assert_eq!(instr_to_str(&Instr::IMul(Val::Reg(Reg::RAX), Val::Reg(Reg::RCX))), "imul rax, rcx\n");
    assert_eq!(instr_to_str(&Instr::ICMovLE(Val::Reg(Reg::RAX), Val::Reg(Reg::R13))), "cmovle rax, r13\n");
    assert_eq!(instr_to_str(&Instr::Je(LabelKind::IfElse, 3)), "je ifElse3\n");
    assert_eq!(instr_to_str(&Instr::Label(LabelKind::LoopStart, 12)), "loopStart12:\n");
    assert_eq!(instr_to_str(&Instr::CallSnekPrint()), "call snek_print\n");
    assert_eq!(instr_to_str(&Instr::Push(Val::Imm(1))), "push 1\n");
}

#[test]
fn type_names() {
    assert_eq!(_type_to_str(Type::Int), "int");
    assert_eq!(_type_to_str(Type::Bool), "bool");
    assert_eq!(str_to_type(&"int".to_string()), Some(Type::Int));
    assert_eq!(str_to_type(&"bool".to_string()), Some(Type::Bool));
    assert_eq!(str_to_type(&"float".to_string()), None);
}

#[test]
fn booleans_encode_as_one_and_zero() {
    assert_eq!(bool_to_num(&true), 1);
    assert_eq!(bool_to_num(&false), 0);
}

#[test]
fn printer_text_by_tag() {
    let mut st = PrinterState { in_struct: false };
    assert_eq!(snek_print_text(&mut st, -12, 0), "-12 \n");
    assert_eq!(snek_print_text(&mut st, 1, 1), "true \n");
    assert_eq!(snek_print_text(&mut st, 0, 1), "false \n");
    assert_eq!(snek_print_text(&mut st, 0, 2), "pointer: null \n");
    assert_eq!(snek_print_text(&mut st, 4096, 2), "pointer: 4096 \n");
    assert!(!st.in_struct);
}

#[test]
fn printer_struct_markers() {
    let mut st = PrinterState { in_struct: false };
    assert_eq!(snek_print_text(&mut st, 0, 3), "\n(");
    assert!(st.in_struct);
    assert_eq!(snek_print_text(&mut st, 5, 0), "5 ");
    assert_eq!(snek_print_text(&mut st, 1, 1), "true ");
    assert_eq!(snek_print_text(&mut st, 0, 4), ")\n");
    assert!(!st.in_struct);
}

#[test]
fn error_messages() {
    assert_eq!(error_message(1), "Integer overflow");
    assert_eq!(error_message(7), "an error ocurred 7");
}

#[test]
fn input_argument() {
    assert_eq!(parse_input(""), Some(0));
    assert_eq!(parse_input("42"), Some(42));
    assert_eq!(parse_input("-9223372036854775808"), Some(i64::MIN));
    assert_eq!(parse_input("+7"), Some(7));
    assert_eq!(parse_input("9223372036854775808"), None);
    assert_eq!(parse_input("4x"), None);
    assert_eq!(parse_input("-"), None);
}

#[test]
fn machine_faults() {
    let bad = vec![Instr::IMov(Val::RegOffset(Reg::RSP, 0), Val::RegOffset(Reg::RSP, 8))];
    assert_eq!(execute(&bad, 10).err(), Some(Fault::BadOperand));
    let misaligned = vec![Instr::CallSnekPrint()];
    assert_eq!(execute(&misaligned, 10).err(), Some(Fault::MisalignedCall));
    let missing = vec![Instr::Jmp(LabelKind::IfEnd, 0)];
    assert_eq!(execute(&missing, 10).err(), Some(Fault::UnknownLabel));
    let spin = vec![Instr::Label(LabelKind::LoopStart, 0), Instr::Jmp(LabelKind::LoopStart, 0)];
    assert_eq!(execute(&spin, 100).err(), Some(Fault::OutOfSteps));
    let wild = vec![Instr::IMov(Val::Reg(Reg::RAX), Val::RegOffset(Reg::RAX, 3))];
    assert_eq!(execute(&wild, 10).err(), Some(Fault::BadAddress));
}
