use snake_interpreter::compile::{compile_program, compile_to_instrs};
use snake_interpreter::env::{bind_int, bind_type, empty_ints, empty_types};
use snake_interpreter::instr::Instr;
use snake_interpreter::asm_text::instrs_to_str;
use snake_interpreter::machine::{execute, Fault, Outcome};
use snake_interpreter::syntax::{CompileError, Expr, Op1, Op2, Type};
use snake_interpreter::typecheck::typecheck;

fn num(n: i32) -> Expr {
    Expr::Number(n)
}

fn boolean(b: bool) -> Expr {
    Expr::Boolean(b)
}

fn id(x: &str) -> Expr {
    Expr::Id(x.to_string())
}

fn un(op: Op1, a: Expr) -> Expr {
    Expr::UnOp(op, Box::new(a))
}

fn bin(op: Op2, a: Expr, b: Expr) -> Expr {
    Expr::BinOp(op, Box::new(a), Box::new(b))
}

fn let_in(bs: Vec<(&str, Expr)>, body: Expr) -> Expr {
    Expr::Let(bs.into_iter().map(|(x, e)| (x.to_string(), e)).collect(), Box::new(body))
}

fn if_else(c: Expr, t: Expr, f: Expr) -> Expr {
    Expr::If(Box::new(c), Box::new(t), Box::new(f))
}

fn assign(x: &str, e: Expr) -> Expr {
    Expr::Assign(x.to_string(), Box::new(e))
}

fn repeat_until(body: Expr, cond: Expr) -> Expr {
    Expr::RepeatUntil(Box::new(body), Box::new(cond))
}

fn compile(e: &Expr) -> Result<Vec<Instr>, CompileError> {
    compile_program(e, &empty_types(), &empty_ints())
}

fn run(e: &Expr) -> Result<Outcome, Fault> {
    let code = compile(e).expect("program compiles");
    execute(&code, 1_000_000)
}

fn value_of(e: &Expr) -> i64 {
    run(e).expect("program runs").value
}

#[test]
fn product_of_increment_and_decrement() {
    let e = bin(Op2::Times, un(Op1::Add1, num(4)), un(Op1::Sub1, num(3)));
    assert_eq!(value_of(&e), 10);
}

#[test]
fn duplicate_binding_is_rejected() {
    let e = let_in(vec![("x", num(5)), ("x", num(6))], id("x"));
    assert_eq!(compile(&e).err(), Some(CompileError::DuplicateBinding));
}

#[test]
fn later_binding_sees_earlier_one() {
    let e = let_in(vec![("x", num(5)), ("y", bin(Op2::Plus, id("x"), num(1)))], id("y"));
    assert_eq!(value_of(&e), 6);
}

#[test]
fn comparisons_on_pairs() {
    let pairs = [(1, 2), (2, 1), (3, 3), (-5, 4), (7, -7), (i32::MIN, i32::MAX), (0, 0)];
    for (a, b) in pairs {
        let gt = value_of(&bin(Op2::Greater, num(a), num(b)));
        let le = value_of(&bin(Op2::LessEqual, num(a), num(b)));
        let ge = value_of(&bin(Op2::GreaterEqual, num(a), num(b)));
        let lt = value_of(&bin(Op2::Less, num(a), num(b)));
        let eq = value_of(&bin(Op2::Equal, num(a), num(b)));
        assert_eq!(gt, (a > b) as i64);
        assert_eq!(le, (a <= b) as i64);
        assert_eq!(ge, (a >= b) as i64);
        assert_eq!(lt, (a < b) as i64);
        assert_eq!(eq, (a == b) as i64);
        assert_eq!(gt, 1 - le);
        assert_eq!(ge, 1 - lt);
    }
}

#[test]
fn boolean_equality() {
    assert_eq!(value_of(&bin(Op2::Equal, boolean(true), boolean(true))), 1);
    assert_eq!(value_of(&bin(Op2::Equal, boolean(true), boolean(false))), 0);
}

#[test]
fn conditional_picks_branch() {
    assert_eq!(value_of(&if_else(boolean(true), num(1), num(2))), 1);
    assert_eq!(value_of(&if_else(boolean(false), num(1), num(2))), 2);
}

#[test]
fn loop_counts_to_five() {
    let body = Expr::Block(vec![assign("x", un(Op1::Add1, id("x"))), un(Op1::Print, id("x"))]);
    let e = let_in(vec![("x", num(0))], repeat_until(body, bin(Op2::Equal, id("x"), num(5))));
    let out = run(&e).expect("program runs");
    assert_eq!(out.value, 5);
    assert_eq!(out.printed, vec![(1, 0), (2, 0), (3, 0), (4, 0), (5, 0), (5, 0)]);
}

#[test]
fn block_runs_discarded_assignments() {
    let e = let_in(
        vec![("x", num(0))],
        Expr::Block(vec![assign("x", num(1)), assign("x", bin(Op2::Plus, id("x"), num(1))), id("x")]),
    );
    assert_eq!(value_of(&e), 2);
}

#[test]
fn increment_of_largest_integer_reports_overflow() {
    // 2^31 * 2^31 = 2^62, and 2^62 + (2^62 - 1) is the largest 64-bit integer.
    let big = un(Op1::Add1, num(i32::MAX));
    let e = let_in(
        vec![("a", bin(Op2::Times, big, un(Op1::Add1, num(i32::MAX))))],
        un(Op1::Print, un(Op1::Add1, bin(Op2::Plus, id("a"), un(Op1::Sub1, id("a"))))),
    );
    assert_eq!(run(&e).err(), Some(Fault::RuntimeError(1)));
    let plain = let_in(
        vec![("a", bin(Op2::Times, un(Op1::Add1, num(i32::MAX)), un(Op1::Add1, num(i32::MAX))))],
        un(Op1::Add1, bin(Op2::Plus, id("a"), un(Op1::Sub1, id("a")))),
    );
    assert_eq!(run(&plain).err(), Some(Fault::RuntimeError(1)));
    let max = let_in(
        vec![("a", bin(Op2::Times, un(Op1::Add1, num(i32::MAX)), un(Op1::Add1, num(i32::MAX))))],
        bin(Op2::Plus, id("a"), un(Op1::Sub1, id("a"))),
    );
    assert_eq!(value_of(&max), i64::MAX);
}

#[test]
fn decrement_of_smallest_integer_reports_overflow() {
    let e = let_in(
        vec![("a", bin(Op2::Times, un(Op1::Add1, num(i32::MAX)), un(Op1::Add1, num(i32::MAX))))],
        un(Op1::Sub1, un(Op1::Sub1, bin(Op2::Minus, num(0), bin(Op2::Plus, id("a"), id("a"))))),
    );
    assert_eq!(run(&e).err(), Some(Fault::RuntimeError(1)));
}

#[test]
fn print_passes_value_and_tag_and_keeps_alignment() {
    let e = let_in(
        vec![("x", num(7)), ("b", boolean(true))],
        bin(Op2::Plus, un(Op1::Print, id("x")), if_else(un(Op1::Print, id("b")), num(1), num(0))),
    );
    let out = run(&e).expect("program runs");
    assert_eq!(out.value, 8);
    assert_eq!(out.printed, vec![(7, 0), (1, 1), (8, 0)]);
}

#[test]
fn nested_lets_release_their_slots() {
    let inner = let_in(vec![("y", num(2)), ("z", num(3))], bin(Op2::Times, id("y"), id("z")));
    let e = let_in(vec![("x", num(1))], bin(Op2::Plus, inner, id("x")));
    assert_eq!(value_of(&e), 7);
}

#[test]
fn shadowing_in_inner_let() {
    let e = let_in(vec![("x", num(1))], let_in(vec![("x", num(10))], bin(Op2::Minus, id("x"), num(3))));
    assert_eq!(value_of(&e), 7);
}

#[test]
fn constants_are_loaded_as_immediates() {
    let consts = bind_int(&empty_ints(), "x0".to_string(), 42);
    let types = bind_type(&empty_types(), "x0".to_string(), Type::Int);
    let code = compile_program(&bin(Op2::Plus, id("x0"), num(1)), &types, &consts).unwrap();
    assert_eq!(execute(&code, 1000).unwrap().value, 43);
}

#[test]
fn type_errors() {
    let ctx = empty_types();
    let cases = vec![
        (bin(Op2::Plus, num(1), boolean(true)), CompileError::OperandMismatch),
        (bin(Op2::Plus, boolean(true), boolean(true)), CompileError::ExpectedInt),
        (bin(Op2::Less, boolean(true), boolean(false)), CompileError::ExpectedInt),
        (un(Op1::Add1, boolean(true)), CompileError::ExpectedInt),
        (id("nope"), CompileError::UnboundIdentifier),
        (let_in(vec![("let", num(1))], num(2)), CompileError::KeywordBinding),
        (if_else(boolean(true), num(1), boolean(false)), CompileError::BranchMismatch),
        (if_else(num(1), num(1), num(2)), CompileError::ConditionNotBool),
        (repeat_until(num(1), num(2)), CompileError::ConditionNotBool),
        (Expr::Block(vec![]), CompileError::EmptyBlock),
    ];
    for (e, err) in cases {
        assert_eq!(typecheck(&e, &ctx), Err(err));
        assert_eq!(compile(&e).err(), Some(err));
    }
}

#[test]
fn well_typed_expressions() {
    let ctx = empty_types();
    assert_eq!(typecheck(&un(Op1::Print, boolean(true)), &ctx), Ok(Type::Bool));
    assert_eq!(typecheck(&bin(Op2::Equal, num(1), num(2)), &ctx), Ok(Type::Bool));
    assert_eq!(typecheck(&let_in(vec![("x", boolean(false))], id("x")), &ctx), Ok(Type::Bool));
    assert_eq!(typecheck(&repeat_until(num(3), boolean(true)), &ctx), Ok(Type::Int));
}

#[test]
fn assignment_to_unbound_name_fails() {
    let e = assign("y", num(1));
    let mut labels = 0;
    let r = compile_to_instrs(&e, empty_ints(), &empty_types(), 8, &empty_ints(), &mut labels);
    assert_eq!(r.err(), Some(CompileError::UnboundIdentifier));
}

#[test]
fn label_counter_overflow_is_an_error() {
    let e = if_else(boolean(true), num(1), num(2));
    let mut labels = i32::MAX;
    let r = compile_to_instrs(&e, empty_ints(), &empty_types(), 8, &empty_ints(), &mut labels);
    assert_eq!(r.err(), Some(CompileError::TooManyLabels));
}

#[test]
fn frame_overflow_is_an_error() {
    let e = bin(Op2::Plus, num(1), num(2));
    let mut labels = 0;
    let r = compile_to_instrs(&e, empty_ints(), &empty_types(), i32::MAX - 7, &empty_ints(), &mut labels);
    assert_eq!(r.err(), Some(CompileError::FrameTooLarge));
}

#[test]
fn recompiling_with_reset_counter_is_identical() {
    let e = let_in(
        vec![("x", num(0))],
        repeat_until(assign("x", un(Op1::Add1, id("x"))), if_else(bin(Op2::Equal, id("x"), num(3)), boolean(true), boolean(false))),
    );
    let mut l1 = 0;
    let a = compile_to_instrs(&e, empty_ints(), &empty_types(), 8, &empty_ints(), &mut l1).unwrap();
    let mut l2 = 0;
    let b = compile_to_instrs(&e, empty_ints(), &empty_types(), 8, &empty_ints(), &mut l2).unwrap();
    assert_eq!(instrs_to_str(&a), instrs_to_str(&b));
    assert_eq!(l1, 3);
    assert_eq!(l1, l2);
    let mut l3 = 10;
    let c = compile_to_instrs(&e, empty_ints(), &empty_types(), 8, &empty_ints(), &mut l3).unwrap();
    assert_eq!(l3, 13);
    let shifted = instrs_to_str(&c)
        .replace("loopStart10", "loopStart0")
        .replace("unopAdd1Success11", "unopAdd1Success1")
        .replace("ifElse12", "ifElse2")
        .replace("ifEnd12", "ifEnd2");
    assert_eq!(shifted, instrs_to_str(&a));
}

#[test]
fn program_text_of_small_expression() {
    let code = compile(&un(Op1::Add1, num(4))).unwrap();
    let text = instrs_to_str(&code);
    assert_eq!(
        text,
        "push rbp\nmov rbp, rsp\nmov rax, 4\nadd rax, 1\njno unopAdd1Success0\nmov rdi, 1\ncall snek_error\nunopAdd1Success0:\nmov rdi, rax\nmov rsi, 0\nmov rbx, rax\ncall snek_print\nmov rax, rbx\npop rbp\n"
    );
}

#[test]
fn nested_and_sibling_constructs_get_distinct_labels() {
    let inner = if_else(bin(Op2::Less, id("x"), num(3)), un(Op1::Add1, id("x")), un(Op1::Sub1, id("x")));
    let e = let_in(
        vec![("x", num(0))],
        Expr::Block(vec![
            repeat_until(assign("x", inner), bin(Op2::GreaterEqual, id("x"), num(3))),
            if_else(bin(Op2::Equal, id("x"), num(3)), un(Op1::Add1, id("x")), num(0)),
            repeat_until(assign("x", un(Op1::Sub1, id("x"))), bin(Op2::LessEqual, id("x"), num(0))),
        ]),
    );
    let code = compile(&e).unwrap();
    let text = instrs_to_str(&code);
    let defs: Vec<&str> = text.lines().filter(|l| l.ends_with(':')).collect();
    let mut sorted = defs.clone();
    sorted.sort();
    sorted.dedup();
    assert_eq!(sorted.len(), defs.len());
    assert_eq!(defs.len(), 10);
    assert_eq!(value_of(&e), 0);
}

#[test]
fn program_prints_its_result_with_its_tag() {
    assert_eq!(run(&bin(Op2::Less, num(1), num(2))).unwrap().printed, vec![(1, 1)]);
    assert_eq!(run(&num(-3)).unwrap().printed, vec![(-3, 0)]);
}

#[test]
fn ill_typed_tree_emits_nothing() {
    let mut labels = 4;
    let r = compile_to_instrs(&bin(Op2::Plus, boolean(true), num(1)), empty_ints(), &empty_types(), 8, &empty_ints(), &mut labels);
    assert_eq!(r.err(), Some(CompileError::OperandMismatch));
    let r = compile_to_instrs(&if_else(num(1), num(2), num(3)), empty_ints(), &empty_types(), 8, &empty_ints(), &mut labels);
    assert_eq!(r.err(), Some(CompileError::ConditionNotBool));
    assert_eq!(labels, 4);
}

#[test]
fn set_is_an_ordinary_name() {
    let e = let_in(vec![("set", num(3))], bin(Op2::Plus, id("set"), num(1)));
    assert_eq!(value_of(&e), 4);
}
