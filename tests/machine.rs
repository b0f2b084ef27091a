use minirust::env::Env;
use minirust::eval::{eval, eval_cond, eval_path, Cond, Expr, IndexSrc, PathElem};
use minirust::machine::{interpret, Instr, Machine};
use minirust::scalar::{ArithOp, CmpOp, RuntimeError, Scalar, Width};
use minirust::storage::Step;
use minirust::text::{int_to_text, render, render_lines};

fn int64(v: i64) -> Scalar {
    Scalar::Int { width: Width::W64, v }
}

fn lit(v: i64) -> Expr {
    Expr::Lit { s: int64(v) }
}

fn var(name: usize) -> Expr {
    Expr::Read { name, path: vec![] }
}

fn at(name: usize, len: usize, i: i64) -> Expr {
    Expr::Read { name, path: vec![PathElem::Index { elem_size: 1, len, at: IndexSrc::Lit { at: i } }] }
}

fn arith(op: ArithOp, lhs: Expr, rhs: Expr) -> Expr {
    Expr::Arith { op, lhs: Box::new(lhs), rhs: Box::new(rhs) }
}

fn text(s: &str) -> Vec<char> {
    s.chars().collect()
}

#[test]
fn array_program_prints() {
    // let mut nums = [1, 2, 3, 4, 5]; println!(nums[0]); nums[1] = 100;
    // println!(nums[1]); println!(nums[2]); let i = 2; println!(nums[i]);
    let nums = 0;
    let i = 1;
    let code = vec![
        Instr::Let { name: nums, init: vec![lit(1), lit(2), lit(3), lit(4), lit(5)] },
        Instr::Print { value: at(nums, 5, 0) },
        Instr::Assign {
            name: nums,
            path: vec![PathElem::Index { elem_size: 1, len: 5, at: IndexSrc::Lit { at: 1 } }],
            value: lit(100),
        },
        Instr::Print { value: at(nums, 5, 1) },
        Instr::Print { value: at(nums, 5, 2) },
        Instr::Let { name: i, init: vec![lit(2)] },
        Instr::Print {
            value: Expr::Read {
                name: nums,
                path: vec![PathElem::Index { elem_size: 1, len: 5, at: IndexSrc::Var { name: i } }],
            },
        },
    ];
    assert_eq!(interpret(&code, 100), Ok(vec![int64(1), int64(100), int64(3), int64(3)]));
}

#[test]
fn index_out_of_bounds_aborts() {
    let code = vec![
        Instr::Let { name: 0, init: vec![lit(1), lit(2)] },
        Instr::Print { value: at(0, 2, 1) },
        Instr::Print { value: at(0, 2, 2) },
        Instr::Print { value: lit(7) },
    ];
    assert_eq!(interpret(&code, 100), Err(RuntimeError::OutOfBounds));
    let neg = vec![Instr::Let { name: 0, init: vec![lit(1)] }, Instr::Print { value: at(0, 1, -1) }];
    assert_eq!(interpret(&neg, 100), Err(RuntimeError::OutOfBounds));
}

#[test]
fn while_loop_factorials() {
    // let mut x = 1; let mut acc = 1;
    // while x < 6 { acc = acc * x; println!(acc); x = x + 1; }
    let x = 0;
    let acc = 1;
    let code = vec![
        Instr::Let { name: x, init: vec![lit(1)] },
        Instr::Let { name: acc, init: vec![lit(1)] },
        Instr::JumpUnless { cond: Cond { op: CmpOp::Lt, lhs: var(x), rhs: lit(6) }, target: 9 },
        Instr::Enter,
        Instr::Assign { name: acc, path: vec![], value: arith(ArithOp::Mul, var(acc), var(x)) },
        Instr::Print { value: var(acc) },
        Instr::Assign { name: x, path: vec![], value: arith(ArithOp::Add, var(x), lit(1)) },
        Instr::Leave,
        Instr::Jump { target: 2 },
    ];
    assert_eq!(
        interpret(&code, 1000),
        Ok(vec![int64(1), int64(2), int64(6), int64(24), int64(120)])
    );
}

#[test]
fn if_else_min_max() {
    // let a = 30; let b = 12; let mut min = a; let mut max = a;
    // if b < a { min = b } else { max = b } println!(min); println!(max);
    let (a, b, min, max) = (0, 1, 2, 3);
    let code = vec![
        Instr::Let { name: a, init: vec![lit(30)] },
        Instr::Let { name: b, init: vec![lit(12)] },
        Instr::Let { name: min, init: vec![var(a)] },
        Instr::Let { name: max, init: vec![var(a)] },
        Instr::JumpUnless { cond: Cond { op: CmpOp::Lt, lhs: var(b), rhs: var(a) }, target: 7 },
        Instr::Assign { name: min, path: vec![], value: var(b) },
        Instr::Jump { target: 8 },
        Instr::Assign { name: max, path: vec![], value: var(b) },
        Instr::Print { value: var(min) },
        Instr::Print { value: var(max) },
    ];
    assert_eq!(interpret(&code, 100), Ok(vec![int64(12), int64(30)]));
}

#[test]
fn scope_frames_drop_bindings() {
    let code = vec![
        Instr::Let { name: 0, init: vec![lit(1)] },
        Instr::Enter,
        Instr::Let { name: 0, init: vec![lit(2)] },
        Instr::Print { value: var(0) },
        Instr::Leave,
        Instr::Print { value: var(0) },
        Instr::Enter,
        Instr::Let { name: 5, init: vec![lit(3)] },
        Instr::Leave,
        Instr::Print { value: var(5) },
    ];
    assert_eq!(interpret(&code, 100), Err(RuntimeError::UndefinedVariable));
    let mut m = Machine::new();
    assert_eq!(m.run(&code, 6), Err(RuntimeError::StepLimit));
    assert_eq!(m.out, vec![int64(2), int64(1)]);
}

#[test]
fn endless_loop_hits_step_limit() {
    let code = vec![Instr::Jump { target: 0 }];
    assert_eq!(interpret(&code, 50), Err(RuntimeError::StepLimit));
    assert_eq!(interpret(&vec![], 0), Ok(vec![]));
}

#[test]
fn nested_struct_program() {
    // let l = Line { from: Point { 0, 0 }, to: Point { 10, 10 } };
    // println!(l.from.x); println!(l.to.y);
    let code = vec![
        Instr::Let { name: 0, init: vec![lit(0), lit(0), lit(10), lit(10)] },
        Instr::Print {
            value: Expr::Read {
                name: 0,
                path: vec![PathElem::Field { offset: 0 }, PathElem::Field { offset: 0 }],
            },
        },
        Instr::Print {
            value: Expr::Read {
                name: 0,
                path: vec![PathElem::Field { offset: 2 }, PathElem::Field { offset: 1 }],
            },
        },
    ];
    assert_eq!(interpret(&code, 100), Ok(vec![int64(0), int64(10)]));
}

#[test]
fn eval_errors_and_order() {
    let mut env = Env::new();
    env.bind(0, vec![Scalar::Str { id: 0 }]);
    env.bind(1, vec![int64(4), int64(5)]);
    let bad_index = vec![PathElem::Index { elem_size: 1, len: 2, at: IndexSrc::Var { name: 0 } }];
    assert_eq!(eval_path(&env, &bad_index), Err(RuntimeError::TypeMismatch));
    let missing = vec![PathElem::Index { elem_size: 1, len: 2, at: IndexSrc::Var { name: 9 } }];
    assert_eq!(eval_path(&env, &missing), Err(RuntimeError::UndefinedVariable));
    assert_eq!(
        eval_path(&env, &vec![PathElem::Field { offset: 1 }]),
        Ok(vec![Step::Field { offset: 1 }])
    );
    // The left operand's error comes first.
    let e = arith(ArithOp::Div, var(9), arith(ArithOp::Div, lit(1), lit(0)));
    assert_eq!(eval(&env, &e), Err(RuntimeError::UndefinedVariable));
    let e = arith(ArithOp::Add, var(0), lit(1));
    assert_eq!(eval(&env, &e), Err(RuntimeError::TypeMismatch));
    let e = arith(ArithOp::Sub, at(1, 2, 1), at(1, 2, 0));
    assert_eq!(eval(&env, &e), Ok(int64(1)));
    let c = Cond { op: CmpOp::Gt, lhs: at(1, 2, 1), rhs: lit(4) };
    assert_eq!(eval_cond(&env, &c), Ok(true));
}

#[test]
fn integer_text() {
    assert_eq!(int_to_text(0), text("0"));
    assert_eq!(int_to_text(55), text("55"));
    assert_eq!(int_to_text(-120), text("-120"));
    assert_eq!(int_to_text(i64::MAX), text("9223372036854775807"));
    assert_eq!(int_to_text(i64::MIN), text("-9223372036854775808"));
}

#[test]
fn render_values() {
    let strings = vec![text("hola desde struct"), text("texto actualizado")];
    assert_eq!(render(int64(100), &strings), Ok(text("100")));
    assert_eq!(render(Scalar::Str { id: 1 }, &strings), Ok(text("texto actualizado")));
    assert_eq!(render(Scalar::Str { id: 2 }, &strings), Err(RuntimeError::Unprintable));
    assert_eq!(render(Scalar::Unit, &strings), Err(RuntimeError::Unprintable));
}

#[test]
fn render_output_lines() {
    let strings = vec![text("---- Programa 3 ----"), text("hola desde struct")];
    let out = vec![Scalar::Str { id: 0 }, Scalar::Str { id: 1 }, int64(3)];
    assert_eq!(
        render_lines(&out, &strings),
        Ok(vec![text("---- Programa 3 ----"), text("hola desde struct"), text("3")])
    );
    let bad = vec![int64(1), Scalar::Unit, Scalar::Str { id: 9 }];
    assert_eq!(render_lines(&bad, &strings), Err(RuntimeError::Unprintable));
    assert_eq!(render_lines(&vec![], &strings), Ok(vec![]));
}
