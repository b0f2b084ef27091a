use minirust::eval::{Cond, Expr};
use minirust::machine::Instr;
use minirust::overload::{Dispatch, OperandType, OverloadTable};
use minirust::program::{run_program, Func, Program};
use minirust::scalar::{ArithOp, CmpOp, RuntimeError, Scalar, Width};

fn num(width: Width, v: i64) -> Scalar {
    Scalar::Int { width, v }
}

fn lit(width: Width, v: i64) -> Expr {
    Expr::Lit { s: num(width, v) }
}

fn var(name: usize) -> Expr {
    Expr::Read { name, path: vec![] }
}

fn field(name: usize, offset: usize) -> Expr {
    Expr::Read { name, path: vec![minirust::eval::PathElem::Field { offset }] }
}

fn arith(op: ArithOp, lhs: Expr, rhs: Expr) -> Expr {
    Expr::Arith { op, lhs: Box::new(lhs), rhs: Box::new(rhs) }
}

/// fn f(n) { if n < 2 { return n; } return f(n - 1) OP f(n - 2 or n); }
fn recursive(width: Width, op: ArithOp, fib: bool) -> Func {
    let n = 0;
    let second = if fib {
        Instr::Call { dest: 2, func: 1, args: vec![arith(ArithOp::Sub, var(n), lit(width, 2))] }
    } else {
        Instr::Let { name: 2, init: vec![var(n)] }
    };
    Func {
        params: 1,
        code: vec![
            Instr::JumpUnless { cond: Cond { op: CmpOp::Lt, lhs: var(n), rhs: lit(width, 2) }, target: 2 },
            Instr::Return { value: vec![var(n)] },
            Instr::Call { dest: 1, func: 1, args: vec![arith(ArithOp::Sub, var(n), lit(width, 1))] },
            second,
            Instr::Return { value: vec![arith(op, var(1), var(2))] },
        ],
    }
}

/// fn main() { let mut x = 1; while x < limit { println!(f(x)); x = x + 1; } return 0; }
fn loop_main(width: Width, limit: i64) -> Func {
    Func {
        params: 0,
        code: vec![
            Instr::Let { name: 0, init: vec![lit(width, 1)] },
            Instr::JumpUnless { cond: Cond { op: CmpOp::Lt, lhs: var(0), rhs: lit(width, limit) }, target: 6 },
            Instr::Call { dest: 1, func: 1, args: vec![var(0)] },
            Instr::Print { value: var(1) },
            Instr::Assign { name: 0, path: vec![], value: arith(ArithOp::Add, var(0), lit(width, 1)) },
            Instr::Jump { target: 1 },
            Instr::Return { value: vec![lit(width, 0)] },
        ],
    }
}

#[test]
fn fib_ten_interpreted() {
    let main = Func {
        params: 0,
        code: vec![
            Instr::Call { dest: 0, func: 1, args: vec![lit(Width::W64, 10)] },
            Instr::Print { value: var(0) },
            Instr::Return { value: vec![lit(Width::W64, 0)] },
        ],
    };
    let prog = Program { funcs: vec![main, recursive(Width::W64, ArithOp::Add, true)] };
    assert_eq!(run_program(&prog, 64, 100_000), Ok(vec![num(Width::W64, 55)]));
}

#[test]
fn fac_one_to_nineteen_interpreted() {
    let prog = Program {
        funcs: vec![loop_main(Width::W64, 20), recursive(Width::W64, ArithOp::Mul, false)],
    };
    let mut want = Vec::new();
    let mut f: i64 = 1;
    for x in 1..20i64 {
        f *= x;
        want.push(num(Width::W64, f));
    }
    assert_eq!(run_program(&prog, 64, 1_000_000), Ok(want));
}

#[test]
fn fac_overflows_in_32_bits() {
    let prog = Program {
        funcs: vec![loop_main(Width::W32, 20), recursive(Width::W32, ArithOp::Mul, false)],
    };
    assert_eq!(run_program(&prog, 64, 1_000_000), Err(RuntimeError::Overflow));
}

#[test]
fn deep_recursion_reports_stack_overflow() {
    let prog = Program {
        funcs: vec![loop_main(Width::W64, 20), recursive(Width::W64, ArithOp::Mul, false)],
    };
    assert_eq!(run_program(&prog, 10, 1_000_000), Err(RuntimeError::StackOverflow));
    assert_eq!(run_program(&prog, 0, 1_000_000), Err(RuntimeError::StackOverflow));
}

#[test]
fn step_budget_and_missing_main() {
    let prog = Program {
        funcs: vec![loop_main(Width::W64, 20), recursive(Width::W64, ArithOp::Mul, false)],
    };
    assert_eq!(run_program(&prog, 64, 10), Err(RuntimeError::StepLimit));
    assert_eq!(run_program(&Program { funcs: vec![] }, 64, 10), Err(RuntimeError::UndefinedVariable));
}

#[test]
fn call_errors() {
    let bad_func = Program {
        funcs: vec![Func { params: 0, code: vec![Instr::Call { dest: 0, func: 7, args: vec![] }] }],
    };
    assert_eq!(run_program(&bad_func, 8, 10), Err(RuntimeError::UndefinedVariable));
    let bad_arity = Program {
        funcs: vec![
            Func { params: 0, code: vec![Instr::Call { dest: 0, func: 1, args: vec![] }] },
            Func { params: 1, code: vec![] },
        ],
    };
    assert_eq!(run_program(&bad_arity, 8, 10), Err(RuntimeError::TypeMismatch));
}

#[test]
fn falling_off_returns_unit() {
    let prog = Program {
        funcs: vec![
            Func {
                params: 0,
                code: vec![
                    Instr::Call { dest: 0, func: 1, args: vec![] },
                    Instr::Print { value: var(0) },
                ],
            },
            Func { params: 0, code: vec![] },
        ],
    };
    assert_eq!(run_program(&prog, 8, 10), Ok(vec![Scalar::Unit]));
}

#[test]
fn determinism_same_output_twice() {
    let build = || Program {
        funcs: vec![loop_main(Width::W64, 15), recursive(Width::W64, ArithOp::Add, true)],
    };
    let first = run_program(&build(), 64, 1_000_000);
    let second = run_program(&build(), 64, 1_000_000);
    assert!(first.is_ok());
    assert_eq!(first, second);
}

#[test]
fn overload_add_dispatches_to_impl() {
    // impl Add for Punto { fn add(self, other) { return Punto { x: self.x + other.x, y: self.y + other.y }; } }
    // main: let p1 = Punto { 1, 2 }; let p2 = Punto { 3, 4 }; let p3 = p1 + p2; println!(p3.x); println!(p3.y);
    let w = Width::W32;
    let punto = 0;
    let mut table = OverloadTable::new();
    assert!(table.register(punto, ArithOp::Add, 1));
    let ty = OperandType::Struct { id: punto };
    let func = match table.dispatch(ty, ty, ArithOp::Add) {
        Dispatch::Overload { func } => func,
        Dispatch::Builtin => panic!("the Add implementation must be chosen"),
    };
    // Parameters 0 and 1 are self.x and self.y, 2 and 3 are other.x and other.y.
    let add = Func {
        params: 4,
        code: vec![Instr::Return {
            value: vec![
                arith(ArithOp::Add, var(0), var(2)),
                arith(ArithOp::Add, var(1), var(3)),
            ],
        }],
    };
    let main = Func {
        params: 0,
        code: vec![
            Instr::Let { name: 0, init: vec![lit(w, 1), lit(w, 2)] },
            Instr::Let { name: 1, init: vec![lit(w, 3), lit(w, 4)] },
            Instr::Call {
                dest: 2,
                func,
                args: vec![field(0, 0), field(0, 1), field(1, 0), field(1, 1)],
            },
            Instr::Print { value: field(2, 0) },
            Instr::Print { value: field(2, 1) },
        ],
    };
    let prog = Program { funcs: vec![main, add] };
    assert_eq!(run_program(&prog, 8, 100), Ok(vec![num(w, 4), num(w, 6)]));
}
