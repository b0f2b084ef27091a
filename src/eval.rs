use vstd::prelude::*;

use crate::env::{innermost, Env};
use crate::scalar::{
    apply_arith, apply_cmp, arith_result, cmp_result, ArithOp, CmpOp, RuntimeError, Scalar,
};
use crate::storage::{read_result, Step};

verus! {

/// Where an index of an lvalue path comes from: a literal, or the scalar
/// bound to a variable.
#[derive(Clone, Copy, Debug, PartialEq, Eq, Structural)]
pub enum IndexSrc {
    Lit { at: i64 },
    Var { name: usize },
}

/// One element of an lvalue path before its index is evaluated.
#[derive(Clone, Copy, Debug, PartialEq, Eq, Structural)]
pub enum PathElem {
    Field { offset: usize },
    Index { elem_size: usize, len: usize, at: IndexSrc },
}

/// A scalar-valued expression.
pub enum Expr {
    Lit { s: Scalar },
    Read { name: usize, path: Vec<PathElem> },
    Arith { op: ArithOp, lhs: Box<Expr>, rhs: Box<Expr> },
}

/// The condition of an `if` or a `while`: one comparison.
pub struct Cond {
    pub op: CmpOp,
    pub lhs: Expr,
    pub rhs: Expr,
}

/// The scalar that the innermost binding of `name` holds in its first slot.
pub open spec fn var_scalar(bs: Seq<(usize, Seq<Scalar>)>, name: usize) -> Result<Scalar, RuntimeError> {
    let p = innermost(bs, name, bs.len() as int);
    if p == -1 {
        Err(RuntimeError::UndefinedVariable)
    } else {
        read_result(bs[p].1, Seq::empty())
    }
}

/// The step that a path element becomes, once its index is evaluated.
pub open spec fn step_of(bs: Seq<(usize, Seq<Scalar>)>, el: PathElem) -> Result<Step, RuntimeError> {
    match el {
        PathElem::Field { offset } => Ok(Step::Field { offset }),
        PathElem::Index { elem_size, len, at } => match at {
            IndexSrc::Lit { at } => Ok(Step::Index { elem_size, len, at }),
            IndexSrc::Var { name } => match var_scalar(bs, name) {
                Ok(Scalar::Int { width, v }) => Ok(Step::Index { elem_size, len, at: v }),
                Ok(_) => Err(RuntimeError::TypeMismatch),
                Err(e) => Err(e),
            },
        },
    }
}

/// The steps of the first `n` elements of a path, evaluated left to right.
pub open spec fn steps_upto(bs: Seq<(usize, Seq<Scalar>)>, path: Seq<PathElem>, n: nat) -> Result<Seq<Step>, RuntimeError>
    decreases n,
{
    if n == 0 {
        Ok(Seq::empty())
    } else {
        match steps_upto(bs, path, (n - 1) as nat) {
            Err(e) => Err(e),
            Ok(st) => match step_of(bs, path[n - 1]) {
                Ok(s) => Ok(st.push(s)),
                Err(e) => Err(e),
            },
        }
    }
}

/// What an expression evaluates to under the bindings `bs`, operands left
/// to right, the first error winning.
pub open spec fn eval_spec(bs: Seq<(usize, Seq<Scalar>)>, e: Expr) -> Result<Scalar, RuntimeError>
    decreases e,
{
    match e {
        Expr::Lit { s } => Ok(s),
        Expr::Read { name, path } => {
            let p = innermost(bs, name, bs.len() as int);
            if p == -1 {
                Err(RuntimeError::UndefinedVariable)
            } else {
                match steps_upto(bs, path@, path@.len()) {
                    Ok(st) => read_result(bs[p].1, st),
                    Err(e) => Err(e),
                }
            }
        },
        Expr::Arith { op, lhs, rhs } => match eval_spec(bs, *lhs) {
            Err(e) => Err(e),
            Ok(a) => match eval_spec(bs, *rhs) {
                Err(e) => Err(e),
                Ok(b) => arith_result(op, a, b),
            },
        },
    }
}

/// What a condition evaluates to.
pub open spec fn cond_spec(bs: Seq<(usize, Seq<Scalar>)>, c: Cond) -> Result<bool, RuntimeError> {
    match eval_spec(bs, c.lhs) {
        Err(e) => Err(e),
        Ok(a) => match eval_spec(bs, c.rhs) {
            Err(e) => Err(e),
            Ok(b) => cmp_result(c.op, a, b),
        },
    }
}

/// Reads the scalar in the first slot of the innermost binding of a name.
fn read_var(env: &Env, name: usize) -> (r: Result<Scalar, RuntimeError>)
    ensures
        r == var_scalar(env.view_bindings(), name),
{
    let empty: Vec<Step> = Vec::new();
    env.read_path(name, &empty)
}

/// Evaluates the indices of an lvalue path into steps.
pub fn eval_path(env: &Env, path: &Vec<PathElem>) -> (r: Result<Vec<Step>, RuntimeError>)
    ensures
        match steps_upto(env.view_bindings(), path@, path@.len()) {
            Ok(st) => r is Ok && r->Ok_0@ == st,
            Err(e) => r == Err::<Vec<Step>, RuntimeError>(e),
        },
{
    let ghost bs = env.view_bindings();
    let mut out: Vec<Step> = Vec::new();
    let mut i: usize = 0;
    while i < path.len()
        invariant
            i <= path@.len(),
            bs == env.view_bindings(),
            steps_upto(bs, path@, i as nat) == Ok::<Seq<Step>, RuntimeError>(out@),
        decreases path@.len() - i,
    {
        let step = match path[i] {
            PathElem::Field { offset } => Step::Field { offset },
            PathElem::Index { elem_size, len, at } => match at {
                IndexSrc::Lit { at } => Step::Index { elem_size, len, at },
                IndexSrc::Var { name } => match read_var(env, name) {
                    Ok(Scalar::Int { width, v }) => Step::Index { elem_size, len, at: v },
                    Ok(_) => {
                        proof {
                            lemma_steps_error_persists(bs, path@, (i + 1) as nat, path@.len());
                        }
                        return Err(RuntimeError::TypeMismatch);
                    },
                    Err(e) => {
                        proof {
                            lemma_steps_error_persists(bs, path@, (i + 1) as nat, path@.len());
                        }
                        return Err(e);
                    },
                },
            },
        };
        out.push(step);
        i = i + 1;
    }
    Ok(out)
}

/// An error on a prefix of a path is the error of every longer prefix.
proof fn lemma_steps_error_persists(
    bs: Seq<(usize, Seq<Scalar>)>,
    path: Seq<PathElem>,
    n: nat,
    m: nat,
)
    requires
        n <= m,
        steps_upto(bs, path, n) is Err,
    ensures
        steps_upto(bs, path, m) == steps_upto(bs, path, n),
    decreases m - n,
{
    if n < m {
        lemma_steps_error_persists(bs, path, n, (m - 1) as nat);
    }
}

/// Evaluates an expression under an environment.
pub fn eval(env: &Env, e: &Expr) -> (r: Result<Scalar, RuntimeError>)
    ensures
        r == eval_spec(env.view_bindings(), *e),
    decreases e,
{
    match e {
        Expr::Lit { s } => Ok(*s),
        Expr::Read { name, path } => {
            if env.find(*name).is_none() {
                return Err(RuntimeError::UndefinedVariable);
            }
            match eval_path(env, path) {
                Ok(steps) => env.read_path(*name, &steps),
                Err(err) => Err(err),
            }
        },
        Expr::Arith { op, lhs, rhs } => {
            let a = match eval(env, lhs) {
                Ok(a) => a,
                Err(err) => return Err(err),
            };
            let b = match eval(env, rhs) {
                Ok(b) => b,
                Err(err) => return Err(err),
            };
            apply_arith(*op, a, b)
        },
    }
}

/// Evaluates the condition of an `if` or a `while`.
pub fn eval_cond(env: &Env, c: &Cond) -> (r: Result<bool, RuntimeError>)
    ensures
        r == cond_spec(env.view_bindings(), *c),
{
    let a = match eval(env, &c.lhs) {
        Ok(a) => a,
        Err(err) => return Err(err),
    };
    let b = match eval(env, &c.rhs) {
        Ok(b) => b,
        Err(err) => return Err(err),
    };
    apply_cmp(c.op, a, b)
}

} // verus!
