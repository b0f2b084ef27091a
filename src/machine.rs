use vstd::prelude::*;

use crate::env::{innermost, Env};
use crate::eval::{cond_spec, eval, eval_cond, eval_path, eval_spec, steps_upto, Cond, Expr, PathElem};
use crate::scalar::{RuntimeError, Scalar};
use crate::storage::write_result;

verus! {

/// One instruction of a function body whose blocks, `if`s and `while`s have
/// been laid out as straight-line code with jumps.
pub enum Instr {
    /// Binds a new cell holding the values of the expressions, in order.
    Let { name: usize, init: Vec<Expr> },
    /// Writes a value through an lvalue path of a binding.
    Assign { name: usize, path: Vec<PathElem>, value: Expr },
    /// Sends a value to the output.
    Print { value: Expr },
    /// Goes on at `target` when the condition is false.
    JumpUnless { cond: Cond, target: usize },
    /// Goes on at `target`.
    Jump { target: usize },
    /// Opens a scope frame.
    Enter,
    /// Closes the innermost scope frame.
    Leave,
    /// Calls function `func` with the values of `args` as its parameters and
    /// binds what it returns to `dest`.
    Call { dest: usize, func: usize, args: Vec<Expr> },
    /// Returns a cell holding the values of the expressions.
    Return { value: Vec<Expr> },
}

/// The state of a running body: next instruction, bindings, frame starts
/// and what has been printed.
pub struct MachineState {
    pub pc: int,
    pub bs: Seq<(usize, Seq<Scalar>)>,
    pub marks: Seq<usize>,
    pub out: Seq<Scalar>,
}

/// A running body.
pub struct Machine {
    pub pc: usize,
    pub env: Env,
    pub out: Vec<Scalar>,
}

/// The values of the first `n` expressions, evaluated left to right.
pub open spec fn eval_all(bs: Seq<(usize, Seq<Scalar>)>, es: Seq<Expr>, n: nat) -> Result<Seq<Scalar>, RuntimeError>
    decreases n,
{
    if n == 0 {
        Ok(Seq::empty())
    } else {
        match eval_all(bs, es, (n - 1) as nat) {
            Err(e) => Err(e),
            Ok(vs) => match eval_spec(bs, es[n - 1]) {
                Ok(v) => Ok(vs.push(v)),
                Err(e) => Err(e),
            },
        }
    }
}

/// What an assignment leaves in the bindings: the value first, then the
/// binding, then the path.
pub open spec fn assign_spec(
    bs: Seq<(usize, Seq<Scalar>)>,
    name: usize,
    path: Seq<PathElem>,
    value: Expr,
) -> Result<Seq<(usize, Seq<Scalar>)>, RuntimeError> {
    match eval_spec(bs, value) {
        Err(e) => Err(e),
        Ok(v) => {
            let p = innermost(bs, name, bs.len() as int);
            if p == -1 {
                Err(RuntimeError::UndefinedVariable)
            } else {
                match steps_upto(bs, path, path.len()) {
                    Err(e) => Err(e),
                    Ok(st) => match write_result(bs[p].1, st, v) {
                        Ok(c) => Ok(bs.update(p, (name, c))),
                        Err(e) => Err(e),
                    },
                }
            }
        },
    }
}

/// Whether an instruction stays within its function.
pub open spec fn is_local(i: Instr) -> bool {
    !(i is Call || i is Return)
}

/// One step of the instruction at `s.pc`, which is local.
pub open spec fn step_spec(code: Seq<Instr>, s: MachineState) -> Result<MachineState, RuntimeError>
    recommends
        0 <= s.pc < code.len(),
{
    let next = s.pc + 1;
    match code[s.pc] {
        Instr::Let { name, init } => match eval_all(s.bs, init@, init@.len()) {
            Ok(cell) => Ok(MachineState { pc: next, bs: s.bs.push((name, cell)), ..s }),
            Err(e) => Err(e),
        },
        Instr::Assign { name, path, value } => match assign_spec(s.bs, name, path@, value) {
            Ok(bs) => Ok(MachineState { pc: next, bs, ..s }),
            Err(e) => Err(e),
        },
        Instr::Print { value } => match eval_spec(s.bs, value) {
            Ok(v) => Ok(MachineState { pc: next, out: s.out.push(v), ..s }),
            Err(e) => Err(e),
        },
        Instr::JumpUnless { cond, target } => match cond_spec(s.bs, cond) {
            Ok(true) => Ok(MachineState { pc: next, ..s }),
            Ok(false) => Ok(MachineState { pc: target as int, ..s }),
            Err(e) => Err(e),
        },
        Instr::Jump { target } => Ok(MachineState { pc: target as int, ..s }),
        Instr::Enter => Ok(
            MachineState { pc: next, marks: s.marks.push(s.bs.len() as usize), ..s },
        ),
        Instr::Leave => if s.marks.len() == 0 {
            Ok(MachineState { pc: next, ..s })
        } else {
            Ok(
                MachineState {
                    pc: next,
                    bs: s.bs.subrange(0, s.marks.last() as int),
                    marks: s.marks.drop_last(),
                    ..s
                },
            )
        },
        _ => Err(RuntimeError::TypeMismatch),
    }
}

/// Runs from `s` for at most `fuel` steps. Leaving the code ends the run;
/// running out of steps first is `StepLimit`.
pub open spec fn run_spec(code: Seq<Instr>, s: MachineState, fuel: nat) -> Result<MachineState, RuntimeError>
    decreases fuel,
{
    if !(0 <= s.pc < code.len()) {
        Ok(s)
    } else if fuel == 0 {
        Err(RuntimeError::StepLimit)
    } else {
        match step_spec(code, s) {
            Ok(t) => run_spec(code, t, (fuel - 1) as nat),
            Err(e) => Err(e),
        }
    }
}

/// The state that a body starts in: first instruction, one open frame.
pub open spec fn initial_state() -> MachineState {
    MachineState { pc: 0, bs: Seq::empty(), marks: seq![0usize], out: Seq::empty() }
}

/// What running a body from the start prints, or the error that stops it.
pub open spec fn output_spec(code: Seq<Instr>, fuel: nat) -> Result<Seq<Scalar>, RuntimeError> {
    match run_spec(code, initial_state(), fuel) {
        Ok(s) => Ok(s.out),
        Err(e) => Err(e),
    }
}

impl Machine {
    /// The machine's state.
    pub open spec fn view(&self) -> MachineState {
        MachineState {
            pc: self.pc as int,
            bs: self.env.view_bindings(),
            marks: self.env.marks@,
            out: self.out@,
        }
    }

    /// A machine at the start of a body.
    pub fn new() -> (r: Machine)
        ensures
            r@ == initial_state(),
            r.env.wf(),
    {
        Machine { pc: 0, env: Env::new(), out: Vec::new() }
    }

    /// Evaluates expressions left to right into a new cell.
    pub fn eval_all(&self, es: &Vec<Expr>) -> (r: Result<Vec<Scalar>, RuntimeError>)
        ensures
            match eval_all(self.env.view_bindings(), es@, es@.len()) {
                Ok(vs) => r is Ok && r->Ok_0@ == vs,
                Err(e) => r == Err::<Vec<Scalar>, RuntimeError>(e),
            },
    {
        let ghost bs = self.env.view_bindings();
        let mut out: Vec<Scalar> = Vec::new();
        let mut i: usize = 0;
        while i < es.len()
            invariant
                i <= es@.len(),
                bs == self.env.view_bindings(),
                eval_all(bs, es@, i as nat) == Ok::<Seq<Scalar>, RuntimeError>(out@),
            decreases es@.len() - i,
        {
            match eval(&self.env, &es[i]) {
                Ok(v) => out.push(v),
                Err(e) => {
                    proof {
                        lemma_eval_all_error_persists(bs, es@, (i + 1) as nat, es@.len());
                    }
                    return Err(e);
                },
            }
            i = i + 1;
        }
        Ok(out)
    }

    /// Carries out the instruction at `pc`.
    pub fn step(&mut self, code: &Vec<Instr>) -> (r: Result<(), RuntimeError>)
        requires
            old(self).env.wf(),
            old(self).pc < code@.len(),
        ensures
            final(self).env.wf(),
            match step_spec(code@, old(self)@) {
                Ok(t) => r is Ok && final(self)@ == t,
                Err(e) => r == Err::<(), RuntimeError>(e),
            },
    {
        let len = code.len();
        let next = self.pc + 1;
        match &code[self.pc] {
            Instr::Let { name, init } => {
                let cell = self.eval_all(init)?;
                self.env.bind(*name, cell);
            },
            Instr::Assign { name, path, value } => {
                let v = eval(&self.env, value)?;
                if self.env.find(*name).is_none() {
                    return Err(RuntimeError::UndefinedVariable);
                }
                let steps = eval_path(&self.env, path)?;
                self.env.assign_path(*name, &steps, v)?;
            },
            Instr::Print { value } => {
                let v = eval(&self.env, value)?;
                self.out.push(v);
            },
            Instr::JumpUnless { cond, target } => {
                if !eval_cond(&self.env, cond)? {
                    self.pc = *target;
                    return Ok(());
                }
            },
            Instr::Jump { target } => {
                self.pc = *target;
                return Ok(());
            },
            Instr::Enter => self.env.push_frame(),
            Instr::Leave => {
                if self.env.marks.len() > 0 {
                    self.env.pop_frame();
                }
            },
            _ => return Err(RuntimeError::TypeMismatch),
        }
        self.pc = next;
        Ok(())
    }

    /// Runs for at most `fuel` steps, until the code is left.
    pub fn run(&mut self, code: &Vec<Instr>, fuel: u64) -> (r: Result<(), RuntimeError>)
        requires
            old(self).env.wf(),
        ensures
            final(self).env.wf(),
            match run_spec(code@, old(self)@, fuel as nat) {
                Ok(t) => r is Ok && final(self)@ == t,
                Err(e) => r == Err::<(), RuntimeError>(e),
            },
    {
        let mut left: u64 = fuel;
        while self.pc < code.len()
            invariant
                self.env.wf(),
                run_spec(code@, old(self)@, fuel as nat) == run_spec(code@, self@, left as nat),
            decreases left,
        {
            if left == 0 {
                return Err(RuntimeError::StepLimit);
            }
            self.step(code)?;
            left = left - 1;
        }
        Ok(())
    }
}

/// An error on a prefix of a list of expressions is the error of every longer prefix.
proof fn lemma_eval_all_error_persists(bs: Seq<(usize, Seq<Scalar>)>, es: Seq<Expr>, n: nat, m: nat)
    requires
        n <= m,
        eval_all(bs, es, n) is Err,
    ensures
        eval_all(bs, es, m) == eval_all(bs, es, n),
    decreases m - n,
{
    if n < m {
        lemma_eval_all_error_persists(bs, es, n, (m - 1) as nat);
    }
}

/// Runs a body from the start for at most `fuel` steps and returns what it
/// printed, in order.
pub fn interpret(code: &Vec<Instr>, fuel: u64) -> (r: Result<Vec<Scalar>, RuntimeError>)
    ensures
        match output_spec(code@, fuel as nat) {
            Ok(out) => r is Ok && r->Ok_0@ == out,
            Err(e) => r == Err::<Vec<Scalar>, RuntimeError>(e),
        },
{
    let mut m = Machine::new();
    m.run(code, fuel)?;
    Ok(m.out)
}

} // verus!
