use vstd::prelude::*;

use crate::env::Env;
use crate::machine::{eval_all, is_local, step_spec, Instr, Machine, MachineState};
use crate::scalar::{RuntimeError, Scalar};

verus! {

/// A function: its parameters are bound, in order, to the names `0..params`.
pub struct Func {
    pub params: usize,
    pub code: Vec<Instr>,
}

/// A program: its functions; the one at index 0 is `main`.
pub struct Program {
    pub funcs: Vec<Func>,
}

/// A caller waiting for a call to return: its state, at the instruction
/// after the call; the name that the result is bound to; its function.
pub struct Waiting {
    pub state: MachineState,
    pub dest: usize,
    pub func: usize,
}

/// The state of a whole run: the callers, innermost last; the running
/// activation and its function; and, once `main` has returned, its result.
pub struct RunState {
    pub callers: Seq<Waiting>,
    pub top: MachineState,
    pub func: usize,
    pub result: Option<Seq<Scalar>>,
}

/// The bindings of a fresh activation: parameter `i` holds `vs[i]`.
pub open spec fn param_bindings(vs: Seq<Scalar>) -> Seq<(usize, Seq<Scalar>)> {
    Seq::new(vs.len(), |i: int| (i as usize, seq![vs[i]]))
}

/// Returning `cell` from the running activation.
pub open spec fn return_spec(s: RunState, cell: Seq<Scalar>) -> RunState {
    if s.callers.len() == 0 {
        RunState { result: Some(cell), ..s }
    } else {
        let c = s.callers.last();
        RunState {
            callers: s.callers.drop_last(),
            top: MachineState {
                bs: c.state.bs.push((c.dest, cell)),
                out: s.top.out,
                ..c.state
            },
            func: c.func,
            result: None,
        }
    }
}

/// One step of a run; `depth` bounds the number of live activations.
pub open spec fn call_step(funcs: Seq<Func>, depth: nat, s: RunState) -> Result<RunState, RuntimeError>
    recommends
        s.func < funcs.len(),
{
    let code = funcs[s.func as int].code@;
    if !(0 <= s.top.pc < code.len()) {
        Ok(return_spec(s, seq![Scalar::Unit]))
    } else {
        match code[s.top.pc] {
            Instr::Call { dest, func, args } => {
                if func >= funcs.len() {
                    Err(RuntimeError::UndefinedVariable)
                } else {
                    match eval_all(s.top.bs, args@, args@.len()) {
                        Err(e) => Err(e),
                        Ok(vs) => if vs.len() != funcs[func as int].params {
                            Err(RuntimeError::TypeMismatch)
                        } else if s.callers.len() + 1 >= depth {
                            Err(RuntimeError::StackOverflow)
                        } else {
                            Ok(
                                RunState {
                                    callers: s.callers.push(
                                        Waiting {
                                            state: MachineState { pc: s.top.pc + 1, out: Seq::empty(), ..s.top },
                                            dest,
                                            func: s.func,
                                        },
                                    ),
                                    top: MachineState {
                                        pc: 0,
                                        bs: param_bindings(vs),
                                        marks: seq![0usize],
                                        out: s.top.out,
                                    },
                                    func,
                                    result: None,
                                },
                            )
                        },
                    }
                }
            },
            Instr::Return { value } => match eval_all(s.top.bs, value@, value@.len()) {
                Err(e) => Err(e),
                Ok(cell) => Ok(return_spec(s, cell)),
            },
            _ => match step_spec(code, s.top) {
                Err(e) => Err(e),
                Ok(t) => Ok(RunState { top: t, ..s }),
            },
        }
    }
}

/// Runs for at most `fuel` steps, until `main` returns.
pub open spec fn run_program_spec(funcs: Seq<Func>, depth: nat, s: RunState, fuel: nat) -> Result<RunState, RuntimeError>
    decreases fuel,
{
    if s.result is Some {
        Ok(s)
    } else if fuel == 0 {
        Err(RuntimeError::StepLimit)
    } else {
        match call_step(funcs, depth, s) {
            Ok(t) => run_program_spec(funcs, depth, t, (fuel - 1) as nat),
            Err(e) => Err(e),
        }
    }
}

/// The state a run starts in: `main` at its first instruction.
pub open spec fn start_state() -> RunState {
    RunState {
        callers: Seq::empty(),
        top: MachineState { pc: 0, bs: Seq::empty(), marks: seq![0usize], out: Seq::empty() },
        func: 0,
        result: None,
    }
}

/// What a run of a program prints, or the error that stops it.
pub open spec fn program_output(funcs: Seq<Func>, depth: nat, fuel: nat) -> Result<Seq<Scalar>, RuntimeError> {
    if funcs.len() == 0 {
        Err(RuntimeError::UndefinedVariable)
    } else {
        match run_program_spec(funcs, depth, start_state(), fuel) {
            Ok(s) => Ok(s.top.out),
            Err(e) => Err(e),
        }
    }
}

/// A waiting caller.
pub struct Activation {
    pub m: Machine,
    pub dest: usize,
    pub func: usize,
}

/// A running program.
pub struct Runner {
    pub callers: Vec<Activation>,
    pub top: Machine,
    pub func: usize,
    pub result: Option<Vec<Scalar>>,
}

impl Runner {
    /// The run's state.
    pub open spec fn view(&self) -> RunState {
        RunState {
            callers: self.callers@.map_values(
                |a: Activation| Waiting { state: a.m@, dest: a.dest, func: a.func },
            ),
            top: self.top@,
            func: self.func,
            result: match self.result {
                Some(v) => Some(v@),
                None => None,
            },
        }
    }

    /// Every activation's environment is well formed.
    pub open spec fn wf(&self) -> bool {
        &&& self.top.env.wf()
        &&& forall|i: int| 0 <= i < self.callers@.len() ==> (#[trigger] self.callers@[i]).m.env.wf()
    }

    /// Every activation runs one of `n` functions.
    pub open spec fn funcs_in(&self, n: nat) -> bool {
        &&& self.func < n
        &&& forall|i: int| 0 <= i < self.callers@.len() ==> (#[trigger] self.callers@[i]).func < n
    }

    /// Returns `cell` from the running activation.
    fn do_return(&mut self, cell: Vec<Scalar>)
        requires
            old(self).wf(),
        ensures
            final(self).wf(),
            final(self)@ == return_spec(old(self)@, cell@),
            forall|n: nat| old(self).funcs_in(n) ==> final(self).funcs_in(n),
    {
        let ghost cv = cell@;
        match self.callers.pop() {
            None => {
                self.result = Some(cell);
            },
            Some(a) => {
                let mut m = a.m;
                let mut out: Vec<Scalar> = Vec::new();
                std::mem::swap(&mut out, &mut self.top.out);
                proof {
                    assert(old(self)@.callers.last() == Waiting { state: m@, dest: a.dest, func: a.func });
                }
                m.env.bind(a.dest, cell);
                m.out = out;
                self.top = m;
                self.func = a.func;
                self.result = None;
                assert(self@.callers =~= old(self)@.callers.drop_last());
            },
        }
    }
}

impl Runner {
    /// A run at the start of `main`.
    pub fn new() -> (r: Runner)
        ensures
            r@ == start_state(),
            r.wf(),
            r.funcs_in(1),
    {
        let r = Runner { callers: Vec::new(), top: Machine::new(), func: 0, result: None };
        assert(r@.callers =~= Seq::<Waiting>::empty());
        r
    }

    /// A fresh environment with the parameters bound.
    fn bind_params(vs: &Vec<Scalar>) -> (r: Env)
        ensures
            r.wf(),
            r.view_bindings() == param_bindings(vs@),
            r.marks@ == seq![0usize],
    {
        let mut env = Env::new();
        let mut i: usize = 0;
        while i < vs.len()
            invariant
                i <= vs@.len(),
                env.wf(),
                env.marks@ == seq![0usize],
                env.view_bindings() =~= param_bindings(vs@.subrange(0, i as int)),
            decreases vs@.len() - i,
        {
            let mut cell: Vec<Scalar> = Vec::new();
            cell.push(vs[i]);
            env.bind(i, cell);
            i = i + 1;
            assert(env.view_bindings() =~= param_bindings(vs@.subrange(0, i as int)));
        }
        assert(vs@.subrange(0, i as int) =~= vs@);
        env
    }

    /// Carries out one step of the run.
    pub fn step(&mut self, prog: &Program, depth: usize) -> (r: Result<(), RuntimeError>)
        requires
            old(self).wf(),
            old(self).funcs_in(prog.funcs@.len()),
            old(self).result is None,
        ensures
            final(self).wf(),
            final(self).funcs_in(prog.funcs@.len()),
            match call_step(prog.funcs@, depth as nat, old(self)@) {
                Ok(t) => r is Ok && final(self)@ == t,
                Err(e) => r == Err::<(), RuntimeError>(e),
            },
    {
        let code = &prog.funcs[self.func].code;
        if self.top.pc >= code.len() {
            let mut unit: Vec<Scalar> = Vec::new();
            unit.push(Scalar::Unit);
            self.do_return(unit);
            return Ok(());
        }
        match &code[self.top.pc] {
            Instr::Call { dest, func, args } => {
                if *func >= prog.funcs.len() {
                    return Err(RuntimeError::UndefinedVariable);
                }
                let vs = self.top.eval_all(args)?;
                if vs.len() != prog.funcs[*func].params {
                    return Err(RuntimeError::TypeMismatch);
                }
                if depth == 0 || self.callers.len() >= depth - 1 {
                    return Err(RuntimeError::StackOverflow);
                }
                let env = Runner::bind_params(&vs);
                let mut out: Vec<Scalar> = Vec::new();
                std::mem::swap(&mut out, &mut self.top.out);
                let mut caller = Machine { pc: 0, env, out };
                std::mem::swap(&mut caller, &mut self.top);
                caller.pc = caller.pc + 1;
                self.callers.push(Activation { m: caller, dest: *dest, func: self.func });
                self.func = *func;
                assert(self@.callers =~= old(self)@.callers.push(
                    Waiting {
                        state: MachineState {
                            pc: old(self)@.top.pc + 1,
                            out: Seq::empty(),
                            ..old(self)@.top
                        },
                        dest: *dest,
                        func: old(self).func,
                    },
                ));
            },
            Instr::Return { value } => {
                let cell = self.top.eval_all(value)?;
                self.do_return(cell);
            },
            _ => {
                self.top.step(code)?;
            },
        }
        Ok(())
    }
}

/// Runs a program's `main` for at most `fuel` steps, with at most `depth`
/// live activations, and returns what it printed, in order.
pub fn run_program(prog: &Program, depth: usize, fuel: u64) -> (r: Result<Vec<Scalar>, RuntimeError>)
    ensures
        match program_output(prog.funcs@, depth as nat, fuel as nat) {
            Ok(out) => r is Ok && r->Ok_0@ == out,
            Err(e) => r == Err::<Vec<Scalar>, RuntimeError>(e),
        },
{
    if prog.funcs.len() == 0 {
        return Err(RuntimeError::UndefinedVariable);
    }
    let mut run = Runner::new();
    let mut left: u64 = fuel;
    while run.result.is_none()
        invariant
            run.wf(),
            run.funcs_in(prog.funcs@.len()),
            run_program_spec(prog.funcs@, depth as nat, start_state(), fuel as nat)
                == run_program_spec(prog.funcs@, depth as nat, run@, left as nat),
        decreases left,
    {
        if left == 0 {
            return Err(RuntimeError::StepLimit);
        }
        run.step(prog, depth)?;
        left = left - 1;
    }
    Ok(run.top.out)
}

/// Interpretation is deterministic: the same program, depth bound and step
/// budget always give the same output, or the same error.
pub proof fn lemma_program_deterministic(p1: Seq<Func>, p2: Seq<Func>, depth: nat, fuel: nat)
    requires
        p1 == p2,
    ensures
        program_output(p1, depth, fuel) == program_output(p2, depth, fuel),
{
}

} // verus!
