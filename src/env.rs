use vstd::prelude::*;

use crate::scalar::{RuntimeError, Scalar};
use crate::storage::{lemma_write_then_read, read_result, read_slot, write_result, write_slot, Step};

verus! {

/// A variable binding: the name's index in the program's identifier table,
/// and the storage cell that the binding owns.
pub struct Binding {
    pub name: usize,
    pub cell: Vec<Scalar>,
}

/// The environment of one function activation: its bindings in the order in
/// which they were made, and where each open scope frame begins.
pub struct Env {
    pub bindings: Vec<Binding>,
    pub marks: Vec<usize>,
}

/// Position of the innermost binding of `name` among the first `n` bindings,
/// or -1 where there is none.
pub open spec fn innermost(bs: Seq<(usize, Seq<Scalar>)>, name: usize, n: int) -> int
    decreases n,
{
    if n <= 0 {
        -1
    } else if bs[n - 1].0 == name {
        n - 1
    } else {
        innermost(bs, name, n - 1)
    }
}

/// The innermost binding found carries the name looked for.
pub proof fn lemma_innermost(bs: Seq<(usize, Seq<Scalar>)>, name: usize, n: int)
    requires
        n <= bs.len(),
    ensures
        innermost(bs, name, n) == -1 || (0 <= innermost(bs, name, n) < n && bs[innermost(
            bs,
            name,
            n,
        )].0 == name),
    decreases n,
{
    if n > 0 {
        lemma_innermost(bs, name, n - 1);
    }
}

impl Env {
    /// The bindings as (name, cell contents), oldest first.
    pub open spec fn view_bindings(&self) -> Seq<(usize, Seq<Scalar>)> {
        self.bindings@.map_values(|b: Binding| (b.name, b.cell@))
    }

    /// Frame starts never decrease and never pass the end of the bindings.
    pub open spec fn wf(&self) -> bool {
        &&& forall|i: int, j: int|
            0 <= i <= j < self.marks@.len() ==> self.marks@[i] <= self.marks@[j]
        &&& forall|i: int| 0 <= i < self.marks@.len() ==> self.marks@[i] <= self.bindings@.len()
    }

    /// Where the innermost binding of `name` stands, or -1.
    pub open spec fn position(&self, name: usize) -> int {
        innermost(self.view_bindings(), name, self.bindings@.len() as int)
    }

    /// An environment with one open frame and no bindings.
    pub fn new() -> (r: Env)
        ensures
            r.wf(),
            r.view_bindings() == Seq::<(usize, Seq<Scalar>)>::empty(),
            r.marks@ == seq![0usize],
    {
        let mut marks: Vec<usize> = Vec::new();
        marks.push(0);
        Env { bindings: Vec::new(), marks }
    }

    /// Finds the innermost binding of a name.
    pub fn find(&self, name: usize) -> (r: Option<usize>)
        ensures
            match r {
                Some(i) => i as int == self.position(name) && i < self.bindings@.len(),
                None => self.position(name) == -1,
            },
    {
        let mut n: usize = self.bindings.len();
        while n > 0
            invariant
                n <= self.bindings@.len(),
                innermost(self.view_bindings(), name, self.bindings@.len() as int) == innermost(
                    self.view_bindings(),
                    name,
                    n as int,
                ),
            decreases n,
        {
            if self.bindings[n - 1].name == name {
                return Some(n - 1);
            }
            n = n - 1;
        }
        None
    }

    /// Binds a name to a new cell in the innermost frame, shadowing any
    /// earlier binding of it.
    pub fn bind(&mut self, name: usize, cell: Vec<Scalar>)
        requires
            old(self).wf(),
        ensures
            final(self).wf(),
            final(self).view_bindings() == old(self).view_bindings().push((name, cell@)),
            final(self).marks@ == old(self).marks@,
    {
        let ghost cv = cell@;
        self.bindings.push(Binding { name, cell });
        assert(self.view_bindings() =~= old(self).view_bindings().push((name, cv)));
    }

    /// Opens a scope frame.
    pub fn push_frame(&mut self)
        requires
            old(self).wf(),
        ensures
            final(self).wf(),
            final(self).view_bindings() == old(self).view_bindings(),
            final(self).marks@ == old(self).marks@.push(old(self).bindings@.len() as usize),
    {
        let start = self.bindings.len();
        self.marks.push(start);
    }

    /// Closes the innermost scope frame, dropping the bindings made in it.
    pub fn pop_frame(&mut self)
        requires
            old(self).wf(),
            old(self).marks@.len() > 0,
        ensures
            final(self).wf(),
            final(self).marks@ == old(self).marks@.drop_last(),
            final(self).view_bindings() == old(self).view_bindings().subrange(
                0,
                old(self).marks@.last() as int,
            ),
    {
        let start = self.marks.pop().unwrap();
        self.bindings.truncate(start);
        assert(self.view_bindings() =~= old(self).view_bindings().subrange(0, start as int));
    }

    /// Reads the scalar that a path reaches in the innermost binding of a name.
    pub fn read_path(&self, name: usize, steps: &Vec<Step>) -> (r: Result<Scalar, RuntimeError>)
        ensures
            self.position(name) == -1 ==> r == Err::<Scalar, RuntimeError>(
                RuntimeError::UndefinedVariable,
            ),
            self.position(name) != -1 ==> r == read_result(
                self.view_bindings()[self.position(name)].1,
                steps@,
            ),
    {
        match self.find(name) {
            None => Err(RuntimeError::UndefinedVariable),
            Some(i) => read_slot(&self.bindings[i].cell, steps),
        }
    }

    /// A copy of the whole cell of the innermost binding of a name.
    pub fn copy_cell(&self, name: usize) -> (r: Result<Vec<Scalar>, RuntimeError>)
        ensures
            self.position(name) == -1 ==> r is Err && r->Err_0 == RuntimeError::UndefinedVariable,
            self.position(name) != -1 ==> r is Ok && r->Ok_0@ == self.view_bindings()[self.position(
                name,
            )].1,
    {
        match self.find(name) {
            None => Err(RuntimeError::UndefinedVariable),
            Some(i) => Ok(self.bindings[i].cell.clone()),
        }
    }

    /// Writes a scalar through a path into the innermost binding of a name,
    /// in place; no other binding changes. On an error nothing changes.
    pub fn assign_path(&mut self, name: usize, steps: &Vec<Step>, s: Scalar) -> (r: Result<
        (),
        RuntimeError,
    >)
        requires
            old(self).wf(),
        ensures
            final(self).wf(),
            final(self).marks@ == old(self).marks@,
            old(self).position(name) == -1 ==> r == Err::<(), RuntimeError>(
                RuntimeError::UndefinedVariable,
            ) && final(self).view_bindings() == old(self).view_bindings(),
            old(self).position(name) != -1 ==> match write_result(
                old(self).view_bindings()[old(self).position(name)].1,
                steps@,
                s,
            ) {
                Ok(c) => r is Ok && final(self).view_bindings() == old(self).view_bindings().update(
                    old(self).position(name),
                    (name, c),
                ),
                Err(e) => r == Err::<(), RuntimeError>(e) && final(self).view_bindings()
                    == old(self).view_bindings(),
            },
    {
        match self.find(name) {
            None => Err(RuntimeError::UndefinedVariable),
            Some(i) => {
                let mut cell = self.bindings[i].cell.clone();
                let res = write_slot(&mut cell, steps, s);
                if res.is_ok() {
                    let ghost c = cell@;
                    let ghost nm = self.bindings@[i as int].name;
                    proof {
                        lemma_innermost(self.view_bindings(), name, self.bindings@.len() as int);
                    }
                    self.bindings.set(i, Binding { name, cell });
                    assert(self.view_bindings() =~= old(self).view_bindings().update(
                        i as int,
                        (name, c),
                    ));
                }
                res
            },
        }
    }
}

/// After a successful assignment through the binding at `p`, a read through
/// the same path of that binding gives the value written, and every other
/// binding, such as one copied from it earlier, is as it was.
pub proof fn lemma_assign_isolated(
    before: Seq<(usize, Seq<Scalar>)>,
    p: int,
    q: int,
    steps: Seq<Step>,
    s: Scalar,
)
    requires
        0 <= p < before.len(),
        0 <= q < before.len(),
        p != q,
        write_result(before[p].1, steps, s) is Ok,
    ensures
        ({
            let after = before.update(p, (before[p].0, write_result(before[p].1, steps, s)->Ok_0));
            &&& read_result(after[p].1, steps) == Ok::<Scalar, RuntimeError>(s)
            &&& after[q] == before[q]
        }),
{
    lemma_write_then_read(before[p].1, steps, s, 0);
}

} // verus!
