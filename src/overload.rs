use vstd::prelude::*;

use crate::scalar::ArithOp;

verus! {

/// The static type of an operand, as far as dispatch needs it.
#[derive(Clone, Copy, Debug, PartialEq, Eq, Structural)]
pub enum OperandType {
    Int,
    Str,
    Array,
    Unit,
    Struct { id: usize },
}

/// How a binary arithmetic expression is evaluated.
#[derive(Clone, Copy, Debug, PartialEq, Eq, Structural)]
pub enum Dispatch {
    /// Call the function with this index, `self` and `other` bound to the operands.
    Overload { func: usize },
    /// Apply the built-in integer operator.
    Builtin,
}

/// One operator implementation: struct type, operator, implementing function.
#[derive(Clone, Copy, Debug, PartialEq, Eq, Structural)]
pub struct OverloadEntry {
    pub ty: usize,
    pub op: ArithOp,
    pub func: usize,
}

/// The operator implementations of a program, keyed by (struct type, operator).
pub struct OverloadTable {
    pub entries: Vec<OverloadEntry>,
}

/// The function registered for `(ty, op)` among `es`, if any.
pub open spec fn entry_for(es: Seq<OverloadEntry>, ty: usize, op: ArithOp) -> Option<usize>
    decreases es.len(),
{
    if es.len() == 0 {
        None
    } else if es.last().ty == ty && es.last().op == op {
        Some(es.last().func)
    } else {
        entry_for(es.drop_last(), ty, op)
    }
}

/// The dispatch that a binary expression with these operand types gets.
pub open spec fn dispatch_spec(
    es: Seq<OverloadEntry>,
    lhs: OperandType,
    rhs: OperandType,
    op: ArithOp,
) -> Dispatch {
    match (lhs, rhs) {
        (OperandType::Struct { id: a }, OperandType::Struct { id: b }) => {
            if a == b && entry_for(es, a, op) is Some {
                Dispatch::Overload { func: entry_for(es, a, op)->Some_0 }
            } else {
                Dispatch::Builtin
            }
        },
        _ => Dispatch::Builtin,
    }
}

impl OverloadTable {
    /// The registered entries.
    pub open spec fn view(&self) -> Seq<OverloadEntry> {
        self.entries@
    }

    /// An empty table.
    pub fn new() -> (r: OverloadTable)
        ensures
            r@ == Seq::<OverloadEntry>::empty(),
    {
        OverloadTable { entries: Vec::new() }
    }

    /// The function registered for `(ty, op)`.
    pub fn lookup(&self, ty: usize, op: ArithOp) -> (r: Option<usize>)
        ensures
            r == entry_for(self@, ty, op),
    {
        let mut n: usize = self.entries.len();
        assert(self@.subrange(0, n as int) =~= self@);
        while n > 0
            invariant
                n <= self@.len(),
                entry_for(self@, ty, op) == entry_for(self@.subrange(0, n as int), ty, op),
            decreases n,
        {
            let e = self.entries[n - 1];
            assert(self@.subrange(0, n as int).drop_last() =~= self@.subrange(0, n - 1));
            if e.ty == ty && e.op == op {
                return Some(e.func);
            }
            n = n - 1;
        }
        None
    }

    /// Registers an implementation of `op` for struct type `ty`. A second
    /// implementation of the same pair is refused and leaves the table as it was.
    pub fn register(&mut self, ty: usize, op: ArithOp, func: usize) -> (r: bool)
        ensures
            r == (entry_for(old(self)@, ty, op) is None),
            r ==> final(self)@ == old(self)@.push(OverloadEntry { ty, op, func }),
            !r ==> final(self)@ == old(self)@,
    {
        assert(self@.subrange(0, self@.len() as int) =~= self@);
        if self.lookup(ty, op).is_some() {
            return false;
        }
        self.entries.push(OverloadEntry { ty, op, func });
        true
    }

    /// Decides how a binary arithmetic expression is evaluated: an operator
    /// implementation registered for both operands' struct type comes first.
    pub fn dispatch(&self, lhs: OperandType, rhs: OperandType, op: ArithOp) -> (r: Dispatch)
        ensures
            r == dispatch_spec(self@, lhs, rhs, op),
    {
        match (lhs, rhs) {
            (OperandType::Struct { id: a }, OperandType::Struct { id: b }) => {
                if a == b {
                    match self.lookup(a, op) {
                        Some(f) => Dispatch::Overload { func: f },
                        None => Dispatch::Builtin,
                    }
                } else {
                    Dispatch::Builtin
                }
            },
            _ => Dispatch::Builtin,
        }
    }
}

/// Once an implementation of `op` is registered for a struct type, a binary
/// expression on two values of that type is dispatched to it, never to the
/// built-in integer operator.
pub proof fn lemma_overload_first(es: Seq<OverloadEntry>, ty: usize, op: ArithOp, func: usize)
    requires
        entry_for(es, ty, op) is None,
    ensures
        dispatch_spec(
            es.push(OverloadEntry { ty, op, func }),
            OperandType::Struct { id: ty },
            OperandType::Struct { id: ty },
            op,
        ) == (Dispatch::Overload { func }),
{
    assert(es.push(OverloadEntry { ty, op, func }).last() == OverloadEntry { ty, op, func });
}

} // verus!
