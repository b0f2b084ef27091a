use vstd::prelude::*;

use crate::scalar::{RuntimeError, Scalar};

verus! {

/// One step of an lvalue path into a binding's flat storage cell. Struct
/// layouts are flattened, so a field is a fixed offset; an array step carries
/// the element size, the array's length and the index that was evaluated.
#[derive(Clone, Copy, Debug, PartialEq, Eq, Structural)]
pub enum Step {
    Field { offset: usize },
    Index { elem_size: usize, len: usize, at: i64 },
}

/// Offset of the slot that the first `n` steps of a path reach, in a cell of
/// `cell_len` slots. An index outside its array, or a position outside the
/// cell, is `OutOfBounds`.
pub open spec fn offset_upto(cell_len: nat, steps: Seq<Step>, n: nat) -> Result<int, RuntimeError>
    decreases n,
{
    if n == 0 {
        Ok(0)
    } else {
        match offset_upto(cell_len, steps, (n - 1) as nat) {
            Err(e) => Err(e),
            Ok(o) => {
                let next = match steps[n - 1] {
                    Step::Field { offset } => Ok(o + offset),
                    Step::Index { elem_size, len, at } => {
                        if 0 <= at < len {
                            Ok(o + at * elem_size)
                        } else {
                            Err(RuntimeError::OutOfBounds)
                        }
                    },
                };
                match next {
                    Ok(p) => if p < cell_len {
                        Ok(p)
                    } else {
                        Err(RuntimeError::OutOfBounds)
                    },
                    Err(e) => Err(e),
                }
            },
        }
    }
}

/// An error on a prefix of a path is the error of every longer prefix.
proof fn lemma_error_persists(cell_len: nat, steps: Seq<Step>, n: nat, m: nat)
    requires
        n <= m,
        offset_upto(cell_len, steps, n) is Err,
    ensures
        offset_upto(cell_len, steps, m) == offset_upto(cell_len, steps, n),
    decreases m - n,
{
    if n < m {
        lemma_error_persists(cell_len, steps, n, (m - 1) as nat);
    }
}

/// A prefix of a path that succeeds stays within the cell.
proof fn lemma_offset_in_cell(cell_len: nat, steps: Seq<Step>, n: nat)
    requires
        offset_upto(cell_len, steps, n) is Ok,
    ensures
        0 <= offset_upto(cell_len, steps, n)->Ok_0,
        n > 0 ==> offset_upto(cell_len, steps, n)->Ok_0 < cell_len,
    decreases n,
{
    if n > 0 {
        lemma_offset_in_cell(cell_len, steps, (n - 1) as nat);
    }
}

/// Offset of the slot that a whole path reaches.
pub open spec fn path_offset(cell_len: nat, steps: Seq<Step>) -> Result<int, RuntimeError> {
    if steps.len() == 0 {
        if cell_len > 0 {
            Ok(0)
        } else {
            Err(RuntimeError::OutOfBounds)
        }
    } else {
        offset_upto(cell_len, steps, steps.len())
    }
}

/// What reading through a path gives.
pub open spec fn read_result(cell: Seq<Scalar>, steps: Seq<Step>) -> Result<Scalar, RuntimeError> {
    match path_offset(cell.len(), steps) {
        Ok(o) => Ok(cell[o]),
        Err(e) => Err(e),
    }
}

/// What writing through a path leaves in the cell, or the error.
pub open spec fn write_result(cell: Seq<Scalar>, steps: Seq<Step>, s: Scalar) -> Result<Seq<Scalar>, RuntimeError> {
    match path_offset(cell.len(), steps) {
        Ok(o) => Ok(cell.update(o, s)),
        Err(e) => Err(e),
    }
}

/// Finds the slot that a path reaches in a cell of `cell_len` slots.
pub fn locate(cell_len: usize, steps: &Vec<Step>) -> (r: Result<usize, RuntimeError>)
    ensures
        match path_offset(cell_len as nat, steps@) {
            Ok(o) => r == Ok::<usize, RuntimeError>(o as usize) && 0 <= o < cell_len,
            Err(e) => r == Err::<usize, RuntimeError>(e),
        },
{
    if steps.len() == 0 {
        return if cell_len > 0 { Ok(0) } else { Err(RuntimeError::OutOfBounds) };
    }
    let mut o: usize = 0;
    let mut i: usize = 0;
    while i < steps.len()
        invariant
            0 < steps@.len(),
            i <= steps@.len(),
            offset_upto(cell_len as nat, steps@, i as nat) == Ok::<int, RuntimeError>(o as int),
            i > 0 ==> o < cell_len,
            i == 0 ==> o == 0,
        decreases steps@.len() - i,
    {
        let next: u128 = match steps[i] {
            Step::Field { offset } => o as u128 + offset as u128,
            Step::Index { elem_size, len, at } => {
                if at < 0 || at as u128 >= len as u128 {
                    proof {
                        lemma_error_persists(cell_len as nat, steps@, (i + 1) as nat, steps@.len());
                    }
                    return Err(RuntimeError::OutOfBounds);
                }
                proof {
                    assert((at as int) * (elem_size as int) <= 0xffff_ffff_ffff_ffff
                        * 0xffff_ffff_ffff_ffff) by (nonlinear_arith)
                        requires
                            0 <= at <= 0xffff_ffff_ffff_ffff,
                            0 <= elem_size <= 0xffff_ffff_ffff_ffff,
                    ;
                }
                o as u128 + (at as u128) * (elem_size as u128)
            },
        };
        if next >= cell_len as u128 {
            proof {
                lemma_error_persists(cell_len as nat, steps@, (i + 1) as nat, steps@.len());
            }
            return Err(RuntimeError::OutOfBounds);
        }
        o = next as usize;
        i = i + 1;
    }
    Ok(o)
}

/// Reads the scalar that a path reaches.
pub fn read_slot(cell: &Vec<Scalar>, steps: &Vec<Step>) -> (r: Result<Scalar, RuntimeError>)
    ensures
        r == read_result(cell@, steps@),
{
    match locate(cell.len(), steps) {
        Ok(o) => Ok(cell[o]),
        Err(e) => Err(e),
    }
}

/// Writes a scalar into the slot that a path reaches, in place. On an error
/// the cell is left as it was.
pub fn write_slot(cell: &mut Vec<Scalar>, steps: &Vec<Step>, s: Scalar) -> (r: Result<(), RuntimeError>)
    ensures
        match write_result(old(cell)@, steps@, s) {
            Ok(c) => r is Ok && final(cell)@ == c,
            Err(e) => r == Err::<(), RuntimeError>(e) && final(cell)@ == old(cell)@,
        },
{
    match locate(cell.len(), steps) {
        Ok(o) => {
            cell.set(o, s);
            Ok(())
        },
        Err(e) => Err(e),
    }
}

/// Indexing an array of `n` scalars succeeds exactly for the indices
/// `0..n` and reads the element there; `n` and `-1` are out of bounds.
pub proof fn lemma_array_indexing(cell: Seq<Scalar>, i: i64)
    requires
        cell.len() <= usize::MAX,
    ensures
        0 <= i < cell.len() ==> read_result(
            cell,
            seq![Step::Index { elem_size: 1, len: cell.len() as usize, at: i }],
        ) == Ok::<Scalar, RuntimeError>(cell[i as int]),
        (i == cell.len() || i == -1) ==> read_result(
            cell,
            seq![Step::Index { elem_size: 1, len: cell.len() as usize, at: i }],
        ) == Err::<Scalar, RuntimeError>(RuntimeError::OutOfBounds),
{
    let steps = seq![Step::Index { elem_size: 1, len: cell.len() as usize, at: i }];
    assert(offset_upto(cell.len(), steps, 0) == Ok::<int, RuntimeError>(0));
    if 0 <= i < cell.len() {
        assert(i * 1 == i);
        assert(offset_upto(cell.len(), steps, 1) == Ok::<int, RuntimeError>(i as int));
    }
}

/// A write through a path is seen by the next read through the same path
/// and leaves every other slot as it was.
pub proof fn lemma_write_then_read(cell: Seq<Scalar>, steps: Seq<Step>, s: Scalar, other: int)
    requires
        write_result(cell, steps, s) is Ok,
    ensures
        ({
            let after = write_result(cell, steps, s)->Ok_0;
            &&& read_result(after, steps) == Ok::<Scalar, RuntimeError>(s)
            &&& after.len() == cell.len()
            &&& (0 <= other < cell.len() && Ok::<int, RuntimeError>(other) != path_offset(
                cell.len(),
                steps,
            )) ==> after[other] == cell[other]
        }),
{
    let after = write_result(cell, steps, s)->Ok_0;
    let o = path_offset(cell.len(), steps)->Ok_0;
    if steps.len() > 0 {
        lemma_offset_in_cell(cell.len(), steps, steps.len());
    }
    assert(after.len() == cell.len());
    assert(path_offset(after.len(), steps) == path_offset(cell.len(), steps));
    assert(after[o] == s);
}

} // verus!
